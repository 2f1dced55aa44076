use alertaemcena::calendar::CivilDate;
use alertaemcena::discord::backup::{backup_file_path, backup_file_to_write, extract_vote, extract_votes};
use alertaemcena::discord::model::{ChannelMessage, EmbedField, EmbedInfo};

const BOT: u64 = 900;
const USER: u64 = 42;

fn ack(author_id: u64, description: Option<&str>, fields: Vec<EmbedField>) -> ChannelMessage {
    ChannelMessage {
        id: 1,
        author_id,
        regular: true,
        is_reply: false,
        pinned: false,
        content: String::new(),
        embeds: vec![EmbedInfo {
            title: Some("Nora Helmer".to_string()),
            url: Some("https://example/nora-helmer".to_string()),
            description: description.map(|d| d.to_string()),
            fields,
        }],
    }
}

fn field(name: &str, value: &str) -> EmbedField {
    EmbedField { name: name.to_string(), value: value.to_string() }
}

#[test]
fn votes_are_read_from_embed_fields() {
    let m = ack(BOT, Some("Texto"), vec![field("Voto", "<:five:5>"), field("Comentários", "Bom")]);
    let record = extract_vote(BOT, USER, &m).unwrap();
    assert_eq!(record.user_id, USER);
    assert_eq!(record.title, "Nora Helmer");
    assert_eq!(record.url, "https://example/nora-helmer");
    assert_eq!(record.description, "Texto");
    assert_eq!(record.user_vote.vote, "<:five:5>");
    assert_eq!(record.user_vote.comments, Some("Bom".to_string()));
}

#[test]
fn votes_are_read_from_labelled_lines_of_older_messages() {
    let m = ack(BOT, Some("Texto\n**Voto:** <:three:3> \n**Comentários:**  Gostei\r\n"), vec![]);
    let record = extract_vote(BOT, USER, &m).unwrap();
    assert_eq!(record.user_vote.vote, "<:three:3>");
    assert_eq!(record.user_vote.comments, Some("Gostei".to_string()));
    let no_comment = ack(BOT, Some("Texto\n**Voto:** <:one:1>"), vec![]);
    assert_eq!(extract_vote(BOT, USER, &no_comment).unwrap().user_vote.comments, None);
}

#[test]
fn only_the_bot_acknowledgements_hold_votes() {
    let from_user = ack(USER, Some("**Voto:** x"), vec![]);
    assert!(extract_vote(BOT, USER, &from_user).is_none());
    let no_description = ack(BOT, None, vec![field("Voto", "x")]);
    assert!(extract_vote(BOT, USER, &no_description).is_none());
    let no_vote = ack(BOT, Some("Só texto"), vec![]);
    assert!(extract_vote(BOT, USER, &no_vote).is_none());
    let mut not_regular = ack(BOT, Some("**Voto:** x"), vec![]);
    not_regular.regular = false;
    assert!(extract_vote(BOT, USER, &not_regular).is_none());
    let mut untitled = ack(BOT, Some("**Voto:** x"), vec![]);
    untitled.embeds[0].title = None;
    untitled.embeds[0].url = None;
    let record = extract_vote(BOT, USER, &untitled).unwrap();
    assert_eq!(record.title, "No Title");
    assert_eq!(record.url, "No URL");
}

#[test]
fn all_votes_of_a_history_are_recovered() {
    let history = vec![
        ack(BOT, Some("**Voto:** a"), vec![]),
        ack(USER, Some("**Voto:** b"), vec![]),
        ack(BOT, Some("**Voto:** c"), vec![]),
    ];
    let votes: Vec<String> = extract_votes(BOT, USER, &history).into_iter().map(|r| r.user_vote.vote).collect();
    assert_eq!(votes, vec!["a", "c"]);
}

#[test]
fn backup_file_is_named_by_day() {
    let day = CivilDate::from_ymd_opt(2025, 3, 5).unwrap();
    assert_eq!(backup_file_path(&day), "vote_backups/2025_03_05.json");
}

#[test]
fn backup_is_written_once_per_day() {
    let day = CivilDate::from_ymd_opt(2025, 3, 15).unwrap();
    let next_day = CivilDate::from_ymd_opt(2025, 3, 16).unwrap();
    let mut files: Vec<String> = vec!["vote_backups/2025_03_14.json".to_string()];
    let first = backup_file_to_write(&files, &day).unwrap();
    files.push(first.clone());
    assert_eq!(backup_file_to_write(&files, &day), None);
    let other = backup_file_to_write(&files, &next_day).unwrap();
    assert_ne!(first, other);
    files.push(other);
    assert_eq!(files.len(), 3);
}

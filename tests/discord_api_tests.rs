use alertaemcena::agenda_cultural::model::{Event, EventDetails, Schedule};
use alertaemcena::calendar::CivilDate;
use alertaemcena::config::model::EmojiConfig;
use alertaemcena::discord::api::{
    create_user_review_description, date_thread_name, dm_scan_step, event_description,
    has_no_user_emoji_reaction, has_no_user_reactions, has_no_user_votes, interested_line,
    interested_users, is_vote_comment, month_to_portuguese_display, needs_save_for_later_fetch,
    plan_save_for_later, plan_vote_deliveries, resolve_date_thread, shortened_description,
    threads_of_channel, DateThread, DmScanStep, PinChange, VoteDelivery,
};
use alertaemcena::discord::model::{
    ChannelMessage, EmbedInfo, ReactingUser, ReactionKind, ReactionSummary, ThreadInfo,
};

const BOT: u64 = 900;

fn reaction(count: u64, me: bool) -> ReactionSummary {
    ReactionSummary { kind: ReactionKind::Unicode("1".to_string()), count, me }
}

fn date(year: i32, month: u32, day: u32) -> CivilDate {
    CivilDate::from_ymd_opt(year, month, day).unwrap()
}

fn thread(id: u64, name: &str) -> ThreadInfo {
    ThreadInfo { id, name: name.to_string(), parent_id: Some(1) }
}

fn dm(id: u64, author_id: u64, url: Option<&str>) -> ChannelMessage {
    ChannelMessage {
        id,
        author_id,
        regular: true,
        is_reply: false,
        pinned: false,
        content: String::new(),
        embeds: match url {
            Some(u) => vec![EmbedInfo {
                title: None,
                url: Some(u.to_string()),
                description: None,
                fields: vec![],
            }],
            None => vec![],
        },
    }
}

#[test]
fn when_no_user_has_voted_other_than_bot_should_return_true() {
    assert!(has_no_user_reactions(&reaction(1, true)));
}

#[test]
fn when_at_least_one_user_has_voted_other_than_bot_should_return_false() {
    assert!(!has_no_user_reactions(&reaction(2, true)));
}

#[test]
fn when_one_user_has_voted_and_the_bot_has_not_should_return_false() {
    assert!(!has_no_user_reactions(&reaction(1, false)));
}

#[test]
fn month_names_are_portuguese() {
    assert_eq!(month_to_portuguese_display(&date(2025, 1, 3)), "Janeiro");
    assert_eq!(month_to_portuguese_display(&date(2025, 3, 3)), "Março");
    assert_eq!(month_to_portuguese_display(&date(2025, 12, 31)), "Dezembro");
}

#[test]
fn should_create_date_thread() {
    let threads = vec![thread(10, "Fevereiro 2021")];
    match resolve_date_thread(&threads, &date(2021, 3, 12)) {
        DateThread::Create(name) => assert_eq!(name, "Março 2021"),
        DateThread::Existing(_) => panic!("no thread of March 2021 exists"),
    }
}

#[test]
fn should_not_create_duplicate_date_thread() {
    let mut threads = vec![thread(10, "Fevereiro 1999")];
    let day = date(1999, 3, 12);
    let name = match resolve_date_thread(&threads, &day) {
        DateThread::Create(name) => name,
        DateThread::Existing(_) => panic!("no thread of March 1999 exists"),
    };
    assert_eq!(name, "Março 1999");
    threads.push(thread(11, &name));
    let first = match resolve_date_thread(&threads, &day) {
        DateThread::Existing(t) => t,
        DateThread::Create(_) => panic!("the thread was created already"),
    };
    let second = match resolve_date_thread(&threads, &date(1999, 3, 30)) {
        DateThread::Existing(t) => t,
        DateThread::Create(_) => panic!("the thread was created already"),
    };
    assert_eq!(first.thread_id, 11);
    assert_eq!(first.thread_id, second.thread_id);
    assert_eq!(threads.iter().filter(|t| t.name == "Março 1999").count(), 1);
}

#[test]
fn thread_names_carry_the_year() {
    assert_eq!(date_thread_name(&date(2025, 3, 15)), "Março 2025");
    assert_eq!(date_thread_name(&date(-44, 10, 1)), "Outubro -44");
}

#[test]
fn should_get_threads_of_only_the_specified_channel() {
    let threads = vec![
        ThreadInfo { id: 1, name: "a".to_string(), parent_id: Some(5) },
        ThreadInfo { id: 2, name: "b".to_string(), parent_id: Some(6) },
        ThreadInfo { id: 3, name: "c".to_string(), parent_id: None },
        ThreadInfo { id: 4, name: "d".to_string(), parent_id: Some(5) },
    ];
    let mine = threads_of_channel(&threads, 5);
    assert_eq!(mine.iter().map(|t| t.id).collect::<Vec<u64>>(), vec![1, 4]);
    assert!(mine.iter().all(|t| t.parent_id == Some(5)));
}

#[test]
fn interested_users_exclude_bot_and_voters() {
    let a: u64 = 101;
    let b: u64 = 102;
    let saved = vec![BOT, a, b];
    let voters = vec![vec![], vec![], vec![b], vec![], vec![]];
    assert_eq!(interested_users(&saved, &voters, BOT), vec![a]);
}

#[test]
fn when_someone_saves_for_later_reacts_with_a_three_vote_should_remove_the_user_from_interested() {
    let a: u64 = 101;
    let b: u64 = 102;
    let saved = vec![BOT, a, b];
    let voters = vec![vec![], vec![], vec![b], vec![], vec![]];
    let plan = plan_save_for_later("", false, &saved, &voters, BOT);
    assert_eq!(plan.pin, PinChange::Pin);
    let content = plan.new_content.unwrap();
    assert_eq!(content, "Interessados: <@101>");
    assert!(!content.contains("102"));
    assert!(!content.contains("900"));
    let again = plan_save_for_later(&content, true, &saved, &voters, BOT);
    assert_eq!(again.pin, PinChange::Keep);
    assert!(again.new_content.is_none());
}

#[test]
fn when_someone_reacts_with_save_later_should_add_that_person_to_message() {
    let saved = vec![BOT, 7];
    let plan = plan_save_for_later("", false, &saved, &vec![], BOT);
    let content = plan.new_content.unwrap();
    assert!(content.contains("7"));
    assert!(!content.contains("900"));
}

#[test]
fn when_someone_removes_save_for_later_react_should_add_remove_that_person_from_the_message() {
    let plan = plan_save_for_later("Interessados: <@7>", true, &vec![BOT], &vec![], BOT);
    assert_eq!(plan.pin, PinChange::Unpin);
    assert_eq!(plan.new_content.unwrap(), "");
    let again = plan_save_for_later("", false, &vec![BOT], &vec![], BOT);
    assert_eq!(again.pin, PinChange::Keep);
    assert!(again.new_content.is_none());
}

#[test]
fn surrounding_white_space_asks_for_no_edit() {
    let plan = plan_save_for_later("  Interessados: <@7> \n", true, &vec![7], &vec![], BOT);
    assert!(plan.new_content.is_none());
    assert_eq!(plan.pin, PinChange::Keep);
}

#[test]
fn interested_line_lists_mentions() {
    assert_eq!(interested_line(&vec![]), "");
    assert_eq!(interested_line(&vec![1, 22, 333]), "Interessados: <@1> <@22> <@333>");
}

#[test]
fn fetch_is_skipped_only_for_fresh_messages() {
    let only_bot = vec![ReactionSummary {
        kind: ReactionKind::Unicode("🔖".to_string()),
        count: 1,
        me: true,
    }];
    let someone = vec![ReactionSummary {
        kind: ReactionKind::Unicode("🔖".to_string()),
        count: 2,
        me: true,
    }];
    assert!(!needs_save_for_later_fetch("", &only_bot, "🔖"));
    assert!(needs_save_for_later_fetch("Interessados: <@7>", &only_bot, "🔖"));
    assert!(needs_save_for_later_fetch("", &someone, "🔖"));
    assert!(needs_save_for_later_fetch("", &vec![], "🔖"));
    assert!(has_no_user_emoji_reaction(&only_bot, "🔖"));
    assert!(!has_no_user_emoji_reaction(&only_bot, "⭐"));
}

#[test]
fn votes_are_read_from_the_custom_emoji_reaction() {
    let emoji = EmojiConfig { id: 55, name: "three".to_string() };
    let reactions = vec![
        ReactionSummary { kind: ReactionKind::Unicode("🔖".to_string()), count: 3, me: true },
        ReactionSummary { kind: ReactionKind::Custom { id: 55, name: None }, count: 1, me: true },
    ];
    assert!(has_no_user_votes(&reactions, &emoji));
    let voted = vec![ReactionSummary {
        kind: ReactionKind::Custom { id: 55, name: Some("three".to_string()) },
        count: 2,
        me: true,
    }];
    assert!(!has_no_user_votes(&voted, &emoji));
    assert!(!has_no_user_votes(&vec![], &emoji));
}

#[test]
fn vote_deliveries_skip_the_bot_and_bot_accounts() {
    let voters = vec![
        vec![ReactingUser { id: BOT, bot: true }],
        vec![ReactingUser { id: 5, bot: false }, ReactingUser { id: 6, bot: true }],
        vec![],
        vec![ReactingUser { id: 7, bot: false }],
        vec![],
    ];
    assert_eq!(
        plan_vote_deliveries(&voters, BOT),
        vec![VoteDelivery { user_id: 5, level: 1 }, VoteDelivery { user_id: 7, level: 3 }]
    );
}

#[test]
fn should_send_the_voted_event_message_via_dm_only_once() {
    let url = "https://example/nora-helmer";
    let history = vec![dm(30, 5, None), dm(20, BOT, Some("https://example/other"))];
    assert_eq!(dm_scan_step(&history, url), DmScanStep::Before(20));
    assert_eq!(dm_scan_step(&vec![], url), DmScanStep::Exhausted);
    let after_send = vec![dm(40, BOT, Some(url)), dm(30, 5, None)];
    assert_eq!(dm_scan_step(&after_send, url), DmScanStep::Found);
}

#[test]
fn comments_are_the_user_own_non_reply_messages() {
    let mut m = dm(1, 5, None);
    assert!(is_vote_comment(&m, BOT));
    m.is_reply = true;
    assert!(!is_vote_comment(&m, BOT));
    assert!(!is_vote_comment(&dm(2, BOT, None), BOT));
}

#[test]
fn review_description_holds_vote_and_comment() {
    let emoji = EmojiConfig { id: 123, name: "five".to_string() };
    assert_eq!(
        create_user_review_description("Uma peça.", &emoji, None),
        "Uma peça.\n**Voto:** <:five:123>"
    );
    assert_eq!(
        create_user_review_description("Uma peça.", &emoji, Some("Adorei")),
        "Uma peça.\n**Voto:** <:five:123>\n**Comentários:** Adorei"
    );
}

fn event(description: &str, tags: Vec<String>) -> Event {
    Event::new(
        "O Auto da Barca do Inferno".to_string(),
        EventDetails::new("Gil Vicente".to_string(), description.to_string(), String::new()),
        "https://example.com/barca".to_string(),
        Schedule::new("21 setembro".to_string(), "21h".to_string()),
        "Teatro".to_string(),
        tags,
    )
}

#[test]
fn children_events_carry_the_label() {
    let adults = event("Uma comédia.", vec!["festival".to_string()]);
    assert_eq!(event_description(&adults), "Uma comédia.");
    let kids = event("Uma comédia.", vec!["Crianças".to_string()]);
    assert!(kids.is_for_children);
    assert_eq!(event_description(&kids), "Uma comédia.\n\n🧸 para crianças");
}

#[test]
fn shortened_description_keeps_the_first_line() {
    assert_eq!(shortened_description("Primeira linha.\r\nSegunda."), "Primeira linha.");
    assert_eq!(shortened_description(""), "");
    let long: String = "x".repeat(5000);
    assert_eq!(shortened_description(&long).chars().count(), 4000);
}

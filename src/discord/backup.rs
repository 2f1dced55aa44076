//! Recovering the vote acknowledgements that the bot sent to a user, and
//! naming the daily file they are saved to.
use crate::calendar::CivilDate;
use crate::discord::model::{ChannelMessage, EmbedField, EmbedInfo};
use crate::text::{
    first_line_with_prefix, first_with_prefix, lines_of, replace_all, replaced, same_text, trim,
    trimmed,
};
use vstd::prelude::*;

verus! {

/// A vote of one user on one event, as the acknowledgement shows it.
#[derive(Debug, Clone)]
pub struct UserVote {
    pub vote: String,
    pub comments: Option<String>,
}

/// One recovered vote acknowledgement.
#[derive(Debug, Clone)]
pub struct VoteRecord {
    pub user_id: u64,
    pub title: String,
    pub url: String,
    pub description: String,
    pub user_vote: UserVote,
}

/// The value of the first field of `fields` named `name`.
pub open spec fn field_value(fields: Seq<EmbedField>, name: Seq<char>) -> Option<Seq<char>>
    decreases fields.len(),
{
    if fields.len() == 0 {
        None
    } else if fields[0].name@ == name {
        Some(fields[0].value@)
    } else {
        field_value(fields.drop_first(), name)
    }
}

/// The text after `label` on the first line of `description` that starts
/// with it, trimmed: how older acknowledgements wrote a vote or a comment.
pub open spec fn labelled_line_value(description: Seq<char>, label: Seq<char>) -> Option<
    Seq<char>,
> {
    match first_with_prefix(lines_of(description), label) {
        Some(line) => Some(trimmed(replaced(line, label, Seq::empty()))),
        None => None,
    }
}

/// The vote and comment that an acknowledgement's embed holds: from its
/// `Voto` and `Comentários` fields, or else from the labelled lines of its
/// description.
pub open spec fn embed_vote(fields: Seq<EmbedField>, description: Seq<char>) -> Option<
    (Seq<char>, Option<Seq<char>>),
> {
    match field_value(fields, "Voto"@) {
        Some(v) => Some((v, field_value(fields, "Comentários"@))),
        None => match labelled_line_value(description, "**Voto:** "@) {
            Some(v) => Some((v, labelled_line_value(description, "**Comentários:** "@))),
            None => None,
        },
    }
}

/// `o`'s text, or `fallback`.
pub open spec fn text_or(o: Option<String>, fallback: Seq<char>) -> Seq<char> {
    match o {
        Some(s) => s@,
        None => fallback,
    }
}

pub open spec fn option_view(o: Option<String>) -> Option<Seq<char>> {
    match o {
        Some(s) => Some(s@),
        None => None,
    }
}

/// Whether `m` is a vote acknowledgement sent by the bot `own_id`; a vote
/// record is recovered from exactly these messages.
pub open spec fn is_vote_acknowledgement(own_id: u64, m: ChannelMessage) -> bool {
    &&& m.author_id == own_id
    &&& m.regular
    &&& m.embeds@.len() > 0
    &&& m.embeds@[0].description is Some
    &&& embed_vote(m.embeds@[0].fields@, m.embeds@[0].description->0@) is Some
}

/// Whether `r` is the record that `m`, an acknowledgement sent to `user_id`,
/// holds.
pub open spec fn is_record_of(r: VoteRecord, user_id: u64, m: ChannelMessage) -> bool {
    let e = m.embeds@[0];
    let d = e.description->0@;
    let v = embed_vote(e.fields@, d)->0;
    &&& r.user_id == user_id
    &&& r.title@ == text_or(e.title, "No Title"@)
    &&& r.url@ == text_or(e.url, "No URL"@)
    &&& r.description@ == d
    &&& r.user_vote.vote@ == v.0
    &&& option_view(r.user_vote.comments) == v.1
}

fn field_value_of(fields: &Vec<EmbedField>, name: &str) -> (r: Option<String>)
    ensures
        option_view(r) == field_value(fields@, name@),
{
    let mut i: usize = 0;
    assert(fields@.skip(0) =~= fields@);
    while i < fields.len()
        invariant
            i <= fields@.len(),
            field_value(fields@.skip(i as int), name@) == field_value(fields@, name@),
        decreases fields@.len() - i,
    {
        assert(fields@.skip(i as int).drop_first() =~= fields@.skip(i + 1));
        if same_text(fields[i].name.as_str(), name) {
            return Some(fields[i].value.clone());
        }
        i = i + 1;
    }
    None
}

fn labelled_line_value_of(description: &str, label: &str) -> (r: Option<String>)
    requires
        label@.len() > 0,
    ensures
        option_view(r) == labelled_line_value(description@, label@),
{
    match first_line_with_prefix(description, label) {
        Some(line) => {
            let without = replace_all(line.as_str(), label, "");
            proof {
                reveal_strlit("");
                assert(""@ =~= Seq::<char>::empty());
            }
            Some(trim(without.as_str()))
        },
        None => None,
    }
}

/// The vote record that `message` holds, when it is a vote acknowledgement
/// that the bot `own_id` sent to the user `user_id`.
pub fn extract_vote(own_id: u64, user_id: u64, message: &ChannelMessage) -> (r: Option<VoteRecord>)
    ensures
        r is Some <==> is_vote_acknowledgement(own_id, *message),
        r matches Some(v) ==> is_record_of(v, user_id, *message),
{
    if message.author_id != own_id || !message.regular || message.embeds.len() == 0 {
        return None;
    }
    let embed: &EmbedInfo = &message.embeds[0];
    let description: &String = match &embed.description {
        Some(d) => d,
        None => return None,
    };
    let user_vote = match field_value_of(&embed.fields, "Voto") {
        Some(vote) => {
            let comments = field_value_of(&embed.fields, "Comentários");
            UserVote { vote, comments }
        },
        None => {
            proof {
                reveal_strlit("**Voto:** ");
                reveal_strlit("**Comentários:** ");
            }
            let vote = labelled_line_value_of(description.as_str(), "**Voto:** ");
            let comments = labelled_line_value_of(description.as_str(), "**Comentários:** ");
            match vote {
                Some(vote) => UserVote { vote, comments },
                None => return None,
            }
        },
    };
    let title = match &embed.title {
        Some(t) => t.clone(),
        None => String::from_str("No Title"),
    };
    let url = match &embed.url {
        Some(u) => u.clone(),
        None => String::from_str("No URL"),
    };
    Some(VoteRecord { user_id, title, url, description: description.clone(), user_vote })
}

} // verus!

verus! {

/// The vote records that `messages`, the history of the private channel
/// with `user_id`, hold, in the order of the history.
pub open spec fn records_of(own_id: u64, user_id: u64, messages: Seq<ChannelMessage>) -> Seq<
    ChannelMessage,
> {
    messages.filter(|m: ChannelMessage| is_vote_acknowledgement(own_id, m))
}

/// The vote records held by `messages`, the history of the private channel
/// with the user `user_id`: one for each acknowledgement the bot `own_id`
/// sent there, in the order of the history.
pub fn extract_votes(own_id: u64, user_id: u64, messages: &Vec<ChannelMessage>) -> (r: Vec<
    VoteRecord,
>)
    ensures
        r@.len() == records_of(own_id, user_id, messages@).len(),
        forall|i: int|
            0 <= i < r@.len() ==> is_record_of(
                #[trigger] r@[i],
                user_id,
                records_of(own_id, user_id, messages@)[i],
            ),
{
    let mut r: Vec<VoteRecord> = Vec::new();
    let mut i: usize = 0;
    assert(messages@.take(0) =~= Seq::<ChannelMessage>::empty());
    while i < messages.len()
        invariant
            i <= messages@.len(),
            r@.len() == records_of(own_id, user_id, messages@.take(i as int)).len(),
            forall|k: int|
                0 <= k < r@.len() ==> is_record_of(
                    #[trigger] r@[k],
                    user_id,
                    records_of(own_id, user_id, messages@.take(i as int))[k],
                ),
        decreases messages@.len() - i,
    {
        let ghost before = messages@.take(i as int);
        let ghost after = messages@.take(i + 1);
        assert(after.drop_last() =~= before);
        reveal(Seq::filter);
        assert(records_of(own_id, user_id, after) == if is_vote_acknowledgement(own_id, messages@[i as int]) {
            records_of(own_id, user_id, before).push(messages@[i as int])
        } else {
            records_of(own_id, user_id, before)
        });
        match extract_vote(own_id, user_id, &messages[i]) {
            Some(v) => {
                r.push(v);
            },
            None => {},
        }
        i = i + 1;
    }
    assert(messages@.take(i as int) =~= messages@);
    r
}

/// The directory of the daily vote backups.
pub const BACKUP_DIRECTORY: &'static str = "vote_backups";

/// The last `width` decimal digits of `n`, with leading zeros.
pub open spec fn fixed_digits(n: nat, width: nat) -> Seq<char>
    decreases width,
{
    if width == 0 {
        Seq::empty()
    } else {
        fixed_digits(n / 10, (width - 1) as nat).push(crate::text::digit_char(n % 10))
    }
}

/// The path of the backup file of the day `d`: `vote_backups/YYYY_MM_DD.json`.
pub open spec fn backup_path(d: CivilDate) -> Seq<char> {
    "vote_backups/"@ + fixed_digits(d.year as nat, 4) + "_"@ + fixed_digits(d.month as nat, 2)
        + "_"@ + fixed_digits(d.day as nat, 2) + ".json"@
}

/// A date that the backup file name can hold: a valid day of the years 0 to
/// 9999.
pub open spec fn is_backup_date(d: CivilDate) -> bool {
    d.is_valid() && 0 <= d.year <= 9999
}

/// Whether the day `d` can name a backup file.
pub fn is_backup_date_of(d: &CivilDate) -> (b: bool)
    ensures
        b == is_backup_date(*d),
{
    0 <= d.year && d.year <= 9999 && CivilDate::from_ymd_opt(d.year, d.month, d.day).is_some()
}

fn push_fixed_digits(s: &mut String, n: u32, width: u32)
    requires
        width <= 4,
    ensures
        final(s)@ == old(s)@ + fixed_digits(n as nat, width as nat),
    decreases width,
{
    if width > 0 {
        push_fixed_digits(s, n / 10, width - 1);
        let c: char = (((n % 10) as u8) + 48u8) as char;
        assert(c == crate::text::digit_char((n % 10) as nat));
        crate::text::push_char(s, c);
        assert(final(s)@ =~= old(s)@ + fixed_digits(n as nat, width as nat));
    } else {
        assert(final(s)@ =~= old(s)@ + fixed_digits(n as nat, width as nat));
    }
}

/// The path of the backup file of the day `date`.
pub fn backup_file_path(date: &CivilDate) -> (r: String)
    requires
        is_backup_date(*date),
    ensures
        r@ == backup_path(*date),
{
    let mut r = String::from_str("vote_backups/");
    push_fixed_digits(&mut r, date.year as u32, 4);
    r.append("_");
    push_fixed_digits(&mut r, date.month, 2);
    r.append("_");
    push_fixed_digits(&mut r, date.day, 2);
    r.append(".json");
    r
}

/// Whether `names` holds `name`.
pub open spec fn holds_text(names: Seq<String>, name: Seq<char>) -> bool {
    exists|i: int| 0 <= i < names.len() && #[trigger] names[i]@ == name
}

/// The file that a backup run on the day `d` writes, given the files that
/// exist: none when that day's file exists.
pub open spec fn backup_write(existing: Seq<String>, d: CivilDate) -> Option<Seq<char>> {
    if holds_text(existing, backup_path(d)) {
        None
    } else {
        Some(backup_path(d))
    }
}

/// The backup file to write for the day `date`, given the files that
/// already exist: that day's file, unless it exists already (the first
/// write of a day wins; a file is never appended to or overwritten).
pub fn backup_file_to_write(existing: &Vec<String>, date: &CivilDate) -> (r: Option<String>)
    requires
        is_backup_date(*date),
    ensures
        option_view(r) == backup_write(existing@, *date),
{
    let path = backup_file_path(date);
    let mut i: usize = 0;
    while i < existing.len()
        invariant
            i <= existing@.len(),
            path@ == backup_path(*date),
            forall|k: int| 0 <= k < i ==> #[trigger] existing@[k]@ != path@,
        decreases existing@.len() - i,
    {
        if existing[i] == path {
            return None;
        }
        i = i + 1;
    }
    Some(path)
}

} // verus!

verus! {

proof fn lemma_fixed_digits(n: nat, width: nat, bound: nat)
    requires
        n < bound,
        bound == crate::text::power_of_ten(width),
    ensures
        fixed_digits(n, width).len() == width,
        crate::text::digits_value(fixed_digits(n, width)) == n,
    decreases width,
{
    if width > 0 {
        let below = crate::text::power_of_ten((width - 1) as nat);
        assert(n / 10 < below) by (nonlinear_arith)
            requires
                n < bound,
                bound == below * 10,
        ;
        lemma_fixed_digits(n / 10, (width - 1) as nat, below);
        let f = fixed_digits(n, width);
        assert(f.drop_last() =~= fixed_digits(n / 10, (width - 1) as nat));
        assert(n == (n / 10) * 10 + n % 10);
    } else {
        assert(n == 0);
    }
}

/// Backup runs write at most one file a day: once a run has written the
/// file of the day `d1`, another run on that day writes nothing, and a run
/// on another day `d2` writes a file of its own, distinct from the first.
pub proof fn lemma_backup_once_per_day(
    existing: Seq<String>,
    written: String,
    d1: CivilDate,
    d2: CivilDate,
)
    requires
        is_backup_date(d1),
        is_backup_date(d2),
        backup_write(existing, d1) == Some(written@),
    ensures
        backup_write(existing.push(written), d1) is None,
        d1 != d2 ==> backup_path(d1) != backup_path(d2),
        d1 != d2 && backup_write(existing, d2) is Some ==> backup_write(existing.push(written), d2)
            == backup_write(existing, d2),
{
    let later = existing.push(written);
    assert(later[existing.len() as int]@ == backup_path(d1));
    if d1 != d2 {
        reveal_with_fuel(crate::text::power_of_ten, 5);
        reveal_strlit("vote_backups/");
        reveal_strlit("_");
        reveal_strlit(".json");
        lemma_fixed_digits(d1.year as nat, 4, 10000);
        lemma_fixed_digits(d2.year as nat, 4, 10000);
        lemma_fixed_digits(d1.month as nat, 2, 100);
        lemma_fixed_digits(d2.month as nat, 2, 100);
        lemma_fixed_digits(d1.day as nat, 2, 100);
        lemma_fixed_digits(d2.day as nat, 2, 100);
        let p1 = backup_path(d1);
        let p2 = backup_path(d2);
        if p1 == p2 {
            assert(p1.subrange(13, 17) =~= fixed_digits(d1.year as nat, 4));
            assert(p2.subrange(13, 17) =~= fixed_digits(d2.year as nat, 4));
            assert(p1.subrange(18, 20) =~= fixed_digits(d1.month as nat, 2));
            assert(p2.subrange(18, 20) =~= fixed_digits(d2.month as nat, 2));
            assert(p1.subrange(21, 23) =~= fixed_digits(d1.day as nat, 2));
            assert(p2.subrange(21, 23) =~= fixed_digits(d2.day as nat, 2));
        }
        if backup_write(existing, d2) is Some {
            assert forall|i: int| 0 <= i < later.len() implies #[trigger] later[i]@ != backup_path(
                d2,
            ) by {
                if i < existing.len() {
                    assert(later[i] == existing[i]);
                }
            }
        }
    }
}

} // verus!

//! The decisions of the engine on the messaging platform: which topic
//! channel an event goes to, what the "interested" line of a posted event
//! says, and which private vote acknowledgements are due.
use crate::agenda_cultural::model::Event;
use crate::calendar::CivilDate;
use crate::config::model::EmojiConfig;
use crate::discord::model::{
    ChannelMessage, ReactingUser, ReactionKind, ReactionSummary, ThreadInfo,
};
use crate::text::{push_signed_decimal, same_text, signed_decimal};
use vstd::prelude::*;

verus! {

/// The topic channel that events are posted into.
#[derive(Debug, Copy, Clone, PartialEq, Eq, Structural, PartialOrd, Ord, Hash)]
pub struct EventsThread {
    pub thread_id: u64,
}

impl EventsThread {
    pub fn new(channel_id: u64) -> (r: EventsThread)
        ensures
            r.thread_id == channel_id,
    {
        EventsThread { thread_id: channel_id }
    }
}

/// The Portuguese name of the month `m` (1 for January).
pub open spec fn portuguese_month(m: int) -> Seq<char> {
    if m == 1 {
        "Janeiro"@
    } else if m == 2 {
        "Fevereiro"@
    } else if m == 3 {
        "Março"@
    } else if m == 4 {
        "Abril"@
    } else if m == 5 {
        "Maio"@
    } else if m == 6 {
        "Junho"@
    } else if m == 7 {
        "Julho"@
    } else if m == 8 {
        "Agosto"@
    } else if m == 9 {
        "Setembro"@
    } else if m == 10 {
        "Outubro"@
    } else if m == 11 {
        "Novembro"@
    } else {
        "Dezembro"@
    }
}

/// The Portuguese name of the month of `date`.
pub fn month_to_portuguese_display(date: &CivilDate) -> (r: String)
    requires
        1 <= date.month <= 12,
    ensures
        r@ == portuguese_month(date.month as int),
{
    let name = if date.month == 1 {
        "Janeiro"
    } else if date.month == 2 {
        "Fevereiro"
    } else if date.month == 3 {
        "Março"
    } else if date.month == 4 {
        "Abril"
    } else if date.month == 5 {
        "Maio"
    } else if date.month == 6 {
        "Junho"
    } else if date.month == 7 {
        "Julho"
    } else if date.month == 8 {
        "Agosto"
    } else if date.month == 9 {
        "Setembro"
    } else if date.month == 10 {
        "Outubro"
    } else if date.month == 11 {
        "Novembro"
    } else {
        "Dezembro"
    };
    String::from_str(name)
}

/// The name of the topic channel of the month of `date`: "Março 2025".
pub open spec fn thread_name(date: CivilDate) -> Seq<char> {
    portuguese_month(date.month as int) + " "@ + signed_decimal(date.year as int)
}

/// The name of the topic channel of the month of `date`.
pub fn date_thread_name(date: &CivilDate) -> (r: String)
    requires
        1 <= date.month <= 12,
    ensures
        r@ == thread_name(*date),
{
    let mut r = month_to_portuguese_display(date);
    r.append(" ");
    push_signed_decimal(&mut r, date.year as i64);
    r
}

/// The id of the first of `threads` named `name`.
pub open spec fn first_named(threads: Seq<ThreadInfo>, name: Seq<char>) -> Option<u64>
    decreases threads.len(),
{
    if threads.len() == 0 {
        None
    } else if threads[0].name@ == name {
        Some(threads[0].id)
    } else {
        first_named(threads.drop_first(), name)
    }
}

/// How many of `threads` are named `name`.
pub open spec fn count_named(threads: Seq<ThreadInfo>, name: Seq<char>) -> nat {
    threads.filter(is_named(name)).len()
}

/// Whether a channel is named `name`.
pub open spec fn is_named(name: Seq<char>) -> spec_fn(ThreadInfo) -> bool {
    |t: ThreadInfo| t.name@ == name
}

/// Where the events of a month go.
#[derive(Debug)]
pub enum DateThread {
    /// The month's topic channel exists.
    Existing(EventsThread),
    /// The month's topic channel is to be created with this name.
    Create(String),
}

/// The resolution of the month of `date` among `threads`: the first channel
/// with the month's name, or a new channel with that name.
pub open spec fn date_thread(threads: Seq<ThreadInfo>, date: CivilDate) -> Result<u64, Seq<char>> {
    match first_named(threads, thread_name(date)) {
        Some(id) => Ok(id),
        None => Err(thread_name(date)),
    }
}

/// Finds the topic channel of the month of `date` among `threads`, the
/// archived and active sub-channels of the parent channel, or names the one
/// to create.
pub fn resolve_date_thread(threads: &Vec<ThreadInfo>, date: &CivilDate) -> (r: DateThread)
    requires
        1 <= date.month <= 12,
    ensures
        match r {
            DateThread::Existing(t) => date_thread(threads@, *date) == Ok::<u64, Seq<char>>(
                t.thread_id,
            ),
            DateThread::Create(name) => date_thread(threads@, *date) == Err::<u64, Seq<char>>(
                name@,
            ),
        },
{
    let name = date_thread_name(date);
    let mut i: usize = 0;
    assert(threads@.skip(0) =~= threads@);
    while i < threads.len()
        invariant
            i <= threads@.len(),
            name@ == thread_name(*date),
            first_named(threads@.skip(i as int), name@) == first_named(threads@, name@),
        decreases threads@.len() - i,
    {
        assert(threads@.skip(i as int).drop_first() =~= threads@.skip(i + 1));
        if same_text(threads[i].name.as_str(), name.as_str()) {
            return DateThread::Existing(EventsThread::new(threads[i].id));
        }
        i = i + 1;
    }
    DateThread::Create(name)
}

proof fn lemma_first_named_count(threads: Seq<ThreadInfo>, name: Seq<char>)
    ensures
        (first_named(threads, name) is None) <==> count_named(threads, name) == 0,
        first_named(threads, name) matches Some(id) ==> exists|i: int|
            0 <= i < threads.len() && threads[i].name@ == name && threads[i].id == id,
    decreases threads.len(),
{
    reveal(Seq::filter);
    if threads.len() > 0 {
        lemma_first_named_count(threads.drop_first(), name);
        let f = is_named(name);
        assert(threads =~= seq![threads[0]] + threads.drop_first());
        threads.drop_first().lemma_filter_prepend(threads[0], f);
        if first_named(threads, name) is Some && threads[0].name@ != name {
            let id = first_named(threads, name)->0;
            let j = choose|j: int|
                0 <= j < threads.drop_first().len() && threads.drop_first()[j].name@ == name
                    && threads.drop_first()[j].id == id;
            assert(threads[j + 1] == threads.drop_first()[j]);
        }
    }
}

proof fn lemma_count_named_push(threads: Seq<ThreadInfo>, t: ThreadInfo, name: Seq<char>)
    ensures
        count_named(threads.push(t), name) == count_named(threads, name) + if t.name@ == name {
            1nat
        } else {
            0nat
        },
{
    reveal(Seq::filter);
    assert(threads.push(t).drop_last() =~= threads);
}

proof fn lemma_first_named_push(threads: Seq<ThreadInfo>, t: ThreadInfo, name: Seq<char>)
    requires
        first_named(threads, name) is None,
        t.name@ == name,
    ensures
        first_named(threads.push(t), name) == Some(t.id),
    decreases threads.len(),
{
    if threads.len() > 0 {
        assert(threads.push(t).drop_first() =~= threads.drop_first().push(t));
        lemma_first_named_push(threads.drop_first(), t, name);
    }
}

/// Resolving a month's topic channel is idempotent: when the first
/// resolution has created the channel it asked for (`created`, carrying the
/// month's name), a second resolution finds that same channel, and the
/// parent then holds exactly one channel with the month's name, given that
/// it held at most one before.
pub proof fn lemma_thread_resolution_idempotent(
    threads: Seq<ThreadInfo>,
    date: CivilDate,
    created: ThreadInfo,
)
    requires
        count_named(threads, thread_name(date)) <= 1,
        date_thread(threads, date) is Err ==> created.name@ == thread_name(date),
    ensures
        ({
            let after = if date_thread(threads, date) is Err {
                threads.push(created)
            } else {
                threads
            };
            let id = match date_thread(threads, date) {
                Ok(id) => id,
                Err(_) => created.id,
            };
            &&& date_thread(after, date) == Ok::<u64, Seq<char>>(id)
            &&& count_named(after, thread_name(date)) == 1
        }),
{
    let name = thread_name(date);
    lemma_first_named_count(threads, name);
    if date_thread(threads, date) is Err {
        lemma_first_named_push(threads, created, name);
        lemma_count_named_push(threads, created, name);
    }
}

} // verus!

verus! {

/// The sub-channels of `threads` whose parent is `channel_id`, in order.
pub open spec fn threads_of(threads: Seq<ThreadInfo>, channel_id: u64) -> Seq<ThreadInfo> {
    threads.filter(|t: ThreadInfo| t.parent_id == Some(channel_id))
}

/// The sub-channels of `threads` that belong to the channel `channel_id`.
pub fn threads_of_channel(threads: &Vec<ThreadInfo>, channel_id: u64) -> (r: Vec<ThreadInfo>)
    ensures
        r@ == threads_of(threads@, channel_id),
{
    let mut r: Vec<ThreadInfo> = Vec::new();
    let mut i: usize = 0;
    assert(threads@.take(0) =~= Seq::<ThreadInfo>::empty());
    while i < threads.len()
        invariant
            i <= threads@.len(),
            r@ == threads_of(threads@.take(i as int), channel_id),
        decreases threads@.len() - i,
    {
        assert(threads@.take(i + 1).drop_last() =~= threads@.take(i as int));
        reveal(Seq::filter);
        let t = &threads[i];
        if t.parent_id == Some(channel_id) {
            r.push(ThreadInfo { id: t.id, name: t.name.clone(), parent_id: t.parent_id });
            assert(r@.last() == threads@[i as int]);
        }
        i = i + 1;
    }
    assert(threads@.take(i as int) =~= threads@);
    r
}

} // verus!

verus! {

/// The mention of the user `id` in a message: `<@id>`.
pub open spec fn mention(id: u64) -> Seq<char> {
    "<@"@ + crate::text::decimal(id as nat) + ">"@
}

/// The mentions of `users`, separated by single spaces.
pub open spec fn mentions(users: Seq<u64>) -> Seq<char>
    decreases users.len(),
{
    if users.len() == 0 {
        Seq::empty()
    } else if users.len() == 1 {
        mention(users[0])
    } else {
        mentions(users.drop_last()) + " "@ + mention(users.last())
    }
}

/// The "interested" line of a posted event for the users `users`; empty
/// when there are none.
pub open spec fn interested_text(users: Seq<u64>) -> Seq<char> {
    if users.len() == 0 {
        Seq::empty()
    } else {
        "Interessados: "@ + mentions(users)
    }
}

/// Whether `voters`, the users of each vote level, hold the user `id`.
pub open spec fn has_voted(voters: Seq<Vec<u64>>, id: u64) -> bool {
    exists|l: int| 0 <= l < voters.len() && voters[l]@.contains(id)
}

/// The users who saved an event for later and are neither the bot `own_id`
/// nor a user who voted on it (a vote already says they are interested).
pub open spec fn interested_of(saved: Seq<u64>, voters: Seq<Vec<u64>>, own_id: u64) -> Seq<u64> {
    saved.filter(|u: u64| u != own_id && !has_voted(voters, u))
}

/// A change to whether a message is pinned.
#[derive(Debug, Copy, Clone, PartialEq, Eq, Structural)]
pub enum PinChange {
    Keep,
    Pin,
    Unpin,
}

/// The pinning that the "interested" line calls for: pinned while someone
/// is interested, unpinned once nobody is.
pub open spec fn pin_change(nobody: bool, pinned: bool) -> PinChange {
    if nobody && pinned {
        PinChange::Unpin
    } else if !nobody && !pinned {
        PinChange::Pin
    } else {
        PinChange::Keep
    }
}

/// Whether the message is pinned after `change`.
pub open spec fn pinned_after(change: PinChange, pinned: bool) -> bool {
    match change {
        PinChange::Keep => pinned,
        PinChange::Pin => true,
        PinChange::Unpin => false,
    }
}

/// The text to put on a message whose text is `content` so that it shows
/// `users` as interested: none when the two agree but for surrounding
/// white space.
pub open spec fn content_edit(content: Seq<char>, users: Seq<u64>) -> Option<Seq<char>> {
    if crate::text::trimmed(interested_text(users)) == crate::text::trimmed(content) {
        None
    } else {
        Some(interested_text(users))
    }
}

/// The changes that bring a posted event's message in line with who saved
/// it for later.
#[derive(Debug)]
pub struct SaveForLaterPlan {
    pub pin: PinChange,
    /// The new text of the message, when it has to change.
    pub new_content: Option<String>,
}

fn contains_id(v: &Vec<u64>, id: u64) -> (b: bool)
    ensures
        b == v@.contains(id),
{
    let mut i: usize = 0;
    while i < v.len()
        invariant
            i <= v@.len(),
            forall|k: int| 0 <= k < i ==> v@[k] != id,
        decreases v@.len() - i,
    {
        if v[i] == id {
            assert(v@[i as int] == id);
            return true;
        }
        i = i + 1;
    }
    false
}

fn voted(voters: &Vec<Vec<u64>>, id: u64) -> (b: bool)
    ensures
        b == has_voted(voters@, id),
{
    let mut l: usize = 0;
    while l < voters.len()
        invariant
            l <= voters@.len(),
            forall|k: int| 0 <= k < l ==> !voters@[k]@.contains(id),
        decreases voters@.len() - l,
    {
        if contains_id(&voters[l], id) {
            return true;
        }
        l = l + 1;
    }
    false
}

/// The users of `saved` who are interested in an event: not the bot
/// `own_id`, and not among `voters`, the users of each vote level.
pub fn interested_users(saved: &Vec<u64>, voters: &Vec<Vec<u64>>, own_id: u64) -> (r: Vec<u64>)
    ensures
        r@ == interested_of(saved@, voters@, own_id),
{
    let mut r: Vec<u64> = Vec::new();
    let mut i: usize = 0;
    assert(saved@.take(0) =~= Seq::<u64>::empty());
    while i < saved.len()
        invariant
            i <= saved@.len(),
            r@ == interested_of(saved@.take(i as int), voters@, own_id),
        decreases saved@.len() - i,
    {
        assert(saved@.take(i + 1).drop_last() =~= saved@.take(i as int));
        reveal(Seq::filter);
        let u = saved[i];
        if u != own_id && !voted(voters, u) {
            r.push(u);
        }
        i = i + 1;
    }
    assert(saved@.take(i as int) =~= saved@);
    r
}

/// The "interested" line for `users`: `Interessados: <@a> <@b>`, or nothing
/// when there are none.
pub fn interested_line(users: &Vec<u64>) -> (r: String)
    ensures
        r@ == interested_text(users@),
{
    if users.len() == 0 {
        return String::new();
    }
    let mut r = String::from_str("Interessados: ");
    let ghost head = r@;
    let mut i: usize = 0;
    while i < users.len()
        invariant
            i <= users@.len(),
            head == "Interessados: "@,
            r@ == head + mentions(users@.take(i as int)),
        decreases users@.len() - i,
    {
        let ghost before = r@;
        if i > 0 {
            r.append(" ");
        }
        r.append("<@");
        crate::text::push_decimal(&mut r, users[i]);
        r.append(">");
        assert(users@.take(i + 1).drop_last() =~= users@.take(i as int));
        if i == 0 {
            assert(mentions(users@.take(0)) =~= Seq::<char>::empty());
            assert(r@ =~= head + mentions(users@.take(i + 1)));
        } else {
            assert(r@ =~= head + mentions(users@.take(i + 1)));
        }
        i = i + 1;
    }
    assert(users@.take(i as int) =~= users@);
    r
}

/// What to do to a posted event's message, whose text is `content`, once the
/// users who saved it for later (`saved`) and those who voted on it
/// (`voters`, by vote level) are known: pin or unpin it, and the one edit of
/// its text, if the text differs from the line of interested users.
pub fn plan_save_for_later(
    content: &str,
    pinned: bool,
    saved: &Vec<u64>,
    voters: &Vec<Vec<u64>>,
    own_id: u64,
) -> (r: SaveForLaterPlan)
    ensures
        r.pin == pin_change(interested_of(saved@, voters@, own_id).len() == 0, pinned),
        match r.new_content {
            Some(c) => content_edit(content@, interested_of(saved@, voters@, own_id)) == Some(c@),
            None => content_edit(content@, interested_of(saved@, voters@, own_id)) is None,
        },
{
    let users = interested_users(saved, voters, own_id);
    let nobody = users.len() == 0;
    let pin = if nobody && pinned {
        PinChange::Unpin
    } else if !nobody && !pinned {
        PinChange::Pin
    } else {
        PinChange::Keep
    };
    let line = interested_line(&users);
    let new_trimmed = crate::text::trim(line.as_str());
    let old_trimmed = crate::text::trim(content);
    let new_content = if new_trimmed == old_trimmed {
        None
    } else {
        Some(line)
    };
    SaveForLaterPlan { pin, new_content }
}

/// The "interested" line converges: once the changes planned for a message
/// are made, planning again with the same reactions asks for no edit and no
/// change of pinning.
pub proof fn lemma_save_for_later_converges(
    content: Seq<char>,
    pinned: bool,
    saved: Seq<u64>,
    voters: Seq<Vec<u64>>,
    own_id: u64,
)
    ensures
        ({
            let users = interested_of(saved, voters, own_id);
            let change = pin_change(users.len() == 0, pinned);
            let next_content = match content_edit(content, users) {
                Some(c) => c,
                None => content,
            };
            &&& content_edit(next_content, users) is None
            &&& pin_change(users.len() == 0, pinned_after(change, pinned)) == PinChange::Keep
        }),
{
}

} // verus!

verus! {

/// Whether only the bot made `reaction`: no user has reacted with it.
pub open spec fn only_bot_reacted(reaction: ReactionSummary) -> bool {
    reaction.count == 1 && reaction.me
}

/// Whether no user but the bot has made `reaction` (the bot adds every
/// reaction itself first, so a count of one that is the bot's is nobody's).
pub fn has_no_user_reactions(reaction: &ReactionSummary) -> (r: bool)
    ensures
        r == only_bot_reacted(*reaction),
{
    reaction.count == 1 && reaction.me
}

/// The first of `reactions` made with the emoji character(s) `emoji`.
pub open spec fn first_unicode(reactions: Seq<ReactionSummary>, emoji: Seq<char>) -> Option<
    ReactionSummary,
>
    decreases reactions.len(),
{
    if reactions.len() == 0 {
        None
    } else if reactions[0].kind matches ReactionKind::Unicode(s) && s@ == emoji {
        Some(reactions[0])
    } else {
        first_unicode(reactions.drop_first(), emoji)
    }
}

/// The first of `reactions` made with the custom emoji of id `id`.
pub open spec fn first_custom(reactions: Seq<ReactionSummary>, id: int) -> Option<ReactionSummary>
    decreases reactions.len(),
{
    if reactions.len() == 0 {
        None
    } else if reactions[0].kind matches ReactionKind::Custom { id: cid, .. } && cid as int == id {
        Some(reactions[0])
    } else {
        first_custom(reactions.drop_first(), id)
    }
}

/// Whether the message's reaction with `emoji` is there and only the bot's.
pub fn has_no_user_emoji_reaction(reactions: &Vec<ReactionSummary>, emoji: &str) -> (r: bool)
    ensures
        r == (first_unicode(reactions@, emoji@) matches Some(x) && only_bot_reacted(x)),
{
    let mut i: usize = 0;
    assert(reactions@.skip(0) =~= reactions@);
    while i < reactions.len()
        invariant
            i <= reactions@.len(),
            first_unicode(reactions@.skip(i as int), emoji@) == first_unicode(reactions@, emoji@),
        decreases reactions@.len() - i,
    {
        assert(reactions@.skip(i as int).drop_first() =~= reactions@.skip(i + 1));
        assert(reactions@.skip(i as int)[0] == reactions@[i as int]);
        match &reactions[i].kind {
            ReactionKind::Unicode(s) => {
                if same_text(s.as_str(), emoji) {
                    return has_no_user_reactions(&reactions[i]);
                }
            },
            ReactionKind::Custom { .. } => {},
        }
        i = i + 1;
    }
    false
}

/// Whether the message's reaction with the vote emoji `voting_emoji` is
/// there and only the bot's.
pub fn has_no_user_votes(reactions: &Vec<ReactionSummary>, voting_emoji: &EmojiConfig) -> (r: bool)
    ensures
        r == (first_custom(reactions@, voting_emoji.id as int) matches Some(x) && only_bot_reacted(
            x,
        )),
{
    let mut i: usize = 0;
    assert(reactions@.skip(0) =~= reactions@);
    while i < reactions.len()
        invariant
            i <= reactions@.len(),
            first_custom(reactions@.skip(i as int), voting_emoji.id as int) == first_custom(
                reactions@,
                voting_emoji.id as int,
            ),
        decreases reactions@.len() - i,
    {
        assert(reactions@.skip(i as int).drop_first() =~= reactions@.skip(i + 1));
        assert(reactions@.skip(i as int)[0] == reactions@[i as int]);
        match &reactions[i].kind {
            ReactionKind::Custom { id, .. } => {
                if voting_emoji.id >= 0 && *id == voting_emoji.id as u64 {
                    return has_no_user_reactions(&reactions[i]);
                }
            },
            ReactionKind::Unicode(_) => {},
        }
        i = i + 1;
    }
    false
}

/// Whether the users behind the save-for-later reaction have to be fetched:
/// not when the message shows no "interested" line and nobody but the bot
/// has saved it. This only spares requests; planning with the fetched users
/// would change nothing in that case.
pub fn needs_save_for_later_fetch(
    content: &str,
    reactions: &Vec<ReactionSummary>,
    save_emoji: &str,
) -> (r: bool)
    ensures
        r == !(content@.len() == 0 && (first_unicode(reactions@, save_emoji@) matches Some(x)
            && only_bot_reacted(x))),
{
    !(content.unicode_len() == 0 && has_no_user_emoji_reaction(reactions, save_emoji))
}

} // verus!

verus! {

/// A private vote acknowledgement that is due: the user and the vote level
/// (0 for the worst of the vote emojis).
#[derive(Debug, Copy, Clone, PartialEq, Eq, Structural)]
pub struct VoteDelivery {
    pub user_id: u64,
    pub level: usize,
}

/// Whether `u` is to get acknowledgements: neither the bot `own_id` itself
/// nor a bot account.
pub open spec fn is_voting_user(u: ReactingUser, own_id: u64) -> bool {
    u.id != own_id && !u.bot
}

/// The acknowledgements due for the users `users` who voted at `level`.
pub open spec fn level_deliveries(users: Seq<ReactingUser>, own_id: u64, level: int) -> Seq<
    VoteDelivery,
>
    decreases users.len(),
{
    if users.len() == 0 {
        Seq::empty()
    } else {
        level_deliveries(users.drop_last(), own_id, level) + if is_voting_user(
            users.last(),
            own_id,
        ) {
            seq![VoteDelivery { user_id: users.last().id, level: level as usize }]
        } else {
            Seq::empty()
        }
    }
}

/// The acknowledgements due for `voters`, the users who reacted with each
/// vote emoji, from the worst level to the best and in the order of each
/// level's users.
pub open spec fn vote_deliveries(voters: Seq<Vec<ReactingUser>>, own_id: u64) -> Seq<VoteDelivery>
    decreases voters.len(),
{
    if voters.len() == 0 {
        Seq::empty()
    } else {
        vote_deliveries(voters.drop_last(), own_id) + level_deliveries(
            voters.last()@,
            own_id,
            voters.len() - 1,
        )
    }
}

/// The private acknowledgements to consider for a posted event, given the
/// users who reacted with each vote emoji (worst first).
pub fn plan_vote_deliveries(voters: &Vec<Vec<ReactingUser>>, own_id: u64) -> (r: Vec<VoteDelivery>)
    ensures
        r@ == vote_deliveries(voters@, own_id),
{
    let mut r: Vec<VoteDelivery> = Vec::new();
    let mut level: usize = 0;
    while level < voters.len()
        invariant
            level <= voters@.len(),
            r@ == vote_deliveries(voters@.take(level as int), own_id),
        decreases voters@.len() - level,
    {
        let users = &voters[level];
        let ghost start = r@;
        let mut i: usize = 0;
        assert(users@.take(0) =~= Seq::<ReactingUser>::empty());
        assert(start =~= start + level_deliveries(users@.take(0), own_id, level as int));
        while i < users.len()
            invariant
                i <= users@.len(),
                r@ == start + level_deliveries(users@.take(i as int), own_id, level as int),
            decreases users@.len() - i,
        {
            assert(users@.take(i + 1).drop_last() =~= users@.take(i as int));
            let u = &users[i];
            if u.id != own_id && !u.bot {
                r.push(VoteDelivery { user_id: u.id, level });
            }
            i = i + 1;
            assert(r@ =~= start + level_deliveries(users@.take(i as int), own_id, level as int));
        }
        assert(users@.take(i as int) =~= users@);
        assert(voters@.take(level + 1).drop_last() =~= voters@.take(level as int));
        level = level + 1;
    }
    assert(voters@.take(level as int) =~= voters@);
    r
}

/// The URL of the first embed of `m`, or empty text.
pub open spec fn url_or_empty(m: ChannelMessage) -> Seq<char> {
    match crate::discord::model::first_embed_url(m) {
        Some(u) => u,
        None => Seq::empty(),
    }
}

/// Whether one of `messages` carries the event of URL `url`.
pub open spec fn event_sent_in(messages: Seq<ChannelMessage>, url: Seq<char>) -> bool {
    exists|i: int| 0 <= i < messages.len() && url_or_empty(#[trigger] messages[i]) == url
}

/// The next step of the search of a private channel's history for an event
/// already sent there.
#[derive(Debug, Copy, Clone, PartialEq, Eq, Structural)]
pub enum DmScanStep {
    /// The event is in the history: it was delivered before.
    Found,
    /// The history is exhausted without it.
    Exhausted,
    /// Fetch the page of messages older than this one.
    Before(u64),
}

/// The step after reading `page`, a page of a private channel's history,
/// newest first, while looking for the event of URL `url`: stop as soon as a
/// page holds it, stop at an empty page, else go on before the page's
/// oldest message.
pub fn dm_scan_step(page: &Vec<ChannelMessage>, url: &str) -> (r: DmScanStep)
    ensures
        r == DmScanStep::Found <==> event_sent_in(page@, url@),
        r == DmScanStep::Exhausted <==> page@.len() == 0,
        r matches DmScanStep::Before(id) ==> page@.len() > 0 && !event_sent_in(page@, url@)
            && id == page@.last().id,
{
    let mut i: usize = 0;
    while i < page.len()
        invariant
            i <= page@.len(),
            forall|k: int| 0 <= k < i ==> url_or_empty(#[trigger] page@[k]) != url@,
        decreases page@.len() - i,
    {
        let found = match page[i].first_embed_url() {
            Some(u) => same_text(u.as_str(), url),
            None => url.unicode_len() == 0,
        };
        if found {
            assert(url_or_empty(page@[i as int]) == url@);
            return DmScanStep::Found;
        }
        i = i + 1;
    }
    if page.len() == 0 {
        DmScanStep::Exhausted
    } else {
        DmScanStep::Before(page[page.len() - 1].id)
    }
}

/// Whether the last message of a private channel, `last`, is a comment to
/// attach to a vote: written by the user, not the bot `own_id`, and not a
/// reply to another message.
pub fn is_vote_comment(last: &ChannelMessage, own_id: u64) -> (r: bool)
    ensures
        r == (last.author_id != own_id && !last.is_reply),
{
    last.author_id != own_id && !last.is_reply
}

/// Acknowledgements reach a user at most once: once the acknowledgement of
/// an event, `sent`, is in the user's private history, the history holds the
/// event, so the scan of a later run finds it and sends nothing.
pub proof fn lemma_vote_delivered_at_most_once(
    history: Seq<ChannelMessage>,
    url: Seq<char>,
    sent: ChannelMessage,
)
    requires
        crate::discord::model::first_embed_url(sent) == Some(url),
    ensures
        event_sent_in(history.push(sent), url),
{
    assert(history.push(sent)[history.len() as int] == sent);
}

/// A history read page by page: a page that holds the event is found as
/// soon as the scan reaches it, and a history whose pages all lack it does
/// not hold it.
pub proof fn lemma_scan_pages(pages: Seq<Seq<ChannelMessage>>, url: Seq<char>)
    ensures
        event_sent_in(pages.fold_left(Seq::empty(), |acc: Seq<ChannelMessage>, p| acc + p), url)
            <==> exists|k: int| 0 <= k < pages.len() && event_sent_in(#[trigger] pages[k], url),
    decreases pages.len(),
{
    let f = |acc: Seq<ChannelMessage>, p: Seq<ChannelMessage>| acc + p;
    if pages.len() > 0 {
        lemma_scan_pages(pages.drop_last(), url);
        let before = pages.drop_last().fold_left(Seq::empty(), f);
        let all = pages.fold_left(Seq::empty(), f);
        assert(all == before + pages.last());
        if event_sent_in(all, url) {
            let i = choose|i: int| 0 <= i < all.len() && url_or_empty(#[trigger] all[i]) == url;
            if i < before.len() {
                assert(all[i] == before[i]);
                let k = choose|k: int|
                    0 <= k < pages.drop_last().len() && event_sent_in(
                        #[trigger] pages.drop_last()[k],
                        url,
                    );
                assert(pages[k] == pages.drop_last()[k]);
            } else {
                assert(all[i] == pages.last()[i - before.len()]);
                assert(event_sent_in(pages[pages.len() - 1], url));
            }
        }
        if exists|k: int| 0 <= k < pages.len() && event_sent_in(#[trigger] pages[k], url) {
            let k = choose|k: int| 0 <= k < pages.len() && event_sent_in(#[trigger] pages[k], url);
            let j = choose|j: int|
                0 <= j < pages[k].len() && url_or_empty(#[trigger] pages[k][j]) == url;
            if k < pages.len() - 1 {
                assert(pages.drop_last()[k] == pages[k]);
                assert(event_sent_in(before, url));
                let i = choose|i: int|
                    0 <= i < before.len() && url_or_empty(#[trigger] before[i]) == url;
                assert(all[i] == before[i]);
            } else {
                assert(all[before.len() + j] == pages[k][j]);
            }
        }
    } else {
        assert(pages.fold_left(Seq::empty(), f) == Seq::<ChannelMessage>::empty());
    }
}

} // verus!

verus! {

/// The label added to the description of an event for children.
pub const CHILDREN_LABEL: &'static str = "🧸 para crianças";

/// The most characters of a shortened description.
pub const SHORT_DESCRIPTION_CHARS: usize = 4000;

/// The description that an event's message shows: the event's description,
/// followed by the children's label when the event is for children.
pub open spec fn posted_description(event: Event) -> Seq<char> {
    if event.is_for_children {
        event.details.description@ + "\n\n"@ + CHILDREN_LABEL@
    } else {
        event.details.description@
    }
}

/// The description to post for `event`.
pub fn event_description(event: &Event) -> (r: String)
    ensures
        r@ == posted_description(*event),
{
    let mut description = event.details.description.clone();
    if event.is_for_children {
        description.append("\n\n");
        description.append(CHILDREN_LABEL);
    }
    description
}

/// The shorter description to post when the full one makes the message too
/// large: the first line (the whole text when it has no line), cut to its
/// first 4000 characters.
pub open spec fn shortened(description: Seq<char>) -> Seq<char> {
    let first = if crate::text::lines_of(description).len() > 0 {
        crate::text::lines_of(description)[0]
    } else {
        description
    };
    if first.len() <= SHORT_DESCRIPTION_CHARS {
        first
    } else {
        first.take(SHORT_DESCRIPTION_CHARS as int)
    }
}

/// The shorter description of `description`.
pub fn shortened_description(description: &str) -> (r: String)
    ensures
        r@ == shortened(description@),
{
    let ls = crate::text::lines(description);
    let first: Vec<char> = if ls.len() > 0 {
        assert(ls@[0]@ == crate::text::lines_of(description@)[0]);
        crate::text::chars_of(ls[0].as_str())
    } else {
        crate::text::chars_of(description)
    };
    if first.len() <= SHORT_DESCRIPTION_CHARS {
        crate::text::string_of(first.as_slice())
    } else {
        let cut = &first.as_slice()[0..SHORT_DESCRIPTION_CHARS];
        assert(cut@ =~= first@.take(SHORT_DESCRIPTION_CHARS as int));
        crate::text::string_of(cut)
    }
}

/// The description of a private vote acknowledgement: the event's
/// description, the vote, and the user's comment when there is one.
pub open spec fn review_text(
    description: Seq<char>,
    vote: EmojiConfig,
    comment: Option<Seq<char>>,
) -> Seq<char> {
    let base = description + "\n**Voto:** "@ + crate::config::model::emoji_markup(
        vote.name@,
        vote.id as int,
    );
    match comment {
        Some(c) => base + "\n**Comentários:** "@ + c,
        None => base,
    }
}

/// The description of the acknowledgement of the vote `vote` on the event
/// described by `description`, with the user's comment `comment`.
pub fn create_user_review_description(
    description: &str,
    vote: &EmojiConfig,
    comment: Option<&str>,
) -> (r: String)
    ensures
        r@ == review_text(
            description@,
            *vote,
            match comment {
                Some(c) => Some(c@),
                None => None,
            },
        ),
{
    let mut r = String::from_str(description);
    r.append("\n**Voto:** ");
    let markup = vote.to_string();
    r.append(markup.as_str());
    match comment {
        Some(c) => {
            r.append("\n**Comentários:** ");
            r.append(c);
        },
        None => {},
    }
    r
}

} // verus!

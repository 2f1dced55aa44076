//! Which candidate events are new: an event is posted in a topic channel
//! when a message of the channel's history carries its link, and only the
//! events whose link no history carries are posted.
use crate::agenda_cultural::model::{Event, MonthBucket};
use crate::discord::api::EventsThread;
use crate::discord::model::{ChannelMessage, EmbedInfo};
use crate::text::{same_text, views};
use vstd::prelude::*;

verus! {

/// The URL of embed `e` of message `m` of history `t`.
pub open spec fn embed_url(histories: Seq<Vec<ChannelMessage>>, t: int, m: int, e: int) -> Option<
    Seq<char>,
> {
    match histories[t]@[m].embeds@[e].url {
        Some(u) => Some(u@),
        None => None,
    }
}

/// Whether `t`, `m`, `e` name an embed of a message of `histories`.
pub open spec fn is_embed_of(histories: Seq<Vec<ChannelMessage>>, t: int, m: int, e: int) -> bool {
    0 <= t < histories.len() && 0 <= m < histories[t]@.len() && 0 <= e
        < histories[t]@[m].embeds@.len()
}

/// Whether some embed of some message of `histories` carries the URL `url`.
pub open spec fn url_posted(histories: Seq<Vec<ChannelMessage>>, url: Seq<char>) -> bool {
    exists|t: int, m: int, e: int|
        is_embed_of(histories, t, m, e) && #[trigger] embed_url(histories, t, m, e) == Some(url)
}

/// The URLs of the embeds of the messages of `histories`, the histories of
/// the topic channels: the links of the events posted there.
pub fn get_sent_events(histories: &Vec<Vec<ChannelMessage>>) -> (r: Vec<String>)
    ensures
        forall|u: Seq<char>| views(r@).contains(u) <==> url_posted(histories@, u),
{
    let mut r: Vec<String> = Vec::new();
    let mut t: usize = 0;
    while t < histories.len()
        invariant
            t <= histories@.len(),
            forall|k: int|
                0 <= k < r@.len() ==> url_posted(histories@, #[trigger] r@[k]@),
            forall|tt: int, m: int, e: int|
                is_embed_of(histories@, tt, m, e) && tt < t && #[trigger] embed_url(
                    histories@,
                    tt,
                    m,
                    e,
                ) is Some ==> views(r@).contains(embed_url(histories@, tt, m, e)->0),
        decreases histories@.len() - t,
    {
        let messages = &histories[t];
        let mut m: usize = 0;
        while m < messages.len()
            invariant
                t < histories@.len(),
                messages == histories@[t as int],
                m <= messages@.len(),
                forall|k: int|
                    0 <= k < r@.len() ==> url_posted(histories@, #[trigger] r@[k]@),
                forall|tt: int, mm: int, e: int|
                    is_embed_of(histories@, tt, mm, e) && (tt < t || (tt == t && mm < m))
                        && #[trigger] embed_url(histories@, tt, mm, e) is Some ==> views(
                        r@,
                    ).contains(embed_url(histories@, tt, mm, e)->0),
            decreases messages@.len() - m,
        {
            let embeds: &Vec<EmbedInfo> = &messages[m].embeds;
            let mut e: usize = 0;
            while e < embeds.len()
                invariant
                    t < histories@.len(),
                    messages == histories@[t as int],
                    m < messages@.len(),
                    embeds == messages@[m as int].embeds,
                    e <= embeds@.len(),
                    forall|k: int|
                        0 <= k < r@.len() ==> url_posted(histories@, #[trigger] r@[k]@),
                    forall|tt: int, mm: int, ee: int|
                        is_embed_of(histories@, tt, mm, ee) && (tt < t || (tt == t && mm < m) || (
                        tt == t && mm == m && ee < e)) && #[trigger] embed_url(
                            histories@,
                            tt,
                            mm,
                            ee,
                        ) is Some ==> views(r@).contains(embed_url(histories@, tt, mm, ee)->0),
                decreases embeds@.len() - e,
            {
                match &embeds[e].url {
                    Some(u) => {
                        let ghost before = r@;
                        r.push(u.clone());
                        assert(embed_url(histories@, t as int, m as int, e as int) == Some(u@));
                        assert(views(r@) =~= views(before).push(u@));
                        assert(views(r@)[r@.len() - 1] == u@);
                        assert forall|x: Seq<char>| views(before).contains(x) implies views(
                            r@,
                        ).contains(x) by {
                            let j = choose|j: int| 0 <= j < views(before).len() && views(before)[j]
                                == x;
                            assert(views(r@)[j] == x);
                        }
                    },
                    None => {},
                }
                e = e + 1;
            }
            m = m + 1;
        }
        t = t + 1;
    }
    assert forall|u: Seq<char>| views(r@).contains(u) implies url_posted(histories@, u) by {
        let j = choose|j: int| 0 <= j < views(r@).len() && views(r@)[j] == u;
        assert(r@[j]@ == u);
    }
    assert forall|u: Seq<char>| url_posted(histories@, u) implies views(r@).contains(u) by {
        let (tt, mm, ee) = choose|tt: int, mm: int, ee: int|
            is_embed_of(histories@, tt, mm, ee) && #[trigger] embed_url(histories@, tt, mm, ee)
                == Some(u);
        assert(embed_url(histories@, tt, mm, ee) is Some);
    }
    r
}

} // verus!

verus! {

/// Whether the link of `e` is among `sent`.
pub open spec fn is_posted(sent: Seq<Seq<char>>, e: Event) -> bool {
    sent.contains(e.link@)
}

/// The events of `candidates` whose link is not among `sent`, in order.
pub open spec fn unsent(candidates: Seq<Event>, sent: Seq<Seq<char>>) -> Seq<Event> {
    candidates.filter(not_posted(sent))
}

/// Whether an event's link is not among `sent`.
pub open spec fn not_posted(sent: Seq<Seq<char>>) -> spec_fn(Event) -> bool {
    |e: Event| !is_posted(sent, e)
}

/// The events of `candidates` whose link is among `sent`.
pub open spec fn already_posted(candidates: Seq<Event>, sent: Seq<Seq<char>>) -> Seq<Event> {
    candidates.filter(|e: Event| is_posted(sent, e))
}

fn is_sent(sent: &Vec<String>, link: &String) -> (b: bool)
    ensures
        b == views(sent@).contains(link@),
{
    let mut i: usize = 0;
    while i < sent.len()
        invariant
            i <= sent@.len(),
            forall|k: int| 0 <= k < i ==> sent@[k]@ != link@,
        decreases sent@.len() - i,
    {
        if same_text(sent[i].as_str(), link.as_str()) {
            assert(views(sent@)[i as int] == link@);
            return true;
        }
        i = i + 1;
    }
    assert forall|k: int| 0 <= k < views(sent@).len() implies views(sent@)[k] != link@ by {
        assert(views(sent@)[k] == sent@[k]@);
    }
    false
}

/// The events of `candidates` that were never posted: those whose link is
/// not among `sent`, the links of the posted events.
pub fn filter_unsent(candidates: Vec<Event>, sent: &Vec<String>) -> (r: Vec<Event>)
    ensures
        r@ == unsent(candidates@, views(sent@)),
{
    let ghost all = candidates@;
    let mut rest = candidates;
    let mut r: Vec<Event> = Vec::new();
    let ghost mut done: int = 0;
    assert(all.skip(0) =~= all);
    while rest.len() > 0
        invariant
            0 <= done <= all.len(),
            rest@ == all.skip(done),
            r@ + unsent(rest@, views(sent@)) == unsent(all, views(sent@)),
        decreases rest@.len(),
    {
        let ghost before = rest@;
        let e = rest.remove(0);
        proof {
            assert(before =~= seq![e] + rest@);
            rest@.lemma_filter_prepend(e, not_posted(views(sent@)));
            assert(rest@ =~= all.skip(done + 1));
            done = done + 1;
        }
        if !is_sent(sent, &e.link) {
            r.push(e);
        }
        assert(r@ + unsent(rest@, views(sent@)) =~= unsent(all, views(sent@)));
    }
    assert(unsent(rest@, views(sent@)) =~= Seq::<Event>::empty()) by {
        reveal(Seq::filter);
    }
    assert(r@ =~= unsent(all, views(sent@)));
    r
}

/// The new events of each month with the topic channel of that month:
/// `threads[i]` is the channel of the month of `events_by_month[i]`, and
/// `sent` the links of the events posted in any topic channel.
pub fn filter_new_events_by_thread(
    events_by_month: Vec<MonthBucket>,
    threads: &Vec<EventsThread>,
    sent: &Vec<String>,
) -> (r: Vec<(EventsThread, Vec<Event>)>)
    requires
        threads@.len() == events_by_month@.len(),
    ensures
        r@.len() == events_by_month@.len(),
        forall|i: int|
            0 <= i < r@.len() ==> (#[trigger] r@[i]).0 == threads@[i] && r@[i].1@ == unsent(
                events_by_month@[i].events@,
                views(sent@),
            ),
{
    let ghost all = events_by_month@;
    let mut rest = events_by_month;
    let mut r: Vec<(EventsThread, Vec<Event>)> = Vec::new();
    while rest.len() > 0
        invariant
            r@.len() + rest@.len() == all.len(),
            threads@.len() == all.len(),
            rest@ == all.skip(r@.len() as int),
            forall|i: int|
                0 <= i < r@.len() ==> (#[trigger] r@[i]).0 == threads@[i] && r@[i].1@ == unsent(
                    all[i].events@,
                    views(sent@),
                ),
        decreases rest@.len(),
    {
        let ghost before = rest@;
        let bucket = rest.remove(0);
        assert(rest@ =~= all.skip((r@.len() + 1) as int));
        assert(bucket == all[r@.len() as int]);
        let i = r.len();
        let kept = filter_unsent(bucket.events, sent);
        r.push((threads[i], kept));
    }
    r
}

/// Filtering keeps exactly the candidates that were not posted: of `M`
/// candidates, `k` of which share their link with a posted event, `M - k`
/// remain, and all `M` when none does.
pub proof fn lemma_dedup_count(candidates: Seq<Event>, sent: Seq<Seq<char>>)
    ensures
        unsent(candidates, sent).len() == candidates.len() - already_posted(candidates, sent).len(),
        already_posted(candidates, sent).len() == 0 ==> unsent(candidates, sent) == candidates,
    decreases candidates.len(),
{
    reveal(Seq::filter);
    if candidates.len() > 0 {
        lemma_dedup_count(candidates.drop_last(), sent);
        if already_posted(candidates, sent).len() == 0 {
            assert(!is_posted(sent, candidates.last()));
            assert(candidates.drop_last().push(candidates.last()) =~= candidates);
        }
    } else {
        assert(unsent(candidates, sent) =~= candidates);
    }
}

} // verus!

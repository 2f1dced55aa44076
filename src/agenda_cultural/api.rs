//! The agenda's events grouped by month, the text of an event's page, and
//! the addresses the agenda is asked at.
use crate::agenda_cultural::model::{Category, Event, MonthBucket, lower_of, lowercase};
use crate::calendar::{CivilDate, has_month, insert_month, is_month_list};
use crate::text::{
    chars_of, concat, concat_all, has_prefix, matches_at, parse_u32, parsed_integer, replace_all,
    replaced, string_of, views,
};
use vstd::prelude::*;

verus! {

/// The address of the agenda's event API.
pub const AGENDA_EVENTS_URL: &'static str = "https://www.agendalx.pt/wp-json/agendalx/v1/events";

/// The address of an agenda page by the id of its event.
pub const AGENDA_PAGE_BY_ID_PATH: &'static str = "https://www.agendalx.pt/?p=";

/// How many events to ask for when the caller sets no limit.
pub const ALL_EVENTS_PAGE_SIZE: i32 = 50000;

/// Access to the city's cultural agenda.
pub struct AgendaCulturalAPI;

/// Why the agenda's answer was not used.
#[derive(Debug, Clone, Copy, PartialEq, Eq)]
pub enum APIError {
    InvalidResponse,
}

/// `s` without its HTML tags, as voca_rs's `strip::strip_tags` gives it.
pub uninterp spec fn tags_stripped(s: Seq<char>) -> Seq<char>;

/// Relies on `voca_rs::strip::strip_tags`: its result depends on the text
/// alone, and is empty for an empty text.
#[verifier::external_body]
fn strip_tags(s: &str) -> (r: String)
    ensures
        r@ == tags_stripped(s@),
        s@.len() == 0 ==> r@.len() == 0,
{
    voca_rs::strip::strip_tags(s)
}

/// The inner HTML of the elements of the page `page` that hold the parts of
/// an event's full description (`.entry-container > :not([class])`), in
/// document order.
pub uninterp spec fn description_fragments_of(page: Seq<char>) -> Seq<Seq<char>>;

/// Relies on scraper's `Html::parse_fragment` and `Html::select`: the inner
/// HTML of each element of `page` that `.entry-container > :not([class])`
/// selects, in document order.
#[verifier::external_body]
fn description_fragments(page: &str) -> (r: Vec<String>)
    ensures
        views(r@) == description_fragments_of(page@),
{
    let selector = scraper::Selector::parse(".entry-container > :not([class])").unwrap();
    let html = scraper::Html::parse_fragment(page);
    html.select(&selector).map(|p| p.inner_html()).collect()
}

/// The `href` of the first short link of the agenda page `page`
/// (`link[rel="shortlink"]` whose address starts with the page-by-id
/// address), if it has one.
pub uninterp spec fn shortlink_href_of(page: Seq<char>) -> Option<Seq<char>>;

/// Relies on scraper's `Html::parse_fragment`, `Html::select` and
/// `ElementRef::attr`: the `href` of the first element of `page` that
/// `link[rel="shortlink"][href^="https://www.agendalx.pt/?p="]` selects.
#[verifier::external_body]
fn first_shortlink_href(page: &str) -> (r: Option<String>)
    ensures
        match r {
            Some(h) => shortlink_href_of(page@) == Some(h@),
            None => shortlink_href_of(page@) is None,
        },
{
    let selector = scraper::Selector::parse(
        r#"link[rel="shortlink"][href^="https://www.agendalx.pt/?p="]"#,
    ).unwrap();
    let html = scraper::Html::parse_fragment(page);
    html.select(&selector).next().and_then(|e| e.attr("href")).map(|h| h.to_string())
}

/// `items` one after the other, with `sep` between each two.
pub open spec fn joined(items: Seq<Seq<char>>, sep: Seq<char>) -> Seq<char>
    decreases items.len(),
{
    if items.len() == 0 {
        Seq::empty()
    } else if items.len() == 1 {
        items[0]
    } else {
        joined(items.drop_last(), sep) + sep + items.last()
    }
}

fn join(items: &Vec<String>, sep: &str) -> (r: String)
    ensures
        r@ == joined(views(items@), sep@),
{
    let mut r = String::new();
    let mut i: usize = 0;
    while i < items.len()
        invariant
            i <= items@.len(),
            r@ == joined(views(items@).take(i as int), sep@),
        decreases items@.len() - i,
    {
        if i > 0 {
            r.append(sep);
        }
        r.append(items[i].as_str());
        assert(views(items@).take(i + 1).drop_last() =~= views(items@).take(i as int));
        i = i + 1;
    }
    assert(views(items@).take(i as int) =~= views(items@));
    r
}

/// A description made readable: without HTML tags, and with each `&nbsp;`
/// written as a space.
pub open spec fn cleaned(description: Seq<char>) -> Seq<char> {
    replaced(tags_stripped(description), "&nbsp;"@, " "@)
}

/// The full description of an event from the parts of its page that hold
/// it: the parts cleaned and joined by blank lines; none when the page has
/// no such part.
pub open spec fn full_description(fragments: Seq<Seq<char>>) -> Option<Seq<char>> {
    if fragments.len() == 0 {
        None
    } else {
        Some(cleaned(joined(fragments, "\n\n"@)))
    }
}

/// The id of an agenda event from the `href` of its page's short link: the
/// number after the page-by-id address.
pub open spec fn shortlink_id(href: Seq<char>) -> Option<int> {
    if has_prefix(href, AGENDA_PAGE_BY_ID_PATH@) {
        parsed_integer(href.skip(AGENDA_PAGE_BY_ID_PATH@.len() as int), false, 0, u32::MAX as int)
    } else {
        None
    }
}

/// The address at which the agenda lists the events of a category.
pub open spec fn events_query(amount_per_page: Option<i32>, category: Category) -> Seq<char> {
    let amount = match amount_per_page {
        Some(a) => a as int,
        None => ALL_EVENTS_PAGE_SIZE as int,
    };
    let name = match category {
        Category::Teatro => "Teatro"@,
        Category::Artes => "Artes"@,
    };
    AGENDA_EVENTS_URL@ + "?per_page="@ + crate::text::signed_decimal(amount) + "&categories="@
        + lower_of(name) + "&type=event"@
}

impl AgendaCulturalAPI {
    /// `description` without HTML tags and with `&nbsp;` as spaces.
    pub fn clean_description(description: &str) -> (r: String)
        ensures
            r@ == cleaned(description@),
    {
        let stripped = strip_tags(description);
        Self::clean_stripped_description(stripped.as_str())
    }

    /// A description already without HTML tags, with `&nbsp;` as spaces.
    pub fn clean_stripped_description(stripped: &str) -> (r: String)
        ensures
            r@ == replaced(stripped@, "&nbsp;"@, " "@),
    {
        proof {
            reveal_strlit("&nbsp;");
        }
        replace_all(stripped, "&nbsp;", " ")
    }

    /// The full description of an event from its agenda page `full_page`.
    pub fn extract_full_description(full_page: &str) -> (r: Option<String>)
        ensures
            match r {
                Some(d) => full_description(description_fragments_of(full_page@)) == Some(d@),
                None => full_description(description_fragments_of(full_page@)) is None,
            },
    {
        let fragments = description_fragments(full_page);
        Self::full_description_from(&fragments)
    }

    /// The full description of an event from the parts of its page that
    /// hold it.
    pub fn full_description_from(fragments: &Vec<String>) -> (r: Option<String>)
        ensures
            match r {
                Some(d) => full_description(views(fragments@)) == Some(d@),
                None => full_description(views(fragments@)) is None,
            },
    {
        if fragments.len() == 0 {
            return None;
        }
        let joined_text = join(fragments, "\n\n");
        Some(Self::clean_description(joined_text.as_str()))
    }

    /// The description to post for an event: its full description when its
    /// page gave one, else its cleaned preview description.
    pub fn description_or_preview(full: Option<String>, preview: &Vec<String>) -> (r: String)
        ensures
            match full {
                Some(d) => r == d,
                None => r@ == cleaned(concat_all(views(preview@))),
            },
    {
        match full {
            Some(d) => d,
            None => {
                let joined_preview = concat(preview);
                Self::clean_description(joined_preview.as_str())
            },
        }
    }

    /// The id of an agenda event from the `href` of its page's short link.
    pub fn event_id_from_shortlink(href: &str) -> (r: Option<u32>)
        ensures
            match r {
                Some(id) => shortlink_id(href@) == Some(id as int),
                None => shortlink_id(href@) is None,
            },
    {
        let cs = chars_of(href);
        let prefix = chars_of(AGENDA_PAGE_BY_ID_PATH);
        assert(cs@.skip(0) =~= cs@);
        if !matches_at(cs.as_slice(), 0, prefix.as_slice()) {
            return None;
        }
        let rest = &cs.as_slice()[prefix.len()..cs.len()];
        assert(rest@ =~= href@.skip(AGENDA_PAGE_BY_ID_PATH@.len() as int));
        let rest_text = string_of(rest);
        parse_u32(rest_text.as_str())
    }

    /// The id of the event whose agenda page is `page`.
    pub fn event_id_of_page(page: &str) -> (r: Option<u32>)
        ensures
            match r {
                Some(id) => shortlink_href_of(page@) matches Some(h) && shortlink_id(h) == Some(
                    id as int,
                ),
                None => shortlink_href_of(page@) matches Some(h) ==> shortlink_id(h) is None,
            },
    {
        match first_shortlink_href(page) {
            Some(href) => Self::event_id_from_shortlink(href.as_str()),
            None => None,
        }
    }

    /// The address at which the agenda lists up to `amount_per_page` events
    /// (all when none is given) of `category`.
    pub fn events_query_url(amount_per_page: Option<i32>, category: &Category) -> (r: String)
        ensures
            r@ == events_query(amount_per_page, *category),
    {
        let amount: i32 = match amount_per_page {
            Some(a) => a,
            None => ALL_EVENTS_PAGE_SIZE,
        };
        let mut r = String::from_str(AGENDA_EVENTS_URL);
        r.append("?per_page=");
        crate::text::push_signed_decimal(&mut r, amount as i64);
        r.append("&categories=");
        let name = lowercase(category.as_str());
        r.append(name.as_str());
        r.append("&type=event");
        r
    }
}

} // verus!

verus! {

/// The month number that an event starting on `start` is grouped under:
/// its start's month, or the month of `today` when its start is not known.
pub open spec fn entry_month(start: Option<CivilDate>, today: CivilDate) -> int {
    match start {
        Some(d) => d.month_number(),
        None => today.month_number(),
    }
}

/// The events of `entries` grouped under the month numbered `n`, in order.
pub open spec fn events_of_month(
    entries: Seq<(Option<CivilDate>, Event)>,
    today: CivilDate,
    n: int,
) -> Seq<Event>
    decreases entries.len(),
{
    if entries.len() == 0 {
        Seq::empty()
    } else {
        let last = if entry_month(entries.last().0, today) == n {
            seq![entries.last().1]
        } else {
            Seq::empty()
        };
        events_of_month(entries.drop_last(), today, n) + last
    }
}

/// Whether the grouping of `entries` has a bucket for the month numbered
/// `n`: some event falls in it, or it lies between the month of `today` and
/// the month of the last dated event (the coming months are all listed).
pub open spec fn is_bucket_month(
    entries: Seq<(Option<CivilDate>, Event)>,
    today: CivilDate,
    n: int,
) -> bool {
    ||| exists|i: int| 0 <= i < entries.len() && entry_month(#[trigger] entries[i].0, today) == n
    ||| today.month_number() <= n && exists|i: int|
        0 <= i < entries.len() && starts_no_earlier(#[trigger] entries[i].0, n)
}

/// Whether `start` is known and its month is numbered `n` or later.
pub open spec fn starts_no_earlier(start: Option<CivilDate>, n: int) -> bool {
    match start {
        Some(d) => n <= d.month_number(),
        None => false,
    }
}

/// Whether `start` is known and in the month numbered `n`.
pub open spec fn starts_in_month(start: Option<CivilDate>, n: int) -> bool {
    match start {
        Some(d) => d.month_number() == n,
        None => false,
    }
}

/// Whether every known start in `entries` is a valid day.
pub open spec fn starts_valid(entries: Seq<(Option<CivilDate>, Event)>) -> bool {
    forall|i: int|
        0 <= i < entries.len() ==> ((#[trigger] entries[i].0) matches Some(d) ==> d.is_valid())
}

/// The months of `buckets`.
pub open spec fn bucket_months(buckets: Seq<MonthBucket>) -> Seq<CivilDate> {
    buckets.map_values(|b: MonthBucket| b.month)
}

impl AgendaCulturalAPI {
    /// The events of `entries`, each with its start day if known, grouped by
    /// month in ascending order of month, with today's date `today`: an
    /// event goes to its start's month, or to today's month when its start
    /// is not known, and every month from today's to the last start's has a
    /// bucket, empty or not.
    pub fn group_events_by_month(
        entries: Vec<(Option<CivilDate>, Event)>,
        today: CivilDate,
    ) -> (r: Vec<MonthBucket>)
        requires
            starts_valid(entries@),
            today.is_valid(),
        ensures
            is_month_list(bucket_months(r@)),
            forall|n: int|
                has_month(bucket_months(r@), n) <==> is_bucket_month(entries@, today, n),
            forall|b: int|
                0 <= b < r@.len() ==> (#[trigger] r@[b]).events@ == events_of_month(
                    entries@,
                    today,
                    r@[b].month.month_number(),
                ),
    {
        let ghost all = entries@;
        let this_month = today.first_of_month();
        let mut months: Vec<CivilDate> = Vec::new();
        let mut last: Option<CivilDate> = None;
        let mut i: usize = 0;
        while i < entries.len()
            invariant
                i <= entries@.len(),
                entries@ == all,
                starts_valid(all),
                today.is_valid(),
                this_month.is_valid() && this_month.day == 1,
                this_month.month_number() == today.month_number(),
                is_month_list(months@),
                forall|n: int|
                    has_month(months@, n) <==> exists|k: int|
                        0 <= k < i && entry_month(#[trigger] all[k].0, today) == n,
                match last {
                    Some(l) => {
                        &&& l.is_valid()
                        &&& exists|k: int|
                            0 <= k < i && starts_in_month(#[trigger] all[k].0, l.month_number())
                        &&& forall|k: int|
                            0 <= k < i ==> ((#[trigger] all[k].0) matches Some(d) ==> d.month_number()
                                <= l.month_number())
                    },
                    None => forall|k: int| 0 <= k < i ==> (#[trigger] all[k].0) is None,
                },
            decreases entries@.len() - i,
        {
            let m = match &entries[i].0 {
                Some(d) => {
                    let later = match last {
                        Some(l) => !d.same_or_earlier_month(&l),
                        None => true,
                    };
                    if later {
                        last = Some(*d);
                    }
                    d.first_of_month()
                },
                None => this_month,
            };
            assert(m.month_number() == entry_month(all[i as int].0, today));
            insert_month(&mut months, m);
            i = i + 1;
        }
        match last {
            Some(l) => {
                proof {
                    let k = choose|k: int|
                        0 <= k < i && starts_in_month(#[trigger] all[k].0, l.month_number());
                }
                if this_month.same_or_earlier_month(&l) {
                    let mut cur = this_month;
                    let mut done = false;
                    let ghost mut upto: int = today.month_number();
                    while !done
                        invariant
                            is_month_list(months@),
                            l.is_valid(),
                            cur.is_valid() && cur.day == 1,
                            today.month_number() <= cur.month_number() <= l.month_number(),
                            !done ==> upto == cur.month_number(),
                            done ==> upto == l.month_number() + 1,
                            forall|n: int|
                                has_month(months@, n) <==> ((exists|k: int|
                                    0 <= k < all.len() && entry_month(#[trigger] all[k].0, today)
                                        == n) || (today.month_number() <= n < upto)),
                        decreases (l.month_number() - cur.month_number()) * 2 + if done {
                            0int
                        } else {
                            1int
                        },
                    {
                        insert_month(&mut months, cur);
                        proof {
                            upto = cur.month_number() + 1;
                        }
                        if cur.same_month(&l) {
                            done = true;
                        } else {
                            match cur.next_month_start() {
                                Some(next) => cur = next,
                                None => {
                                    done = true;
                                },
                            }
                        }
                    }
                }
                assert forall|n: int| has_month(months@, n) <==> is_bucket_month(all, today, n) by {
                    if today.month_number() <= n && exists|k: int| 0 <= k < all.len() && starts_no_earlier(#[trigger] all[k].0, n) {
                        let k = choose|k: int| 0 <= k < all.len() && starts_no_earlier(#[trigger] all[k].0, n);
                        assert(all[k].0->0.month_number() <= l.month_number());
                    }
                    if today.month_number() <= n <= l.month_number() {
                        let k = choose|k: int| 0 <= k < all.len() && starts_in_month(#[trigger] all[k].0, l.month_number());
                        assert(starts_no_earlier(all[k].0, n));
                    }
                }
            },
            None => {
                assert forall|n: int| has_month(months@, n) <==> is_bucket_month(all, today, n) by {
                    if exists|k: int| 0 <= k < all.len() && starts_no_earlier(#[trigger] all[k].0, n) {
                        let k = choose|k: int| 0 <= k < all.len() && starts_no_earlier(#[trigger] all[k].0, n);
                        assert(all[k].0 is None);
                    }
                }
            },
        }
        let mut buckets: Vec<MonthBucket> = Vec::new();
        let mut j: usize = 0;
        while j < months.len()
            invariant
                j <= months@.len(),
                bucket_months(buckets@) == months@.take(j as int),
                forall|b: int|
                    0 <= b < buckets@.len() ==> (#[trigger] buckets@[b]).events@ == Seq::<Event>::empty(),
            decreases months@.len() - j,
        {
            let ghost old_buckets = buckets@;
            buckets.push(MonthBucket { month: months[j], events: Vec::new() });
            assert(bucket_months(buckets@) =~= bucket_months(old_buckets).push(months@[j as int]));
            j = j + 1;
            assert(bucket_months(buckets@) =~= months@.take(j as int));
        }
        assert(months@.take(j as int) =~= months@);
        let mut rest = entries;
        let ghost mut done_count: int = 0;
        assert(all.skip(0) =~= all);
        assert forall|b: int| 0 <= b < buckets@.len() implies (#[trigger] buckets@[b]).events@
            == events_of_month(all.take(0), today, buckets@[b].month.month_number()) by {
            assert(all.take(0) =~= Seq::<(Option<CivilDate>, Event)>::empty());
        }
        while rest.len() > 0
            invariant
                0 <= done_count <= all.len(),
                rest@ == all.skip(done_count),
                starts_valid(all),
                this_month.is_valid() && this_month.day == 1,
                this_month.month_number() == today.month_number(),
                is_month_list(months@),
                bucket_months(buckets@) == months@,
                forall|n: int| has_month(months@, n) <==> is_bucket_month(all, today, n),
                forall|b: int|
                    0 <= b < buckets@.len() ==> (#[trigger] buckets@[b]).events@ == events_of_month(
                        all.take(done_count),
                        today,
                        buckets@[b].month.month_number(),
                    ),
            decreases rest@.len(),
        {
            let ghost before = rest@;
            let (start, event) = rest.remove(0);
            let ghost entry = all[done_count];
            assert(before[0] == entry);
            let m = match start {
                Some(d) => d.first_of_month(),
                None => this_month,
            };
            assert(m.month_number() == entry_month(entry.0, today));
            assert(has_month(months@, m.month_number())) by {
                assert(0 <= done_count < all.len() && entry_month(all[done_count].0, today) == m.month_number());
            }
            let k = month_index(&months, &m);
            let mut bucket = buckets.remove(k);
            bucket.events.push(event);
            buckets.insert(k, bucket);
            proof {
                let grown = all.take(done_count + 1);
                assert(grown.drop_last() =~= all.take(done_count));
                assert(grown.last() == entry);
                assert forall|b: int| 0 <= b < buckets@.len() implies (#[trigger] buckets@[b]).events@
                    == events_of_month(grown, today, buckets@[b].month.month_number()) by {
                    if b != k {
                        assert(bucket_months(buckets@)[b] == buckets@[b].month);
                        assert(months@[b].month_number() != months@[k as int].month_number());
                    }
                }
                assert(bucket_months(buckets@) =~= months@);
                assert(rest@ =~= all.skip(done_count + 1));
                done_count = done_count + 1;
            }
        }
        assert(all.take(done_count) =~= all);
        buckets
    }
}

/// The position of the month of `m` in the month list `months`.
fn month_index(months: &Vec<CivilDate>, m: &CivilDate) -> (k: usize)
    requires
        is_month_list(months@),
        m.is_valid(),
        has_month(months@, m.month_number()),
    ensures
        k < months@.len(),
        months@[k as int].month_number() == m.month_number(),
{
    let mut i: usize = 0;
    while i < months.len()
        invariant
            i <= months@.len(),
            is_month_list(months@),
            m.is_valid(),
            forall|j: int| 0 <= j < i ==> (#[trigger] months@[j]).month_number() != m.month_number(),
        decreases months@.len() - i,
    {
        if months[i].same_month(m) {
            return i;
        }
        i = i + 1;
    }
    proof {
        let j = choose|j: int| 0 <= j < months@.len() && (#[trigger] months@[j]).month_number() == m.month_number();
        assert(false);
    }
    0
}

} // verus!

verus! {

impl AgendaCulturalAPI {
    /// The events of `entries` grouped by month, as of today (UTC): whatever
    /// today is, the grouping is the one `group_events_by_month` gives for it.
    pub fn parse_events_by_date(entries: Vec<(Option<CivilDate>, Event)>) -> (r: Vec<MonthBucket>)
        requires
            starts_valid(entries@),
        ensures
            exists|today: CivilDate|
                today.is_valid() && is_month_list(bucket_months(r@)) && (forall|n: int|
                    has_month(bucket_months(r@), n) <==> is_bucket_month(entries@, today, n)) && (
                forall|b: int|
                    0 <= b < r@.len() ==> (#[trigger] r@[b]).events@ == events_of_month(
                        entries@,
                        today,
                        r@[b].month.month_number(),
                    )),
    {
        let today = crate::calendar::today_utc();
        let ghost all = entries@;
        let r = Self::group_events_by_month(entries, today);
        assert(today.is_valid() && is_month_list(bucket_months(r@)));
        r
    }
}

} // verus!

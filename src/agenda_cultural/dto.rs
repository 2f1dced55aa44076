//! The agenda API's answer for an event, as plain values, and how it
//! becomes an `Event`.
use crate::agenda_cultural::model::{Event, EventDetails, Schedule, has_children_tag, lowered_all};
use crate::calendar::CivilDate;
use crate::text::{concat, concat_all, same_text, views};
use vstd::prelude::*;

verus! {

#[derive(Debug, Clone)]
pub struct ResponseTitle {
    pub rendered: String,
}

#[derive(Debug, Clone)]
pub struct ResponseVenue {
    pub name: String,
}

#[derive(Debug, Clone)]
pub struct ResponseEventTag {
    pub name: String,
}

/// An event as the agenda API describes it.
#[derive(Debug, Clone)]
pub struct EventResponse {
    pub title: ResponseTitle,
    /// The subtitle, in the pieces the API gives it in.
    pub subtitle: Vec<String>,
    /// The preview description, in pieces.
    pub description: Vec<String>,
    pub featured_media_large: String,
    pub link: String,
    pub string_dates: String,
    pub string_times: String,
    /// The first day of the event; none when the API gave no date or one
    /// that is not a `YYYY-MM-DD` day.
    pub start_date: Option<CivilDate>,
    /// The venues, by key, in the order of their keys.
    pub venue: Vec<(String, ResponseVenue)>,
    /// The tags, by key, in the order of their keys.
    pub tags: Vec<(String, ResponseEventTag)>,
}

/// The agenda API's answer for one event.
#[derive(Debug, Clone)]
pub struct SingleEventResponse {
    pub event: EventResponse,
}

/// The years that the pattern ` *?(\d{4}) *?` captures in `s`, in order.
pub uninterp spec fn years_in(s: Seq<char>) -> Seq<Seq<char>>;

/// `s` with every match of the pattern ` *?(\d{4}) *?` removed.
pub uninterp spec fn years_removed(s: Seq<char>) -> Seq<char>;

/// Relies on `regex::Regex::captures_iter`: the first group of each match
/// of ` *?(\d{4}) *?` in `s`, in order.
#[verifier::external_body]
fn year_captures(s: &str) -> (r: Vec<String>)
    ensures
        views(r@) == years_in(s@),
{
    let pattern = regex::Regex::new(r" *?(\d{4}) *?").unwrap();
    pattern.captures_iter(s).map(|c| c[1].to_string()).collect()
}

/// Relies on `regex::Regex::replace_all`: `s` with each match of
/// ` *?(\d{4}) *?` replaced by nothing.
#[verifier::external_body]
fn strip_years(s: &str) -> (r: String)
    ensures
        r@ == years_removed(s@),
{
    let pattern = regex::Regex::new(r" *?(\d{4}) *?").unwrap();
    pattern.replace_all(s, "").to_string()
}

/// Whether all of `years` are the same year.
pub open spec fn all_same(years: Seq<Seq<char>>) -> bool {
    forall|i: int| 0 <= i < years.len() ==> #[trigger] years[i] == years[0]
}

/// The dates of an event as they are shown, from the agenda's text
/// `dates`, the years written in it and the text without them: without the
/// years, unless two or more different years are written.
pub open spec fn date_description(
    dates: Seq<char>,
    years: Seq<Seq<char>>,
    stripped: Seq<char>,
) -> Seq<char> {
    if years.len() >= 2 && !all_same(years) {
        dates
    } else {
        stripped
    }
}

/// The dates to show for the agenda's text `dates`, given the years written
/// in it and the text without them.
pub fn date_description_from(dates: &str, years: &Vec<String>, stripped: String) -> (r: String)
    ensures
        r@ == date_description(dates@, views(years@), stripped@),
{
    if years.len() >= 2 {
        let mut i: usize = 1;
        while i < years.len()
            invariant
                1 <= i <= years@.len(),
                forall|k: int| 0 <= k < i ==> #[trigger] years@[k]@ == years@[0]@,
            decreases years@.len() - i,
        {
            if !same_text(years[i].as_str(), years[0].as_str()) {
                assert(views(years@)[i as int] != views(years@)[0]);
                return String::from_str(dates);
            }
            i = i + 1;
        }
        assert forall|k: int| 0 <= k < views(years@).len() implies #[trigger] views(years@)[k]
            == views(years@)[0] by {
            assert(views(years@)[k] == years@[k]@);
        }
    }
    stripped
}

impl EventResponse {
    /// The dates to show for the agenda's text `schedule_dates`: the year is
    /// left out unless the dates span different years.
    pub fn get_date_description(schedule_dates: &str) -> (r: String)
        ensures
            r@ == date_description(
                schedule_dates@,
                years_in(schedule_dates@),
                years_removed(schedule_dates@),
            ),
    {
        let years = year_captures(schedule_dates);
        let stripped = strip_years(schedule_dates);
        date_description_from(schedule_dates, &years, stripped)
    }
}

/// The name of the first venue of `venues` with a name, or nothing.
pub open spec fn venue_name(venues: Seq<(String, ResponseVenue)>) -> Seq<char>
    decreases venues.len(),
{
    if venues.len() == 0 {
        Seq::empty()
    } else if venues[0].1.name@.len() > 0 {
        venues[0].1.name@
    } else {
        venue_name(venues.drop_first())
    }
}

/// The names of `tags`, in order.
pub open spec fn tag_names(tags: Seq<(String, ResponseEventTag)>) -> Seq<Seq<char>> {
    tags.map_values(|t: (String, ResponseEventTag)| t.1.name@)
}

fn first_venue_name(venues: &Vec<(String, ResponseVenue)>) -> (r: String)
    ensures
        r@ == venue_name(venues@),
{
    let mut i: usize = 0;
    assert(venues@.skip(0) =~= venues@);
    while i < venues.len()
        invariant
            i <= venues@.len(),
            venue_name(venues@.skip(i as int)) == venue_name(venues@),
        decreases venues@.len() - i,
    {
        assert(venues@.skip(i as int).drop_first() =~= venues@.skip(i + 1));
        assert(venues@.skip(i as int)[0] == venues@[i as int]);
        if venues[i].1.name.unicode_len() > 0 {
            return venues[i].1.name.clone();
        }
        i = i + 1;
    }
    String::new()
}

impl EventResponse {
    /// The event that this answer describes, with the full description
    /// `description`.
    pub fn to_model(&self, description: String) -> (r: Event)
        ensures
            r.title@ == self.title.rendered@,
            r.details.subtitle@ == concat_all(views(self.subtitle@)),
            r.details.description == description,
            r.details.image_url@ == self.featured_media_large@,
            r.link@ == self.link@,
            r.occurring_at.dates@ == date_description(
                self.string_dates@,
                years_in(self.string_dates@),
                years_removed(self.string_dates@),
            ),
            r.occurring_at.times@ == self.string_times@,
            r.venue@ == venue_name(self.venue@),
            views(r.tags@) == tag_names(self.tags@),
            r.is_for_children == has_children_tag(lowered_all(r.tags@)),
    {
        let subtitle = concat(&self.subtitle);
        let mut tags: Vec<String> = Vec::new();
        let mut i: usize = 0;
        while i < self.tags.len()
            invariant
                i <= self.tags@.len(),
                tags@.len() == i,
                forall|k: int| 0 <= k < i ==> #[trigger] tags@[k]@ == self.tags@[k].1.name@,
            decreases self.tags@.len() - i,
        {
            tags.push(self.tags[i].1.name.clone());
            i = i + 1;
        }
        assert(views(tags@) =~= tag_names(self.tags@));
        Event::new(
            self.title.rendered.clone(),
            EventDetails::new(subtitle, description, self.featured_media_large.clone()),
            self.link.clone(),
            Schedule::new(
                Self::get_date_description(self.string_dates.as_str()),
                self.string_times.clone(),
            ),
            first_venue_name(&self.venue),
            tags,
        )
    }
}

/// The day that the agenda's text `s` writes as `YYYY-MM-DD`, as chrono
/// reads it.
pub uninterp spec fn iso_date_of(s: Seq<char>) -> Option<(int, int, int)>;

/// Relies on chrono's `NaiveDate::parse_from_str` with the format
/// `%Y-%m-%d`: a date it gives back is a valid day.
#[verifier::external_body]
fn parse_iso_date(s: &str) -> (r: Option<CivilDate>)
    ensures
        match r {
            Some(d) => d.is_valid() && iso_date_of(s@) == Some(
                (d.year as int, d.month as int, d.day as int),
            ),
            None => iso_date_of(s@) is None,
        },
{
    match chrono::NaiveDate::parse_from_str(s, "%Y-%m-%d") {
        Ok(d) => Some(CivilDate {
            year: chrono::Datelike::year(&d),
            month: chrono::Datelike::month(&d),
            day: chrono::Datelike::day(&d),
        }),
        Err(_) => None,
    }
}

/// The start date of an event from the agenda's text `s`: none for an
/// empty text or one that is not a day.
pub fn parse_start_date(s: &str) -> (r: Option<CivilDate>)
    ensures
        s@.len() == 0 ==> r is None,
        s@.len() > 0 ==> match r {
            Some(d) => d.is_valid() && iso_date_of(s@) == Some(
                (d.year as int, d.month as int, d.day as int),
            ),
            None => iso_date_of(s@) is None,
        },
{
    if s.unicode_len() == 0 {
        None
    } else {
        parse_iso_date(s)
    }
}

} // verus!

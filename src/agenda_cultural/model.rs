//! An event of the agenda.
use crate::text::{views, same_text};
use vstd::prelude::*;

verus! {

/// The tag of events for children.
pub const CHILDREN_TAG: &'static str = "crianças";

/// An event: its identity is `link`.
#[derive(Debug, Clone)]
pub struct Event {
    pub title: String,
    pub details: EventDetails,
    pub link: String,
    pub occurring_at: Schedule,
    pub venue: String,
    pub tags: Vec<String>,
    pub is_for_children: bool,
}

#[derive(Debug, Clone)]
pub struct EventDetails {
    pub subtitle: String,
    pub description: String,
    pub image_url: String,
}

/// When an event takes place, in Portuguese.
#[derive(Debug, Clone)]
pub struct Schedule {
    pub dates: String,
    pub times: String,
}

/// The agenda's categories that the bot follows.
#[derive(Debug, Copy, Clone, PartialEq, Eq, Structural)]
pub enum Category {
    Teatro,
    Artes,
}

impl Category {
    /// The name of the category.
    pub fn as_str(&self) -> (r: &'static str)
        ensures
            r@ == (match self {
                Category::Teatro => "Teatro"@,
                Category::Artes => "Artes"@,
            }),
    {
        match self {
            Category::Teatro => "Teatro",
            Category::Artes => "Artes",
        }
    }
}

/// The lower-case form of `s`, as `str::to_lowercase` gives it.
pub uninterp spec fn lower_of(s: Seq<char>) -> Seq<char>;

/// Relies on `str::to_lowercase`: its result depends on the characters
/// alone.
#[verifier::external_body]
pub(crate) fn lowercase(s: &str) -> (r: String)
    ensures
        r@ == lower_of(s@),
{
    s.to_lowercase()
}

/// Whether one of `lowered`, tags already in lower case, is the children's
/// tag.
pub open spec fn has_children_tag(lowered: Seq<Seq<char>>) -> bool {
    exists|i: int| 0 <= i < lowered.len() && lowered[i] == CHILDREN_TAG@
}

/// Whether one of `lowered_tags`, tags already in lower case, is the
/// children's tag.
pub fn is_children_tag_among(lowered_tags: &Vec<String>) -> (r: bool)
    ensures
        r == has_children_tag(views(lowered_tags@)),
{
    let mut i: usize = 0;
    while i < lowered_tags.len()
        invariant
            i <= lowered_tags@.len(),
            forall|k: int| 0 <= k < i ==> lowered_tags@[k]@ != CHILDREN_TAG@,
        decreases lowered_tags@.len() - i,
    {
        if same_text(lowered_tags[i].as_str(), CHILDREN_TAG) {
            assert(views(lowered_tags@)[i as int] == CHILDREN_TAG@);
            return true;
        }
        i = i + 1;
    }
    assert forall|k: int| 0 <= k < views(lowered_tags@).len() implies views(lowered_tags@)[k]
        != CHILDREN_TAG@ by {
        assert(views(lowered_tags@)[k] == lowered_tags@[k]@);
    }
    false
}

/// The lower-case forms of `tags`.
pub open spec fn lowered_all(tags: Seq<String>) -> Seq<Seq<char>> {
    tags.map_values(|t: String| lower_of(t@))
}

impl Event {
    /// An event; it is for children when one of its tags, in lower case, is
    /// "crianças".
    pub fn new(
        title: String,
        details: EventDetails,
        link: String,
        occurring_at: Schedule,
        venue: String,
        tags: Vec<String>,
    ) -> (r: Self)
        ensures
            r.title == title,
            r.details == details,
            r.link == link,
            r.occurring_at == occurring_at,
            r.venue == venue,
            r.tags == tags,
            r.is_for_children == has_children_tag(lowered_all(tags@)),
    {
        let mut lowered: Vec<String> = Vec::new();
        let mut i: usize = 0;
        while i < tags.len()
            invariant
                i <= tags@.len(),
                lowered@.len() == i,
                forall|k: int| 0 <= k < i ==> #[trigger] lowered@[k]@ == lower_of(tags@[k]@),
            decreases tags@.len() - i,
        {
            lowered.push(lowercase(tags[i].as_str()));
            i = i + 1;
        }
        assert(views(lowered@) =~= lowered_all(tags@));
        let is_for_children = is_children_tag_among(&lowered);
        Self { title, details, link, occurring_at, venue, is_for_children, tags }
    }
}

impl EventDetails {
    pub fn new(subtitle: String, description: String, image_url: String) -> (r: Self)
        ensures
            r.subtitle == subtitle,
            r.description == description,
            r.image_url == image_url,
    {
        Self { subtitle, description, image_url }
    }
}

impl Schedule {
    pub fn new(dates: String, times: String) -> (r: Self)
        ensures
            r.dates == dates,
            r.times == times,
    {
        Self { dates, times }
    }
}

} // verus!

verus! {

/// The events of one month, keyed by the month's first day.
#[derive(Debug, Clone)]
pub struct MonthBucket {
    pub month: crate::calendar::CivilDate,
    pub events: Vec<Event>,
}

} // verus!

//! Plays listed by the ticket office site: the dates of a play and where it
//! is on.
use crate::calendar::{is_valid_ymd, CivilDate};
use crate::text::{parse_i32, parse_u32, parsed_integer, same_text};
use vstd::prelude::*;

verus! {

/// The address of the ticket office site.
pub const BOL_BASE_URL: &'static str = "https://www.bol.pt";

/// Where a play is on.
#[derive(Debug, Clone)]
pub struct PieceLocation {
    pub city: String,
    pub street: String,
    pub place: String,
}

/// A play on sale.
#[derive(Debug)]
pub struct Piece {
    pub name: String,
    pub url: String,
    pub thumbnail_url: String,
    pub date_range: (CivilDate, CivilDate),
    pub location: PieceLocation,
}

impl Piece {
    /// A play whose page is at `piece_path` on the site; where it is on is
    /// not known yet.
    pub fn new(
        name: &str,
        piece_path: &str,
        thumbnail_url: &str,
        date_range: (CivilDate, CivilDate),
    ) -> (r: Piece)
        ensures
            r.name@ == name@,
            r.url@ == BOL_BASE_URL@ + piece_path@,
            r.thumbnail_url@ == thumbnail_url@,
            r.date_range == date_range,
            r.location.city@.len() == 0 && r.location.street@.len() == 0 && r.location.place@.len()
                == 0,
    {
        let mut url = String::from_str(BOL_BASE_URL);
        url.append(piece_path);
        Piece {
            name: String::from_str(name),
            url,
            thumbnail_url: String::from_str(thumbnail_url),
            date_range,
            location: PieceLocation {
                city: String::new(),
                street: String::new(),
                place: String::new(),
            },
        }
    }
}

/// The number of the month that the site abbreviates as `text`.
pub open spec fn month_of_abbreviation(text: Seq<char>) -> Option<u32> {
    if text == "jan"@ {
        Some(1)
    } else if text == "fev"@ {
        Some(2)
    } else if text == "mar"@ {
        Some(3)
    } else if text == "abr"@ {
        Some(4)
    } else if text == "mai"@ {
        Some(5)
    } else if text == "jun"@ {
        Some(6)
    } else if text == "jul"@ {
        Some(7)
    } else if text == "ago"@ {
        Some(8)
    } else if text == "set"@ {
        Some(9)
    } else if text == "out"@ {
        Some(10)
    } else if text == "nov"@ {
        Some(11)
    } else if text == "dez"@ {
        Some(12)
    } else {
        None
    }
}

/// The number of the month abbreviated as `month_text` ("jan" to "dez").
pub fn parse_month(month_text: &str) -> (r: Option<u32>)
    ensures
        r == month_of_abbreviation(month_text@),
{
    if same_text(month_text, "jan") {
        Some(1)
    } else if same_text(month_text, "fev") {
        Some(2)
    } else if same_text(month_text, "mar") {
        Some(3)
    } else if same_text(month_text, "abr") {
        Some(4)
    } else if same_text(month_text, "mai") {
        Some(5)
    } else if same_text(month_text, "jun") {
        Some(6)
    } else if same_text(month_text, "jul") {
        Some(7)
    } else if same_text(month_text, "ago") {
        Some(8)
    } else if same_text(month_text, "set") {
        Some(9)
    } else if same_text(month_text, "out") {
        Some(10)
    } else if same_text(month_text, "nov") {
        Some(11)
    } else if same_text(month_text, "dez") {
        Some(12)
    } else {
        None
    }
}

/// Why a play's date could not be read.
#[derive(Debug, Clone, Copy, PartialEq, Eq)]
pub enum PieceDateError {
    InvalidDay,
    InvalidMonth,
    InvalidYear,
    /// The day, month and year name no day.
    NoSuchDay,
}

/// The day, as year, month and day, that the texts of a session's day,
/// month abbreviation and year name, or why they name none.
pub open spec fn session_date(
    day_text: Seq<char>,
    month_text: Seq<char>,
    year_text: Seq<char>,
) -> Result<(int, int, int), PieceDateError> {
    match parsed_integer(day_text, false, 0, u32::MAX as int) {
        None => Err(PieceDateError::InvalidDay),
        Some(d) => match month_of_abbreviation(month_text) {
            None => Err(PieceDateError::InvalidMonth),
            Some(m) => match parsed_integer(year_text, true, i32::MIN as int, i32::MAX as int) {
                None => Err(PieceDateError::InvalidYear),
                Some(y) => if is_valid_ymd(y, m as int, d) {
                    Ok((y, m as int, d))
                } else {
                    Err(PieceDateError::NoSuchDay)
                },
            },
        },
    }
}

/// The day that a session of a play is on, from the texts of its day,
/// month abbreviation and year.
pub fn parse_date_parts(day_text: &str, month_text: &str, year_text: &str) -> (r: Result<
    CivilDate,
    PieceDateError,
>)
    ensures
        match r {
            Ok(d) => session_date(day_text@, month_text@, year_text@) == Ok::<
                (int, int, int),
                PieceDateError,
            >((d.year as int, d.month as int, d.day as int)),
            Err(e) => session_date(day_text@, month_text@, year_text@) == Err::<
                (int, int, int),
                PieceDateError,
            >(e),
        },
{
    let day = match parse_u32(day_text) {
        Some(d) => d,
        None => return Err(PieceDateError::InvalidDay),
    };
    let month = match parse_month(month_text) {
        Some(m) => m,
        None => return Err(PieceDateError::InvalidMonth),
    };
    let year = match parse_i32(year_text) {
        Some(y) => y,
        None => return Err(PieceDateError::InvalidYear),
    };
    match CivilDate::from_ymd_opt(year, month, day) {
        Some(d) => Ok(d),
        None => Err(PieceDateError::NoSuchDay),
    }
}

/// The first and last day of a play from the days of its sessions: one
/// session runs from its day to the same day, two from the first to the
/// second; other counts give none.
pub fn date_range_of(dates: &Vec<CivilDate>) -> (r: Option<(CivilDate, CivilDate)>)
    ensures
        dates@.len() == 1 ==> r == Some((dates@[0], dates@[0])),
        dates@.len() == 2 ==> r == Some((dates@[0], dates@[1])),
        dates@.len() != 1 && dates@.len() != 2 ==> r is None,
{
    if dates.len() == 1 {
        Some((dates[0], dates[0]))
    } else if dates.len() == 2 {
        Some((dates[0], dates[1]))
    } else {
        None
    }
}

} // verus!

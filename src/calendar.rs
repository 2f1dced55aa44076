//! Calendar dates in the proleptic Gregorian calendar, with the range of
//! years that chrono's `NaiveDate` represents.
use vstd::prelude::*;

verus! {

pub const MIN_YEAR: i32 = -262143;

pub const MAX_YEAR: i32 = 262142;

pub open spec fn is_leap_year(year: int) -> bool {
    year % 4 == 0 && (year % 100 != 0 || year % 400 == 0)
}

pub open spec fn days_in_month(year: int, month: int) -> int {
    if month == 2 {
        if is_leap_year(year) {
            29
        } else {
            28
        }
    } else if month == 4 || month == 6 || month == 9 || month == 11 {
        30
    } else {
        31
    }
}

/// A calendar day.
#[derive(Clone, Copy, Debug, PartialEq, Eq, Structural, PartialOrd, Ord, Hash)]
pub struct CivilDate {
    pub year: i32,
    pub month: u32,
    pub day: u32,
}

/// Whether `year`, `month` and `day` name a day that `NaiveDate` can hold.
pub open spec fn is_valid_ymd(year: int, month: int, day: int) -> bool {
    &&& MIN_YEAR <= year <= MAX_YEAR
    &&& 1 <= month <= 12
    &&& 1 <= day <= days_in_month(year, month)
}

fn leap_year(year: i32) -> (b: bool)
    ensures
        b == is_leap_year(year as int),
{
    let r4 = year % 4;
    let r100 = year % 100;
    let r400 = year % 400;
    assert((year % 4 == 0) == (year as int % 4 == 0)) by (nonlinear_arith);
    assert((year % 100 == 0) == (year as int % 100 == 0)) by (nonlinear_arith);
    assert((year % 400 == 0) == (year as int % 400 == 0)) by (nonlinear_arith);
    r4 == 0 && (r100 != 0 || r400 == 0)
}

proof fn lemma_month_number_order(a: CivilDate, b: CivilDate)
    requires
        1 <= a.month <= 12,
        1 <= b.month <= 12,
    ensures
        (a.month_number() <= b.month_number()) == (a.year < b.year || (a.year == b.year && a.month
            <= b.month)),
{
    let ya = a.year as int;
    let yb = b.year as int;
    let ma = a.month as int;
    let mb = b.month as int;
    if ya < yb {
        assert(ya * 12 + 12 <= yb * 12) by (nonlinear_arith)
            requires
                ya < yb,
        ;
    } else if ya > yb {
        assert(yb * 12 + 12 <= ya * 12) by (nonlinear_arith)
            requires
                yb < ya,
        ;
    }
}

impl CivilDate {
    pub open spec fn is_valid(&self) -> bool {
        is_valid_ymd(self.year as int, self.month as int, self.day as int)
    }

    /// The position of this date's month in a count of months.
    pub open spec fn month_number(&self) -> int {
        self.year as int * 12 + self.month as int - 1
    }

    /// The day that `year`, `month` and `day` name, if it exists, as
    /// `NaiveDate::from_ymd_opt` gives it.
    pub fn from_ymd_opt(year: i32, month: u32, day: u32) -> (r: Option<CivilDate>)
        ensures
            r matches Some(d) ==> d == (CivilDate { year, month, day }),
            r is Some <==> is_valid_ymd(year as int, month as int, day as int),
    {
        if year < MIN_YEAR || year > MAX_YEAR || month < 1 || month > 12 || day < 1 {
            return None;
        }
        let last: u32 = if month == 2 {
            if leap_year(year) {
                29
            } else {
                28
            }
        } else if month == 4 || month == 6 || month == 9 || month == 11 {
            30
        } else {
            31
        };
        if day > last {
            None
        } else {
            Some(CivilDate { year, month, day })
        }
    }

    /// The first day of this date's month.
    pub fn first_of_month(&self) -> (r: CivilDate)
        requires
            self.is_valid(),
        ensures
            r == (CivilDate { year: self.year, month: self.month, day: 1 }),
            r.is_valid(),
    {
        CivilDate { year: self.year, month: self.month, day: 1 }
    }

    /// The first day of the month after this date's month, if `NaiveDate`
    /// can hold it.
    pub fn next_month_start(&self) -> (r: Option<CivilDate>)
        requires
            self.is_valid(),
        ensures
            r matches Some(n) ==> n.is_valid() && n.day == 1 && n.month_number()
                == self.month_number() + 1,
            r is None ==> self.year == MAX_YEAR && self.month == 12,
    {
        if self.month == 12 {
            if self.year == MAX_YEAR {
                None
            } else {
                Some(CivilDate { year: self.year + 1, month: 1, day: 1 })
            }
        } else {
            Some(CivilDate { year: self.year, month: self.month + 1, day: 1 })
        }
    }

    /// Whether this date's month comes before the month of `other`.
    pub fn same_or_earlier_month(&self, other: &CivilDate) -> (b: bool)
        requires
            self.is_valid(),
            other.is_valid(),
        ensures
            b == (self.month_number() <= other.month_number()),
    {
        proof {
            lemma_month_number_order(*self, *other);
        }
        self.year < other.year || (self.year == other.year && self.month <= other.month)
    }

    /// Whether this date and `other` fall in the same month.
    pub fn same_month(&self, other: &CivilDate) -> (b: bool)
        requires
            self.is_valid(),
            other.is_valid(),
        ensures
            b == (self.month_number() == other.month_number()),
    {
        proof {
            lemma_month_number_order(*self, *other);
            lemma_month_number_order(*other, *self);
        }
        self.year == other.year && self.month == other.month
    }
}

} // verus!

verus! {

/// Relies on chrono's `Utc::now` and `DateTime::date_naive`: today's date in
/// UTC, a valid day.
#[verifier::external_body]
pub(crate) fn today_utc() -> (r: CivilDate)
    ensures
        r.is_valid(),
{
    let today = chrono::Utc::now().date_naive();
    CivilDate {
        year: chrono::Datelike::year(&today),
        month: chrono::Datelike::month(&today),
        day: chrono::Datelike::day(&today),
    }
}

/// Whether `v` holds first days of months, valid, in strictly increasing
/// order of month.
pub open spec fn is_month_list(v: Seq<CivilDate>) -> bool {
    &&& forall|i: int| 0 <= i < v.len() ==> (#[trigger] v[i]).is_valid() && v[i].day == 1
    &&& forall|i: int, j: int|
        0 <= i < j < v.len() ==> (#[trigger] v[i]).month_number() < (#[trigger] v[j]).month_number()
}

/// Whether `v` holds the month numbered `n`.
pub open spec fn has_month(v: Seq<CivilDate>, n: int) -> bool {
    exists|i: int| 0 <= i < v.len() && (#[trigger] v[i]).month_number() == n
}

/// Adds the month that starts on `m` to the month list `months`, unless it
/// holds it already.
pub fn insert_month(months: &mut Vec<CivilDate>, m: CivilDate)
    requires
        is_month_list(old(months)@),
        m.is_valid(),
        m.day == 1,
    ensures
        is_month_list(final(months)@),
        forall|n: int|
            has_month(final(months)@, n) <==> (has_month(old(months)@, n) || n
                == m.month_number()),
{
    let mut i: usize = 0;
    while i < months.len() && months[i].same_or_earlier_month(&m) && !months[i].same_month(&m)
        invariant
            i <= months@.len(),
            is_month_list(months@),
            months@ == old(months)@,
            m.is_valid(),
            forall|k: int| 0 <= k < i ==> (#[trigger] months@[k]).month_number() < m.month_number(),
        decreases months@.len() - i,
    {
        i = i + 1;
    }
    if i < months.len() && months[i].same_month(&m) {
        assert(has_month(months@, m.month_number()));
        return;
    }
    let ghost before = months@;
    months.insert(i, m);
    assert forall|k: int| 0 <= k < months@.len() implies (#[trigger] months@[k]).is_valid()
        && months@[k].day == 1 by {
        if k < i {
            assert(months@[k] == before[k]);
        } else if k > i {
            assert(months@[k] == before[k - 1]);
        }
    }
    assert forall|a: int, b: int| 0 <= a < b < months@.len() implies (#[trigger] months@[a]).month_number()
        < (#[trigger] months@[b]).month_number() by {
        if i < before.len() {
            assert(m.month_number() < before[i as int].month_number());
        }
        if a < i && b < i {
            assert(months@[a] == before[a] && months@[b] == before[b]);
        } else if a < i && b == i {
            assert(months@[a] == before[a]);
        } else if a < i && b > i {
            assert(months@[a] == before[a] && months@[b] == before[b - 1]);
        } else if a == i {
            assert(months@[b] == before[b - 1]);
            assert(before[i as int].month_number() <= before[b - 1].month_number());
        } else {
            assert(months@[a] == before[a - 1] && months@[b] == before[b - 1]);
        }
    }
    assert forall|n: int|
        has_month(months@, n) <==> (has_month(before, n) || n == m.month_number()) by {
        if has_month(months@, n) {
            let k = choose|k: int|
                0 <= k < months@.len() && (#[trigger] months@[k]).month_number() == n;
            if k < i {
                assert(months@[k] == before[k]);
            } else if k > i {
                assert(months@[k] == before[k - 1]);
            }
        }
        if has_month(before, n) {
            let k = choose|k: int|
                0 <= k < before.len() && (#[trigger] before[k]).month_number() == n;
            if k < i {
                assert(months@[k] == before[k]);
            } else {
                assert(months@[k + 1] == before[k]);
            }
        }
        if n == m.month_number() {
            assert(months@[i as int] == m);
        }
    }
}

} // verus!

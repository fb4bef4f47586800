use vstd::prelude::*;
use crate::eras::{sorted_eras, spec_eras};
use crate::numerals::{fullwidth, to_jp_intstring};

verus! {

/// The broader historical period that an era belongs to.
#[derive(Debug, Clone, Copy, PartialEq, Eq, Structural)]
pub enum Jidai {
    Asuka,
    Nara,
    Heian,
    Kamakura,
    Nanbokuchou,
    Sengoku,
    Muromachi,
    AzuchiMomoyama,
    Edo,
    Modern,
}

/// One named era: its names, its period, and its span in seconds since the
/// Unix epoch, from `started_at` up to but not including `ended_at`.
/// An era without `ended_at` is the current one.
#[derive(Debug, Clone, Copy)]
pub struct Era {
    pub kanji: Option<&'static str>,
    pub romaji: Option<&'static str>,
    pub jidai: Jidai,
    pub started_at: i64,
    pub ended_at: Option<i64>,
}

/// A UTC date: the instant, and the month and day of the calendar date it
/// falls on.
#[derive(Debug, Clone, Copy)]
pub struct UtcDate {
    pub timestamp: i64,
    pub month: u32,
    pub day: u32,
}

impl UtcDate {
    /// A month from 1 to 12 and a day from 1 to 31.
    pub open spec fn wf(&self) -> bool {
        1 <= self.month <= 12 && 1 <= self.day <= 31
    }

    /// Whether the month and day are in range.
    pub fn is_valid(&self) -> (r: bool)
        ensures
            r == self.wf(),
    {
        1 <= self.month && self.month <= 12 && 1 <= self.day && self.day <= 31
    }
}

/// A table of eras in order: not empty, starts strictly ascending, each era
/// ending where the next begins, and only the last one open-ended.
pub open spec fn table_wf(s: Seq<Era>) -> bool {
    &&& s.len() > 0
    &&& forall|i: int, j: int|
        0 <= i < j < s.len() ==> (#[trigger] s[i]).started_at < (#[trigger] s[j]).started_at
    &&& forall|i: int|
        #![trigger s[i].ended_at]
        0 <= i < s.len() - 1 ==> s[i].ended_at == Some(s[i + 1].started_at)
    &&& s.last().ended_at is None
}

/// Whether the instant `t` lies in era `e`: at or after its start, and
/// before its end if it has one.
pub open spec fn covers(e: Era, t: int) -> bool {
    e.started_at <= t && match e.ended_at {
        None => true,
        Some(end) => t < end,
    }
}

/// The first index from `i` on whose era covers `t`.
pub open spec fn first_cover_from(s: Seq<Era>, t: int, i: int) -> Option<int>
    decreases s.len() - i,
{
    if i < 0 || i >= s.len() {
        None
    } else if covers(s[i], t) {
        Some(i)
    } else {
        first_cover_from(s, t, i + 1)
    }
}

/// The index of the era of `t` in table `s`, if any.
pub open spec fn resolve_in(s: Seq<Era>, t: int) -> Option<int> {
    if s.len() == 0 || t < s[0].started_at {
        None
    } else {
        first_cover_from(s, t, 0)
    }
}

/// The index in the era table of the era of `t`, if any.
pub open spec fn resolve(t: int) -> Option<int> {
    resolve_in(spec_eras(), t)
}

/// The era-relative year of the instant `t` in an era started at `start`:
/// one plus the whole days since the start, divided by 365.
pub open spec fn era_year(t: int, start: int) -> int {
    1 + ((t - start) / 86400) / 365
}

/// The nenkou string `{name}{year}年{month}月{day}日`, numbers in fullwidth digits.
pub open spec fn nenkou(name: Seq<char>, year: nat, month: nat, day: nat) -> Seq<char> {
    name + fullwidth(year) + seq!['年'] + fullwidth(month) + seq!['月'] + fullwidth(day) + seq!['日']
}

/// What rendering `date` gives: nothing where no era covers it or its era has
/// no kanji name.
pub open spec fn render(date: UtcDate) -> Option<Seq<char>> {
    match resolve(date.timestamp as int) {
        None => None,
        Some(i) => match spec_eras()[i].kanji {
            None => None,
            Some(k) => Some(
                nenkou(
                    k@,
                    era_year(date.timestamp as int, spec_eras()[i].started_at as int) as nat,
                    date.month as nat,
                    date.day as nat,
                ),
            ),
        },
    }
}

proof fn lemma_first_cover_from(s: Seq<Era>, t: int, i: int)
    requires
        0 <= i,
    ensures
        match first_cover_from(s, t, i) {
            None => forall|j: int| i <= j < s.len() ==> !covers(#[trigger] s[j], t),
            Some(k) => i <= k < s.len() && covers(s[k], t) && forall|j: int|
                i <= j < k ==> !covers(#[trigger] s[j], t),
        },
    decreases s.len() - i,
{
    if i < s.len() && !covers(s[i], t) {
        lemma_first_cover_from(s, t, i + 1);
    }
}

/// Linear search of an era table for the era of `unix_epoch`; the table is
/// small enough that a scan beats a binary search.
pub fn resolve_index(eras: &Vec<Era>, unix_epoch: i64) -> (r: Option<usize>)
    requires
        table_wf(eras@),
    ensures
        match r {
            None => resolve_in(eras@, unix_epoch as int) is None,
            Some(i) => resolve_in(eras@, unix_epoch as int) == Some(i as int) && i < eras@.len(),
        },
{
    if unix_epoch < eras[0].started_at {
        return None;
    }
    let mut i: usize = 0;
    while i < eras.len()
        invariant
            table_wf(eras@),
            0 <= i <= eras@.len(),
            unix_epoch >= eras@[0].started_at,
            first_cover_from(eras@, unix_epoch as int, 0) == first_cover_from(
                eras@,
                unix_epoch as int,
                i as int,
            ),
        decreases eras.len() - i,
    {
        let era = &eras[i];
        if era.started_at <= unix_epoch {
            match era.ended_at {
                None => {
                    return Some(i);
                },
                Some(ended_at) => {
                    if unix_epoch < ended_at {
                        return Some(i);
                    }
                },
            }
        }
        i += 1;
    }
    None
}

impl Era {
    /// The era of an instant given in seconds since the Unix epoch.
    pub fn from_unix_epoch(unix_epoch: i64) -> (r: Option<Era>)
        ensures
            match r {
                None => resolve(unix_epoch as int) is None,
                Some(e) => resolve(unix_epoch as int) is Some && e == spec_eras()[resolve(
                    unix_epoch as int,
                )->0],
            },
    {
        let eras = sorted_eras();
        proof {
            crate::eras::lemma_table_wf();
        }
        match resolve_index(&eras, unix_epoch) {
            None => None,
            Some(i) => {
                Some(eras[i])
            },
        }
    }

    /// The era of a date.
    pub fn from_datetime(datetime: UtcDate) -> (r: Option<Era>)
        ensures
            match r {
                None => resolve(datetime.timestamp as int) is None,
                Some(e) => resolve(datetime.timestamp as int) is Some && e == spec_eras()[resolve(
                    datetime.timestamp as int,
                )->0],
            },
    {
        Era::from_unix_epoch(datetime.timestamp)
    }

    /// Given a date, returns its nenkou string.
    pub fn to_jp_nenkou_string(date: UtcDate) -> (r: Option<String>)
        requires
            date.wf(),
        ensures
            match r {
                None => render(date) is None,
                Some(s) => render(date) == Some(s@),
            },
    {
        let eras = sorted_eras();
        proof {
            crate::eras::lemma_table_wf();
        }
        match resolve_index(&eras, date.timestamp) {
            None => None,
            Some(i) => {
                let era = eras[i];
                match era.kanji {
                    None => None,
                    Some(kanji) => {
                        proof {
                            lemma_first_cover_from(spec_eras(), date.timestamp as int, 0);
                        }
                        let days: i128 = (date.timestamp as i128 - era.started_at as i128) / 86400;
                        let year: u64 = (1 + days / 365) as u64;
                        let mut s = String::from_str(kanji);
                        let y = to_jp_intstring(year);
                        s.append(y.as_str());
                        proof { reveal_strlit("年"); }
                        s.append("年");
                        let m = to_jp_intstring(date.month as u64);
                        s.append(m.as_str());
                        proof { reveal_strlit("月"); }
                        s.append("月");
                        let d = to_jp_intstring(date.day as u64);
                        s.append(d.as_str());
                        proof { reveal_strlit("日"); }
                        s.append("日");
                        Some(s)
                    },
                }
            },
        }
    }
}

} // verus!

verus! {

/// No era covers an instant before the first era of a table begins.
pub proof fn lemma_none_before_first(s: Seq<Era>, t: int)
    requires
        table_wf(s),
        t < s[0].started_at,
    ensures
        resolve_in(s, t) is None,
{
}

/// In a well-formed table, every instant from the first era's start on lies
/// in exactly one era, and that era is the one found.
pub proof fn lemma_resolve_in_unique(s: Seq<Era>, t: int)
    requires
        table_wf(s),
        t >= s[0].started_at,
    ensures
        resolve_in(s, t) is Some,
        0 <= resolve_in(s, t)->0 < s.len(),
        covers(s[resolve_in(s, t)->0], t),
        forall|j: int| 0 <= j < s.len() && covers(#[trigger] s[j], t) ==> j == resolve_in(s, t)->0,
{
    lemma_first_cover_from(s, t, 0);
    // the last era that starts at or before t covers it
    let k = choose_last_started(s, t, 0);
    if k < s.len() - 1 {
        assert(s[k].ended_at == Some(s[k + 1].started_at));
    }
    assert(covers(s[k], t));
    let r = resolve_in(s, t)->0;
    assert forall|j: int| 0 <= j < s.len() && covers(#[trigger] s[j], t) implies j == r by {
        if j < r {
        } else if r < j {
            assert(s[r].ended_at == Some(s[r + 1].started_at));
            if r + 1 < j {
                assert(s[r + 1].started_at < s[j].started_at);
            }
        }
    }
}

proof fn choose_last_started(s: Seq<Era>, t: int, k: int) -> (r: int)
    requires
        table_wf(s),
        0 <= k < s.len(),
        s[k].started_at <= t,
    ensures
        k <= r < s.len(),
        s[r].started_at <= t,
        r == s.len() - 1 || s[r + 1].started_at > t,
    decreases s.len() - k,
{
    if k < s.len() - 1 && s[k + 1].started_at <= t {
        choose_last_started(s, t, k + 1)
    } else {
        k
    }
}

/// An instant before the first era of the table resolves to no era.
pub proof fn lemma_before_first_era(t: int)
    requires
        t < spec_eras()[0].started_at,
    ensures
        resolve(t) is None,
{
}

/// Every instant from the first era's start on lies in exactly one era of the
/// table: the one resolved.
pub proof fn lemma_resolve_covers(t: int)
    requires
        t >= spec_eras()[0].started_at,
    ensures
        resolve(t) is Some,
        0 <= resolve(t)->0 < spec_eras().len(),
        covers(spec_eras()[resolve(t)->0], t),
        forall|j: int|
            0 <= j < spec_eras().len() && covers(#[trigger] spec_eras()[j], t) ==> j == resolve(t)->0,
{
    crate::eras::lemma_table_wf();
    lemma_resolve_in_unique(spec_eras(), t);
}

/// The era found depends on the instant alone: equal instants give the same
/// era, and two calls of `Era::from_unix_epoch` on one instant agree.
pub proof fn lemma_resolve_deterministic(t1: int, t2: int)
    requires
        t1 == t2,
    ensures
        resolve(t1) == resolve(t2),
{
}

} // verus!

//! The `Schedule_tables` section: named tables of `frame delay <time> ms ;`
//! entries whose order defines the transmission schedule and is preserved
//! exactly as written.
//!
//! ```text
//! Schedule_tables {
//!     AllFrames {
//!         Frame1 delay 10 ms ;
//!         Frame2 delay 10.0 ms ;
//!     }
//! }
//! ```

use crate::decimal::{dec_wf, LdfNumber};
use crate::text::str_chars;
use crate::token::{duration, ident_string, spec_duration, spec_ident, spec_tok, tok};
use crate::trivia::{skip_trivia, spec_skip_trivia};
use vstd::prelude::*;

verus! {

/// One schedule entry: a frame and the delay after it, in milliseconds.
#[derive(Debug, Clone, PartialEq)]
pub struct LdfFrameDelay {
    /// The scheduled frame's name.
    pub frame_name: String,
    /// The slot time in milliseconds.
    pub frame_time: LdfNumber,
}

#[verifier::ext_equal]
pub ghost struct FrameDelayView {
    pub frame_name: Seq<char>,
    pub frame_time: LdfNumber,
}

impl View for LdfFrameDelay {
    type V = FrameDelayView;

    open spec fn view(&self) -> FrameDelayView {
        FrameDelayView { frame_name: self.frame_name@, frame_time: self.frame_time }
    }
}

impl DeepView for LdfFrameDelay {
    type V = FrameDelayView;

    open spec fn deep_view(&self) -> FrameDelayView {
        self.view()
    }
}

/// One schedule table: its name and its entries in written order.
#[derive(Debug, Clone, PartialEq)]
pub struct LdfScheduleTable {
    /// The table's name.
    pub schedule_table_name: String,
    /// The entries, in exactly the order they were written.
    pub frame_delays: Vec<LdfFrameDelay>,
}

#[verifier::ext_equal]
pub ghost struct ScheduleTableView {
    pub schedule_table_name: Seq<char>,
    pub frame_delays: Seq<FrameDelayView>,
}

impl View for LdfScheduleTable {
    type V = ScheduleTableView;

    open spec fn view(&self) -> ScheduleTableView {
        ScheduleTableView {
            schedule_table_name: self.schedule_table_name@,
            frame_delays: self.frame_delays.deep_view(),
        }
    }
}

impl DeepView for LdfScheduleTable {
    type V = ScheduleTableView;

    open spec fn deep_view(&self) -> ScheduleTableView {
        self.view()
    }
}

/// One `frame delay <time> ms ;` entry.
pub open spec fn spec_delay_record(t: Seq<char>, pos: int) -> Option<(int, FrameDelayView)> {
    match spec_ident(t, pos) {
        None => None,
        Some((na, nb)) => match spec_tok(t, nb, "delay"@) {
            None => None,
            Some(p1) => match spec_duration(t, p1) {
                None => None,
                Some((p2, time)) => match spec_tok(t, p2, ";"@) {
                    None => None,
                    Some(p3) => Some(
                        (p3, FrameDelayView { frame_name: t.subrange(na, nb), frame_time: time }),
                    ),
                },
            },
        },
    }
}

fn delay_record(t: &Vec<char>, pos: usize) -> (r: Option<(usize, LdfFrameDelay)>)
    requires
        pos <= t.len(),
    ensures
        match r {
            Some((p, v)) => spec_delay_record(t@, pos as int) == Some((p as int, v@)) && p
                <= t.len() && dec_wf(v.frame_time),
            None => spec_delay_record(t@, pos as int) is None,
        },
{
    let (nb, name) = match ident_string(t, pos) {
        None => return None,
        Some(r) => r,
    };
    let p1 = match tok(t, nb, "delay") {
        None => return None,
        Some(p) => p,
    };
    let (p2, time) = match duration(t, p1) {
        None => return None,
        Some(r) => r,
    };
    match tok(t, p2, ";") {
        None => None,
        Some(p3) => {
            let entry = LdfFrameDelay { frame_name: name, frame_time: time };
            proof {
                assert(spec_delay_record(t@, pos as int) matches Some((pp, ev)) && pp == p3 as int
                    && ev =~= entry@);
            }
            Some((p3, entry))
        },
    }
}

/// The entries of one table's block, in written order, ending at `}`.
pub open spec fn spec_delay_records(t: Seq<char>, pos: int) -> Option<(int, Seq<FrameDelayView>)>
    decreases t.len() - pos,
    when 0 <= pos <= t.len()
{
    let q = spec_skip_trivia(t, pos);
    if q < t.len() && t[q] == '}' {
        Some((q + 1, Seq::empty()))
    } else {
        match spec_delay_record(t, q) {
            None => None,
            Some((p, v)) => if q < p <= t.len() && pos <= q {
                match spec_delay_records(t, p) {
                    None => None,
                    Some((e, rest)) => Some((e, seq![v] + rest)),
                }
            } else {
                None
            },
        }
    }
}

fn delay_records(t: &Vec<char>, pos: usize) -> (r: Option<(usize, Vec<LdfFrameDelay>)>)
    requires
        pos <= t.len(),
    ensures
        match r {
            Some((p, v)) => spec_delay_records(t@, pos as int) == Some((p as int, v.deep_view()))
                && p <= t.len(),
            None => spec_delay_records(t@, pos as int) is None,
        },
    decreases t.len() - pos,
{
    let q = skip_trivia(t, pos);
    if q < t.len() && t[q] == '}' {
        let v: Vec<LdfFrameDelay> = Vec::new();
        proof {
            crate::text::lemma_vec_deep_view(&v);
            assert(v.deep_view() =~= Seq::<FrameDelayView>::empty());
        }
        return Some((q + 1, v));
    }
    match delay_record(t, q) {
        None => None,
        Some((p, entry)) => {
            if p <= q {
                return None;
            }
            match delay_records(t, p) {
                None => None,
                Some((e, rest)) => {
                    let ghost r0 = rest;
                    let mut out = rest;
                    out.insert(0, entry);
                    proof {
                        crate::text::lemma_deep_view_insert0(r0, out, entry);
                    }
                    Some((e, out))
                },
            }
        },
    }
}

/// One `name { entries }` table record.
pub open spec fn spec_table_record(t: Seq<char>, pos: int) -> Option<(int, ScheduleTableView)> {
    match spec_ident(t, pos) {
        None => None,
        Some((na, nb)) => match spec_tok(t, nb, "{"@) {
            None => None,
            Some(p1) => if 0 <= p1 <= t.len() {
                match spec_delay_records(t, p1) {
                    None => None,
                    Some((p2, entries)) => Some(
                        (
                            p2,
                            ScheduleTableView {
                                schedule_table_name: t.subrange(na, nb),
                                frame_delays: entries,
                            },
                        ),
                    ),
                }
            } else {
                None
            },
        },
    }
}

fn table_record(t: &Vec<char>, pos: usize) -> (r: Option<(usize, LdfScheduleTable)>)
    requires
        pos <= t.len(),
    ensures
        match r {
            Some((p, v)) => spec_table_record(t@, pos as int) == Some((p as int, v@)) && p
                <= t.len(),
            None => spec_table_record(t@, pos as int) is None,
        },
{
    let (nb, name) = match ident_string(t, pos) {
        None => return None,
        Some(r) => r,
    };
    let p1 = match tok(t, nb, "{") {
        None => return None,
        Some(p) => p,
    };
    match delay_records(t, p1) {
        None => None,
        Some((p2, entries)) => {
            let table = LdfScheduleTable { schedule_table_name: name, frame_delays: entries };
            proof {
                assert(spec_table_record(t@, pos as int) matches Some((pp, tv)) && pp == p2 as int
                    && tv =~= table@);
            }
            Some((p2, table))
        },
    }
}

/// The table records of the section body, ending at `}`.
pub open spec fn spec_table_records(t: Seq<char>, pos: int) -> Option<
    (int, Seq<ScheduleTableView>),
>
    decreases t.len() - pos,
    when 0 <= pos <= t.len()
{
    let q = spec_skip_trivia(t, pos);
    if q < t.len() && t[q] == '}' {
        Some((q + 1, Seq::empty()))
    } else {
        match spec_table_record(t, q) {
            None => None,
            Some((p, v)) => if q < p <= t.len() && pos <= q {
                match spec_table_records(t, p) {
                    None => None,
                    Some((e, rest)) => Some((e, seq![v] + rest)),
                }
            } else {
                None
            },
        }
    }
}

fn table_records(t: &Vec<char>, pos: usize) -> (r: Option<(usize, Vec<LdfScheduleTable>)>)
    requires
        pos <= t.len(),
    ensures
        match r {
            Some((p, v)) => spec_table_records(t@, pos as int) == Some((p as int, v.deep_view()))
                && p <= t.len(),
            None => spec_table_records(t@, pos as int) is None,
        },
    decreases t.len() - pos,
{
    let q = skip_trivia(t, pos);
    if q < t.len() && t[q] == '}' {
        let v: Vec<LdfScheduleTable> = Vec::new();
        proof {
            crate::text::lemma_vec_deep_view(&v);
            assert(v.deep_view() =~= Seq::<ScheduleTableView>::empty());
        }
        return Some((q + 1, v));
    }
    match table_record(t, q) {
        None => None,
        Some((p, table)) => {
            if p <= q {
                return None;
            }
            match table_records(t, p) {
                None => None,
                Some((e, rest)) => {
                    let ghost r0 = rest;
                    let mut out = rest;
                    out.insert(0, table);
                    proof {
                        crate::text::lemma_deep_view_insert0(r0, out, table);
                    }
                    Some((e, out))
                },
            }
        },
    }
}

/// Entry order is load-bearing and preserved exactly: the first record of
/// a block is the first entry of the result, and the records after it
/// follow in the same order, nothing reordered, dropped or added.
pub proof fn lemma_schedule_order(
    t: Seq<char>,
    pos: int,
    p: int,
    v: FrameDelayView,
    e: int,
    rest: Seq<FrameDelayView>,
)
    requires
        0 <= pos <= t.len(),
        ({
            let q = spec_skip_trivia(t, pos);
            &&& !(q < t.len() && t[q] == '}')
            &&& spec_delay_record(t, q) == Some((p, v))
            &&& pos <= q < p <= t.len()
        }),
        spec_delay_records(t, p) == Some((e, rest)),
    ensures
        spec_delay_records(t, pos) == Some((e, seq![v] + rest)),
{
}

/// The whole `Schedule_tables` section. The entry order of every table in
/// the result is exactly the written order.
pub open spec fn spec_parse_schedule_tables(t: Seq<char>, pos: int) -> Option<
    (int, Seq<ScheduleTableView>),
> {
    match spec_tok(t, pos, "Schedule_tables"@) {
        None => None,
        Some(p1) => match spec_tok(t, p1, "{"@) {
            None => None,
            Some(p2) => if 0 <= p2 <= t.len() {
                spec_table_records(t, p2)
            } else {
                None
            },
        },
    }
}

pub(crate) fn parse_schedule_tables_at(t: &Vec<char>, pos: usize) -> (r: Option<
    (usize, Vec<LdfScheduleTable>),
>)
    requires
        pos <= t.len(),
    ensures
        match r {
            Some((p, v)) => spec_parse_schedule_tables(t@, pos as int) == Some(
                (p as int, v.deep_view()),
            ) && p <= t.len(),
            None => spec_parse_schedule_tables(t@, pos as int) is None,
        },
{
    let p1 = match tok(t, pos, "Schedule_tables") {
        None => return None,
        Some(p) => p,
    };
    let p2 = match tok(t, p1, "{") {
        None => return None,
        Some(p) => p,
    };
    table_records(t, p2)
}

/// Parses a `Schedule_tables` section at the start of the text.
pub fn parse_ldf_schedule_tables(s: &str) -> (r: Option<(usize, Vec<LdfScheduleTable>)>)
    ensures
        match r {
            Some((p, v)) => spec_parse_schedule_tables(s@, 0) == Some((p as int, v.deep_view())),
            None => spec_parse_schedule_tables(s@, 0) is None,
        },
{
    let t = str_chars(s);
    assert(t@ == s@);
    parse_schedule_tables_at(&t, 0)
}

} // verus!

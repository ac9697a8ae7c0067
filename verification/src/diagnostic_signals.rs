//! The `Diagnostic_signals` section: flat `name: length, init ;` records.
//!
//! ```text
//! Diagnostic_signals {
//!     MasterReqB0: 8, 0 ;
//!     MasterReqB1: 8, 0 ;
//! }
//! ```

use crate::decimal::{dec_field, spec_dec_field};
use crate::text::{run_end, scan, str_chars, Cc};
use crate::token::{ident_string, spec_ident, spec_tok, tok};
use crate::trivia::{skip_trivia, spec_skip_trivia};
use vstd::prelude::*;

verus! {

/// One diagnostic signal: name, bit length and initial value.
#[derive(Debug, Clone, PartialEq)]
pub struct LdfDiagnosticSignal {
    /// The signal's name.
    pub name: String,
    /// The signal's length in bits.
    pub length: u8,
    /// The signal's initial value.
    pub init_value: u8,
}

#[verifier::ext_equal]
pub ghost struct DiagnosticSignalView {
    pub name: Seq<char>,
    pub length: u8,
    pub init_value: u8,
}

impl View for LdfDiagnosticSignal {
    type V = DiagnosticSignalView;

    open spec fn view(&self) -> DiagnosticSignalView {
        DiagnosticSignalView { name: self.name@, length: self.length, init_value: self.init_value }
    }
}

impl DeepView for LdfDiagnosticSignal {
    type V = DiagnosticSignalView;

    open spec fn deep_view(&self) -> DiagnosticSignalView {
        self.view()
    }
}

/// One `name: length, init ;` record.
pub open spec fn spec_diag_signal_record(t: Seq<char>, pos: int) -> Option<
    (int, DiagnosticSignalView),
> {
    match spec_ident(t, pos) {
        None => None,
        Some((na, nb)) => match spec_tok(t, nb, ":"@) {
            None => None,
            Some(p1) => {
                let a1 = spec_skip_trivia(t, p1);
                let b1 = run_end(t, a1, Cc::Digit);
                match spec_dec_field(t, a1, b1, 255) {
                    None => None,
                    Some(length) => match spec_tok(t, b1, ","@) {
                        None => None,
                        Some(p2) => {
                            let a2 = spec_skip_trivia(t, p2);
                            let b2 = run_end(t, a2, Cc::Digit);
                            match spec_dec_field(t, a2, b2, 255) {
                                None => None,
                                Some(init) => match spec_tok(t, b2, ";"@) {
                                    None => None,
                                    Some(p3) => Some(
                                        (
                                            p3,
                                            DiagnosticSignalView {
                                                name: t.subrange(na, nb),
                                                length: length as u8,
                                                init_value: init as u8,
                                            },
                                        ),
                                    ),
                                },
                            }
                        },
                    },
                }
            },
        },
    }
}

fn diag_signal_record(t: &Vec<char>, pos: usize) -> (r: Option<(usize, LdfDiagnosticSignal)>)
    requires
        pos <= t.len(),
    ensures
        match r {
            Some((p, v)) => spec_diag_signal_record(t@, pos as int) == Some((p as int, v@)) && p
                <= t.len(),
            None => spec_diag_signal_record(t@, pos as int) is None,
        },
{
    let (nb, name) = match ident_string(t, pos) {
        None => return None,
        Some(r) => r,
    };
    let p1 = match tok(t, nb, ":") {
        None => return None,
        Some(p) => p,
    };
    let a1 = skip_trivia(t, p1);
    let b1 = scan(t, a1, Cc::Digit);
    let length = match dec_field(t, a1, b1, 255) {
        None => return None,
        Some(v) => v,
    };
    let p2 = match tok(t, b1, ",") {
        None => return None,
        Some(p) => p,
    };
    let a2 = skip_trivia(t, p2);
    let b2 = scan(t, a2, Cc::Digit);
    let init = match dec_field(t, a2, b2, 255) {
        None => return None,
        Some(v) => v,
    };
    match tok(t, b2, ";") {
        None => None,
        Some(p3) => {
            let sig = LdfDiagnosticSignal { name, length: length as u8, init_value: init as u8 };
            proof {
                assert(spec_diag_signal_record(t@, pos as int) matches Some((pp, sv)) && pp
                    == p3 as int && sv =~= sig@);
            }
            Some((p3, sig))
        },
    }
}

/// The records of the section body, ending when the first non-trivia
/// character is `}`.
pub open spec fn spec_diag_signal_records(t: Seq<char>, pos: int) -> Option<
    (int, Seq<DiagnosticSignalView>),
>
    decreases t.len() - pos,
    when 0 <= pos <= t.len()
{
    let q = spec_skip_trivia(t, pos);
    if q < t.len() && t[q] == '}' {
        Some((q + 1, Seq::empty()))
    } else {
        match spec_diag_signal_record(t, q) {
            None => None,
            Some((p, v)) => if q < p <= t.len() && pos <= q {
                match spec_diag_signal_records(t, p) {
                    None => None,
                    Some((e, rest)) => Some((e, seq![v] + rest)),
                }
            } else {
                None
            },
        }
    }
}

fn diag_signal_records(t: &Vec<char>, pos: usize) -> (r: Option<(usize, Vec<LdfDiagnosticSignal>)>)
    requires
        pos <= t.len(),
    ensures
        match r {
            Some((p, v)) => spec_diag_signal_records(t@, pos as int) == Some(
                (p as int, v.deep_view()),
            ) && p <= t.len(),
            None => spec_diag_signal_records(t@, pos as int) is None,
        },
    decreases t.len() - pos,
{
    let q = skip_trivia(t, pos);
    if q < t.len() && t[q] == '}' {
        let v: Vec<LdfDiagnosticSignal> = Vec::new();
        proof {
            crate::text::lemma_vec_deep_view(&v);
            assert(v.deep_view() =~= Seq::<DiagnosticSignalView>::empty());
        }
        return Some((q + 1, v));
    }
    match diag_signal_record(t, q) {
        None => None,
        Some((p, sig)) => {
            if p <= q {
                return None;
            }
            match diag_signal_records(t, p) {
                None => None,
                Some((e, rest)) => {
                    let ghost r0 = rest;
                    let mut out = rest;
                    out.insert(0, sig);
                    proof {
                        crate::text::lemma_deep_view_insert0(r0, out, sig);
                    }
                    Some((e, out))
                },
            }
        },
    }
}

/// The whole `Diagnostic_signals` section.
pub open spec fn spec_parse_diag_signals(t: Seq<char>, pos: int) -> Option<
    (int, Seq<DiagnosticSignalView>),
> {
    match spec_tok(t, pos, "Diagnostic_signals"@) {
        None => None,
        Some(p1) => match spec_tok(t, p1, "{"@) {
            None => None,
            Some(p2) => if 0 <= p2 <= t.len() {
                spec_diag_signal_records(t, p2)
            } else {
                None
            },
        },
    }
}

pub(crate) fn parse_diag_signals_at(t: &Vec<char>, pos: usize) -> (r: Option<
    (usize, Vec<LdfDiagnosticSignal>),
>)
    requires
        pos <= t.len(),
    ensures
        match r {
            Some((p, v)) => spec_parse_diag_signals(t@, pos as int) == Some(
                (p as int, v.deep_view()),
            ) && p <= t.len(),
            None => spec_parse_diag_signals(t@, pos as int) is None,
        },
{
    let p1 = match tok(t, pos, "Diagnostic_signals") {
        None => return None,
        Some(p) => p,
    };
    let p2 = match tok(t, p1, "{") {
        None => return None,
        Some(p) => p,
    };
    diag_signal_records(t, p2)
}

/// Parses a `Diagnostic_signals` section at the start of the text.
pub fn parse_ldf_diagnostic_signals(s: &str) -> (r: Option<(usize, Vec<LdfDiagnosticSignal>)>)
    ensures
        match r {
            Some((p, v)) => spec_parse_diag_signals(s@, 0) == Some((p as int, v.deep_view())),
            None => spec_parse_diag_signals(s@, 0) is None,
        },
{
    let t = str_chars(s);
    assert(t@ == s@);
    parse_diag_signals_at(&t, 0)
}

} // verus!

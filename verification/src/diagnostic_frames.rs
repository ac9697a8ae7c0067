//! The `Diagnostic_frames` section: like `Frames`, but the id is always
//! hexadecimal with a mandatory `0x` prefix, and there is no publisher or
//! size field.
//!
//! ```text
//! Diagnostic_frames {
//!     MasterReq: 0x3C {
//!         MasterReqB0, 0 ;
//!     }
//! }
//! ```
//!
//! A frame name here is everything up to the colon, and a placed signal's
//! name everything up to the comma, exactly as written.

use crate::decimal::{dec_field, hex_field, spec_dec_field, spec_hex_field};
use crate::text::{extract, run_end, scan, str_chars, Cc};
use crate::token::{spec_tok, tok};
use crate::trivia::{skip_trivia, spec_skip_trivia};
use vstd::prelude::*;

verus! {

/// One signal placement inside a diagnostic frame.
#[derive(Debug, Clone, PartialEq)]
pub struct LdfDiagnosticFrameSignal {
    /// The placed signal's name.
    pub signal_name: String,
    /// The bit offset where the signal starts inside the frame.
    pub start_bit: u8,
}

#[verifier::ext_equal]
pub ghost struct DiagnosticFrameSignalView {
    pub signal_name: Seq<char>,
    pub start_bit: u8,
}

impl View for LdfDiagnosticFrameSignal {
    type V = DiagnosticFrameSignalView;

    open spec fn view(&self) -> DiagnosticFrameSignalView {
        DiagnosticFrameSignalView { signal_name: self.signal_name@, start_bit: self.start_bit }
    }
}

impl DeepView for LdfDiagnosticFrameSignal {
    type V = DiagnosticFrameSignalView;

    open spec fn deep_view(&self) -> DiagnosticFrameSignalView {
        self.view()
    }
}

/// One diagnostic frame: name, hexadecimal id, and its signal placements in
/// written order.
#[derive(Debug, Clone, PartialEq)]
pub struct LdfDiagnosticFrame {
    /// The frame's name.
    pub frame_name: String,
    /// The frame's id on the bus, written in hexadecimal in the source.
    pub frame_id: u8,
    /// The signals the frame carries, in written order.
    pub signals: Vec<LdfDiagnosticFrameSignal>,
}

#[verifier::ext_equal]
pub ghost struct DiagnosticFrameView {
    pub frame_name: Seq<char>,
    pub frame_id: u8,
    pub signals: Seq<DiagnosticFrameSignalView>,
}

impl View for LdfDiagnosticFrame {
    type V = DiagnosticFrameView;

    open spec fn view(&self) -> DiagnosticFrameView {
        DiagnosticFrameView {
            frame_name: self.frame_name@,
            frame_id: self.frame_id,
            signals: self.signals.deep_view(),
        }
    }
}

impl DeepView for LdfDiagnosticFrame {
    type V = DiagnosticFrameView;

    open spec fn deep_view(&self) -> DiagnosticFrameView {
        self.view()
    }
}

/// One `name, start_bit ;` placement: the name is everything up to the
/// comma.
pub open spec fn spec_diag_frame_signal_record(t: Seq<char>, pos: int) -> Option<
    (int, DiagnosticFrameSignalView),
> {
    let nb = run_end(t, pos, Cc::NotCommaSemi);
    if !(nb < t.len() && t[nb] == ',') {
        None
    } else {
        let a = spec_skip_trivia(t, nb + 1);
        let b = run_end(t, a, Cc::Digit);
        match spec_dec_field(t, a, b, 255) {
            None => None,
            Some(bit) => match spec_tok(t, b, ";"@) {
                None => None,
                Some(p2) => Some(
                    (
                        p2,
                        DiagnosticFrameSignalView {
                            signal_name: t.subrange(pos, nb),
                            start_bit: bit as u8,
                        },
                    ),
                ),
            },
        }
    }
}

fn diag_frame_signal_record(t: &Vec<char>, pos: usize) -> (r: Option<
    (usize, LdfDiagnosticFrameSignal),
>)
    requires
        pos <= t.len(),
    ensures
        match r {
            Some((p, v)) => spec_diag_frame_signal_record(t@, pos as int) == Some((p as int, v@))
                && p <= t.len(),
            None => spec_diag_frame_signal_record(t@, pos as int) is None,
        },
{
    let nb = scan(t, pos, Cc::NotCommaSemi);
    if !(nb < t.len() && t[nb] == ',') {
        return None;
    }
    let a = skip_trivia(t, nb + 1);
    let b = scan(t, a, Cc::Digit);
    let bit = match dec_field(t, a, b, 255) {
        None => return None,
        Some(v) => v,
    };
    match tok(t, b, ";") {
        None => None,
        Some(p2) => {
            let name = extract(t, pos, nb);
            let sig = LdfDiagnosticFrameSignal { signal_name: name, start_bit: bit as u8 };
            proof {
                assert(spec_diag_frame_signal_record(t@, pos as int) matches Some((pp, sv)) && pp
                    == p2 as int && sv =~= sig@);
            }
            Some((p2, sig))
        },
    }
}

/// The placements of one diagnostic frame's inner block, ending at `}`.
pub open spec fn spec_diag_frame_signal_records(t: Seq<char>, pos: int) -> Option<
    (int, Seq<DiagnosticFrameSignalView>),
>
    decreases t.len() - pos,
    when 0 <= pos <= t.len()
{
    let q = spec_skip_trivia(t, pos);
    if q < t.len() && t[q] == '}' {
        Some((q + 1, Seq::empty()))
    } else {
        match spec_diag_frame_signal_record(t, q) {
            None => None,
            Some((p, v)) => if q < p <= t.len() && pos <= q {
                match spec_diag_frame_signal_records(t, p) {
                    None => None,
                    Some((e, rest)) => Some((e, seq![v] + rest)),
                }
            } else {
                None
            },
        }
    }
}

fn diag_frame_signal_records(t: &Vec<char>, pos: usize) -> (r: Option<
    (usize, Vec<LdfDiagnosticFrameSignal>),
>)
    requires
        pos <= t.len(),
    ensures
        match r {
            Some((p, v)) => spec_diag_frame_signal_records(t@, pos as int) == Some(
                (p as int, v.deep_view()),
            ) && p <= t.len(),
            None => spec_diag_frame_signal_records(t@, pos as int) is None,
        },
    decreases t.len() - pos,
{
    let q = skip_trivia(t, pos);
    if q < t.len() && t[q] == '}' {
        let v: Vec<LdfDiagnosticFrameSignal> = Vec::new();
        proof {
            crate::text::lemma_vec_deep_view(&v);
            assert(v.deep_view() =~= Seq::<DiagnosticFrameSignalView>::empty());
        }
        return Some((q + 1, v));
    }
    match diag_frame_signal_record(t, q) {
        None => None,
        Some((p, sig)) => {
            if p <= q {
                return None;
            }
            match diag_frame_signal_records(t, p) {
                None => None,
                Some((e, rest)) => {
                    let ghost r0 = rest;
                    let mut out = rest;
                    out.insert(0, sig);
                    proof {
                        crate::text::lemma_deep_view_insert0(r0, out, sig);
                    }
                    Some((e, out))
                },
            }
        },
    }
}

/// One `name: 0xID { placements }` diagnostic frame record: the name is
/// everything up to the colon, and the id runs to the next space or brace.
pub open spec fn spec_diag_frame_record(t: Seq<char>, pos: int) -> Option<
    (int, DiagnosticFrameView),
> {
    let nb = run_end(t, pos, Cc::NotColonBrace);
    if !(nb < t.len() && t[nb] == ':') {
        None
    } else {
        match spec_tok(t, nb + 1, "0x"@) {
            None => None,
            Some(p1) => {
                let b = run_end(t, p1, Cc::NotSpaceBrace);
                match spec_hex_field(t, p1, b, 255) {
                    None => None,
                    Some(id) => match spec_tok(t, b, "{"@) {
                        None => None,
                        Some(p2) => if 0 <= p2 <= t.len() {
                            match spec_diag_frame_signal_records(t, p2) {
                                None => None,
                                Some((p3, sigs)) => Some(
                                    (
                                        p3,
                                        DiagnosticFrameView {
                                            frame_name: t.subrange(pos, nb),
                                            frame_id: id as u8,
                                            signals: sigs,
                                        },
                                    ),
                                ),
                            }
                        } else {
                            None
                        },
                    },
                }
            },
        }
    }
}

fn diag_frame_record(t: &Vec<char>, pos: usize) -> (r: Option<(usize, LdfDiagnosticFrame)>)
    requires
        pos <= t.len(),
    ensures
        match r {
            Some((p, v)) => spec_diag_frame_record(t@, pos as int) == Some((p as int, v@)) && p
                <= t.len(),
            None => spec_diag_frame_record(t@, pos as int) is None,
        },
{
    let nb = scan(t, pos, Cc::NotColonBrace);
    if !(nb < t.len() && t[nb] == ':') {
        return None;
    }
    let p1 = match tok(t, nb + 1, "0x") {
        None => return None,
        Some(p) => p,
    };
    let b = scan(t, p1, Cc::NotSpaceBrace);
    let id = match hex_field(t, p1, b, 255) {
        None => return None,
        Some(v) => v,
    };
    let p2 = match tok(t, b, "{") {
        None => return None,
        Some(p) => p,
    };
    match diag_frame_signal_records(t, p2) {
        None => None,
        Some((p3, sigs)) => {
            let name = extract(t, pos, nb);
            let frame = LdfDiagnosticFrame { frame_name: name, frame_id: id as u8, signals: sigs };
            proof {
                assert(spec_diag_frame_record(t@, pos as int) matches Some((pp, fv)) && pp
                    == p3 as int && fv =~= frame@);
            }
            Some((p3, frame))
        },
    }
}

/// The diagnostic frame records of the section body, ending at `}`.
pub open spec fn spec_diag_frame_records(t: Seq<char>, pos: int) -> Option<
    (int, Seq<DiagnosticFrameView>),
>
    decreases t.len() - pos,
    when 0 <= pos <= t.len()
{
    let q = spec_skip_trivia(t, pos);
    if q < t.len() && t[q] == '}' {
        Some((q + 1, Seq::empty()))
    } else {
        match spec_diag_frame_record(t, q) {
            None => None,
            Some((p, v)) => if q < p <= t.len() && pos <= q {
                match spec_diag_frame_records(t, p) {
                    None => None,
                    Some((e, rest)) => Some((e, seq![v] + rest)),
                }
            } else {
                None
            },
        }
    }
}

fn diag_frame_records(t: &Vec<char>, pos: usize) -> (r: Option<(usize, Vec<LdfDiagnosticFrame>)>)
    requires
        pos <= t.len(),
    ensures
        match r {
            Some((p, v)) => spec_diag_frame_records(t@, pos as int) == Some(
                (p as int, v.deep_view()),
            ) && p <= t.len(),
            None => spec_diag_frame_records(t@, pos as int) is None,
        },
    decreases t.len() - pos,
{
    let q = skip_trivia(t, pos);
    if q < t.len() && t[q] == '}' {
        let v: Vec<LdfDiagnosticFrame> = Vec::new();
        proof {
            crate::text::lemma_vec_deep_view(&v);
            assert(v.deep_view() =~= Seq::<DiagnosticFrameView>::empty());
        }
        return Some((q + 1, v));
    }
    match diag_frame_record(t, q) {
        None => None,
        Some((p, frame)) => {
            if p <= q {
                return None;
            }
            match diag_frame_records(t, p) {
                None => None,
                Some((e, rest)) => {
                    let ghost r0 = rest;
                    let mut out = rest;
                    out.insert(0, frame);
                    proof {
                        crate::text::lemma_deep_view_insert0(r0, out, frame);
                    }
                    Some((e, out))
                },
            }
        },
    }
}

/// The whole `Diagnostic_frames` section.
pub open spec fn spec_parse_diag_frames(t: Seq<char>, pos: int) -> Option<
    (int, Seq<DiagnosticFrameView>),
> {
    match spec_tok(t, pos, "Diagnostic_frames"@) {
        None => None,
        Some(p1) => match spec_tok(t, p1, "{"@) {
            None => None,
            Some(p2) => if 0 <= p2 <= t.len() {
                spec_diag_frame_records(t, p2)
            } else {
                None
            },
        },
    }
}

pub(crate) fn parse_diag_frames_at(t: &Vec<char>, pos: usize) -> (r: Option<
    (usize, Vec<LdfDiagnosticFrame>),
>)
    requires
        pos <= t.len(),
    ensures
        match r {
            Some((p, v)) => spec_parse_diag_frames(t@, pos as int) == Some(
                (p as int, v.deep_view()),
            ) && p <= t.len(),
            None => spec_parse_diag_frames(t@, pos as int) is None,
        },
{
    let p1 = match tok(t, pos, "Diagnostic_frames") {
        None => return None,
        Some(p) => p,
    };
    let p2 = match tok(t, p1, "{") {
        None => return None,
        Some(p) => p,
    };
    diag_frame_records(t, p2)
}

/// Parses a `Diagnostic_frames` section at the start of the text.
pub fn parse_ldf_diagnostic_frames(s: &str) -> (r: Option<(usize, Vec<LdfDiagnosticFrame>)>)
    ensures
        match r {
            Some((p, v)) => spec_parse_diag_frames(s@, 0) == Some((p as int, v.deep_view())),
            None => spec_parse_diag_frames(s@, 0) is None,
        },
{
    let t = str_chars(s);
    assert(t@ == s@);
    parse_diag_frames_at(&t, 0)
}

} // verus!

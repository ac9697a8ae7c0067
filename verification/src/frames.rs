//! The `Frames` section: nested records, one per frame, each with its list
//! of carried signals.
//!
//! ```text
//! Frames {
//!     Frame1: 0, Master, 8 {
//!         Signal1, 0 ;
//!         Signal2, 10 ;
//!     }
//!     Frame2: 0x16, Slave1, 8 {
//!         Signal3, 0 ;
//!     }
//! }
//! ```
//!
//! A frame id may be written in decimal or with a `0x` prefix in
//! hexadecimal.

use crate::decimal::{dec_field, flex_field, spec_dec_field, spec_flex_field};
use crate::text::{run_end, scan, str_chars, Cc};
use crate::token::{ident_string, spec_ident, spec_tok, tok};
use crate::trivia::{skip_trivia, spec_skip_trivia};
use vstd::prelude::*;

verus! {

/// One signal placement inside a frame: the signal's name and its start
/// bit.
#[derive(Debug, Clone, PartialEq)]
pub struct LdfFrameSignal {
    /// The placed signal's name.
    pub signal_name: String,
    /// The bit offset where the signal starts inside the frame.
    pub start_bit: u8,
}

#[verifier::ext_equal]
pub ghost struct FrameSignalView {
    pub signal_name: Seq<char>,
    pub start_bit: u8,
}

impl View for LdfFrameSignal {
    type V = FrameSignalView;

    open spec fn view(&self) -> FrameSignalView {
        FrameSignalView { signal_name: self.signal_name@, start_bit: self.start_bit }
    }
}

impl DeepView for LdfFrameSignal {
    type V = FrameSignalView;

    open spec fn deep_view(&self) -> FrameSignalView {
        self.view()
    }
}

/// One frame: name, id, publishing node, byte length and its signal
/// placements in written order.
#[derive(Debug, Clone, PartialEq)]
pub struct LdfFrame {
    /// The frame's name.
    pub frame_name: String,
    /// The frame's id on the bus.
    pub frame_id: u8,
    /// The node that publishes the frame.
    pub published_by: String,
    /// The frame's length in bytes.
    pub frame_size: u8,
    /// The signals the frame carries, in written order.
    pub signals: Vec<LdfFrameSignal>,
}

#[verifier::ext_equal]
pub ghost struct FrameView {
    pub frame_name: Seq<char>,
    pub frame_id: u8,
    pub published_by: Seq<char>,
    pub frame_size: u8,
    pub signals: Seq<FrameSignalView>,
}

impl View for LdfFrame {
    type V = FrameView;

    open spec fn view(&self) -> FrameView {
        FrameView {
            frame_name: self.frame_name@,
            frame_id: self.frame_id,
            published_by: self.published_by@,
            frame_size: self.frame_size,
            signals: self.signals.deep_view(),
        }
    }
}

impl DeepView for LdfFrame {
    type V = FrameView;

    open spec fn deep_view(&self) -> FrameView {
        self.view()
    }
}

/// One `name, start_bit ;` placement.
pub open spec fn spec_frame_signal_record(t: Seq<char>, pos: int) -> Option<
    (int, FrameSignalView),
> {
    match spec_ident(t, pos) {
        None => None,
        Some((na, nb)) => match spec_tok(t, nb, ","@) {
            None => None,
            Some(p1) => {
                let a = spec_skip_trivia(t, p1);
                let b = run_end(t, a, Cc::Digit);
                match spec_dec_field(t, a, b, 255) {
                    None => None,
                    Some(bit) => match spec_tok(t, b, ";"@) {
                        None => None,
                        Some(p2) => Some(
                            (
                                p2,
                                FrameSignalView {
                                    signal_name: t.subrange(na, nb),
                                    start_bit: bit as u8,
                                },
                            ),
                        ),
                    },
                }
            },
        },
    }
}

fn frame_signal_record(t: &Vec<char>, pos: usize) -> (r: Option<(usize, LdfFrameSignal)>)
    requires
        pos <= t.len(),
    ensures
        match r {
            Some((p, v)) => spec_frame_signal_record(t@, pos as int) == Some((p as int, v@)) && p
                <= t.len(),
            None => spec_frame_signal_record(t@, pos as int) is None,
        },
{
    let (nb, name) = match ident_string(t, pos) {
        None => return None,
        Some(r) => r,
    };
    let p1 = match tok(t, nb, ",") {
        None => return None,
        Some(p) => p,
    };
    let a = skip_trivia(t, p1);
    let b = scan(t, a, Cc::Digit);
    let bit = match dec_field(t, a, b, 255) {
        None => return None,
        Some(v) => v,
    };
    match tok(t, b, ";") {
        None => None,
        Some(p2) => {
            let sig = LdfFrameSignal { signal_name: name, start_bit: bit as u8 };
            proof {
                assert(spec_frame_signal_record(t@, pos as int) matches Some((pp, sv)) && pp
                    == p2 as int && sv =~= sig@);
            }
            Some((p2, sig))
        },
    }
}

/// The placements of one frame's inner block, ending at `}`.
pub open spec fn spec_frame_signal_records(t: Seq<char>, pos: int) -> Option<
    (int, Seq<FrameSignalView>),
>
    decreases t.len() - pos,
    when 0 <= pos <= t.len()
{
    let q = spec_skip_trivia(t, pos);
    if q < t.len() && t[q] == '}' {
        Some((q + 1, Seq::empty()))
    } else {
        match spec_frame_signal_record(t, q) {
            None => None,
            Some((p, v)) => if q < p <= t.len() && pos <= q {
                match spec_frame_signal_records(t, p) {
                    None => None,
                    Some((e, rest)) => Some((e, seq![v] + rest)),
                }
            } else {
                None
            },
        }
    }
}

fn frame_signal_records(t: &Vec<char>, pos: usize) -> (r: Option<(usize, Vec<LdfFrameSignal>)>)
    requires
        pos <= t.len(),
    ensures
        match r {
            Some((p, v)) => spec_frame_signal_records(t@, pos as int) == Some(
                (p as int, v.deep_view()),
            ) && p <= t.len(),
            None => spec_frame_signal_records(t@, pos as int) is None,
        },
    decreases t.len() - pos,
{
    let q = skip_trivia(t, pos);
    if q < t.len() && t[q] == '}' {
        let v: Vec<LdfFrameSignal> = Vec::new();
        proof {
            crate::text::lemma_vec_deep_view(&v);
            assert(v.deep_view() =~= Seq::<FrameSignalView>::empty());
        }
        return Some((q + 1, v));
    }
    match frame_signal_record(t, q) {
        None => None,
        Some((p, sig)) => {
            if p <= q {
                return None;
            }
            match frame_signal_records(t, p) {
                None => None,
                Some((e, rest)) => {
                    let ghost r0 = rest;
                    let mut out = rest;
                    out.insert(0, sig);
                    proof {
                        crate::text::lemma_deep_view_insert0(r0, out, sig);
                    }
                    Some((e, out))
                },
            }
        },
    }
}

/// One `name: id, publisher, size { placements }` frame record.
pub open spec fn spec_frame_record(t: Seq<char>, pos: int) -> Option<(int, FrameView)> {
    match spec_ident(t, pos) {
        None => None,
        Some((na, nb)) => match spec_tok(t, nb, ":"@) {
            None => None,
            Some(p1) => {
                let a1 = spec_skip_trivia(t, p1);
                let b1 = run_end(t, a1, Cc::HexX);
                match spec_flex_field(t, a1, b1, 255) {
                    None => None,
                    Some(id) => match spec_tok(t, b1, ","@) {
                        None => None,
                        Some(p2) => match spec_ident(t, p2) {
                            None => None,
                            Some((pa, pb)) => match spec_tok(t, pb, ","@) {
                                None => None,
                                Some(p3) => {
                                    let a2 = spec_skip_trivia(t, p3);
                                    let b2 = run_end(t, a2, Cc::Digit);
                                    match spec_dec_field(t, a2, b2, 255) {
                                        None => None,
                                        Some(size) => match spec_tok(t, b2, "{"@) {
                                            None => None,
                                            Some(p4) => if 0 <= p4 <= t.len() {
                                                match spec_frame_signal_records(t, p4) {
                                                    None => None,
                                                    Some((p5, sigs)) => Some(
                                                        (
                                                            p5,
                                                            FrameView {
                                                                frame_name: t.subrange(na, nb),
                                                                frame_id: id as u8,
                                                                published_by: t.subrange(pa, pb),
                                                                frame_size: size as u8,
                                                                signals: sigs,
                                                            },
                                                        ),
                                                    ),
                                                }
                                            } else {
                                                None
                                            },
                                        },
                                    }
                                },
                            },
                        },
                    },
                }
            },
        },
    }
}

fn frame_record(t: &Vec<char>, pos: usize) -> (r: Option<(usize, LdfFrame)>)
    requires
        pos <= t.len(),
    ensures
        match r {
            Some((p, v)) => spec_frame_record(t@, pos as int) == Some((p as int, v@)) && p
                <= t.len(),
            None => spec_frame_record(t@, pos as int) is None,
        },
{
    let (nb, name) = match ident_string(t, pos) {
        None => return None,
        Some(r) => r,
    };
    let p1 = match tok(t, nb, ":") {
        None => return None,
        Some(p) => p,
    };
    let a1 = skip_trivia(t, p1);
    let b1 = scan(t, a1, Cc::HexX);
    let id = match flex_field(t, a1, b1, 255) {
        None => return None,
        Some(v) => v,
    };
    let p2 = match tok(t, b1, ",") {
        None => return None,
        Some(p) => p,
    };
    let (pb, publisher) = match ident_string(t, p2) {
        None => return None,
        Some(r) => r,
    };
    let p3 = match tok(t, pb, ",") {
        None => return None,
        Some(p) => p,
    };
    let a2 = skip_trivia(t, p3);
    let b2 = scan(t, a2, Cc::Digit);
    let size = match dec_field(t, a2, b2, 255) {
        None => return None,
        Some(v) => v,
    };
    let p4 = match tok(t, b2, "{") {
        None => return None,
        Some(p) => p,
    };
    match frame_signal_records(t, p4) {
        None => None,
        Some((p5, sigs)) => {
            let frame = LdfFrame {
                frame_name: name,
                frame_id: id as u8,
                published_by: publisher,
                frame_size: size as u8,
                signals: sigs,
            };
            proof {
                assert(spec_frame_record(t@, pos as int) matches Some((pp, fv)) && pp == p5 as int
                    && fv =~= frame@);
            }
            Some((p5, frame))
        },
    }
}

/// The frame records of the section body, ending at `}`.
pub open spec fn spec_frame_records(t: Seq<char>, pos: int) -> Option<(int, Seq<FrameView>)>
    decreases t.len() - pos,
    when 0 <= pos <= t.len()
{
    let q = spec_skip_trivia(t, pos);
    if q < t.len() && t[q] == '}' {
        Some((q + 1, Seq::empty()))
    } else {
        match spec_frame_record(t, q) {
            None => None,
            Some((p, v)) => if q < p <= t.len() && pos <= q {
                match spec_frame_records(t, p) {
                    None => None,
                    Some((e, rest)) => Some((e, seq![v] + rest)),
                }
            } else {
                None
            },
        }
    }
}

fn frame_records(t: &Vec<char>, pos: usize) -> (r: Option<(usize, Vec<LdfFrame>)>)
    requires
        pos <= t.len(),
    ensures
        match r {
            Some((p, v)) => spec_frame_records(t@, pos as int) == Some((p as int, v.deep_view()))
                && p <= t.len(),
            None => spec_frame_records(t@, pos as int) is None,
        },
    decreases t.len() - pos,
{
    let q = skip_trivia(t, pos);
    if q < t.len() && t[q] == '}' {
        let v: Vec<LdfFrame> = Vec::new();
        proof {
            crate::text::lemma_vec_deep_view(&v);
            assert(v.deep_view() =~= Seq::<FrameView>::empty());
        }
        return Some((q + 1, v));
    }
    match frame_record(t, q) {
        None => None,
        Some((p, frame)) => {
            if p <= q {
                return None;
            }
            match frame_records(t, p) {
                None => None,
                Some((e, rest)) => {
                    let ghost r0 = rest;
                    let mut out = rest;
                    out.insert(0, frame);
                    proof {
                        crate::text::lemma_deep_view_insert0(r0, out, frame);
                    }
                    Some((e, out))
                },
            }
        },
    }
}

/// The whole `Frames` section.
pub open spec fn spec_parse_frames(t: Seq<char>, pos: int) -> Option<(int, Seq<FrameView>)> {
    match spec_tok(t, pos, "Frames"@) {
        None => None,
        Some(p1) => match spec_tok(t, p1, "{"@) {
            None => None,
            Some(p2) => if 0 <= p2 <= t.len() {
                spec_frame_records(t, p2)
            } else {
                None
            },
        },
    }
}

pub(crate) fn parse_frames_at(t: &Vec<char>, pos: usize) -> (r: Option<(usize, Vec<LdfFrame>)>)
    requires
        pos <= t.len(),
    ensures
        match r {
            Some((p, v)) => spec_parse_frames(t@, pos as int) == Some((p as int, v.deep_view()))
                && p <= t.len(),
            None => spec_parse_frames(t@, pos as int) is None,
        },
{
    let p1 = match tok(t, pos, "Frames") {
        None => return None,
        Some(p) => p,
    };
    let p2 = match tok(t, p1, "{") {
        None => return None,
        Some(p) => p,
    };
    frame_records(t, p2)
}

/// Parses a `Frames` section at the start of the text.
pub fn parse_ldf_frames(s: &str) -> (r: Option<(usize, Vec<LdfFrame>)>)
    ensures
        match r {
            Some((p, v)) => spec_parse_frames(s@, 0) == Some((p as int, v.deep_view())),
            None => spec_parse_frames(s@, 0) is None,
        },
{
    let t = str_chars(s);
    assert(t@ == s@);
    parse_frames_at(&t, 0)
}

} // verus!

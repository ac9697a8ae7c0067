//! The `Signals` section.
//!
//! ```text
//! Signals {
//!     Signal1: 10, 0, Master, Slave1, Slave2 ;
//!     Signal2: 10, 0, Slave1 ;
//! }
//! ```
//!
//! A record is `name: size, init, publisher (, subscriber)* ;`. Whether a
//! subscriber list follows is decided by the first non-trivia character
//! after the publisher: a comma opens the list, a semicolon ends the record
//! with no subscribers.

use crate::decimal::{dec_field, spec_dec_field};
use crate::text::{run_end, scan, str_chars, Cc};
use crate::token::{ident_string, name_list, spec_ident, spec_name_list, spec_tok, tok};
use crate::trivia::{skip_trivia, spec_skip_trivia};
use vstd::prelude::*;

verus! {

/// A signal's initial value: a single scalar byte, or a byte array in
/// big-endian order.
#[derive(Debug, Clone, PartialEq)]
pub enum LdfSignalInitValue {
    Scalar(u8),
    Array(Vec<u8>),
}

#[verifier::ext_equal]
pub ghost enum InitValueView {
    Scalar(u8),
    Array(Seq<u8>),
}

impl View for LdfSignalInitValue {
    type V = InitValueView;

    open spec fn view(&self) -> InitValueView {
        match self {
            LdfSignalInitValue::Scalar(v) => InitValueView::Scalar(*v),
            LdfSignalInitValue::Array(v) => InitValueView::Array(v@),
        }
    }
}

/// One signal: name, bit width, initial value, publishing node and the
/// subscribing nodes in written order.
#[derive(Debug, Clone, PartialEq)]
pub struct LdfSignal {
    /// The signal's name.
    pub name: String,
    /// The signal's width in bits.
    pub signal_size: u8,
    /// The value subscribers use until the signal's frame first arrives.
    pub init_value: LdfSignalInitValue,
    /// The node that publishes the signal.
    pub published_by: String,
    /// The nodes that subscribe to the signal; may be empty.
    pub subscribed_by: Vec<String>,
}

#[verifier::ext_equal]
pub ghost struct SignalView {
    pub name: Seq<char>,
    pub signal_size: u8,
    pub init_value: InitValueView,
    pub published_by: Seq<char>,
    pub subscribed_by: Seq<Seq<char>>,
}

impl View for LdfSignal {
    type V = SignalView;

    open spec fn view(&self) -> SignalView {
        SignalView {
            name: self.name@,
            signal_size: self.signal_size,
            init_value: self.init_value@,
            published_by: self.published_by@,
            subscribed_by: self.subscribed_by.deep_view(),
        }
    }
}

impl DeepView for LdfSignal {
    type V = SignalView;

    open spec fn deep_view(&self) -> SignalView {
        self.view()
    }
}

/// One `name: size, init, publisher (, subscriber)* ;` record.
pub open spec fn spec_signal_record(t: Seq<char>, pos: int) -> Option<(int, SignalView)> {
    match spec_ident(t, pos) {
        None => None,
        Some((na, nb)) => match spec_tok(t, nb, ":"@) {
            None => None,
            Some(p1) => {
                let a1 = spec_skip_trivia(t, p1);
                let b1 = run_end(t, a1, Cc::Digit);
                match spec_dec_field(t, a1, b1, 255) {
                    None => None,
                    Some(size) => match spec_tok(t, b1, ","@) {
                        None => None,
                        Some(p2) => {
                            let a2 = spec_skip_trivia(t, p2);
                            let b2 = run_end(t, a2, Cc::Digit);
                            match spec_dec_field(t, a2, b2, 255) {
                                None => None,
                                Some(init) => match spec_tok(t, b2, ","@) {
                                    None => None,
                                    Some(p3) => match spec_ident(t, p3) {
                                        None => None,
                                        Some((pa, pb)) => {
                                            let q = spec_skip_trivia(t, pb);
                                            if q < t.len() && t[q] == ',' {
                                                match spec_name_list(t, q + 1) {
                                                    None => None,
                                                    Some((p4, subs)) => Some(
                                                        (
                                                            p4,
                                                            SignalView {
                                                                name: t.subrange(na, nb),
                                                                signal_size: size as u8,
                                                                init_value: InitValueView::Scalar(
                                                                    init as u8,
                                                                ),
                                                                published_by: t.subrange(pa, pb),
                                                                subscribed_by: subs,
                                                            },
                                                        ),
                                                    ),
                                                }
                                            } else if q < t.len() && t[q] == ';' {
                                                Some(
                                                    (
                                                        q + 1,
                                                        SignalView {
                                                            name: t.subrange(na, nb),
                                                            signal_size: size as u8,
                                                            init_value: InitValueView::Scalar(
                                                                init as u8,
                                                            ),
                                                            published_by: t.subrange(pa, pb),
                                                            subscribed_by: Seq::empty(),
                                                        },
                                                    ),
                                                )
                                            } else {
                                                None
                                            }
                                        },
                                    },
                                },
                            }
                        },
                    },
                }
            },
        },
    }
}

fn signal_record(t: &Vec<char>, pos: usize) -> (r: Option<(usize, LdfSignal)>)
    requires
        pos <= t.len(),
    ensures
        match r {
            Some((p, v)) => spec_signal_record(t@, pos as int) == Some((p as int, v@)) && p
                <= t.len(),
            None => spec_signal_record(t@, pos as int) is None,
        },
{
    let (nb, name) = match ident_string(t, pos) {
        None => return None,
        Some(r) => r,
    };
    let p1 = match tok(t, nb, ":") {
        None => return None,
        Some(p) => p,
    };
    let a1 = skip_trivia(t, p1);
    let b1 = scan(t, a1, Cc::Digit);
    let size = match dec_field(t, a1, b1, 255) {
        None => return None,
        Some(v) => v,
    };
    let p2 = match tok(t, b1, ",") {
        None => return None,
        Some(p) => p,
    };
    let a2 = skip_trivia(t, p2);
    let b2 = scan(t, a2, Cc::Digit);
    let init = match dec_field(t, a2, b2, 255) {
        None => return None,
        Some(v) => v,
    };
    let p3 = match tok(t, b2, ",") {
        None => return None,
        Some(p) => p,
    };
    let (pb, publisher) = match ident_string(t, p3) {
        None => return None,
        Some(r) => r,
    };
    let q = skip_trivia(t, pb);
    if q < t.len() && t[q] == ',' {
        let (p4, subs) = match name_list(t, q + 1) {
            None => return None,
            Some(r) => r,
        };
        let sig = LdfSignal {
            name,
            signal_size: size as u8,
            init_value: LdfSignalInitValue::Scalar(init as u8),
            published_by: publisher,
            subscribed_by: subs,
        };
        proof {
            assert(spec_signal_record(t@, pos as int) matches Some((pp, sv)) && pp == p4 as int
                && sv =~= sig@);
        }
        Some((p4, sig))
    } else if q < t.len() && t[q] == ';' {
        let sig = LdfSignal {
            name,
            signal_size: size as u8,
            init_value: LdfSignalInitValue::Scalar(init as u8),
            published_by: publisher,
            subscribed_by: Vec::new(),
        };
        proof {
            crate::text::lemma_vec_deep_view(&sig.subscribed_by);
            assert(sig.subscribed_by.deep_view() =~= Seq::<Seq<char>>::empty());
            assert(spec_signal_record(t@, pos as int) matches Some((pp, sv)) && pp == q + 1
                && sv =~= sig@);
        }
        Some((q + 1, sig))
    } else {
        None
    }
}

/// The records of the section body, up to and past the closing brace: zero
/// or more records separated by trivia, ending when the first non-trivia
/// character is `}`.
pub open spec fn spec_signal_records(t: Seq<char>, pos: int) -> Option<(int, Seq<SignalView>)>
    decreases t.len() - pos,
    when 0 <= pos <= t.len()
{
    let q = spec_skip_trivia(t, pos);
    if q < t.len() && t[q] == '}' {
        Some((q + 1, Seq::empty()))
    } else {
        match spec_signal_record(t, q) {
            None => None,
            Some((p, v)) => if q < p <= t.len() && pos <= q {
                match spec_signal_records(t, p) {
                    None => None,
                    Some((e, rest)) => Some((e, seq![v] + rest)),
                }
            } else {
                None
            },
        }
    }
}

fn signal_records(t: &Vec<char>, pos: usize) -> (r: Option<(usize, Vec<LdfSignal>)>)
    requires
        pos <= t.len(),
    ensures
        match r {
            Some((p, v)) => spec_signal_records(t@, pos as int) == Some((p as int, v.deep_view()))
                && p <= t.len(),
            None => spec_signal_records(t@, pos as int) is None,
        },
    decreases t.len() - pos,
{
    let q = skip_trivia(t, pos);
    if q < t.len() && t[q] == '}' {
        let v: Vec<LdfSignal> = Vec::new();
        proof {
            crate::text::lemma_vec_deep_view(&v);
            assert(v.deep_view() =~= Seq::<SignalView>::empty());
        }
        return Some((q + 1, v));
    }
    match signal_record(t, q) {
        None => None,
        Some((p, sig)) => {
            if p <= q {
                return None;
            }
            match signal_records(t, p) {
                None => None,
                Some((e, rest)) => {
                    let ghost r0 = rest;
                    let mut out = rest;
                    out.insert(0, sig);
                    proof {
                        crate::text::lemma_deep_view_insert0(r0, out, sig);
                    }
                    Some((e, out))
                },
            }
        },
    }
}

/// The whole `Signals` section.
pub open spec fn spec_parse_signals(t: Seq<char>, pos: int) -> Option<(int, Seq<SignalView>)> {
    match spec_tok(t, pos, "Signals"@) {
        None => None,
        Some(p1) => match spec_tok(t, p1, "{"@) {
            None => None,
            Some(p2) => if 0 <= p2 <= t.len() {
                spec_signal_records(t, p2)
            } else {
                None
            },
        },
    }
}

pub(crate) fn parse_signals_at(t: &Vec<char>, pos: usize) -> (r: Option<(usize, Vec<LdfSignal>)>)
    requires
        pos <= t.len(),
    ensures
        match r {
            Some((p, v)) => spec_parse_signals(t@, pos as int) == Some((p as int, v.deep_view()))
                && p <= t.len(),
            None => spec_parse_signals(t@, pos as int) is None,
        },
{
    let p1 = match tok(t, pos, "Signals") {
        None => return None,
        Some(p) => p,
    };
    let p2 = match tok(t, p1, "{") {
        None => return None,
        Some(p) => p,
    };
    signal_records(t, p2)
}

/// Parses a `Signals` section at the start of the text.
pub fn parse_ldf_signals(s: &str) -> (r: Option<(usize, Vec<LdfSignal>)>)
    ensures
        match r {
            Some((p, v)) => spec_parse_signals(s@, 0) == Some((p as int, v.deep_view())),
            None => spec_parse_signals(s@, 0) is None,
        },
{
    let t = str_chars(s);
    assert(t@ == s@);
    parse_signals_at(&t, 0)
}

} // verus!

//! The `Signal_representation` section: each record ties an encoding type
//! to the signals that use it.
//!
//! ```text
//! Signal_representation {
//!     ENC_BOOL: Signal1, Signal2 ;
//!     ENC_TEMP: Signal3 ;
//! }
//! ```

use crate::text::str_chars;
use crate::token::{ident_string, name_list, spec_ident, spec_name_list, spec_tok, tok};
use crate::trivia::{skip_trivia, spec_skip_trivia};
use vstd::prelude::*;

verus! {

/// One representation record: the encoding's name and the names of the
/// signals that use it, in written order.
#[derive(Debug, Clone, PartialEq)]
pub struct LdfSignalRepresentation {
    /// The encoding type's name.
    pub encoding_type_name: String,
    /// The signals that use the encoding, in written order.
    pub signal_names: Vec<String>,
}

#[verifier::ext_equal]
pub ghost struct SignalRepresentationView {
    pub encoding_type_name: Seq<char>,
    pub signal_names: Seq<Seq<char>>,
}

impl View for LdfSignalRepresentation {
    type V = SignalRepresentationView;

    open spec fn view(&self) -> SignalRepresentationView {
        SignalRepresentationView {
            encoding_type_name: self.encoding_type_name@,
            signal_names: self.signal_names.deep_view(),
        }
    }
}

impl DeepView for LdfSignalRepresentation {
    type V = SignalRepresentationView;

    open spec fn deep_view(&self) -> SignalRepresentationView {
        self.view()
    }
}

/// One `encoding: signal (, signal)* ;` record.
pub open spec fn spec_representation_record(t: Seq<char>, pos: int) -> Option<
    (int, SignalRepresentationView),
> {
    match spec_ident(t, pos) {
        None => None,
        Some((na, nb)) => match spec_tok(t, nb, ":"@) {
            None => None,
            Some(p1) => match spec_name_list(t, p1) {
                None => None,
                Some((p2, names)) => Some(
                    (
                        p2,
                        SignalRepresentationView {
                            encoding_type_name: t.subrange(na, nb),
                            signal_names: names,
                        },
                    ),
                ),
            },
        },
    }
}

fn representation_record(t: &Vec<char>, pos: usize) -> (r: Option<
    (usize, LdfSignalRepresentation),
>)
    requires
        pos <= t.len(),
    ensures
        match r {
            Some((p, v)) => spec_representation_record(t@, pos as int) == Some((p as int, v@)) && p
                <= t.len(),
            None => spec_representation_record(t@, pos as int) is None,
        },
{
    let (nb, name) = match ident_string(t, pos) {
        None => return None,
        Some(r) => r,
    };
    let p1 = match tok(t, nb, ":") {
        None => return None,
        Some(p) => p,
    };
    match name_list(t, p1) {
        None => None,
        Some((p2, names)) => {
            let rep = LdfSignalRepresentation { encoding_type_name: name, signal_names: names };
            proof {
                assert(spec_representation_record(t@, pos as int) matches Some((pp, rv)) && pp
                    == p2 as int && rv =~= rep@);
            }
            Some((p2, rep))
        },
    }
}

/// The representation records of the section body, ending at `}`.
pub open spec fn spec_representation_records(t: Seq<char>, pos: int) -> Option<
    (int, Seq<SignalRepresentationView>),
>
    decreases t.len() - pos,
    when 0 <= pos <= t.len()
{
    let q = spec_skip_trivia(t, pos);
    if q < t.len() && t[q] == '}' {
        Some((q + 1, Seq::empty()))
    } else {
        match spec_representation_record(t, q) {
            None => None,
            Some((p, v)) => if q < p <= t.len() && pos <= q {
                match spec_representation_records(t, p) {
                    None => None,
                    Some((e, rest)) => Some((e, seq![v] + rest)),
                }
            } else {
                None
            },
        }
    }
}

fn representation_records(t: &Vec<char>, pos: usize) -> (r: Option<
    (usize, Vec<LdfSignalRepresentation>),
>)
    requires
        pos <= t.len(),
    ensures
        match r {
            Some((p, v)) => spec_representation_records(t@, pos as int) == Some(
                (p as int, v.deep_view()),
            ) && p <= t.len(),
            None => spec_representation_records(t@, pos as int) is None,
        },
    decreases t.len() - pos,
{
    let q = skip_trivia(t, pos);
    if q < t.len() && t[q] == '}' {
        let v: Vec<LdfSignalRepresentation> = Vec::new();
        proof {
            crate::text::lemma_vec_deep_view(&v);
            assert(v.deep_view() =~= Seq::<SignalRepresentationView>::empty());
        }
        return Some((q + 1, v));
    }
    match representation_record(t, q) {
        None => None,
        Some((p, rep)) => {
            if p <= q {
                return None;
            }
            match representation_records(t, p) {
                None => None,
                Some((e, rest)) => {
                    let ghost r0 = rest;
                    let mut out = rest;
                    out.insert(0, rep);
                    proof {
                        crate::text::lemma_deep_view_insert0(r0, out, rep);
                    }
                    Some((e, out))
                },
            }
        },
    }
}

/// The whole `Signal_representation` section.
pub open spec fn spec_parse_signal_representation(t: Seq<char>, pos: int) -> Option<
    (int, Seq<SignalRepresentationView>),
> {
    match spec_tok(t, pos, "Signal_representation"@) {
        None => None,
        Some(p1) => match spec_tok(t, p1, "{"@) {
            None => None,
            Some(p2) => if 0 <= p2 <= t.len() {
                spec_representation_records(t, p2)
            } else {
                None
            },
        },
    }
}

pub(crate) fn parse_signal_representation_at(t: &Vec<char>, pos: usize) -> (r: Option<
    (usize, Vec<LdfSignalRepresentation>),
>)
    requires
        pos <= t.len(),
    ensures
        match r {
            Some((p, v)) => spec_parse_signal_representation(t@, pos as int) == Some(
                (p as int, v.deep_view()),
            ) && p <= t.len(),
            None => spec_parse_signal_representation(t@, pos as int) is None,
        },
{
    let p1 = match tok(t, pos, "Signal_representation") {
        None => return None,
        Some(p) => p,
    };
    let p2 = match tok(t, p1, "{") {
        None => return None,
        Some(p) => p,
    };
    representation_records(t, p2)
}

/// Parses a `Signal_representation` section at the start of the text.
pub fn parse_ldf_signal_representation(s: &str) -> (r: Option<
    (usize, Vec<LdfSignalRepresentation>),
>)
    ensures
        match r {
            Some((p, v)) => spec_parse_signal_representation(s@, 0) == Some(
                (p as int, v.deep_view()),
            ),
            None => spec_parse_signal_representation(s@, 0) is None,
        },
{
    let t = str_chars(s);
    assert(t@ == s@);
    parse_signal_representation_at(&t, 0)
}

} // verus!

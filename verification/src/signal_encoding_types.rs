//! The `Signal_encoding_types` section: an optional section of named
//! encodings, each a list of logical or physical value records.
//!
//! ```text
//! Signal_encoding_types {
//!     ENC_BOOL {
//!         logical_value, 0, "FALSE" ;
//!         logical_value, 1, "TRUE" ;
//!     }
//!     ENC_TEMP {
//!         physical_value, 0, 1023, 0.2, -40, "degC" ;
//!         physical_value, 0, 1023, 1E-05, 0 ;
//!     }
//! }
//! ```
//!
//! A record's kind is the literal tag before its first comma. The unit
//! clause of a physical value is optional: a semicolon right after the
//! offset leaves the unit empty. The scaling factor may use scientific
//! notation; the absence of the whole section yields an empty list, not an
//! error.

use crate::decimal::{dec_field, int_field, parse_decimal, spec_dec_field, spec_int_field,
    spec_parse_decimal, LdfNumber};
use crate::text::{find, find_char, match_at, run_end, scan, str_chars, tag_at, tag_len, Cc};
use crate::token::{ident_string, qstring, spec_ident, spec_qstring, spec_tok, tok};
use crate::trivia::{skip_trivia, spec_skip_trivia};
use vstd::prelude::*;

verus! {

/// One encoding value: a logical value with its description, or a physical
/// value with its range, scaling, offset and unit.
#[derive(Debug, Clone, PartialEq)]
pub enum LdfSignalEncodingTypeValue {
    LogicalValue {
        /// The raw value.
        value: u32,
        /// The text the value stands for.
        value_description: String,
    },
    PhysicalValue {
        /// The smallest raw value the encoding covers.
        min_value: i32,
        /// The largest raw value the encoding covers.
        max_value: i32,
        /// The factor a raw value is scaled by.
        scaling_factor: LdfNumber,
        /// The offset added after scaling.
        offset: LdfNumber,
        /// The unit text; empty when the unit clause is omitted.
        unit: String,
    },
}

#[verifier::ext_equal]
pub ghost enum EncodingValueView {
    LogicalValue { value: u32, value_description: Seq<char> },
    PhysicalValue {
        min_value: i32,
        max_value: i32,
        scaling_factor: LdfNumber,
        offset: LdfNumber,
        unit: Seq<char>,
    },
}

impl View for LdfSignalEncodingTypeValue {
    type V = EncodingValueView;

    open spec fn view(&self) -> EncodingValueView {
        match self {
            LdfSignalEncodingTypeValue::LogicalValue { value, value_description } =>
                EncodingValueView::LogicalValue {
                value: *value,
                value_description: value_description@,
            },
            LdfSignalEncodingTypeValue::PhysicalValue {
                min_value,
                max_value,
                scaling_factor,
                offset,
                unit,
            } => EncodingValueView::PhysicalValue {
                min_value: *min_value,
                max_value: *max_value,
                scaling_factor: *scaling_factor,
                offset: *offset,
                unit: unit@,
            },
        }
    }
}

impl DeepView for LdfSignalEncodingTypeValue {
    type V = EncodingValueView;

    open spec fn deep_view(&self) -> EncodingValueView {
        self.view()
    }
}

/// One named encoding and its values in written order.
#[derive(Debug, Clone, PartialEq)]
pub struct LdfSignalEncodingType {
    /// The encoding's name.
    pub encoding_type_name: String,
    /// The encoding's values, in written order.
    pub encoding_type_values: Vec<LdfSignalEncodingTypeValue>,
}

#[verifier::ext_equal]
pub ghost struct EncodingTypeView {
    pub encoding_type_name: Seq<char>,
    pub encoding_type_values: Seq<EncodingValueView>,
}

impl View for LdfSignalEncodingType {
    type V = EncodingTypeView;

    open spec fn view(&self) -> EncodingTypeView {
        EncodingTypeView {
            encoding_type_name: self.encoding_type_name@,
            encoding_type_values: self.encoding_type_values.deep_view(),
        }
    }
}

impl DeepView for LdfSignalEncodingType {
    type V = EncodingTypeView;

    open spec fn deep_view(&self) -> EncodingTypeView {
        self.view()
    }
}

/// The rest of a `logical_value, <uint>, "<text>" ;` record, after its
/// comma.
pub open spec fn spec_logical_value(t: Seq<char>, pos: int) -> Option<(int, EncodingValueView)> {
    let a = spec_skip_trivia(t, pos);
    let b = run_end(t, a, Cc::Digit);
    match spec_dec_field(t, a, b, 0xffff_ffff) {
        None => None,
        Some(value) => match spec_tok(t, b, ","@) {
            None => None,
            Some(p1) => match spec_tok(t, p1, "\""@) {
                None => None,
                Some(a2) => match spec_qstring(t, a2) {
                    None => None,
                    Some((p2, desc)) => match spec_tok(t, p2, ";"@) {
                        None => None,
                        Some(p3) => Some(
                            (
                                p3,
                                EncodingValueView::LogicalValue {
                                    value: value as u32,
                                    value_description: desc,
                                },
                            ),
                        ),
                    },
                },
            },
        },
    }
}

/// The rest of a `physical_value, <min>, <max>, <scale>, <offset>
/// [, "<unit>"] ;` record, after its comma. A semicolon directly after the
/// offset leaves the unit empty.
pub open spec fn spec_physical_value(t: Seq<char>, pos: int) -> Option<(int, EncodingValueView)> {
    let a1 = spec_skip_trivia(t, pos);
    let b1 = run_end(t, a1, Cc::NumDash);
    match spec_int_field(t, a1, b1) {
        None => None,
        Some(min) => match spec_tok(t, b1, ","@) {
            None => None,
            Some(p1) => {
                let a2 = spec_skip_trivia(t, p1);
                let b2 = run_end(t, a2, Cc::NumDash);
                match spec_int_field(t, a2, b2) {
                    None => None,
                    Some(max) => match spec_tok(t, b2, ","@) {
                        None => None,
                        Some(p2) => {
                            let a3 = spec_skip_trivia(t, p2);
                            let b3 = run_end(t, a3, Cc::Sci);
                            match spec_parse_decimal(t, a3, b3) {
                                None => None,
                                Some(scale) => match spec_tok(t, b3, ","@) {
                                    None => None,
                                    Some(p3) => {
                                        let a4 = spec_skip_trivia(t, p3);
                                        let b4 = run_end(t, a4, Cc::NumDotDash);
                                        match spec_parse_decimal(t, a4, b4) {
                                            None => None,
                                            Some(offset) => {
                                                let q = spec_skip_trivia(t, b4);
                                                if q < t.len() && t[q] == ';' {
                                                    Some(
                                                        (
                                                            q + 1,
                                                            EncodingValueView::PhysicalValue {
                                                                min_value: min as i32,
                                                                max_value: max as i32,
                                                                scaling_factor: scale,
                                                                offset: offset,
                                                                unit: Seq::empty(),
                                                            },
                                                        ),
                                                    )
                                                } else if q < t.len() && t[q] == ',' {
                                                    match spec_tok(t, q + 1, "\""@) {
                                                        None => None,
                                                        Some(a5) => match spec_qstring(t, a5) {
                                                            None => None,
                                                            Some((p5, unit)) => match spec_tok(
                                                                t,
                                                                p5,
                                                                ";"@,
                                                            ) {
                                                                None => None,
                                                                Some(p6) => Some(
                                                                    (
                                                                        p6,
                                                                        EncodingValueView::PhysicalValue {
                                                                            min_value: min as i32,
                                                                            max_value: max as i32,
                                                                            scaling_factor: scale,
                                                                            offset: offset,
                                                                            unit: unit,
                                                                        },
                                                                    ),
                                                                ),
                                                            },
                                                        },
                                                    }
                                                } else {
                                                    None
                                                }
                                            },
                                        }
                                    },
                                },
                            }
                        },
                    },
                }
            },
        },
    }
}

/// The four numeric fields of a physical value record, and the position of
/// the lookahead character after the offset that decides whether a unit
/// clause follows.
pub open spec fn spec_pv_prefix(t: Seq<char>, pos: int) -> Option<
    (int, i32, i32, LdfNumber, LdfNumber),
> {
    let a1 = spec_skip_trivia(t, pos);
    let b1 = run_end(t, a1, Cc::NumDash);
    match spec_int_field(t, a1, b1) {
        None => None,
        Some(min) => match spec_tok(t, b1, ","@) {
            None => None,
            Some(p1) => {
                let a2 = spec_skip_trivia(t, p1);
                let b2 = run_end(t, a2, Cc::NumDash);
                match spec_int_field(t, a2, b2) {
                    None => None,
                    Some(max) => match spec_tok(t, b2, ","@) {
                        None => None,
                        Some(p2) => {
                            let a3 = spec_skip_trivia(t, p2);
                            let b3 = run_end(t, a3, Cc::Sci);
                            match spec_parse_decimal(t, a3, b3) {
                                None => None,
                                Some(scale) => match spec_tok(t, b3, ","@) {
                                    None => None,
                                    Some(p3) => {
                                        let a4 = spec_skip_trivia(t, p3);
                                        let b4 = run_end(t, a4, Cc::NumDotDash);
                                        match spec_parse_decimal(t, a4, b4) {
                                            None => None,
                                            Some(offset) => Some(
                                                (
                                                    spec_skip_trivia(t, b4),
                                                    min as i32,
                                                    max as i32,
                                                    scale,
                                                    offset,
                                                ),
                                            ),
                                        }
                                    },
                                },
                            }
                        },
                    },
                }
            },
        },
    }
}

/// The unit clause is optional: when the first non-trivia character after
/// the offset field is a semicolon, the physical value parses with the
/// empty unit, and its minimum, maximum, scaling factor and offset read
/// exactly as they would with a unit present.
pub proof fn lemma_implied_unit(
    t: Seq<char>,
    pos: int,
    q: int,
    mn: i32,
    mx: i32,
    sc: LdfNumber,
    off: LdfNumber,
)
    requires
        spec_pv_prefix(t, pos) == Some((q, mn, mx, sc, off)),
        0 <= q < t.len(),
        t[q] == ';',
    ensures
        spec_physical_value(t, pos) == Some(
            (
                q + 1,
                EncodingValueView::PhysicalValue {
                    min_value: mn,
                    max_value: mx,
                    scaling_factor: sc,
                    offset: off,
                    unit: Seq::empty(),
                },
            ),
        ),
{
}

/// One encoding value record: the tag before the first comma picks the
/// kind; any other tag is a recoverable error.
pub open spec fn spec_encoding_value_record(t: Seq<char>, pos: int) -> Option<
    (int, EncodingValueView),
> {
    match find_char(t, pos, ',') {
        None => None,
        Some(k) => if match_at(t, pos, "logical_value"@) && k == pos + "logical_value"@.len() {
            spec_logical_value(t, k + 1)
        } else if match_at(t, pos, "physical_value"@) && k == pos
            + "physical_value"@.len() {
            spec_physical_value(t, k + 1)
        } else {
            None
        },
    }
}

fn logical_value(t: &Vec<char>, pos: usize) -> (r: Option<(usize, LdfSignalEncodingTypeValue)>)
    requires
        pos <= t.len(),
    ensures
        match r {
            Some((p, v)) => spec_logical_value(t@, pos as int) == Some((p as int, v@)) && p
                <= t.len(),
            None => spec_logical_value(t@, pos as int) is None,
        },
{
    let a = skip_trivia(t, pos);
    let b = scan(t, a, Cc::Digit);
    let value = match dec_field(t, a, b, 0xffff_ffff) {
        None => return None,
        Some(v) => v,
    };
    let p1 = match tok(t, b, ",") {
        None => return None,
        Some(p) => p,
    };
    let a2 = match tok(t, p1, "\"") {
        None => return None,
        Some(p) => p,
    };
    let (p2, desc) = match qstring(t, a2) {
        None => return None,
        Some(r) => r,
    };
    match tok(t, p2, ";") {
        None => None,
        Some(p3) => {
            let v = LdfSignalEncodingTypeValue::LogicalValue {
                value: value as u32,
                value_description: desc,
            };
            proof {
                assert(spec_logical_value(t@, pos as int) matches Some((pp, vv)) && pp == p3 as int
                    && vv =~= v@);
            }
            Some((p3, v))
        },
    }
}

fn physical_value(t: &Vec<char>, pos: usize) -> (r: Option<(usize, LdfSignalEncodingTypeValue)>)
    requires
        pos <= t.len(),
    ensures
        match r {
            Some((p, v)) => spec_physical_value(t@, pos as int) == Some((p as int, v@)) && p
                <= t.len(),
            None => spec_physical_value(t@, pos as int) is None,
        },
{
    let a1 = skip_trivia(t, pos);
    let b1 = scan(t, a1, Cc::NumDash);
    let min = match int_field(t, a1, b1) {
        None => return None,
        Some(v) => v,
    };
    let p1 = match tok(t, b1, ",") {
        None => return None,
        Some(p) => p,
    };
    let a2 = skip_trivia(t, p1);
    let b2 = scan(t, a2, Cc::NumDash);
    let max = match int_field(t, a2, b2) {
        None => return None,
        Some(v) => v,
    };
    let p2 = match tok(t, b2, ",") {
        None => return None,
        Some(p) => p,
    };
    let a3 = skip_trivia(t, p2);
    let b3 = scan(t, a3, Cc::Sci);
    let scale = match parse_decimal(t, a3, b3) {
        None => return None,
        Some(d) => d,
    };
    let p3 = match tok(t, b3, ",") {
        None => return None,
        Some(p) => p,
    };
    let a4 = skip_trivia(t, p3);
    let b4 = scan(t, a4, Cc::NumDotDash);
    let offset = match parse_decimal(t, a4, b4) {
        None => return None,
        Some(d) => d,
    };
    let q = skip_trivia(t, b4);
    if q < t.len() && t[q] == ';' {
        let v = LdfSignalEncodingTypeValue::PhysicalValue {
            min_value: min,
            max_value: max,
            scaling_factor: scale,
            offset: offset,
            unit: String::new(),
        };
        proof {
            assert(spec_physical_value(t@, pos as int) matches Some((pp, vv)) && pp == q + 1 && vv
                =~= v@);
        }
        Some((q + 1, v))
    } else if q < t.len() && t[q] == ',' {
        let a5 = match tok(t, q + 1, "\"") {
            None => return None,
            Some(p) => p,
        };
        let (p5, unit) = match qstring(t, a5) {
            None => return None,
            Some(r) => r,
        };
        match tok(t, p5, ";") {
            None => None,
            Some(p6) => {
                let v = LdfSignalEncodingTypeValue::PhysicalValue {
                    min_value: min,
                    max_value: max,
                    scaling_factor: scale,
                    offset: offset,
                    unit: unit,
                };
                proof {
                    assert(spec_physical_value(t@, pos as int) matches Some((pp, vv)) && pp
                        == p6 as int && vv =~= v@);
                }
                Some((p6, v))
            },
        }
    } else {
        None
    }
}

fn encoding_value_record(t: &Vec<char>, pos: usize) -> (r: Option<
    (usize, LdfSignalEncodingTypeValue),
>)
    requires
        pos <= t.len(),
    ensures
        match r {
            Some((p, v)) => spec_encoding_value_record(t@, pos as int) == Some((p as int, v@)) && p
                <= t.len(),
            None => spec_encoding_value_record(t@, pos as int) is None,
        },
{
    let k = match find(t, pos, ',') {
        None => return None,
        Some(k) => k,
    };
    let logical = tag_at(t, pos, "logical_value");
    let physical = tag_at(t, pos, "physical_value");
    if logical && k == pos + tag_len("logical_value") {
        logical_value(t, k + 1)
    } else if physical && k == pos + tag_len("physical_value") {
        physical_value(t, k + 1)
    } else {
        None
    }
}

/// The value records of one encoding's block, ending at `}`.
pub open spec fn spec_encoding_value_records(t: Seq<char>, pos: int) -> Option<
    (int, Seq<EncodingValueView>),
>
    decreases t.len() - pos,
    when 0 <= pos <= t.len()
{
    let q = spec_skip_trivia(t, pos);
    if q < t.len() && t[q] == '}' {
        Some((q + 1, Seq::empty()))
    } else {
        match spec_encoding_value_record(t, q) {
            None => None,
            Some((p, v)) => if q < p <= t.len() && pos <= q {
                match spec_encoding_value_records(t, p) {
                    None => None,
                    Some((e, rest)) => Some((e, seq![v] + rest)),
                }
            } else {
                None
            },
        }
    }
}

fn encoding_value_records(t: &Vec<char>, pos: usize) -> (r: Option<
    (usize, Vec<LdfSignalEncodingTypeValue>),
>)
    requires
        pos <= t.len(),
    ensures
        match r {
            Some((p, v)) => spec_encoding_value_records(t@, pos as int) == Some(
                (p as int, v.deep_view()),
            ) && p <= t.len(),
            None => spec_encoding_value_records(t@, pos as int) is None,
        },
    decreases t.len() - pos,
{
    let q = skip_trivia(t, pos);
    if q < t.len() && t[q] == '}' {
        let v: Vec<LdfSignalEncodingTypeValue> = Vec::new();
        proof {
            crate::text::lemma_vec_deep_view(&v);
            assert(v.deep_view() =~= Seq::<EncodingValueView>::empty());
        }
        return Some((q + 1, v));
    }
    match encoding_value_record(t, q) {
        None => None,
        Some((p, val)) => {
            if p <= q {
                return None;
            }
            match encoding_value_records(t, p) {
                None => None,
                Some((e, rest)) => {
                    let ghost r0 = rest;
                    let mut out = rest;
                    out.insert(0, val);
                    proof {
                        crate::text::lemma_deep_view_insert0(r0, out, val);
                    }
                    Some((e, out))
                },
            }
        },
    }
}

/// One `name { value records }` encoding record.
pub open spec fn spec_encoding_type_record(t: Seq<char>, pos: int) -> Option<
    (int, EncodingTypeView),
> {
    match spec_ident(t, pos) {
        None => None,
        Some((na, nb)) => match spec_tok(t, nb, "{"@) {
            None => None,
            Some(p1) => if 0 <= p1 <= t.len() {
                match spec_encoding_value_records(t, p1) {
                    None => None,
                    Some((p2, values)) => Some(
                        (
                            p2,
                            EncodingTypeView {
                                encoding_type_name: t.subrange(na, nb),
                                encoding_type_values: values,
                            },
                        ),
                    ),
                }
            } else {
                None
            },
        },
    }
}

fn encoding_type_record(t: &Vec<char>, pos: usize) -> (r: Option<(usize, LdfSignalEncodingType)>)
    requires
        pos <= t.len(),
    ensures
        match r {
            Some((p, v)) => spec_encoding_type_record(t@, pos as int) == Some((p as int, v@)) && p
                <= t.len(),
            None => spec_encoding_type_record(t@, pos as int) is None,
        },
{
    let (nb, name) = match ident_string(t, pos) {
        None => return None,
        Some(r) => r,
    };
    let p1 = match tok(t, nb, "{") {
        None => return None,
        Some(p) => p,
    };
    match encoding_value_records(t, p1) {
        None => None,
        Some((p2, values)) => {
            let enc = LdfSignalEncodingType {
                encoding_type_name: name,
                encoding_type_values: values,
            };
            proof {
                assert(spec_encoding_type_record(t@, pos as int) matches Some((pp, ev)) && pp
                    == p2 as int && ev =~= enc@);
            }
            Some((p2, enc))
        },
    }
}

/// The encoding records of the section body, ending at `}`.
pub open spec fn spec_encoding_type_records(t: Seq<char>, pos: int) -> Option<
    (int, Seq<EncodingTypeView>),
>
    decreases t.len() - pos,
    when 0 <= pos <= t.len()
{
    let q = spec_skip_trivia(t, pos);
    if q < t.len() && t[q] == '}' {
        Some((q + 1, Seq::empty()))
    } else {
        match spec_encoding_type_record(t, q) {
            None => None,
            Some((p, v)) => if q < p <= t.len() && pos <= q {
                match spec_encoding_type_records(t, p) {
                    None => None,
                    Some((e, rest)) => Some((e, seq![v] + rest)),
                }
            } else {
                None
            },
        }
    }
}

fn encoding_type_records(t: &Vec<char>, pos: usize) -> (r: Option<
    (usize, Vec<LdfSignalEncodingType>),
>)
    requires
        pos <= t.len(),
    ensures
        match r {
            Some((p, v)) => spec_encoding_type_records(t@, pos as int) == Some(
                (p as int, v.deep_view()),
            ) && p <= t.len(),
            None => spec_encoding_type_records(t@, pos as int) is None,
        },
    decreases t.len() - pos,
{
    let q = skip_trivia(t, pos);
    if q < t.len() && t[q] == '}' {
        let v: Vec<LdfSignalEncodingType> = Vec::new();
        proof {
            crate::text::lemma_vec_deep_view(&v);
            assert(v.deep_view() =~= Seq::<EncodingTypeView>::empty());
        }
        return Some((q + 1, v));
    }
    match encoding_type_record(t, q) {
        None => None,
        Some((p, enc)) => {
            if p <= q {
                return None;
            }
            match encoding_type_records(t, p) {
                None => None,
                Some((e, rest)) => {
                    let ghost r0 = rest;
                    let mut out = rest;
                    out.insert(0, enc);
                    proof {
                        crate::text::lemma_deep_view_insert0(r0, out, enc);
                    }
                    Some((e, out))
                },
            }
        },
    }
}

/// The whole `Signal_encoding_types` section. When the keyword is not the
/// next thing in the input the section is absent: the result is empty and
/// only trivia is consumed.
pub open spec fn spec_parse_encoding_types(t: Seq<char>, pos: int) -> Option<
    (int, Seq<EncodingTypeView>),
> {
    let q = spec_skip_trivia(t, pos);
    if !match_at(t, q, "Signal_encoding_types"@) {
        Some((q, Seq::empty()))
    } else {
        let p0 = q + "Signal_encoding_types"@.len();
        match spec_tok(t, p0, "{"@) {
            None => None,
            Some(p1) => if 0 <= p1 <= t.len() {
                spec_encoding_type_records(t, p1)
            } else {
                None
            },
        }
    }
}

pub(crate) fn parse_encoding_types_at(t: &Vec<char>, pos: usize) -> (r: Option<
    (usize, Vec<LdfSignalEncodingType>),
>)
    requires
        pos <= t.len(),
    ensures
        match r {
            Some((p, v)) => spec_parse_encoding_types(t@, pos as int) == Some(
                (p as int, v.deep_view()),
            ) && p <= t.len(),
            None => spec_parse_encoding_types(t@, pos as int) is None,
        },
{
    let q = skip_trivia(t, pos);
    if !tag_at(t, q, "Signal_encoding_types") {
        let v: Vec<LdfSignalEncodingType> = Vec::new();
        proof {
            crate::text::lemma_vec_deep_view(&v);
            assert(v.deep_view() =~= Seq::<EncodingTypeView>::empty());
        }
        return Some((q, v));
    }
    let p0 = q + tag_len("Signal_encoding_types");
    let p1 = match tok(t, p0, "{") {
        None => return None,
        Some(p) => p,
    };
    encoding_type_records(t, p1)
}

/// Parses a `Signal_encoding_types` section at the start of the text. When
/// the section keyword is absent the result is an empty list, not an error.
pub fn parse_ldf_signal_encoding_types(s: &str) -> (r: Option<(usize, Vec<LdfSignalEncodingType>)>)
    ensures
        match r {
            Some((p, v)) => spec_parse_encoding_types(s@, 0) == Some((p as int, v.deep_view())),
            None => spec_parse_encoding_types(s@, 0) is None,
        },
{
    let t = str_chars(s);
    assert(t@ == s@);
    parse_encoding_types_at(&t, 0)
}

} // verus!

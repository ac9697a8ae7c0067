//! The `Node_attributes` section: one block per slave node with its
//! protocol version, addresses, product id, optional response-error signal,
//! four timing parameters and the list of configurable frames.
//!
//! ```text
//! Node_attributes {
//!     Slave1 {
//!         LIN_protocol = "2.1" ;
//!         configured_NAD = 0xB ;
//!         initial_NAD = 0xB ;
//!         product_id = 0x123, 0x4567, 8 ;
//!         response_error = Signal1 ;
//!         P2_min = 100 ms ;
//!         ST_min = 0 ms ;
//!         N_As_timeout = 1000 ms ;
//!         N_Cr_timeout = 1000 ms ;
//!         configurable_frames {
//!             Frame1 ;
//!         }
//!     }
//! }
//! ```

use crate::decimal::{dec_wf, flex_field, prefixed_hex_field, spec_flex_field,
    spec_prefixed_hex_field, LdfNumber};
use crate::text::{extract, match_at, run_end, scan, str_chars, tag_at, tag_len, Cc};
use crate::token::{ident_string, int_duration, spec_ident, spec_int_duration, spec_tok, tok};
use crate::trivia::{skip_trivia, spec_skip_trivia};
use vstd::prelude::*;

verus! {

/// The attributes of one node.
#[derive(Debug, Clone, PartialEq)]
pub struct LdfNodeAttributes {
    /// The node's name.
    pub node_name: String,
    /// The node's LIN protocol version, as written between the quotes.
    pub lin_protocol: String,
    /// The configured node address.
    pub configured_nad: u8,
    /// The initial node address.
    pub initial_nad: u8,
    /// The supplier part of the product id.
    pub supplier_id: u16,
    /// The function part of the product id.
    pub function_id: u16,
    /// The variant part of the product id; decimal or hexadecimal in the
    /// source.
    pub variant: u8,
    /// The response-error signal's name, or the empty string when the
    /// optional clause is absent.
    pub response_error: String,
    /// P2_min in milliseconds.
    pub p2_min: LdfNumber,
    /// ST_min in milliseconds.
    pub st_min: LdfNumber,
    /// N_As_timeout in milliseconds.
    pub n_as_timeout: LdfNumber,
    /// N_Cr_timeout in milliseconds.
    pub n_cr_timeout: LdfNumber,
    /// The names in the node's `configurable_frames` block, in written
    /// order.
    pub configurable_frames: Vec<String>,
}

#[verifier::ext_equal]
pub ghost struct NodeAttributesView {
    pub node_name: Seq<char>,
    pub lin_protocol: Seq<char>,
    pub configured_nad: u8,
    pub initial_nad: u8,
    pub supplier_id: u16,
    pub function_id: u16,
    pub variant: u8,
    pub response_error: Seq<char>,
    pub p2_min: LdfNumber,
    pub st_min: LdfNumber,
    pub n_as_timeout: LdfNumber,
    pub n_cr_timeout: LdfNumber,
    pub configurable_frames: Seq<Seq<char>>,
}

impl View for LdfNodeAttributes {
    type V = NodeAttributesView;

    open spec fn view(&self) -> NodeAttributesView {
        NodeAttributesView {
            node_name: self.node_name@,
            lin_protocol: self.lin_protocol@,
            configured_nad: self.configured_nad,
            initial_nad: self.initial_nad,
            supplier_id: self.supplier_id,
            function_id: self.function_id,
            variant: self.variant,
            response_error: self.response_error@,
            p2_min: self.p2_min,
            st_min: self.st_min,
            n_as_timeout: self.n_as_timeout,
            n_cr_timeout: self.n_cr_timeout,
            configurable_frames: self.configurable_frames.deep_view(),
        }
    }
}

impl DeepView for LdfNodeAttributes {
    type V = NodeAttributesView;

    open spec fn deep_view(&self) -> NodeAttributesView {
        self.view()
    }
}

/// The `LIN_protocol = "<version>" ;` statement; the version text is a run
/// of digits and dots, possibly empty, taken verbatim.
pub open spec fn spec_protocol_stmt(t: Seq<char>, pos: int) -> Option<(int, Seq<char>)> {
    match spec_tok(t, pos, "LIN_protocol"@) {
        None => None,
        Some(p1) => match spec_tok(t, p1, "="@) {
            None => None,
            Some(p2) => match spec_tok(t, p2, "\""@) {
                None => None,
                Some(a) => {
                    let b = run_end(t, a, Cc::NumDot);
                    if !(b < t.len() && t[b] == '"') {
                        None
                    } else {
                        match spec_tok(t, b + 1, ";"@) {
                            None => None,
                            Some(p3) => Some((p3, t.subrange(a, b))),
                        }
                    }
                },
            },
        },
    }
}

fn protocol_stmt(t: &Vec<char>, pos: usize) -> (r: Option<(usize, String)>)
    requires
        pos <= t.len(),
    ensures
        match r {
            Some((p, s)) => {
                &&& spec_protocol_stmt(t@, pos as int) matches Some((pp, v))
                &&& pp == p as int
                &&& s@ == v
                &&& p <= t.len()
            },
            None => spec_protocol_stmt(t@, pos as int) is None,
        },
{
    let p1 = match tok(t, pos, "LIN_protocol") {
        None => return None,
        Some(p) => p,
    };
    let p2 = match tok(t, p1, "=") {
        None => return None,
        Some(p) => p,
    };
    let a = match tok(t, p2, "\"") {
        None => return None,
        Some(p) => p,
    };
    let b = scan(t, a, Cc::NumDot);
    if !(b < t.len() && t[b] == '"') {
        return None;
    }
    match tok(t, b + 1, ";") {
        None => None,
        Some(p3) => {
            let v = extract(t, a, b);
            Some((p3, v))
        },
    }
}

/// A `<key> = 0x<hex> ;` statement whose value must carry the `0x` prefix
/// and fit one byte.
pub open spec fn spec_nad_stmt(t: Seq<char>, pos: int, key: Seq<char>) -> Option<(int, u8)> {
    match spec_tok(t, pos, key) {
        None => None,
        Some(p1) => match spec_tok(t, p1, "="@) {
            None => None,
            Some(p2) => {
                let a = spec_skip_trivia(t, p2);
                let b = run_end(t, a, Cc::HexX);
                match spec_prefixed_hex_field(t, a, b, 255) {
                    None => None,
                    Some(v) => match spec_tok(t, b, ";"@) {
                        None => None,
                        Some(p3) => Some((p3, v as u8)),
                    },
                }
            },
        },
    }
}

fn nad_stmt(t: &Vec<char>, pos: usize, key: &str) -> (r: Option<(usize, u8)>)
    requires
        pos <= t.len(),
    ensures
        match r {
            Some((p, v)) => spec_nad_stmt(t@, pos as int, key@) == Some((p as int, v)) && p
                <= t.len(),
            None => spec_nad_stmt(t@, pos as int, key@) is None,
        },
{
    let p1 = match tok(t, pos, key) {
        None => return None,
        Some(p) => p,
    };
    let p2 = match tok(t, p1, "=") {
        None => return None,
        Some(p) => p,
    };
    let a = skip_trivia(t, p2);
    let b = scan(t, a, Cc::HexX);
    let v = match prefixed_hex_field(t, a, b, 255) {
        None => return None,
        Some(v) => v,
    };
    match tok(t, b, ";") {
        None => None,
        Some(p3) => Some((p3, v as u8)),
    }
}

#[verifier::ext_equal]
pub ghost struct ProductIdView {
    pub supplier_id: u16,
    pub function_id: u16,
    pub variant: u8,
}

/// The `product_id = <supplier>, <function>, <variant> ;` statement:
/// supplier and function are `0x`-prefixed hexadecimal, the variant is
/// decimal or hexadecimal.
pub open spec fn spec_product_id(t: Seq<char>, pos: int) -> Option<(int, ProductIdView)> {
    match spec_tok(t, pos, "product_id"@) {
        None => None,
        Some(p1) => match spec_tok(t, p1, "="@) {
            None => None,
            Some(p2) => {
                let a1 = spec_skip_trivia(t, p2);
                let b1 = run_end(t, a1, Cc::HexX);
                match spec_prefixed_hex_field(t, a1, b1, 0xffff) {
                    None => None,
                    Some(supplier) => match spec_tok(t, b1, ","@) {
                        None => None,
                        Some(p3) => {
                            let a2 = spec_skip_trivia(t, p3);
                            let b2 = run_end(t, a2, Cc::HexX);
                            match spec_prefixed_hex_field(t, a2, b2, 0xffff) {
                                None => None,
                                Some(function) => match spec_tok(t, b2, ","@) {
                                    None => None,
                                    Some(p4) => {
                                        let a3 = spec_skip_trivia(t, p4);
                                        let b3 = run_end(t, a3, Cc::HexX);
                                        match spec_flex_field(t, a3, b3, 255) {
                                            None => None,
                                            Some(variant) => match spec_tok(t, b3, ";"@) {
                                                None => None,
                                                Some(p5) => Some(
                                                    (
                                                        p5,
                                                        ProductIdView {
                                                            supplier_id: supplier as u16,
                                                            function_id: function as u16,
                                                            variant: variant as u8,
                                                        },
                                                    ),
                                                ),
                                            },
                                        }
                                    },
                                },
                            }
                        },
                    },
                }
            },
        },
    }
}

fn product_id(t: &Vec<char>, pos: usize) -> (r: Option<(usize, u16, u16, u8)>)
    requires
        pos <= t.len(),
    ensures
        match r {
            Some((p, s, f, v)) => spec_product_id(t@, pos as int) == Some(
                (p as int, ProductIdView { supplier_id: s, function_id: f, variant: v }),
            ) && p <= t.len(),
            None => spec_product_id(t@, pos as int) is None,
        },
{
    let p1 = match tok(t, pos, "product_id") {
        None => return None,
        Some(p) => p,
    };
    let p2 = match tok(t, p1, "=") {
        None => return None,
        Some(p) => p,
    };
    let a1 = skip_trivia(t, p2);
    let b1 = scan(t, a1, Cc::HexX);
    let supplier = match prefixed_hex_field(t, a1, b1, 0xffff) {
        None => return None,
        Some(v) => v,
    };
    let p3 = match tok(t, b1, ",") {
        None => return None,
        Some(p) => p,
    };
    let a2 = skip_trivia(t, p3);
    let b2 = scan(t, a2, Cc::HexX);
    let function = match prefixed_hex_field(t, a2, b2, 0xffff) {
        None => return None,
        Some(v) => v,
    };
    let p4 = match tok(t, b2, ",") {
        None => return None,
        Some(p) => p,
    };
    let a3 = skip_trivia(t, p4);
    let b3 = scan(t, a3, Cc::HexX);
    let variant = match flex_field(t, a3, b3, 255) {
        None => return None,
        Some(v) => v,
    };
    match tok(t, b3, ";") {
        None => None,
        Some(p5) => Some((p5, supplier as u16, function as u16, variant as u8)),
    }
}

/// The optional `response_error = <signal> ;` clause, detected by looking
/// for the keyword at the next non-trivia position. Absence yields the
/// empty name and consumes only the trivia.
pub open spec fn spec_response_error(t: Seq<char>, pos: int) -> Option<(int, Seq<char>)> {
    let q = spec_skip_trivia(t, pos);
    if match_at(t, q, "response_error"@) {
        let p0 = q + "response_error"@.len();
        match spec_tok(t, p0, "="@) {
            None => None,
            Some(p1) => match spec_ident(t, p1) {
                None => None,
                Some((ra, rb)) => match spec_tok(t, rb, ";"@) {
                    None => None,
                    Some(p2) => Some((p2, t.subrange(ra, rb))),
                },
            },
        }
    } else {
        Some((q, Seq::empty()))
    }
}

fn response_error(t: &Vec<char>, pos: usize) -> (r: Option<(usize, String)>)
    requires
        pos <= t.len(),
    ensures
        match r {
            Some((p, s)) => {
                &&& spec_response_error(t@, pos as int) matches Some((pp, v))
                &&& pp == p as int
                &&& s@ == v
                &&& p <= t.len()
            },
            None => spec_response_error(t@, pos as int) is None,
        },
{
    let q = skip_trivia(t, pos);
    if tag_at(t, q, "response_error") {
        let p0 = q + tag_len("response_error");
        let p1 = match tok(t, p0, "=") {
            None => return None,
            Some(p) => p,
        };
        let (rb, name) = match ident_string(t, p1) {
            None => return None,
            Some(r) => r,
        };
        match tok(t, rb, ";") {
            None => None,
            Some(p2) => Some((p2, name)),
        }
    } else {
        let s = String::new();
        assert(s@ =~= Seq::<char>::empty());
        Some((q, s))
    }
}

/// A `<key> = <integer> ms ;` timing statement.
pub open spec fn spec_timing_stmt(t: Seq<char>, pos: int, key: Seq<char>) -> Option<
    (int, LdfNumber),
> {
    match spec_tok(t, pos, key) {
        None => None,
        Some(p1) => match spec_tok(t, p1, "="@) {
            None => None,
            Some(p2) => match spec_int_duration(t, p2) {
                None => None,
                Some((p3, d)) => match spec_tok(t, p3, ";"@) {
                    None => None,
                    Some(p4) => Some((p4, d)),
                },
            },
        },
    }
}

fn timing_stmt(t: &Vec<char>, pos: usize, key: &str) -> (r: Option<(usize, LdfNumber)>)
    requires
        pos <= t.len(),
    ensures
        match r {
            Some((p, d)) => spec_timing_stmt(t@, pos as int, key@) == Some((p as int, d)) && p
                <= t.len() && dec_wf(d),
            None => spec_timing_stmt(t@, pos as int, key@) is None,
        },
{
    let p1 = match tok(t, pos, key) {
        None => return None,
        Some(p) => p,
    };
    let p2 = match tok(t, p1, "=") {
        None => return None,
        Some(p) => p,
    };
    let (p3, d) = match int_duration(t, p2) {
        None => return None,
        Some(r) => r,
    };
    match tok(t, p3, ";") {
        None => None,
        Some(p4) => Some((p4, d)),
    }
}

/// The `name ;` records of a `configurable_frames` block, ending at `}`.
pub open spec fn spec_cframe_records(t: Seq<char>, pos: int) -> Option<(int, Seq<Seq<char>>)>
    decreases t.len() - pos,
    when 0 <= pos <= t.len()
{
    let q = spec_skip_trivia(t, pos);
    if q < t.len() && t[q] == '}' {
        Some((q + 1, Seq::empty()))
    } else {
        match spec_ident(t, q) {
            None => None,
            Some((a, b)) => match spec_tok(t, b, ";"@) {
                None => None,
                Some(p) => if q < p <= t.len() && pos <= q {
                    match spec_cframe_records(t, p) {
                        None => None,
                        Some((e, rest)) => Some((e, seq![t.subrange(a, b)] + rest)),
                    }
                } else {
                    None
                },
            },
        }
    }
}

fn cframe_records(t: &Vec<char>, pos: usize) -> (r: Option<(usize, Vec<String>)>)
    requires
        pos <= t.len(),
    ensures
        match r {
            Some((p, v)) => spec_cframe_records(t@, pos as int) == Some((p as int, v.deep_view()))
                && p <= t.len(),
            None => spec_cframe_records(t@, pos as int) is None,
        },
    decreases t.len() - pos,
{
    let q = skip_trivia(t, pos);
    if q < t.len() && t[q] == '}' {
        let v: Vec<String> = Vec::new();
        proof {
            crate::text::lemma_vec_deep_view(&v);
            assert(v.deep_view() =~= Seq::<Seq<char>>::empty());
        }
        return Some((q + 1, v));
    }
    let (b, name) = match ident_string(t, q) {
        None => return None,
        Some(r) => r,
    };
    match tok(t, b, ";") {
        None => None,
        Some(p) => {
            if p <= q {
                return None;
            }
            match cframe_records(t, p) {
                None => None,
                Some((e, rest)) => {
                    let ghost r0 = rest;
                    let mut out = rest;
                    out.insert(0, name);
                    proof {
                        crate::text::lemma_deep_view_insert0(r0, out, name);
                    }
                    Some((e, out))
                },
            }
        },
    }
}

/// One node's whole attribute block.
pub open spec fn spec_node_attr_record(t: Seq<char>, pos: int) -> Option<
    (int, NodeAttributesView),
> {
    match spec_ident(t, pos) {
        None => None,
        Some((na, nb)) => match spec_tok(t, nb, "{"@) {
            None => None,
            Some(p1) => match spec_protocol_stmt(t, p1) {
                None => None,
                Some((p2, protocol)) => match spec_nad_stmt(t, p2, "configured_NAD"@) {
                    None => None,
                    Some((p3, cnad)) => match spec_nad_stmt(t, p3, "initial_NAD"@) {
                        None => None,
                        Some((p4, inad)) => match spec_product_id(t, p4) {
                            None => None,
                            Some((p5, product)) => match spec_response_error(t, p5) {
                                None => None,
                                Some((p6, resp)) => match spec_timing_stmt(t, p6, "P2_min"@) {
                                    None => None,
                                    Some((p7, p2_min)) => match spec_timing_stmt(
                                        t,
                                        p7,
                                        "ST_min"@,
                                    ) {
                                        None => None,
                                        Some((p8, st_min)) => match spec_timing_stmt(
                                            t,
                                            p8,
                                            "N_As_timeout"@,
                                        ) {
                                            None => None,
                                            Some((p9, n_as)) => match spec_timing_stmt(
                                                t,
                                                p9,
                                                "N_Cr_timeout"@,
                                            ) {
                                                None => None,
                                                Some((p10, n_cr)) => match spec_tok(
                                                    t,
                                                    p10,
                                                    "configurable_frames"@,
                                                ) {
                                                    None => None,
                                                    Some(p11) => match spec_tok(t, p11, "{"@) {
                                                        None => None,
                                                        Some(p12) => if 0 <= p12 <= t.len() {
                                                            match spec_cframe_records(t, p12) {
                                                                None => None,
                                                                Some((p13, frames)) => match
                                                                    spec_tok(t, p13, "}"@) {
                                                                    None => None,
                                                                    Some(p14) => Some(
                                                                        (
                                                                            p14,
                                                                            NodeAttributesView {
                                                                                node_name:
                                                                                    t.subrange(
                                                                                    na,
                                                                                    nb,
                                                                                ),
                                                                                lin_protocol:
                                                                                    protocol,
                                                                                configured_nad:
                                                                                    cnad,
                                                                                initial_nad: inad,
                                                                                supplier_id:
                                                                                    product.supplier_id,
                                                                                function_id:
                                                                                    product.function_id,
                                                                                variant:
                                                                                    product.variant,
                                                                                response_error:
                                                                                    resp,
                                                                                p2_min: p2_min,
                                                                                st_min: st_min,
                                                                                n_as_timeout: n_as,
                                                                                n_cr_timeout: n_cr,
                                                                                configurable_frames:
                                                                                    frames,
                                                                            },
                                                                        ),
                                                                    ),
                                                                },
                                                            }
                                                        } else {
                                                            None
                                                        },
                                                    },
                                                },
                                            },
                                        },
                                    },
                                },
                            },
                        },
                    },
                },
            },
        },
    }
}

fn node_attr_record(t: &Vec<char>, pos: usize) -> (r: Option<(usize, LdfNodeAttributes)>)
    requires
        pos <= t.len(),
    ensures
        match r {
            Some((p, v)) => spec_node_attr_record(t@, pos as int) == Some((p as int, v@)) && p
                <= t.len(),
            None => spec_node_attr_record(t@, pos as int) is None,
        },
{
    let (nb, node_name) = match ident_string(t, pos) {
        None => return None,
        Some(r) => r,
    };
    let p1 = match tok(t, nb, "{") {
        None => return None,
        Some(p) => p,
    };
    let (p2, protocol) = match protocol_stmt(t, p1) {
        None => return None,
        Some(r) => r,
    };
    let (p3, cnad) = match nad_stmt(t, p2, "configured_NAD") {
        None => return None,
        Some(r) => r,
    };
    let (p4, inad) = match nad_stmt(t, p3, "initial_NAD") {
        None => return None,
        Some(r) => r,
    };
    let (p5, supplier, function, variant) = match product_id(t, p4) {
        None => return None,
        Some(r) => r,
    };
    let (p6, resp) = match response_error(t, p5) {
        None => return None,
        Some(r) => r,
    };
    let (p7, p2_min) = match timing_stmt(t, p6, "P2_min") {
        None => return None,
        Some(r) => r,
    };
    let (p8, st_min) = match timing_stmt(t, p7, "ST_min") {
        None => return None,
        Some(r) => r,
    };
    let (p9, n_as) = match timing_stmt(t, p8, "N_As_timeout") {
        None => return None,
        Some(r) => r,
    };
    let (p10, n_cr) = match timing_stmt(t, p9, "N_Cr_timeout") {
        None => return None,
        Some(r) => r,
    };
    let p11 = match tok(t, p10, "configurable_frames") {
        None => return None,
        Some(p) => p,
    };
    let p12 = match tok(t, p11, "{") {
        None => return None,
        Some(p) => p,
    };
    let (p13, frames) = match cframe_records(t, p12) {
        None => return None,
        Some(r) => r,
    };
    match tok(t, p13, "}") {
        None => None,
        Some(p14) => {
            let node = LdfNodeAttributes {
                node_name,
                lin_protocol: protocol,
                configured_nad: cnad,
                initial_nad: inad,
                supplier_id: supplier,
                function_id: function,
                variant,
                response_error: resp,
                p2_min,
                st_min,
                n_as_timeout: n_as,
                n_cr_timeout: n_cr,
                configurable_frames: frames,
            };
            proof {
                assert(spec_node_attr_record(t@, pos as int) matches Some((pp, nv)) && pp
                    == p14 as int && nv =~= node@);
            }
            Some((p14, node))
        },
    }
}

/// The node records of the section body, ending at `}`.
pub open spec fn spec_node_attr_records(t: Seq<char>, pos: int) -> Option<
    (int, Seq<NodeAttributesView>),
>
    decreases t.len() - pos,
    when 0 <= pos <= t.len()
{
    let q = spec_skip_trivia(t, pos);
    if q < t.len() && t[q] == '}' {
        Some((q + 1, Seq::empty()))
    } else {
        match spec_node_attr_record(t, q) {
            None => None,
            Some((p, v)) => if q < p <= t.len() && pos <= q {
                match spec_node_attr_records(t, p) {
                    None => None,
                    Some((e, rest)) => Some((e, seq![v] + rest)),
                }
            } else {
                None
            },
        }
    }
}

fn node_attr_records(t: &Vec<char>, pos: usize) -> (r: Option<(usize, Vec<LdfNodeAttributes>)>)
    requires
        pos <= t.len(),
    ensures
        match r {
            Some((p, v)) => spec_node_attr_records(t@, pos as int) == Some(
                (p as int, v.deep_view()),
            ) && p <= t.len(),
            None => spec_node_attr_records(t@, pos as int) is None,
        },
    decreases t.len() - pos,
{
    let q = skip_trivia(t, pos);
    if q < t.len() && t[q] == '}' {
        let v: Vec<LdfNodeAttributes> = Vec::new();
        proof {
            crate::text::lemma_vec_deep_view(&v);
            assert(v.deep_view() =~= Seq::<NodeAttributesView>::empty());
        }
        return Some((q + 1, v));
    }
    match node_attr_record(t, q) {
        None => None,
        Some((p, node)) => {
            if p <= q {
                return None;
            }
            match node_attr_records(t, p) {
                None => None,
                Some((e, rest)) => {
                    let ghost r0 = rest;
                    let mut out = rest;
                    out.insert(0, node);
                    proof {
                        crate::text::lemma_deep_view_insert0(r0, out, node);
                    }
                    Some((e, out))
                },
            }
        },
    }
}

/// The whole `Node_attributes` section.
pub open spec fn spec_parse_node_attributes(t: Seq<char>, pos: int) -> Option<
    (int, Seq<NodeAttributesView>),
> {
    match spec_tok(t, pos, "Node_attributes"@) {
        None => None,
        Some(p1) => match spec_tok(t, p1, "{"@) {
            None => None,
            Some(p2) => if 0 <= p2 <= t.len() {
                spec_node_attr_records(t, p2)
            } else {
                None
            },
        },
    }
}

pub(crate) fn parse_node_attributes_at(t: &Vec<char>, pos: usize) -> (r: Option<
    (usize, Vec<LdfNodeAttributes>),
>)
    requires
        pos <= t.len(),
    ensures
        match r {
            Some((p, v)) => spec_parse_node_attributes(t@, pos as int) == Some(
                (p as int, v.deep_view()),
            ) && p <= t.len(),
            None => spec_parse_node_attributes(t@, pos as int) is None,
        },
{
    let p1 = match tok(t, pos, "Node_attributes") {
        None => return None,
        Some(p) => p,
    };
    let p2 = match tok(t, p1, "{") {
        None => return None,
        Some(p) => p,
    };
    node_attr_records(t, p2)
}

/// Parses a `Node_attributes` section at the start of the text.
pub fn parse_ldf_node_attributes(s: &str) -> (r: Option<(usize, Vec<LdfNodeAttributes>)>)
    ensures
        match r {
            Some((p, v)) => spec_parse_node_attributes(s@, 0) == Some((p as int, v.deep_view())),
            None => spec_parse_node_attributes(s@, 0) is None,
        },
{
    let t = str_chars(s);
    assert(t@ == s@);
    parse_node_attributes_at(&t, 0)
}

} // verus!

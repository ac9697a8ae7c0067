//! The header of a LIN description file: the `LIN_description_file` marker,
//! the protocol and language versions, the bus speed, and an optional
//! channel name.
//!
//! ```text
//! LIN_description_file ;
//! LIN_protocol_version = "2.1" ;
//! LIN_language_version = "2.1" ;
//! LIN_speed = 19.2 kbps ;
//! Channel_name = "DB" ;
//! ```

use crate::decimal::{spec_parse_decimal, spec_speed_u16, parse_decimal, speed_bps};
use crate::text::{extract, find_str, run_end, scan, str_chars, Cc, find_sub};
use crate::token::{qstring, spec_qstring, spec_tok, tok};
use crate::trivia::{skip_trivia, spec_skip_trivia};
use vstd::prelude::*;

verus! {

/// The parsed header.
#[derive(Debug, Clone, PartialEq)]
pub struct LdfHeader {
    /// LIN protocol version in the form `MAJOR.MINOR` (for example `2.1`).
    pub lin_protocol_version: String,
    /// LIN language version in the form `MAJOR.MINOR`.
    pub lin_language_version: String,
    /// Bus speed in bits per second: the `kbps` literal of the source text
    /// multiplied by 1000 (for example `19.2 kbps` gives 19200).
    pub lin_speed: u16,
    /// The optional channel name, absent when the input has none.
    pub channel_name: Option<String>,
}

#[verifier::ext_equal]
pub ghost struct HeaderView {
    pub lin_protocol_version: Seq<char>,
    pub lin_language_version: Seq<char>,
    pub lin_speed: u16,
    pub channel_name: Option<Seq<char>>,
}

impl View for LdfHeader {
    type V = HeaderView;

    open spec fn view(&self) -> HeaderView {
        HeaderView {
            lin_protocol_version: self.lin_protocol_version@,
            lin_language_version: self.lin_language_version@,
            lin_speed: self.lin_speed,
            channel_name: match self.channel_name {
                Some(ref s) => Some(s@),
                None => None,
            },
        }
    }
}

/// A `key = "MAJOR.MINOR" ;` statement. The version text between the quotes
/// is digits, a dot, digits, with no spaces.
pub open spec fn spec_version_stmt(t: Seq<char>, pos: int, key: Seq<char>) -> Option<
    (int, Seq<char>),
> {
    match spec_tok(t, pos, key) {
        None => None,
        Some(p1) => match spec_tok(t, p1, "="@) {
            None => None,
            Some(p2) => match spec_tok(t, p2, "\""@) {
                None => None,
                Some(a) => {
                    let d1 = run_end(t, a, Cc::Digit);
                    if d1 == a || !(d1 < t.len() && t[d1] == '.') {
                        None
                    } else {
                        let d2 = run_end(t, d1 + 1, Cc::Digit);
                        if d2 == d1 + 1 || !(d2 < t.len() && t[d2] == '"') {
                            None
                        } else {
                            match spec_tok(t, d2 + 1, ";"@) {
                                None => None,
                                Some(p3) => Some((p3, t.subrange(a, d2))),
                            }
                        }
                    }
                },
            },
        },
    }
}

fn version_stmt(t: &Vec<char>, pos: usize, key: &str) -> (r: Option<(usize, String)>)
    requires
        pos <= t.len(),
    ensures
        match r {
            Some((p, s)) => {
                &&& spec_version_stmt(t@, pos as int, key@) matches Some((pp, v))
                &&& pp == p as int
                &&& s@ == v
                &&& pos <= p <= t.len()
            },
            None => spec_version_stmt(t@, pos as int, key@) is None,
        },
{
    let p1 = match tok(t, pos, key) {
        None => return None,
        Some(p) => p,
    };
    let p2 = match tok(t, p1, "=") {
        None => return None,
        Some(p) => p,
    };
    let a = match tok(t, p2, "\"") {
        None => return None,
        Some(p) => p,
    };
    let d1 = scan(t, a, Cc::Digit);
    if d1 == a || !(d1 < t.len() && t[d1] == '.') {
        return None;
    }
    let d2 = scan(t, d1 + 1, Cc::Digit);
    if d2 == d1 + 1 || !(d2 < t.len() && t[d2] == '"') {
        return None;
    }
    match tok(t, d2 + 1, ";") {
        None => None,
        Some(p3) => {
            let v = extract(t, a, d2);
            Some((p3, v))
        },
    }
}

/// The `LIN_speed = <kbps> kbps ;` statement, yielding bits per second.
pub open spec fn spec_speed_stmt(t: Seq<char>, pos: int) -> Option<(int, u16)> {
    match spec_tok(t, pos, "LIN_speed"@) {
        None => None,
        Some(p1) => match spec_tok(t, p1, "="@) {
            None => None,
            Some(p2) => {
                let a = spec_skip_trivia(t, p2);
                let b = run_end(t, a, Cc::NumDot);
                match spec_parse_decimal(t, a, b) {
                    None => None,
                    Some(d) => match spec_tok(t, b, "kbps"@) {
                        None => None,
                        Some(p3) => match spec_tok(t, p3, ";"@) {
                            None => None,
                            Some(p4) => Some((p4, spec_speed_u16(d))),
                        },
                    },
                }
            },
        },
    }
}

fn speed_stmt(t: &Vec<char>, pos: usize) -> (r: Option<(usize, u16)>)
    requires
        pos <= t.len(),
    ensures
        match r {
            Some((p, v)) => spec_speed_stmt(t@, pos as int) == Some((p as int, v)) && pos <= p
                <= t.len(),
            None => spec_speed_stmt(t@, pos as int) is None,
        },
{
    let p1 = match tok(t, pos, "LIN_speed") {
        None => return None,
        Some(p) => p,
    };
    let p2 = match tok(t, p1, "=") {
        None => return None,
        Some(p) => p,
    };
    let a = skip_trivia(t, p2);
    let b = scan(t, a, Cc::NumDot);
    let d = match parse_decimal(t, a, b) {
        None => return None,
        Some(d) => d,
    };
    let p3 = match tok(t, b, "kbps") {
        None => return None,
        Some(p) => p,
    };
    match tok(t, p3, ";") {
        None => None,
        Some(p4) => Some((p4, speed_bps(&d))),
    }
}

/// The optional `Channel_name = "<name>" ;` statement.
pub open spec fn spec_channel(t: Seq<char>, pos: int) -> Option<(int, Seq<char>)> {
    match spec_tok(t, pos, "Channel_name"@) {
        None => None,
        Some(p1) => match spec_tok(t, p1, "="@) {
            None => None,
            Some(p2) => match spec_tok(t, p2, "\""@) {
                None => None,
                Some(a) => match spec_qstring(t, a) {
                    None => None,
                    Some((p3, body)) => match spec_tok(t, p3, ";"@) {
                        None => None,
                        Some(p4) => Some((p4, body)),
                    },
                },
            },
        },
    }
}

fn channel_stmt(t: &Vec<char>, pos: usize) -> (r: Option<(usize, String)>)
    requires
        pos <= t.len(),
    ensures
        match r {
            Some((p, s)) => {
                &&& spec_channel(t@, pos as int) matches Some((pp, body))
                &&& pp == p as int
                &&& s@ == body
                &&& pos <= p <= t.len()
            },
            None => spec_channel(t@, pos as int) is None,
        },
{
    let p1 = match tok(t, pos, "Channel_name") {
        None => return None,
        Some(p) => p,
    };
    let p2 = match tok(t, p1, "=") {
        None => return None,
        Some(p) => p,
    };
    let a = match tok(t, p2, "\"") {
        None => return None,
        Some(p) => p,
    };
    let (p3, body) = match qstring(t, a) {
        None => return None,
        Some(r) => r,
    };
    match tok(t, p3, ";") {
        None => None,
        Some(p4) => Some((p4, body)),
    }
}

/// The whole header. Anything before the `LIN_description_file` marker is
/// skipped; the channel name is attempted last and its absence consumes
/// nothing.
pub open spec fn spec_parse_header(t: Seq<char>, pos: int) -> Option<(int, HeaderView)> {
    match find_str(t, pos, "LIN_description_file"@) {
        None => None,
        Some(i) => {
            let p0 = i + "LIN_description_file"@.len();
            match spec_tok(t, p0, ";"@) {
                None => None,
                Some(p1) => match spec_version_stmt(t, p1, "LIN_protocol_version"@) {
                    None => None,
                    Some((p2, proto)) => match spec_version_stmt(t, p2, "LIN_language_version"@) {
                        None => None,
                        Some((p3, lang)) => match spec_speed_stmt(t, p3) {
                            None => None,
                            Some((p4, speed)) => match spec_channel(t, p4) {
                                None => Some(
                                    (
                                        p4,
                                        HeaderView {
                                            lin_protocol_version: proto,
                                            lin_language_version: lang,
                                            lin_speed: speed,
                                            channel_name: None,
                                        },
                                    ),
                                ),
                                Some((p5, ch)) => Some(
                                    (
                                        p5,
                                        HeaderView {
                                            lin_protocol_version: proto,
                                            lin_language_version: lang,
                                            lin_speed: speed,
                                            channel_name: Some(ch),
                                        },
                                    ),
                                ),
                            },
                        },
                    },
                },
            }
        },
    }
}

pub(crate) fn parse_header_at(t: &Vec<char>, pos: usize) -> (r: Option<(usize, LdfHeader)>)
    requires
        pos <= t.len(),
    ensures
        match r {
            Some((p, h)) => spec_parse_header(t@, pos as int) == Some((p as int, h@)) && pos <= p
                <= t.len(),
            None => spec_parse_header(t@, pos as int) is None,
        },
{
    let i = match find_sub(t, pos, "LIN_description_file") {
        None => return None,
        Some(i) => i,
    };
    let p0 = i + crate::text::tag_len("LIN_description_file");
    let p1 = match tok(t, p0, ";") {
        None => return None,
        Some(p) => p,
    };
    let (p2, proto) = match version_stmt(t, p1, "LIN_protocol_version") {
        None => return None,
        Some(r) => r,
    };
    let (p3, lang) = match version_stmt(t, p2, "LIN_language_version") {
        None => return None,
        Some(r) => r,
    };
    let (p4, speed) = match speed_stmt(t, p3) {
        None => return None,
        Some(r) => r,
    };
    match channel_stmt(t, p4) {
        None => {
            let h = LdfHeader {
                lin_protocol_version: proto,
                lin_language_version: lang,
                lin_speed: speed,
                channel_name: None,
            };
            assert(spec_parse_header(t@, pos as int) matches Some((pp, hv)) && pp == p4 as int
                && hv =~= h@);
            Some((p4, h))
        },
        Some((p5, ch)) => {
            let h = LdfHeader {
                lin_protocol_version: proto,
                lin_language_version: lang,
                lin_speed: speed,
                channel_name: Some(ch),
            };
            assert(spec_parse_header(t@, pos as int) matches Some((pp, hv)) && pp == p5 as int
                && hv =~= h@);
            Some((p5, h))
        },
    }
}

/// Parses the header at the start of the text, returning the position after
/// it and the parsed header.
pub fn parse_ldf_header(s: &str) -> (r: Option<(usize, LdfHeader)>)
    ensures
        match r {
            Some((p, h)) => spec_parse_header(s@, 0) == Some((p as int, h@)),
            None => spec_parse_header(s@, 0) is None,
        },
{
    let t = str_chars(s);
    assert(t@ == s@);
    parse_header_at(&t, 0)
}

/// Parses a `Channel_name` statement at the start of the text. Success
/// always carries a name; failure consumes nothing.
pub fn parse_channel_name(s: &str) -> (r: Option<(usize, Option<String>)>)
    ensures
        match r {
            Some((p, c)) => {
                &&& spec_channel(s@, 0) matches Some((pp, body))
                &&& pp == p as int
                &&& c matches Some(cs) && cs@ == body
            },
            None => spec_channel(s@, 0) is None,
        },
{
    let t = str_chars(s);
    assert(t@ == s@);
    match channel_stmt(&t, 0) {
        None => None,
        Some((p, c)) => Some((p, Some(c))),
    }
}

} // verus!

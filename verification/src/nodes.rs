//! The `Nodes` section: exactly one master line and one slave list.
//!
//! ```text
//! Nodes {
//!     Master: Master, 5 ms, 0.1 ms ;
//!     Slaves: Slave1, Slave2, Slave3 ;
//! }
//! ```

use crate::decimal::{dec_wf, LdfNumber};
use crate::text::str_chars;
use crate::token::{duration, ident_string, name_list, spec_duration, spec_ident, spec_name_list,
    spec_tok, tok};
use vstd::prelude::*;

verus! {

/// The master node: its name and its two timing figures, both in
/// milliseconds.
#[derive(Debug, Clone, PartialEq)]
pub struct MasterNode {
    /// The master node's name.
    pub name: String,
    /// The time base in milliseconds: the tick the master schedules frames
    /// by.
    pub time_base: LdfNumber,
    /// The jitter in milliseconds: the allowed spread of the header start
    /// around the tick.
    pub jitter: LdfNumber,
}

/// One slave node, by name.
#[derive(Debug, Clone, PartialEq)]
pub struct Node {
    /// The node's name.
    pub name: String,
}

/// The whole `Nodes` section: the master and the slaves in written order.
#[derive(Debug, Clone, PartialEq)]
pub struct LdfNodes {
    pub master: MasterNode,
    pub slaves: Vec<Node>,
}

#[verifier::ext_equal]
pub ghost struct MasterView {
    pub name: Seq<char>,
    pub time_base: LdfNumber,
    pub jitter: LdfNumber,
}

#[verifier::ext_equal]
pub ghost struct NodesView {
    pub master: MasterView,
    pub slaves: Seq<Seq<char>>,
}

impl View for MasterNode {
    type V = MasterView;

    open spec fn view(&self) -> MasterView {
        MasterView { name: self.name@, time_base: self.time_base, jitter: self.jitter }
    }
}

impl View for Node {
    type V = Seq<char>;

    open spec fn view(&self) -> Seq<char> {
        self.name@
    }
}

impl DeepView for Node {
    type V = Seq<char>;

    open spec fn deep_view(&self) -> Seq<char> {
        self.name@
    }
}

impl View for LdfNodes {
    type V = NodesView;

    open spec fn view(&self) -> NodesView {
        NodesView { master: self.master@, slaves: self.slaves.deep_view() }
    }
}

/// The `Nodes` section: keyword, brace, the master line, the slave list and
/// the closing brace.
pub open spec fn spec_parse_nodes(t: Seq<char>, pos: int) -> Option<(int, NodesView)> {
    match spec_tok(t, pos, "Nodes"@) {
        None => None,
        Some(p1) => match spec_tok(t, p1, "{"@) {
            None => None,
            Some(p2) => match spec_tok(t, p2, "Master"@) {
                None => None,
                Some(p3) => match spec_tok(t, p3, ":"@) {
                    None => None,
                    Some(p4) => match spec_ident(t, p4) {
                        None => None,
                        Some((na, nb)) => match spec_tok(t, nb, ","@) {
                            None => None,
                            Some(p5) => match spec_duration(t, p5) {
                                None => None,
                                Some((p6, time_base)) => match spec_tok(t, p6, ","@) {
                                    None => None,
                                    Some(p7) => match spec_duration(t, p7) {
                                        None => None,
                                        Some((p8, jitter)) => match spec_tok(t, p8, ";"@) {
                                            None => None,
                                            Some(p9) => match spec_slaves(t, p9) {
                                                None => None,
                                                Some((p10, slaves)) => match spec_tok(t, p10, "}"@) {
                                                    None => None,
                                                    Some(p11) => Some(
                                                        (
                                                            p11,
                                                            NodesView {
                                                                master: MasterView {
                                                                    name: t.subrange(na, nb),
                                                                    time_base: time_base,
                                                                    jitter: jitter,
                                                                },
                                                                slaves: slaves,
                                                            },
                                                        ),
                                                    ),
                                                },
                                            },
                                        },
                                    },
                                },
                            },
                        },
                    },
                },
            },
        },
    }
}

/// The `Slaves: name (, name)* ;` line: the names between the colon and the
/// semicolon, split on commas and trimmed.
pub open spec fn spec_slaves(t: Seq<char>, pos: int) -> Option<(int, Seq<Seq<char>>)> {
    match spec_tok(t, pos, "Slaves"@) {
        None => None,
        Some(p1) => match spec_tok(t, p1, ":"@) {
            None => None,
            Some(p2) => spec_name_list(t, p2),
        },
    }
}

pub(crate) fn parse_nodes_at(t: &Vec<char>, pos: usize) -> (r: Option<(usize, LdfNodes)>)
    requires
        pos <= t.len(),
    ensures
        match r {
            Some((p, n)) => spec_parse_nodes(t@, pos as int) == Some((p as int, n@)) && pos <= p
                <= t.len() && dec_wf(n.master.time_base) && dec_wf(n.master.jitter),
            None => spec_parse_nodes(t@, pos as int) is None,
        },
{
    let p1 = match tok(t, pos, "Nodes") {
        None => return None,
        Some(p) => p,
    };
    let p2 = match tok(t, p1, "{") {
        None => return None,
        Some(p) => p,
    };
    let p3 = match tok(t, p2, "Master") {
        None => return None,
        Some(p) => p,
    };
    let p4 = match tok(t, p3, ":") {
        None => return None,
        Some(p) => p,
    };
    let (nb, name) = match ident_string(t, p4) {
        None => return None,
        Some(r) => r,
    };
    let p5 = match tok(t, nb, ",") {
        None => return None,
        Some(p) => p,
    };
    let (p6, time_base) = match duration(t, p5) {
        None => return None,
        Some(r) => r,
    };
    let p7 = match tok(t, p6, ",") {
        None => return None,
        Some(p) => p,
    };
    let (p8, jitter) = match duration(t, p7) {
        None => return None,
        Some(r) => r,
    };
    let p9 = match tok(t, p8, ";") {
        None => return None,
        Some(p) => p,
    };
    let (p10, slave_names) = match slaves_line(t, p9) {
        None => return None,
        Some(r) => r,
    };
    let p11 = match tok(t, p10, "}") {
        None => return None,
        Some(p) => p,
    };
    let mut slaves: Vec<Node> = Vec::new();
    let mut i: usize = 0;
    let n_slaves = slave_names.len();
    proof {
        crate::text::lemma_vec_deep_view(&slave_names);
    }
    while i < n_slaves
        invariant
            0 <= i <= n_slaves,
            n_slaves == slave_names.len(),
            slaves.len() == i,
            forall|k: int| 0 <= k < i ==> slaves.deep_view()[k] == slave_names.deep_view()[k],
            slaves.deep_view().len() == i,
        decreases n_slaves - i,
    {
        let s = slave_names[i].clone();
        proof {
            crate::text::lemma_vec_deep_view(&slave_names);
            assert(s@ == slave_names.deep_view()[i as int]);
        }
        slaves.push(Node { name: s });
        i = i + 1;
        proof {
            crate::text::lemma_vec_deep_view(&slaves);
        }
    }
    proof {
        crate::text::lemma_vec_deep_view(&slaves);
        crate::text::lemma_vec_deep_view(&slave_names);
        assert(slaves.deep_view() =~= slave_names.deep_view());
    }
    let node = LdfNodes {
        master: MasterNode { name, time_base, jitter },
        slaves,
    };
    proof {
        assert(spec_parse_nodes(t@, pos as int) matches Some((pp, nv)) && pp == p11 as int && nv
            =~= node@);
    }
    Some((p11, node))
}

fn slaves_line(t: &Vec<char>, pos: usize) -> (r: Option<(usize, Vec<String>)>)
    requires
        pos <= t.len(),
    ensures
        match r {
            Some((p, v)) => {
                &&& spec_slaves(t@, pos as int) matches Some((pp, names))
                &&& pp == p as int
                &&& v.deep_view() == names
                &&& pos <= p <= t.len()
            },
            None => spec_slaves(t@, pos as int) is None,
        },
{
    let p1 = match tok(t, pos, "Slaves") {
        None => return None,
        Some(p) => p,
    };
    let p2 = match tok(t, p1, ":") {
        None => return None,
        Some(p) => p,
    };
    name_list(t, p2)
}

/// Parses a `Nodes` section at the start of the text.
pub fn parse_ldf_nodes(s: &str) -> (r: Option<(usize, LdfNodes)>)
    ensures
        match r {
            Some((p, n)) => spec_parse_nodes(s@, 0) == Some((p as int, n@)),
            None => spec_parse_nodes(s@, 0) is None,
        },
{
    let t = str_chars(s);
    assert(t@ == s@);
    parse_nodes_at(&t, 0)
}

} // verus!

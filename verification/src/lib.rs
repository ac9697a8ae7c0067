//! A parser for LIN (Local Interconnect Network) description files: the
//! textual, section-structured format that configures an automotive LIN
//! bus. The whole text goes in; a fully typed document or an error naming
//! the first section that failed comes out.
//!
//! Sections are parsed in the fixed order the format prescribes. The
//! header, `Nodes`, `Signals`, `Frames`, `Node_attributes` and
//! `Schedule_tables` sections are mandatory: their failure fails the whole
//! parse. `Diagnostic_signals`, `Diagnostic_frames`,
//! `Signal_encoding_types` and `Signal_representation` are optional: their
//! absence (or their failure) yields an empty collection and parsing
//! continues at the unadvanced cursor.

use vstd::prelude::*;

pub mod decimal;
pub mod diagnostic_frames;
pub mod diagnostic_signals;
pub mod frames;
pub mod header;
pub mod node_attributes;
pub mod nodes;
pub mod schedule_tables;
pub mod signal_encoding_types;
pub mod signal_representation;
pub mod signals;
pub mod text;
pub mod token;
pub mod trivia;

pub use decimal::LdfNumber;
pub use diagnostic_frames::{LdfDiagnosticFrame, LdfDiagnosticFrameSignal};
pub use diagnostic_signals::LdfDiagnosticSignal;
pub use frames::{LdfFrame, LdfFrameSignal};
pub use header::LdfHeader;
pub use node_attributes::LdfNodeAttributes;
pub use nodes::{LdfNodes, MasterNode, Node};
pub use schedule_tables::{LdfFrameDelay, LdfScheduleTable};
pub use signal_encoding_types::{LdfSignalEncodingType, LdfSignalEncodingTypeValue};
pub use signal_representation::LdfSignalRepresentation;
pub use signals::{LdfSignal, LdfSignalInitValue};

use diagnostic_frames::{parse_diag_frames_at, spec_parse_diag_frames, DiagnosticFrameView};
use diagnostic_signals::{parse_diag_signals_at, spec_parse_diag_signals, DiagnosticSignalView};
use frames::{parse_frames_at, spec_parse_frames, FrameView};
use header::{parse_header_at, spec_parse_header, HeaderView};
use node_attributes::{parse_node_attributes_at, spec_parse_node_attributes, NodeAttributesView};
use nodes::{parse_nodes_at, spec_parse_nodes, NodesView};
use schedule_tables::{parse_schedule_tables_at, spec_parse_schedule_tables, ScheduleTableView};
use signal_encoding_types::{parse_encoding_types_at, spec_parse_encoding_types, EncodingTypeView};
use signal_representation::{parse_signal_representation_at, spec_parse_signal_representation,
    SignalRepresentationView};
use signals::{parse_signals_at, spec_parse_signals, SignalView};
use text::{find_str, lemma_find_str, match_at, str_chars};

verus! {

/// A parsed LIN description file.
#[derive(Debug, Clone, PartialEq)]
pub struct LinLdf {
    /// The header: versions, speed and optional channel name.
    pub header: LdfHeader,
    /// The `Nodes` section.
    pub nodes: LdfNodes,
    /// The `Signals` section, in written order.
    pub signals: Vec<LdfSignal>,
    /// The optional `Diagnostic_signals` section; empty when absent.
    pub diagnostic_signals: Vec<LdfDiagnosticSignal>,
    /// The `Frames` section, in written order.
    pub frames: Vec<LdfFrame>,
    /// The optional `Diagnostic_frames` section; empty when absent.
    pub diagnostic_frames: Vec<LdfDiagnosticFrame>,
    /// The `Node_attributes` section, in written order.
    pub node_attributes: Vec<LdfNodeAttributes>,
    /// The `Schedule_tables` section, in written order.
    pub schedule_tables: Vec<LdfScheduleTable>,
    /// The optional `Signal_encoding_types` section; empty when absent.
    pub signal_encoding_types: Vec<LdfSignalEncodingType>,
    /// The optional `Signal_representation` section; empty when absent.
    pub signal_representations: Vec<LdfSignalRepresentation>,
}

#[verifier::ext_equal]
pub ghost struct DocumentView {
    pub header: HeaderView,
    pub nodes: NodesView,
    pub signals: Seq<SignalView>,
    pub diagnostic_signals: Seq<DiagnosticSignalView>,
    pub frames: Seq<FrameView>,
    pub diagnostic_frames: Seq<DiagnosticFrameView>,
    pub node_attributes: Seq<NodeAttributesView>,
    pub schedule_tables: Seq<ScheduleTableView>,
    pub signal_encoding_types: Seq<EncodingTypeView>,
    pub signal_representations: Seq<SignalRepresentationView>,
}

impl View for LinLdf {
    type V = DocumentView;

    open spec fn view(&self) -> DocumentView {
        DocumentView {
            header: self.header@,
            nodes: self.nodes@,
            signals: self.signals.deep_view(),
            diagnostic_signals: self.diagnostic_signals.deep_view(),
            frames: self.frames.deep_view(),
            diagnostic_frames: self.diagnostic_frames.deep_view(),
            node_attributes: self.node_attributes.deep_view(),
            schedule_tables: self.schedule_tables.deep_view(),
            signal_encoding_types: self.signal_encoding_types.deep_view(),
            signal_representations: self.signal_representations.deep_view(),
        }
    }
}

/// The mandatory section whose failure ended a parse.
#[verifier::ext_equal]
pub ghost enum SectionFailure {
    Header,
    Nodes,
    Signals,
    Frames,
    NodeAttributes,
    ScheduleTables,
}

/// The message that reports each failure.
pub open spec fn failure_message(f: SectionFailure) -> Seq<char> {
    match f {
        SectionFailure::Header => "Failed to parse header"@,
        SectionFailure::Nodes => "Failed to parse Nodes section"@,
        SectionFailure::Signals => "Failed to parse Signals section (required)"@,
        SectionFailure::Frames => "Failed to parse Frames section"@,
        SectionFailure::NodeAttributes => "Failed to parse Node_attributes section"@,
        SectionFailure::ScheduleTables => "Failed to parse Schedule_tables section"@,
    }
}

/// What parsing a whole text yields: the document, or the first mandatory
/// section that failed. An optional section that is absent or malformed
/// contributes an empty collection and moves the cursor nowhere.
pub open spec fn spec_parse_document(t: Seq<char>) -> Result<DocumentView, SectionFailure> {
    match spec_parse_header(t, 0) {
        None => Err(SectionFailure::Header),
        Some((p1, header)) => match spec_parse_nodes(t, p1) {
            None => Err(SectionFailure::Nodes),
            Some((p2, nodes)) => match spec_parse_signals(t, p2) {
                None => Err(SectionFailure::Signals),
                Some((p3, signals)) => {
                    let (p4, diagnostic_signals) = match spec_parse_diag_signals(t, p3) {
                        None => (p3, Seq::empty()),
                        Some(r) => r,
                    };
                    match spec_parse_frames(t, p4) {
                        None => Err(SectionFailure::Frames),
                        Some((p5, frames)) => {
                            let (p6, diagnostic_frames) = match spec_parse_diag_frames(t, p5) {
                                None => (p5, Seq::empty()),
                                Some(r) => r,
                            };
                            match spec_parse_node_attributes(t, p6) {
                                None => Err(SectionFailure::NodeAttributes),
                                Some((p7, node_attributes)) => match spec_parse_schedule_tables(
                                    t,
                                    p7,
                                ) {
                                    None => Err(SectionFailure::ScheduleTables),
                                    Some((p8, schedule_tables)) => {
                                        let (p9, signal_encoding_types) = match
                                            spec_parse_encoding_types(t, p8) {
                                            None => (p8, Seq::empty()),
                                            Some(r) => r,
                                        };
                                        let signal_representations = match
                                            spec_parse_signal_representation(t, p9) {
                                            None => Seq::empty(),
                                            Some((_p10, r)) => r,
                                        };
                                        Ok(
                                            DocumentView {
                                                header,
                                                nodes,
                                                signals,
                                                diagnostic_signals,
                                                frames,
                                                diagnostic_frames,
                                                node_attributes,
                                                schedule_tables,
                                                signal_encoding_types,
                                                signal_representations,
                                            },
                                        )
                                    },
                                },
                            }
                        },
                    }
                },
            },
        },
    }
}

impl LinLdf {
    /// Parses a whole LIN description file. Returns the document, or a
    /// message naming the first mandatory section that failed; an optional
    /// section that is absent or malformed yields an empty collection and
    /// never an error.
    pub fn parse(s: &str) -> (r: Result<LinLdf, &'static str>)
        ensures
            ({
                let sp = spec_parse_document(s@);
                match r {
                    Ok(doc) => sp == Ok::<DocumentView, SectionFailure>(doc@),
                    Err(m) => {
                        &&& sp is Err
                        &&& m@ == failure_message(sp->Err_0)
                    },
                }
            }),
    {
        let t = str_chars(s);
        assert(t@ == s@);
        let (p1, header) = match parse_header_at(&t, 0) {
            None => return Err("Failed to parse header"),
            Some(r) => r,
        };
        let (p2, nodes) = match parse_nodes_at(&t, p1) {
            None => return Err("Failed to parse Nodes section"),
            Some(r) => r,
        };
        let (p3, signals) = match parse_signals_at(&t, p2) {
            None => return Err("Failed to parse Signals section (required)"),
            Some(r) => r,
        };
        let (p4, diagnostic_signals) = match parse_diag_signals_at(&t, p3) {
            None => (p3, Vec::new()),
            Some(r) => r,
        };
        proof {
            text::lemma_vec_deep_view(&diagnostic_signals);
        }
        let (p5, frames) = match parse_frames_at(&t, p4) {
            None => return Err("Failed to parse Frames section"),
            Some(r) => r,
        };
        let (p6, diagnostic_frames) = match parse_diag_frames_at(&t, p5) {
            None => (p5, Vec::new()),
            Some(r) => r,
        };
        proof {
            text::lemma_vec_deep_view(&diagnostic_frames);
        }
        let (p7, node_attributes) = match parse_node_attributes_at(&t, p6) {
            None => return Err("Failed to parse Node_attributes section"),
            Some(r) => r,
        };
        let (p8, schedule_tables) = match parse_schedule_tables_at(&t, p7) {
            None => return Err("Failed to parse Schedule_tables section"),
            Some(r) => r,
        };
        let (p9, signal_encoding_types) = match parse_encoding_types_at(&t, p8) {
            None => (p8, Vec::new()),
            Some(r) => r,
        };
        proof {
            text::lemma_vec_deep_view(&signal_encoding_types);
        }
        let signal_representations = match parse_signal_representation_at(&t, p9) {
            None => Vec::new(),
            Some((_p10, r)) => r,
        };
        proof {
            text::lemma_vec_deep_view(&signal_representations);
        }
        let doc = LinLdf {
            header,
            nodes,
            signals,
            diagnostic_signals,
            frames,
            diagnostic_frames,
            node_attributes,
            schedule_tables,
            signal_encoding_types,
            signal_representations,
        };
        proof {
            assert(spec_parse_document(s@) matches Ok(dv) && dv =~= doc@);
        }
        Ok(doc)
    }
}

/// Parses the full text of a LIN description file.
pub fn parse_ldf(ldf: &str) -> (r: Result<LinLdf, &'static str>)
    ensures
        ({
            let sp = spec_parse_document(ldf@);
            match r {
                Ok(doc) => sp == Ok::<DocumentView, SectionFailure>(doc@),
                Err(m) => {
                    &&& sp is Err
                    &&& m@ == failure_message(sp->Err_0)
                },
            }
        }),
{
    LinLdf::parse(ldf)
}

/// Parsing is a pure function of the input text: two parses of the same
/// text yield structurally equal documents.
pub proof fn lemma_parse_deterministic(t1: Seq<char>, t2: Seq<char>, d1: DocumentView, d2: DocumentView)
    requires
        t1 == t2,
        spec_parse_document(t1) == Ok::<DocumentView, SectionFailure>(d1),
        spec_parse_document(t2) == Ok::<DocumentView, SectionFailure>(d2),
    ensures
        d1 == d2,
{
}

/// A document whose text nowhere contains an optional section's keyword
/// parses with that section's collection empty, never with an error on its
/// account.
pub proof fn lemma_absent_optional_sections_empty(t: Seq<char>, doc: DocumentView)
    requires
        spec_parse_document(t) == Ok::<DocumentView, SectionFailure>(doc),
    ensures
        find_str(t, 0, "Diagnostic_signals"@) is None ==> doc.diagnostic_signals
            =~= Seq::<DiagnosticSignalView>::empty(),
        find_str(t, 0, "Diagnostic_frames"@) is None ==> doc.diagnostic_frames
            =~= Seq::<DiagnosticFrameView>::empty(),
        find_str(t, 0, "Signal_encoding_types"@) is None ==> doc.signal_encoding_types
            =~= Seq::<EncodingTypeView>::empty(),
        find_str(t, 0, "Signal_representation"@) is None ==> doc.signal_representations
            =~= Seq::<SignalRepresentationView>::empty(),
{
    if find_str(t, 0, "Diagnostic_signals"@) is None {
        lemma_find_str(t, 0, "Diagnostic_signals"@);
        assert(forall|j: int| !match_at(t, j, "Diagnostic_signals"@));
    }
    if find_str(t, 0, "Diagnostic_frames"@) is None {
        lemma_find_str(t, 0, "Diagnostic_frames"@);
        assert(forall|j: int| !match_at(t, j, "Diagnostic_frames"@));
    }
    if find_str(t, 0, "Signal_encoding_types"@) is None {
        lemma_find_str(t, 0, "Signal_encoding_types"@);
        assert(forall|j: int| !match_at(t, j, "Signal_encoding_types"@));
    }
    if find_str(t, 0, "Signal_representation"@) is None {
        lemma_find_str(t, 0, "Signal_representation"@);
        assert(forall|j: int| !match_at(t, j, "Signal_representation"@));
    }
}

/// A text without the mandatory `Frames` keyword never yields a document:
/// the parse fails, and when the sections before `Frames` are well-formed
/// the error names the Frames section.
pub proof fn lemma_missing_frames_fails(t: Seq<char>)
    requires
        find_str(t, 0, "Frames"@) is None,
    ensures
        spec_parse_document(t) is Err,
        (match spec_parse_header(t, 0) {
            Some((p1, _h)) => match spec_parse_nodes(t, p1) {
                Some((p2, _n)) => match spec_parse_signals(t, p2) {
                    Some(_) => spec_parse_document(t) == Err::<DocumentView, SectionFailure>(
                        SectionFailure::Frames,
                    ),
                    None => true,
                },
                None => true,
            },
            None => true,
        }),
{
    lemma_find_str(t, 0, "Frames"@);
    assert(forall|j: int| !match_at(t, j, "Frames"@));
}

} // verus!

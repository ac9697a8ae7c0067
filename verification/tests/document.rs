//! Tests of the whole-document parser and of the properties the library
//! states: trivia insensitivity, radix agreement, scientific notation,
//! optional sections, list splitting, schedule order, error reporting and
//! determinism.

use lin_ldf::parse_ldf;
use lin_ldf::signal_encoding_types::LdfSignalEncodingTypeValue;
use lin_ldf::LdfNumber;
use lin_ldf::LdfSignalInitValue;

/// The numeric value a parsed decimal stands for.
fn numf(d: &LdfNumber) -> f64 {
    let text = format!(
        "{}{}e{}",
        if d.negative { "-" } else { "" },
        d.mantissa,
        d.exp10
    );
    text.parse().unwrap()
}

#[test]
fn mod_test_parse() {
    let input = r#"
            /* MY BLOCK COMMENT */

            LIN_description_file ;
            LIN_protocol_version = "2.1" ;
            LIN_language_version = "2.1" ;
            LIN_speed = 19.2 kbps ;

            Nodes {
                Master: Master, 5 ms, 0.1 ms ;
                Slaves: Slave1, Slave2, Slave3 ;
            }

            // MY LINE COMMENT

            Signals {
                Signal1: 10, 0, Master, Slave1 ;
                Signal2: 10, 0, Master, Slave1 ;
                Signal3: 10, 0, Master, Slave1 ;
                Signal4: 10, 0, Slave1, Master ;
                Signal5: 2, 0, Slave1, Master ;
                Signal6: 1, 0, Slave1, Master ;
            }

            Diagnostic_signals {
                MasterReqB0: 8, 0 ;   /* MID SECTION COMMENT */
                MasterReqB1: 8, 0 ;
                MasterReqB2: 8, 0 ;
                MasterReqB3: 8, 0 ;
                MasterReqB4: 8, 0 ;
                MasterReqB5: 8, 0 ;   /* MID SECTION COMMENT */
            }

            Frames {
                Frame1: 0, Master, 8 {
                    Signal1, 0 ;      /* MID SECTION COMMENT */
                    Signal2, 10 ;
                }
                Frame2: 0x16, Slave1, 8 {
                    Signal3, 0 ;
                    Signal4, 10 ;
                }
            }

            Diagnostic_frames {
                MasterReq: 0x3C {
                    MasterReqB0, 0 ;
                    MasterReqB1, 8 ;
                    MasterReqB2, 16 ;
                    MasterReqB3, 24 ;
                    MasterReqB4, 32 ;
                    MasterReqB5, 40 ;
                    MasterReqB6, 48 ;
                    MasterReqB7, 56 ;
                }
                SlaveResp: 0x3D {
                    SlaveRespB0, 0 ;
                    SlaveRespB1, 8 ;
                    SlaveRespB2, 16 ;
                    SlaveRespB3, 24 ;
                    SlaveRespB4, 32 ;
                    SlaveRespB5, 40 ;
                    SlaveRespB6, 48 ;
                    SlaveRespB7, 56 ;
                }
            }

            Node_attributes {
                Slave1{
                    LIN_protocol = "2.1" ;
                    configured_NAD = 0xB ;
                    initial_NAD = 0xB ;
                    product_id = 0x123, 0x4567, 8 ;
                    response_error = Signal1 ;
                    P2_min = 100 ms ;
                    ST_min = 0 ms ;
                    N_As_timeout = 1000 ms ;
                    N_Cr_timeout = 1000 ms ;
                    configurable_frames {
                        Frame1 ;
                        Frame2 ;
                    }
                }
                Slave2{
                    LIN_protocol = "2.1" ;
                    configured_NAD = 0xC ;
                    initial_NAD = 0xC ;
                    product_id = 0x124, 0x4568, 0x66 ;
                    response_error = Signal2 ;
                    P2_min = 100 ms ;
                    ST_min = 0 ms ;
                    N_As_timeout = 1000 ms ;
                    N_Cr_timeout = 1000 ms ;
                    configurable_frames {
                        Frame1 ;
                        Frame2 ;
                    }
                }
            }

            Schedule_tables {
                AllFrames {
                    Frame1 delay 10 ms ;
                    Frame2 delay 10 ms ;
                }
            }

            Signal_encoding_types {
                ENC_BOOL {
                    logical_value, 0, "FALSE" ;
                    logical_value, 1, "TRUE" ;
                }
                ENC_TEMP {
                    physical_value, 0, 1023, 0.2, -40, "degC" ;
                }
                ENC_RPM {
                    physical_value, 0, 1023, 10, 0, "rpm" ;
                }
            }

            Signal_representation {
                ENC_BOOL: Signal1, Signal2 ;
                ENC_TEMP: Signal3, Signal4 ;
                ENC_RPM: Signal5, Signal6 ;
            }
        "#;

    let ldf = parse_ldf(input).unwrap();

    // Header
    assert_eq!(ldf.header.lin_protocol_version, "2.1");
    assert_eq!(ldf.header.lin_language_version, "2.1");
    assert_eq!(ldf.header.lin_speed, 19200);

    // Nodes
    assert_eq!(ldf.nodes.master.name, "Master");
    assert_eq!(numf(&ldf.nodes.master.time_base), 5.0);
    assert_eq!(numf(&ldf.nodes.master.jitter), 0.1);
    assert_eq!(ldf.nodes.slaves.len(), 3);
    assert_eq!(ldf.nodes.slaves[0].name, "Slave1");
    assert_eq!(ldf.nodes.slaves[1].name, "Slave2");
    assert_eq!(ldf.nodes.slaves[2].name, "Slave3");

    // Signals
    assert_eq!(ldf.signals.len(), 6);
    assert_eq!(ldf.signals[0].name, "Signal1");
    assert_eq!(ldf.signals[0].signal_size, 10);
    assert_eq!(ldf.signals[0].init_value, LdfSignalInitValue::Scalar(0));
    assert_eq!(ldf.signals[0].published_by, "Master");
    assert_eq!(ldf.signals[0].subscribed_by, vec!["Slave1"]);
    assert_eq!(ldf.signals[5].name, "Signal6");
    assert_eq!(ldf.signals[5].signal_size, 1);
    assert_eq!(ldf.signals[5].init_value, LdfSignalInitValue::Scalar(0));
    assert_eq!(ldf.signals[5].published_by, "Slave1");
    assert_eq!(ldf.signals[5].subscribed_by, vec!["Master"]);

    // Diagnostic signals
    assert_eq!(ldf.diagnostic_signals.len(), 6);
    assert_eq!(ldf.diagnostic_signals[0].name, "MasterReqB0");
    assert_eq!(ldf.diagnostic_signals[0].length, 8);
    assert_eq!(ldf.diagnostic_signals[0].init_value, 0);
    assert_eq!(ldf.diagnostic_signals[5].name, "MasterReqB5");
    assert_eq!(ldf.diagnostic_signals[5].length, 8);
    assert_eq!(ldf.diagnostic_signals[5].init_value, 0);

    // Frames
    assert_eq!(ldf.frames.len(), 2);
    assert_eq!(ldf.frames[0].frame_name, "Frame1");
    assert_eq!(ldf.frames[0].frame_id, 0);
    assert_eq!(ldf.frames[0].published_by, "Master");
    assert_eq!(ldf.frames[0].frame_size, 8);
    assert_eq!(ldf.frames[0].signals.len(), 2);
    assert_eq!(ldf.frames[0].signals[0].signal_name, "Signal1");
    assert_eq!(ldf.frames[0].signals[0].start_bit, 0);
    assert_eq!(ldf.frames[0].signals[1].signal_name, "Signal2");
    assert_eq!(ldf.frames[0].signals[1].start_bit, 10);
    assert_eq!(ldf.frames[1].frame_name, "Frame2");
    assert_eq!(ldf.frames[1].frame_id, 0x16);
    assert_eq!(ldf.frames[1].published_by, "Slave1");
    assert_eq!(ldf.frames[1].frame_size, 8);
    assert_eq!(ldf.frames[1].signals.len(), 2);
    assert_eq!(ldf.frames[1].signals[0].signal_name, "Signal3");
    assert_eq!(ldf.frames[1].signals[0].start_bit, 0);
    assert_eq!(ldf.frames[1].signals[1].signal_name, "Signal4");
    assert_eq!(ldf.frames[1].signals[1].start_bit, 10);

    // Diagnostic frames
    assert_eq!(ldf.diagnostic_frames.len(), 2);
    assert_eq!(ldf.diagnostic_frames[0].frame_name, "MasterReq");
    assert_eq!(ldf.diagnostic_frames[0].frame_id, 0x3C);
    assert_eq!(ldf.diagnostic_frames[0].signals.len(), 8);
    assert_eq!(
        ldf.diagnostic_frames[0].signals[0].signal_name,
        "MasterReqB0"
    );
    assert_eq!(ldf.diagnostic_frames[0].signals[0].start_bit, 0);
    assert_eq!(
        ldf.diagnostic_frames[0].signals[7].signal_name,
        "MasterReqB7"
    );
    assert_eq!(ldf.diagnostic_frames[0].signals[7].start_bit, 56);
    assert_eq!(ldf.diagnostic_frames[1].frame_name, "SlaveResp");
    assert_eq!(ldf.diagnostic_frames[1].frame_id, 0x3D);
    assert_eq!(ldf.diagnostic_frames[1].signals.len(), 8);
    assert_eq!(
        ldf.diagnostic_frames[1].signals[0].signal_name,
        "SlaveRespB0"
    );
    assert_eq!(ldf.diagnostic_frames[1].signals[0].start_bit, 0);
    assert_eq!(
        ldf.diagnostic_frames[1].signals[7].signal_name,
        "SlaveRespB7"
    );
    assert_eq!(ldf.diagnostic_frames[1].signals[7].start_bit, 56);

    // Node attributes
    assert_eq!(ldf.node_attributes.len(), 2);
    assert_eq!(ldf.node_attributes[0].node_name, "Slave1");
    assert_eq!(ldf.node_attributes[0].lin_protocol, "2.1");
    assert_eq!(ldf.node_attributes[0].configured_nad, 0xB);
    assert_eq!(ldf.node_attributes[0].initial_nad, 0xB);
    assert_eq!(ldf.node_attributes[0].supplier_id, 0x123);
    assert_eq!(ldf.node_attributes[0].function_id, 0x4567);
    assert_eq!(ldf.node_attributes[0].variant, 8);
    assert_eq!(ldf.node_attributes[0].response_error, "Signal1");
    assert_eq!(numf(&ldf.node_attributes[0].p2_min), 100.0);
    assert_eq!(numf(&ldf.node_attributes[0].st_min), 0.0);
    assert_eq!(numf(&ldf.node_attributes[0].n_as_timeout), 1000.0);
    assert_eq!(numf(&ldf.node_attributes[0].n_cr_timeout), 1000.0);
    assert_eq!(ldf.node_attributes[0].configurable_frames.len(), 2);
    assert_eq!(ldf.node_attributes[0].configurable_frames[0], "Frame1");
    assert_eq!(ldf.node_attributes[0].configurable_frames[1], "Frame2");
    assert_eq!(ldf.node_attributes[1].node_name, "Slave2");
    assert_eq!(ldf.node_attributes[1].lin_protocol, "2.1");
    assert_eq!(ldf.node_attributes[1].configured_nad, 0xC);
    assert_eq!(ldf.node_attributes[1].initial_nad, 0xC);
    assert_eq!(ldf.node_attributes[1].supplier_id, 0x124);
    assert_eq!(ldf.node_attributes[1].function_id, 0x4568);
    assert_eq!(ldf.node_attributes[1].variant, 0x66);
    assert_eq!(ldf.node_attributes[1].response_error, "Signal2");
    assert_eq!(numf(&ldf.node_attributes[1].p2_min), 100.0);
    assert_eq!(numf(&ldf.node_attributes[1].st_min), 0.0);
    assert_eq!(numf(&ldf.node_attributes[1].n_as_timeout), 1000.0);
    assert_eq!(numf(&ldf.node_attributes[1].n_cr_timeout), 1000.0);
    assert_eq!(ldf.node_attributes[1].configurable_frames.len(), 2);
    assert_eq!(ldf.node_attributes[1].configurable_frames[0], "Frame1");
    assert_eq!(ldf.node_attributes[1].configurable_frames[1], "Frame2");

    // Schedule tables
    assert_eq!(ldf.schedule_tables.len(), 1);
    assert_eq!(ldf.schedule_tables[0].schedule_table_name, "AllFrames");
    assert_eq!(ldf.schedule_tables[0].frame_delays.len(), 2);
    assert_eq!(ldf.schedule_tables[0].frame_delays[0].frame_name, "Frame1");
    assert_eq!(numf(&ldf.schedule_tables[0].frame_delays[0].frame_time), 10.0);
    assert_eq!(ldf.schedule_tables[0].frame_delays[1].frame_name, "Frame2");
    assert_eq!(numf(&ldf.schedule_tables[0].frame_delays[1].frame_time), 10.0);

    // Signal encoding types
    assert_eq!(ldf.signal_encoding_types.len(), 3);
    assert_eq!(ldf.signal_encoding_types[0].encoding_type_name, "ENC_BOOL");
    assert_eq!(ldf.signal_encoding_types[0].encoding_type_values.len(), 2);

    // Signal representations
    assert_eq!(ldf.signal_representations.len(), 3);
    assert_eq!(
        ldf.signal_representations[0].encoding_type_name,
        "ENC_BOOL"
    );
    assert_eq!(ldf.signal_representations[0].signal_names.len(), 2);
    assert_eq!(ldf.signal_representations[0].signal_names[0], "Signal1");
    assert_eq!(ldf.signal_representations[0].signal_names[1], "Signal2");
}

/// The canonical minimal document, used by several scenarios below.
fn canonical() -> &'static str {
    r#"LIN_description_file;LIN_protocol_version="2.1";LIN_language_version="2.1";LIN_speed=19.2 kbps;
    Nodes{Master:Master,5 ms,0.1 ms; Slaves:Slave1,Slave2,Slave3;}
    Signals{Signal1:10,0,Master,Slave1,Slave2;}
    Frames{Frame1:0,Master,8{Signal1,0;}}
    Node_attributes{Slave1{LIN_protocol="2.1";configured_NAD=0xB;initial_NAD=0xB;
        product_id=0x123,0x4567,8;response_error=Signal1;P2_min=100 ms;ST_min=0 ms;
        N_As_timeout=1000 ms;N_Cr_timeout=1000 ms;configurable_frames{Frame1;}}}
    Schedule_tables{AllFrames{Frame1 delay 10 ms;}}"#
}

#[test]
fn end_to_end_canonical_example() {
    let ldf = parse_ldf(canonical()).unwrap();
    assert_eq!(ldf.header.lin_speed, 19200);
    assert_eq!(ldf.nodes.master.name, "Master");
    let slave_names: Vec<&str> = ldf.nodes.slaves.iter().map(|n| n.name.as_str()).collect();
    assert_eq!(slave_names, vec!["Slave1", "Slave2", "Slave3"]);
    assert_eq!(ldf.signals[0].subscribed_by, vec!["Slave1", "Slave2"]);
}

#[test]
fn trivia_insensitive_reparse() {
    // The same document with extra whitespace and comments between tokens
    // parses to the identical structure.
    let plain = canonical();
    let commented = r#"
        /* leading */ LIN_description_file /* a */ ; // line
        LIN_protocol_version /* b */ = "2.1" ;
        LIN_language_version = /* c */ "2.1" ;
        LIN_speed = 19.2 /* d */ kbps ;
        Nodes /* e */ { Master : /* f */ Master , 5 ms , 0.1 ms ;
            Slaves : Slave1,Slave2,Slave3 ; }
        Signals { Signal1 : 10 , 0 , Master , Slave1,Slave2 ; }
        Frames { Frame1 : 0 , Master , 8 { Signal1 , 0 ; } }
        Node_attributes { Slave1 { LIN_protocol = "2.1" ; configured_NAD = 0xB ;
            initial_NAD = 0xB ; product_id = 0x123 , 0x4567 , 8 ;
            response_error = Signal1 ; P2_min = 100 ms ; ST_min = 0 ms ;
            N_As_timeout = 1000 ms ; N_Cr_timeout = 1000 ms ;
            configurable_frames { Frame1 ; /* g */ } } }
        Schedule_tables { AllFrames { Frame1 delay 10 ms ; } }
    "#;
    let a = parse_ldf(plain).unwrap();
    let b = parse_ldf(commented).unwrap();
    assert_eq!(a, b);
}

#[test]
fn hex_and_decimal_ids_agree() {
    // 0x16 and 22 denote the same frame id; 0x10 and 16 the same variant.
    let hex = canonical().replace("Frame1:0,", "Frame1:0x16,");
    let dec = canonical().replace("Frame1:0,", "Frame1:22,");
    let a = parse_ldf(&hex).unwrap();
    let b = parse_ldf(&dec).unwrap();
    assert_eq!(a.frames[0].frame_id, 22);
    assert_eq!(a.frames[0].frame_id, b.frames[0].frame_id);

    let hexv = canonical().replace("0x4567,8;", "0x4567,0x10;");
    let decv = canonical().replace("0x4567,8;", "0x4567,16;");
    let a = parse_ldf(&hexv).unwrap();
    let b = parse_ldf(&decv).unwrap();
    assert_eq!(a.node_attributes[0].variant, 16);
    assert_eq!(a.node_attributes[0].variant, b.node_attributes[0].variant);
}

#[test]
fn scientific_notation_equals_decimal_expansion() {
    let sci = r#"
        Signal_encoding_types {
            A { physical_value, 0, 1023, 1E-05, 0 ; }
            B { physical_value, 0, 1023, 1.5E-05, 0 ; }
        }
    "#;
    let plain = r#"
        Signal_encoding_types {
            A { physical_value, 0, 1023, 0.00001, 0 ; }
            B { physical_value, 0, 1023, 0.000015, 0 ; }
        }
    "#;
    let (_, a) = lin_ldf::signal_encoding_types::parse_ldf_signal_encoding_types(sci).unwrap();
    let (_, b) = lin_ldf::signal_encoding_types::parse_ldf_signal_encoding_types(plain).unwrap();
    // The parsed numbers are structurally equal: normalization makes the
    // two spellings one value.
    assert_eq!(a, b);
    match &a[0].encoding_type_values[0] {
        LdfSignalEncodingTypeValue::PhysicalValue { scaling_factor, .. } => {
            assert_eq!(numf(scaling_factor), 0.00001);
        }
        _ => panic!("Expected PhysicalValue"),
    }
    match &a[1].encoding_type_values[0] {
        LdfSignalEncodingTypeValue::PhysicalValue { scaling_factor, .. } => {
            assert_eq!(numf(scaling_factor), 0.000015);
        }
        _ => panic!("Expected PhysicalValue"),
    }
}

#[test]
fn absent_optional_sections_give_empty_collections() {
    // The canonical document has no optional section at all: every optional
    // collection is empty and the parse still succeeds.
    let ldf = parse_ldf(canonical()).unwrap();
    assert_eq!(ldf.diagnostic_signals.len(), 0);
    assert_eq!(ldf.diagnostic_frames.len(), 0);
    assert_eq!(ldf.signal_encoding_types.len(), 0);
    assert_eq!(ldf.signal_representations.len(), 0);
    assert_eq!(ldf.header.channel_name, None);
}

#[test]
fn comma_lists_of_every_length() {
    // No subscribers at all: the semicolon follows the publisher directly.
    let zero = canonical().replace("Signal1:10,0,Master,Slave1,Slave2;", "Signal1:10,0,Master;");
    let ldf = parse_ldf(&zero).unwrap();
    assert_eq!(ldf.signals[0].subscribed_by.len(), 0);

    // One subscriber.
    let one = canonical().replace("Signal1:10,0,Master,Slave1,Slave2;", "Signal1:10,0,Master,Slave1;");
    let ldf = parse_ldf(&one).unwrap();
    assert_eq!(ldf.signals[0].subscribed_by, vec!["Slave1"]);

    // Many, with whitespace around each element, trimmed per element.
    let many = canonical().replace(
        "Signal1:10,0,Master,Slave1,Slave2;",
        "Signal1:10,0,Master,  Slave1 ,Slave2  ,  Slave3;",
    );
    let ldf = parse_ldf(&many).unwrap();
    assert_eq!(ldf.signals[0].subscribed_by, vec!["Slave1", "Slave2", "Slave3"]);

    // The slave list trims the same way.
    let slaves = canonical().replace("Slaves:Slave1,Slave2,Slave3;", "Slaves:  S1 , S2 ;");
    let ldf = parse_ldf(&slaves).unwrap();
    let names: Vec<&str> = ldf.nodes.slaves.iter().map(|n| n.name.as_str()).collect();
    assert_eq!(names, vec!["S1", "S2"]);
}

#[test]
fn schedule_table_order_is_preserved() {
    let input = canonical().replace(
        "AllFrames{Frame1 delay 10 ms;}",
        "AllFrames{Frame2 delay 5 ms; Frame1 delay 10 ms;}",
    );
    let ldf = parse_ldf(&input).unwrap();
    let entries: Vec<(String, f64)> = ldf.schedule_tables[0]
        .frame_delays
        .iter()
        .map(|e| (e.frame_name.clone(), numf(&e.frame_time)))
        .collect();
    assert_eq!(
        entries,
        vec![("Frame2".to_string(), 5.0), ("Frame1".to_string(), 10.0)]
    );
}

#[test]
fn missing_frames_section_fails_by_name() {
    let input = r#"LIN_description_file;LIN_protocol_version="2.1";LIN_language_version="2.1";LIN_speed=19.2 kbps;
        Nodes{Master:Master,5 ms,0.1 ms; Slaves:Slave1;}
        Signals{Signal1:10,0,Master,Slave1;}
        Node_attributes{}
        Schedule_tables{AllFrames{Frame1 delay 10 ms;}}"#;
    assert_eq!(parse_ldf(input), Err("Failed to parse Frames section"));
}

#[test]
fn each_mandatory_section_failure_is_named() {
    assert_eq!(parse_ldf("nothing here"), Err("Failed to parse header"));

    let no_nodes = r#"LIN_description_file;LIN_protocol_version="2.1";LIN_language_version="2.1";LIN_speed=19.2 kbps; Signals{}"#;
    assert_eq!(parse_ldf(no_nodes), Err("Failed to parse Nodes section"));

    let bad_signals = canonical().replace("Signals{Signal1:10,0,Master,Slave1,Slave2;}", "Signals{Signal1 10;}");
    assert_eq!(
        parse_ldf(&bad_signals),
        Err("Failed to parse Signals section (required)")
    );

    let bad_attrs = canonical().replace("configured_NAD=0xB;", "configured_NAD=11;");
    assert_eq!(
        parse_ldf(&bad_attrs),
        Err("Failed to parse Node_attributes section")
    );

    let bad_tables = canonical().replace("Frame1 delay 10 ms;", "Frame1 wait 10 ms;");
    assert_eq!(
        parse_ldf(&bad_tables),
        Err("Failed to parse Schedule_tables section")
    );
}

#[test]
fn parsing_twice_is_deterministic() {
    let a = parse_ldf(canonical()).unwrap();
    let b = parse_ldf(canonical()).unwrap();
    assert_eq!(a, b);
}

#[test]
fn malformed_optional_section_is_absorbed() {
    // A malformed Signal_encoding_types section is swallowed: the parse
    // succeeds with an empty collection, per the optional-section policy.
    let input = format!(
        "{}\nSignal_encoding_types {{ E {{ bogus_tag, 1, \"x\" ; }} }}",
        canonical()
    );
    let ldf = parse_ldf(&input).unwrap();
    assert_eq!(ldf.signal_encoding_types.len(), 0);
}

#[test]
fn implied_unit_in_full_document() {
    let input = format!(
        "{}\nSignal_encoding_types {{ E {{ physical_value, -40, 215, 0.5, -40 ; }} }}",
        canonical()
    );
    let ldf = parse_ldf(&input).unwrap();
    assert_eq!(ldf.signal_encoding_types.len(), 1);
    match &ldf.signal_encoding_types[0].encoding_type_values[0] {
        LdfSignalEncodingTypeValue::PhysicalValue {
            min_value,
            max_value,
            scaling_factor,
            offset,
            unit,
        } => {
            assert_eq!(*min_value, -40);
            assert_eq!(*max_value, 215);
            assert_eq!(numf(scaling_factor), 0.5);
            assert_eq!(numf(offset), -40.0);
            assert_eq!(unit, "");
        }
        _ => panic!("Expected PhysicalValue"),
    }
}

#[test]
fn speed_is_kbps_times_thousand() {
    let ldf = parse_ldf(&canonical().replace("19.2 kbps", "9.6 kbps")).unwrap();
    assert_eq!(ldf.header.lin_speed, 9600);
    let ldf = parse_ldf(&canonical().replace("19.2 kbps", "20 kbps")).unwrap();
    assert_eq!(ldf.header.lin_speed, 20000);
    // The field saturates at its 16-bit limit.
    let ldf = parse_ldf(&canonical().replace("19.2 kbps", "99.9 kbps")).unwrap();
    assert_eq!(ldf.header.lin_speed, 65535);
}

#[test]
fn header_marker_found_after_leading_content() {
    // Content before the LIN_description_file marker is skipped.
    let input = format!("/* preamble */ stray-bytes {}", canonical());
    let ldf = parse_ldf(&input).unwrap();
    assert_eq!(ldf.header.lin_speed, 19200);
}

#[test]
fn empty_mandatory_sections_parse() {
    // A section body whose first non-trivia character is the closing brace
    // is an empty, well-formed section.
    let input = r#"LIN_description_file;LIN_protocol_version="2.1";LIN_language_version="2.1";LIN_speed=19.2 kbps;
        Nodes{Master:Master,5 ms,0.1 ms; Slaves:Slave1;}
        Signals { }
        Frames { }
        Node_attributes { }
        Schedule_tables { }"#;
    let ldf = parse_ldf(input).unwrap();
    assert_eq!(ldf.signals.len(), 0);
    assert_eq!(ldf.frames.len(), 0);
    assert_eq!(ldf.node_attributes.len(), 0);
    assert_eq!(ldf.schedule_tables.len(), 0);
}

#[test]
fn malformed_numerals_are_recoverable_errors() {
    // Hex digits without the 0x prefix do not read as a decimal id: the
    // section fails with its error, the process never aborts.
    let bad_id = canonical().replace("Frame1:0,", "Frame1:1A,");
    assert_eq!(parse_ldf(&bad_id), Err("Failed to parse Frames section"));

    // A frame id beyond one byte is refused the same way.
    let too_big = canonical().replace("Frame1:0,", "Frame1:999,");
    assert_eq!(parse_ldf(&too_big), Err("Failed to parse Frames section"));

    // A second dot in a decimal literal is refused where it is scanned.
    let bad_delay = canonical().replace("Frame1 delay 10 ms;", "Frame1 delay 1.2.3 ms;");
    assert_eq!(
        parse_ldf(&bad_delay),
        Err("Failed to parse Schedule_tables section")
    );
}

//! Tests of the individual section parsers.

use lin_ldf::signal_encoding_types::LdfSignalEncodingTypeValue;
use lin_ldf::LdfNumber;
use lin_ldf::diagnostic_frames::parse_ldf_diagnostic_frames;
use lin_ldf::diagnostic_signals::parse_ldf_diagnostic_signals;
use lin_ldf::frames::parse_ldf_frames;
use lin_ldf::header::{parse_channel_name, parse_ldf_header};
use lin_ldf::node_attributes::parse_ldf_node_attributes;
use lin_ldf::nodes::parse_ldf_nodes;
use lin_ldf::schedule_tables::parse_ldf_schedule_tables;
use lin_ldf::signal_encoding_types::parse_ldf_signal_encoding_types;
use lin_ldf::signal_representation::parse_ldf_signal_representation;
use lin_ldf::signals::parse_ldf_signals;

/// The numeric value a parsed decimal stands for.
fn numf(d: &LdfNumber) -> f64 {
    let text = format!(
        "{}{}e{}",
        if d.negative { "-" } else { "" },
        d.mantissa,
        d.exp10
    );
    text.parse().unwrap()
}

#[test]
fn ldf_header_test_parse() {
    let s = r#"
            LIN_description_file ;
            LIN_protocol_version = "2.1" ;
            LIN_language_version = "2.1" ;
            LIN_speed = 19.2 kbps ;
            Channel_name = "DB";
        "#;

    let (_, header) = parse_ldf_header(s).unwrap();
    assert_eq!(header.lin_protocol_version, "2.1");
    assert_eq!(header.lin_language_version, "2.1");
    assert_eq!(header.lin_speed, 19200);
    assert_eq!(header.channel_name, Some("DB".to_string()));
}

#[test]
fn test_parse_channel_name() {
    let s = r#"Channel_name = "DB";"#;
    let (_, channel_name) = parse_channel_name(s).unwrap();
    assert_eq!(channel_name, Some("DB".to_string()));
}

#[test]
fn test_parse_header_no_channel_name() {
    let s = r#"
            LIN_description_file ;
            LIN_protocol_version = "2.1" ;
            LIN_language_version = "2.1" ;
            LIN_speed = 19.2 kbps ;
        "#;

    let (_, header) = parse_ldf_header(s).unwrap();
    assert_eq!(header.lin_protocol_version, "2.1");
    assert_eq!(header.lin_language_version, "2.1");
    assert_eq!(header.lin_speed, 19200);
    assert_eq!(header.channel_name, None);
}

#[test]
fn ldf_nodes_test_parse() {
    let s = r#"
            Nodes {
                Master: Master, 5 ms, 0.1 ms ;
                Slaves: Slave1, Slave2, Slave3 ;
            }
        "#;

    let (_, header) = parse_ldf_nodes(s).unwrap();
    assert_eq!(header.master.name, "Master");
    assert_eq!(numf(&header.master.time_base), 5.0);
    assert_eq!(numf(&header.master.jitter), 0.1);
    assert_eq!(header.slaves.len(), 3);
    assert_eq!(header.slaves[0].name, "Slave1");
    assert_eq!(header.slaves[1].name, "Slave2");
    assert_eq!(header.slaves[2].name, "Slave3");
}

#[test]
fn test_parse_ldf_signals() {
    let input = r#"
            Signals {
                Signal1: 10, 0, Master, Slave1 , Slave2 ;
                Signal2: 10, 0, Master, Slave1 ;
                Signal3: 10, 0, Slave1, Master ;
                Signal4: 10, 0, Slave1, Master ;
                Signal5: 2, 0, Slave1, Master ;
                Signal6: 1, 0, Slave1, Master ;
            }
        "#;

    let (_, signals) = parse_ldf_signals(input).unwrap();
    assert_eq!(signals.len(), 6);
    assert_eq!(signals[0].name, "Signal1");
    assert_eq!(signals[0].signal_size, 10);
    assert_eq!(signals[0].published_by, "Master");
    assert_eq!(signals[0].subscribed_by, vec!["Slave1", "Slave2"]);
    assert_eq!(signals[1].name, "Signal2");
}

#[test]
fn test_parse_ldf_diagnostic_signals() {
    let input = r#"
            Diagnostic_signals {
                MasterReqB0: 8, 0 ;
                MasterReqB1: 8, 0 ;
                MasterReqB2: 8, 0 ;
                MasterReqB3: 8, 0 ;
                MasterReqB4: 8, 0 ;
                MasterReqB5: 8, 0 ;
                MasterReqB6: 8, 0 ;
                MasterReqB7: 8, 0 ;
                SlaveRespB0: 8, 0 ;
                SlaveRespB1: 8, 0 ;
                SlaveRespB2: 8, 0 ;
                SlaveRespB3: 8, 0 ;
                SlaveRespB4: 8, 0 ;
                SlaveRespB5: 8, 0 ;
                SlaveRespB6: 8, 0 ;
                SlaveRespB7: 8, 0 ;
            }
        "#;

    let (_, diagnostic_signals) = parse_ldf_diagnostic_signals(input).unwrap();
    assert_eq!(diagnostic_signals.len(), 16);
    assert_eq!(diagnostic_signals[0].name, "MasterReqB0");
    assert_eq!(diagnostic_signals[0].length, 8);
    assert_eq!(diagnostic_signals[0].init_value, 0);

    assert_eq!(diagnostic_signals[15].name, "SlaveRespB7");
    assert_eq!(diagnostic_signals[15].length, 8);
    assert_eq!(diagnostic_signals[15].init_value, 0);
}

#[test]
fn test_parse_ldf_frames() {
    let input = r#"
        Frames {
            Frame1: 0, Master, 8 {
                Signal1, 0 ;
                Signal2, 10 ;
            }
            Frame2: 0x16, Slave1, 8 {
                Signal3, 0 ;
                Signal4, 10 ;
            }
        }
        "#;

    let (_, frames) = parse_ldf_frames(input).unwrap();
    assert_eq!(frames.len(), 2);
    assert_eq!(frames[0].frame_name, "Frame1");
    assert_eq!(frames[0].frame_id, 0);
    assert_eq!(frames[0].published_by, "Master");
    assert_eq!(frames[0].frame_size, 8);
    assert_eq!(frames[0].signals.len(), 2);
    assert_eq!(frames[0].signals[0].signal_name, "Signal1");
    assert_eq!(frames[0].signals[0].start_bit, 0);
    assert_eq!(frames[0].signals[1].signal_name, "Signal2");
    assert_eq!(frames[0].signals[1].start_bit, 10);

    assert_eq!(frames[1].frame_name, "Frame2");
    assert_eq!(frames[1].frame_id, 0x16);
    assert_eq!(frames[1].published_by, "Slave1");
    assert_eq!(frames[1].frame_size, 8);
    assert_eq!(frames[1].signals.len(), 2);
    assert_eq!(frames[1].signals[0].signal_name, "Signal3");
    assert_eq!(frames[1].signals[0].start_bit, 0);
    assert_eq!(frames[1].signals[1].signal_name, "Signal4");
    assert_eq!(frames[1].signals[1].start_bit, 10);
}

#[test]
fn test_parse_ldf_diagnostic_frames() {
    let input = r#"
        Diagnostic_frames {
            MasterReq: 0x3C {
                MasterReqB0, 0 ;
                MasterReqB1, 8 ;
                MasterReqB2, 16 ;
                MasterReqB3, 24 ;
                MasterReqB4, 32 ;
                MasterReqB5, 40 ;
                MasterReqB6, 48 ;
                MasterReqB7, 56 ;
            }
            SlaveResp: 0x3D {
                SlaveRespB0, 0 ;
                SlaveRespB1, 8 ;
                SlaveRespB2, 16 ;
                SlaveRespB3, 24 ;
                SlaveRespB4, 32 ;
                SlaveRespB5, 40 ;
                SlaveRespB6, 48 ;
                SlaveRespB7, 56 ;
            }
        }
        "#;

    let (_, diagnostic_frames) = parse_ldf_diagnostic_frames(input).unwrap();
    assert_eq!(diagnostic_frames.len(), 2);
    assert_eq!(diagnostic_frames[0].frame_name, "MasterReq");
    assert_eq!(diagnostic_frames[0].frame_id, 0x3C);
    assert_eq!(diagnostic_frames[0].signals.len(), 8);
    assert_eq!(diagnostic_frames[0].signals[0].signal_name, "MasterReqB0");
    assert_eq!(diagnostic_frames[0].signals[0].start_bit, 0);
    assert_eq!(diagnostic_frames[0].signals[7].signal_name, "MasterReqB7");
    assert_eq!(diagnostic_frames[0].signals[7].start_bit, 56);
    assert_eq!(diagnostic_frames[1].frame_name, "SlaveResp");
    assert_eq!(diagnostic_frames[1].frame_id, 0x3D);
    assert_eq!(diagnostic_frames[1].signals.len(), 8);
    assert_eq!(diagnostic_frames[1].signals[0].signal_name, "SlaveRespB0");
    assert_eq!(diagnostic_frames[1].signals[0].start_bit, 0);
    assert_eq!(diagnostic_frames[1].signals[7].signal_name, "SlaveRespB7");
    assert_eq!(diagnostic_frames[1].signals[7].start_bit, 56);
}

#[test]
fn test_parse_ldf_node_attributes() {
    let input = r#"
            Node_attributes {
                Slave1{
                    LIN_protocol = "2.1" ;
                    configured_NAD = 0xB ;
                    initial_NAD = 0xB ;
                    product_id = 0x123, 0x4567, 8 ;
                    response_error = Signal1 ;
                    P2_min = 100 ms ;
                    ST_min = 0 ms ;
                    N_As_timeout = 1000 ms ;
                    N_Cr_timeout = 1000 ms ;
                    configurable_frames {
                        Frame1 ;
                        Frame2 ;
                    }
                }
                Slave2{
                    LIN_protocol = "2.1" ;
                    configured_NAD = 0xC ;
                    initial_NAD = 0xC ;
                    product_id = 0x124, 0x4568, 0x66 ;
                    response_error = Signal2 ;
                    P2_min = 100 ms ;
                    ST_min = 0 ms ;
                    N_As_timeout = 1000 ms ;
                    N_Cr_timeout = 1000 ms ;
                    configurable_frames {
                        Frame1 ;
                        Frame2 ;
                    }
                }
            }
        "#;

    let (_, node_attributes) = parse_ldf_node_attributes(input).unwrap();

    assert_eq!(node_attributes.len(), 2);

    assert_eq!(node_attributes[0].node_name, "Slave1");
    assert_eq!(node_attributes[0].lin_protocol, "2.1");
    assert_eq!(node_attributes[0].configured_nad, 0xB);
    assert_eq!(node_attributes[0].initial_nad, 0xB);
    assert_eq!(node_attributes[0].supplier_id, 0x123);
    assert_eq!(node_attributes[0].function_id, 0x4567);
    assert_eq!(node_attributes[0].variant, 8);
    assert_eq!(node_attributes[0].response_error, "Signal1");
    assert_eq!(numf(&node_attributes[0].p2_min), 100.0);
    assert_eq!(numf(&node_attributes[0].st_min), 0.0);
    assert_eq!(numf(&node_attributes[0].n_as_timeout), 1000.0);
    assert_eq!(numf(&node_attributes[0].n_cr_timeout), 1000.0);
    assert_eq!(node_attributes[0].configurable_frames.len(), 2);
    assert_eq!(node_attributes[0].configurable_frames[0], "Frame1");
    assert_eq!(node_attributes[0].configurable_frames[1], "Frame2");

    assert_eq!(node_attributes[1].node_name, "Slave2");
    assert_eq!(node_attributes[1].lin_protocol, "2.1");
    assert_eq!(node_attributes[1].configured_nad, 0xC);
    assert_eq!(node_attributes[1].initial_nad, 0xC);
    assert_eq!(node_attributes[1].supplier_id, 0x124);
    assert_eq!(node_attributes[1].function_id, 0x4568);
    assert_eq!(node_attributes[1].variant, 0x66);
    assert_eq!(node_attributes[1].response_error, "Signal2");
    assert_eq!(numf(&node_attributes[1].p2_min), 100.0);
    assert_eq!(numf(&node_attributes[1].st_min), 0.0);
    assert_eq!(numf(&node_attributes[1].n_as_timeout), 1000.0);
    assert_eq!(numf(&node_attributes[1].n_cr_timeout), 1000.0);
    assert_eq!(node_attributes[1].configurable_frames.len(), 2);
    assert_eq!(node_attributes[1].configurable_frames[0], "Frame1");
    assert_eq!(node_attributes[1].configurable_frames[1], "Frame2");
}

#[test]
fn test_parse_ldf_schedule_tables() {
    let input = r#"
            Schedule_tables {
                AllFrames {
                    Frame1 delay 10 ms ;
                    Frame2   delay 10.0 ms ;
                }
            }
        "#;

    let (_, schedule_tables) = parse_ldf_schedule_tables(input).unwrap();

    assert_eq!(schedule_tables.len(), 1);

    let schedule_table = &schedule_tables[0];
    assert_eq!(schedule_table.schedule_table_name, "AllFrames");
    assert_eq!(schedule_table.frame_delays.len(), 2);

    let frame_delay = &schedule_table.frame_delays[0];
    assert_eq!(frame_delay.frame_name, "Frame1");
    assert_eq!(numf(&frame_delay.frame_time), 10.0);

    let frame_delay = &schedule_table.frame_delays[1];
    assert_eq!(frame_delay.frame_name, "Frame2");
    assert_eq!(numf(&frame_delay.frame_time), 10.0);
}

#[test]
fn test_parse_ldf_signal_encoding_types() {
    let input = r#"
            Signal_encoding_types {
                ENC_BOOL {
                    logical_value, 0, "FALSE" ;
                    logical_value, 1, "TRUE" ;
                }
                ENC_ENGINE_INTERNAL_TEMP {
                    physical_value, 0, 1023, 0.1, 100, "kelvin" ;
                }
                ENC_ENGINE_RPM {
                    physical_value, 0, 1023, 10, 0, "RPM" ;
                }
                ENC_WINDSHIELD_WIPER {
                    logical_value, 0, "OFF" ;
                    logical_value, 1, "ON" ;
                }
                ENC_SN {
                    physical_value, 0, 1023, 1E-05, 0, "unit" ;
                }
                ENC_SN2 {
                    physical_value, 0, 1023, 1.5E-05, 0 ; // Implied unit
                }
            }
        "#;
    let (_, signal_encoding_types) = parse_ldf_signal_encoding_types(input).unwrap();
    assert_eq!(signal_encoding_types.len(), 6);

    let enc_bool = &signal_encoding_types[0];
    assert_eq!(enc_bool.encoding_type_name, "ENC_BOOL");
    assert_eq!(enc_bool.encoding_type_values.len(), 2);
    match &enc_bool.encoding_type_values[0] {
        LdfSignalEncodingTypeValue::LogicalValue {
            value,
            value_description,
        } => {
            assert_eq!(*value, 0);
            assert_eq!(value_description, "FALSE");
        }
        _ => panic!("Expected LogicalValue"),
    }
    match &enc_bool.encoding_type_values[1] {
        LdfSignalEncodingTypeValue::LogicalValue {
            value,
            value_description,
        } => {
            assert_eq!(*value, 1);
            assert_eq!(value_description, "TRUE");
        }
        _ => panic!("Expected LogicalValue"),
    }

    let enc_engine_internal_temp = &signal_encoding_types[1];
    assert_eq!(
        enc_engine_internal_temp.encoding_type_name,
        "ENC_ENGINE_INTERNAL_TEMP"
    );
    assert_eq!(enc_engine_internal_temp.encoding_type_values.len(), 1);
    match &enc_engine_internal_temp.encoding_type_values[0] {
        LdfSignalEncodingTypeValue::PhysicalValue {
            min_value,
            max_value,
            scaling_factor,
            offset,
            unit,
        } => {
            assert_eq!(*min_value, 0);
            assert_eq!(*max_value, 1023);
            assert_eq!(numf(scaling_factor), 0.1);
            assert_eq!(numf(offset), 100.0);
            assert_eq!(unit, "kelvin");
        }
        _ => panic!("Expected PhysicalValue"),
    }

    let enc_engine_rpm = &signal_encoding_types[2];
    assert_eq!(enc_engine_rpm.encoding_type_name, "ENC_ENGINE_RPM");
    assert_eq!(enc_engine_rpm.encoding_type_values.len(), 1);
    match &enc_engine_rpm.encoding_type_values[0] {
        LdfSignalEncodingTypeValue::PhysicalValue {
            min_value,
            max_value,
            scaling_factor,
            offset,
            unit,
        } => {
            assert_eq!(*min_value, 0);
            assert_eq!(*max_value, 1023);
            assert_eq!(numf(scaling_factor), 10.0);
            assert_eq!(numf(offset), 0.0);
            assert_eq!(unit, "RPM");
        }
        _ => panic!("Expected PhysicalValue"),
    }

    let enc_windshield_wiper = &signal_encoding_types[3];
    assert_eq!(
        enc_windshield_wiper.encoding_type_name,
        "ENC_WINDSHIELD_WIPER"
    );
    assert_eq!(enc_windshield_wiper.encoding_type_values.len(), 2);
    match &enc_windshield_wiper.encoding_type_values[0] {
        LdfSignalEncodingTypeValue::LogicalValue {
            value,
            value_description,
        } => {
            assert_eq!(*value, 0);
            assert_eq!(value_description, "OFF");
        }
        _ => panic!("Expected LogicalValue"),
    }
    match &enc_windshield_wiper.encoding_type_values[1] {
        LdfSignalEncodingTypeValue::LogicalValue {
            value,
            value_description,
        } => {
            assert_eq!(*value, 1);
            assert_eq!(value_description, "ON");
        }
        _ => panic!("Expected LogicalValue"),
    }

    let enc_sn = &signal_encoding_types[4];
    assert_eq!(enc_sn.encoding_type_name, "ENC_SN");
    assert_eq!(enc_sn.encoding_type_values.len(), 1);
    match &enc_sn.encoding_type_values[0] {
        LdfSignalEncodingTypeValue::PhysicalValue {
            min_value,
            max_value,
            scaling_factor,
            offset,
            unit,
        } => {
            assert_eq!(*min_value, 0);
            assert_eq!(*max_value, 1023);
            assert_eq!(numf(scaling_factor), 1E-05);
            assert_eq!(numf(offset), 0.0);
            assert_eq!(unit, "unit");
        }
        _ => panic!("Expected PhysicalValue"),
    }

    let enc_sn2 = &signal_encoding_types[5];
    assert_eq!(enc_sn2.encoding_type_name, "ENC_SN2");
    assert_eq!(enc_sn2.encoding_type_values.len(), 1);
    match &enc_sn2.encoding_type_values[0] {
        LdfSignalEncodingTypeValue::PhysicalValue {
            min_value,
            max_value,
            scaling_factor,
            offset,
            unit,
        } => {
            assert_eq!(*min_value, 0);
            assert_eq!(*max_value, 1023);
            assert_eq!(numf(scaling_factor), 1.5E-05);
            assert_eq!(numf(offset), 0.0);
            assert_eq!(unit, "");
        }
        _ => panic!("Expected PhysicalValue"),
    }
}

#[test]
fn test_parse_ldf_signal_encoding_type_implied_unit() {
    let input = r#"
            Signal_encoding_types {
                ENC_IMPLIED_UNIT {
                    physical_value, 0, 5, 0.1, 100 ;
                }
            }
        "#;
    let (_, signal_encoding_types) = parse_ldf_signal_encoding_types(input).unwrap();
    assert_eq!(signal_encoding_types.len(), 1);

    let enc_implied_unit = &signal_encoding_types[0];
    assert_eq!(enc_implied_unit.encoding_type_name, "ENC_IMPLIED_UNIT");
    assert_eq!(enc_implied_unit.encoding_type_values.len(), 1);
    match &enc_implied_unit.encoding_type_values[0] {
        LdfSignalEncodingTypeValue::PhysicalValue {
            min_value,
            max_value,
            scaling_factor,
            offset,
            unit,
        } => {
            assert_eq!(*min_value, 0);
            assert_eq!(*max_value, 5);
            assert_eq!(numf(scaling_factor), 0.1);
            assert_eq!(numf(offset), 100.0);
            assert_eq!(unit, "");
        }
        _ => panic!("Expected PhysicalValue"),
    }
}

#[test]
fn test_parse_ldf_signal_representation() {
    let input = r#"
        Signal_representation {
            ENC_BOOL: Signal1, Signal2 ;
            ENC_TEMP: Signal3, Signal4 ;
            ENC_RPM: Signal5, Signal6 ;
        }
        "#;

    let (_, signal_representations) = parse_ldf_signal_representation(input).unwrap();

    assert_eq!(signal_representations.len(), 3);

    assert_eq!(signal_representations[0].encoding_type_name, "ENC_BOOL");
    assert_eq!(signal_representations[0].signal_names.len(), 2);
    assert_eq!(signal_representations[0].signal_names[0], "Signal1");
    assert_eq!(signal_representations[0].signal_names[1], "Signal2");

    assert_eq!(signal_representations[1].encoding_type_name, "ENC_TEMP");
    assert_eq!(signal_representations[1].signal_names.len(), 2);
    assert_eq!(signal_representations[1].signal_names[0], "Signal3");
    assert_eq!(signal_representations[1].signal_names[1], "Signal4");

    assert_eq!(signal_representations[2].encoding_type_name, "ENC_RPM");
    assert_eq!(signal_representations[2].signal_names.len(), 2);
    assert_eq!(signal_representations[2].signal_names[0], "Signal5");
    assert_eq!(signal_representations[2].signal_names[1], "Signal6");
}

#[test]
fn test_skip_whitespace_comments() {
    // Block and line comments count as whitespace, in any mixture.
    let s = "  /* a */  // b\n  /* c */ X";
    let n = lin_ldf::trivia::skip_whitespace(s);
    assert_eq!(&s[n..], "X");

    // Zero trivia is success, not an error.
    assert_eq!(lin_ldf::trivia::skip_whitespace("X  "), 0);

    // A line comment at the end of the input is terminated by the end of
    // the input.
    let s2 = "  // trailing";
    assert_eq!(lin_ldf::trivia::skip_whitespace(s2), s2.len());

    // An unterminated block comment is not a comment: the cursor stops
    // before it.
    let s3 = "  /* open";
    assert_eq!(lin_ldf::trivia::skip_whitespace(s3), 2);

    // Two comments separated by whitespace are both consumed.
    let s4 = "/*a*/ /*b*/x";
    assert_eq!(lin_ldf::trivia::skip_whitespace(s4), s4.len() - 1);
}

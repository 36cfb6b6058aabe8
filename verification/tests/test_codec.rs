use supmcu_rs::supmcu::parsing::{
    encode_values, McuType, SupMCUCommand, SupMCUFormat, SupMCUHDR, SupMCUModuleDefinition,
    SupMCUTelemetry, SupMCUTelemetryDefinition, SupMCUValue, TelemetryType,
};
use supmcu_rs::ParsingError;

fn sample_values() -> Vec<SupMCUValue> {
    vec![
        SupMCUValue::Str("Hello World!".to_string()),
        SupMCUValue::Char('j'),
        SupMCUValue::U8(200),
        SupMCUValue::I8(-7),
        SupMCUValue::U16(0xBEEF),
        SupMCUValue::I16(-1234),
        SupMCUValue::U32(0xDEADBEEF),
        SupMCUValue::I32(-123456),
        SupMCUValue::U64(0x0123_4567_89AB_CDEF),
        SupMCUValue::I64(-9_876_543_210),
        SupMCUValue::Float(1.5f32.to_bits()),
        SupMCUValue::Double(2.25f64.to_bits()),
        SupMCUValue::Hex8(0x5A),
        SupMCUValue::Hex16(0xA55A),
    ]
}

#[test]
fn round_trip_every_type() {
    let values = sample_values();
    let format = SupMCUFormat::new("ScutsnidlkfFxz");
    let bytes = encode_values(&values);
    let decoded = format.parse_data(&bytes, 0).unwrap();
    assert_eq!(values, decoded);
}

#[test]
fn round_trip_random_numbers() {
    for _ in 0..32 {
        let values = vec![
            SupMCUValue::U16(rand::random::<u16>()),
            SupMCUValue::I32(rand::random::<i32>()),
            SupMCUValue::U64(rand::random::<u64>()),
            SupMCUValue::Float(rand::random::<f32>().to_bits()),
        ];
        let format = SupMCUFormat::new("sdlf");
        let bytes = encode_values(&values);
        assert_eq!(values, format.parse_data(&bytes, 0).unwrap());
    }
}

#[test]
fn string_payload_stops_at_first_null() {
    let mut data = b"Hello".to_vec();
    data.push(0);
    data.extend_from_slice(b"World");
    data.push(0);
    let decoded = SupMCUFormat::new("S").parse_data(&data, 0).unwrap();
    assert_eq!(vec![SupMCUValue::Str("Hello".to_string())], decoded);
}

#[test]
fn string_payload_without_null_is_rejected() {
    let data = b"Hello".to_vec();
    let r = SupMCUFormat::new("S").parse_data(&data, 0);
    assert!(matches!(r, Err(ParsingError::InvalidBytes(_))));
}

#[test]
fn string_payload_with_invalid_text_is_rejected() {
    let data = vec![0xFF, 0xFE, 0x00];
    let r = SupMCUFormat::new("S").parse_data(&data, 0);
    assert!(matches!(r, Err(ParsingError::StringParsingError)));
}

#[test]
fn truncated_fixed_width_is_rejected() {
    let data = vec![0x01, 0x02];
    let r = SupMCUFormat::new("i").parse_data(&data, 0);
    assert!(matches!(r, Err(ParsingError::InvalidBytes(_))));
}

#[test]
fn unrecognized_characters_are_dropped() {
    assert_eq!(
        SupMCUFormat::new("a1!").get_byte_length(),
        SupMCUFormat::new("").get_byte_length()
    );
    assert_eq!(SupMCUFormat::new("a1!u").get_byte_length(), Some(1));
    assert_eq!("", SupMCUFormat::new("a1!").get_format_str());
}

#[test]
fn value_wire_bytes_are_little_endian() {
    assert_eq!(vec![0x34, 0x12], SupMCUValue::U16(0x1234).to_bytes());
    assert_eq!(vec![0xFF], SupMCUValue::I8(-1).to_bytes());
    assert_eq!(vec![0xFE, 0xFF], SupMCUValue::I16(-2).to_bytes());
    assert_eq!(vec![0x78, 0x56, 0x34, 0x12], SupMCUValue::U32(0x12345678).to_bytes());
    assert_eq!(vec![b'j'], SupMCUValue::Char('j').to_bytes());
    assert_eq!(1.5f32.to_le_bytes().to_vec(), SupMCUValue::Float(1.5f32.to_bits()).to_bytes());
    assert_eq!(b"Hi".to_vec(), SupMCUValue::Str("Hi".to_string()).to_bytes());
}

#[test]
fn header_parse_reads_ready_bit_and_timestamp() {
    let h = SupMCUHDR::parse(&vec![0x01, 0x78, 0x56, 0x34, 0x12, 0xAA]).unwrap();
    assert!(h.ready);
    assert_eq!(0x12345678, h.timestamp);
    let h2 = SupMCUHDR::parse(&vec![0xFE, 0, 0, 0, 0]).unwrap();
    assert!(!h2.ready);
    assert!(matches!(
        SupMCUHDR::parse(&vec![1, 2, 3]),
        Err(ParsingError::InvalidBytes(_))
    ));
}

#[test]
fn header_round_trip() {
    let h = SupMCUHDR { ready: true, timestamp: 123456789 };
    assert_eq!(h, SupMCUHDR::parse(&h.to_bytes()).unwrap());
}

#[test]
fn telemetry_from_bytes_skips_header_and_footer() {
    let def = SupMCUTelemetryDefinition {
        name: "pair".to_string(),
        format: SupMCUFormat::new("ss"),
        length: None,
        default_sim_value: None,
        idx: 3,
        telemetry_type: TelemetryType::Module,
    };
    let mut buff = vec![0x01, 0, 0, 0, 0];
    buff.extend_from_slice(&[0x34, 0x12, 0x78, 0x56]);
    buff.extend_from_slice(&[0u8; 8]);
    let tel = SupMCUTelemetry::from_bytes(buff, &def).unwrap();
    assert!(tel.header.ready);
    assert_eq!(vec![SupMCUValue::U16(0x1234), SupMCUValue::U16(0x5678)], tel.data);
    assert_eq!(def, tel.definition);
}

#[test]
fn mcu_type_from_id() {
    assert_eq!(McuType::PIC24EP256MC206, McuType::from_id(1).unwrap());
    assert_eq!(McuType::PIC24EP512MC206, McuType::from_id(2).unwrap());
    assert!(matches!(McuType::from_id(7), Err(ParsingError::McuIdParsingError(7))));
}

#[test]
fn telemetry_catalog_is_split_and_sorted_by_index() {
    fn item(name: &str, idx: usize, t: TelemetryType) -> SupMCUTelemetryDefinition {
        SupMCUTelemetryDefinition {
            name: name.to_string(),
            format: SupMCUFormat::new("s"),
            length: None,
            default_sim_value: None,
            idx,
            telemetry_type: t,
        }
    }
    let def = SupMCUModuleDefinition {
        name: "EPS".to_string(),
        address: 0x52,
        simulatable: false,
        telemetry: vec![
            item("b", 2, TelemetryType::SupMCU),
            item("m1", 7, TelemetryType::Module),
            item("a", 0, TelemetryType::SupMCU),
            item("m0", 1, TelemetryType::Module),
        ],
        commands: vec![SupMCUCommand { name: "NOOP".to_string(), idx: 0 }],
        mcu: McuType::UNKNOWN,
        response_delay: 50,
    };
    let sup = def.get_supmcu_telemetry();
    assert_eq!(2, sup.len());
    assert_eq!("a", sup[0].name);
    assert_eq!("b", sup[1].name);
    let m = def.get_module_telemetry();
    assert_eq!(2, m.len());
    assert_eq!("m0", m[0].name);
    assert_eq!("m1", m[1].name);
}

#[test]
fn default_definitions_are_empty() {
    let d = SupMCUTelemetryDefinition::default();
    assert_eq!("", d.name);
    assert_eq!(Some(0), d.format.get_byte_length());
    assert!(d.length.is_none());
    assert!(!d.simulatable());
    assert_eq!(TelemetryType::SupMCU, d.telemetry_type);
    let m = SupMCUModuleDefinition::default();
    assert_eq!("", m.name);
    assert_eq!(0, m.address);
    assert!(!m.simulatable);
    assert!(m.telemetry.is_empty());
    assert_eq!(McuType::UNKNOWN, m.mcu);
    assert_eq!(50, m.response_delay);
}

#[test]
fn simulatable_follows_default_values() {
    let mut d = SupMCUTelemetryDefinition::default();
    assert!(!d.simulatable());
    d.default_sim_value = Some(vec![SupMCUValue::U8(1)]);
    assert!(d.simulatable());
}

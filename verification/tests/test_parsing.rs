use byteorder::{WriteBytesExt, LE};
use supmcu_rs::supmcu::parsing::{DataType, SupMCUFormat, SupMCUValue};

#[test]
fn create_all_data_types() {
    assert_eq!(DataType::Str, DataType::try_from_char('S').unwrap());
    assert_eq!(DataType::Char, DataType::try_from_char('c').unwrap());
    assert_eq!(DataType::UINT8, DataType::try_from_char('u').unwrap());
    assert_eq!(DataType::INT8, DataType::try_from_char('t').unwrap());
    assert_eq!(DataType::UINT16, DataType::try_from_char('s').unwrap());
    assert_eq!(DataType::INT16, DataType::try_from_char('n').unwrap());
    assert_eq!(DataType::UINT32, DataType::try_from_char('i').unwrap());
    assert_eq!(DataType::INT32, DataType::try_from_char('d').unwrap());
    assert_eq!(DataType::UINT64, DataType::try_from_char('l').unwrap());
    assert_eq!(DataType::INT64, DataType::try_from_char('k').unwrap());
    assert_eq!(DataType::Float, DataType::try_from_char('f').unwrap());
    assert_eq!(DataType::Double, DataType::try_from_char('F').unwrap());
    assert_eq!(DataType::Hex8, DataType::try_from_char('x').unwrap());
    assert_eq!(DataType::Hex8, DataType::try_from_char('X').unwrap());
    assert_eq!(DataType::Hex16, DataType::try_from_char('z').unwrap());
    assert_eq!(DataType::Hex16, DataType::try_from_char('Z').unwrap());
}

#[test]
#[should_panic]
fn create_invalid_data_type() {
    DataType::try_from_char('h').unwrap();
}

#[test]
fn getting_format_string() {
    assert_eq!("fun", SupMCUFormat::new("f,u. o\\n").get_format_str());
}

#[test]
fn format_length() {
    // char + int8 + uint16 + int32 + double + hex16
    //   1  +   1  +    2   +   4   +    8   +   2   = 18
    assert_eq!(18, SupMCUFormat::new("ctsdFz").get_byte_length().unwrap());
}

#[test]
#[should_panic]
fn invalid_format_length() {
    SupMCUFormat::new("lfS").get_byte_length().unwrap();
}

#[test]
fn parse_numbers() {
    let mut wtr = vec![];
    wtr.write_i16::<LE>(-1234).unwrap();
    wtr.write_u8(55).unwrap();
    wtr.write_f32::<LE>(std::f32::consts::PI).unwrap();
    wtr.write_u8(0x32).unwrap();

    let output = vec![
        SupMCUValue::I16(-1234),
        SupMCUValue::U8(55),
        SupMCUValue::Float(std::f32::consts::PI.to_bits()),
        SupMCUValue::Hex8(0x32),
    ];
    assert_eq!(output, SupMCUFormat::new("nufx").parse_data(&wtr, 0).unwrap());
}

#[test]
fn parse_string() {
    let s = String::from("Hello World!");
    let mut data = s.clone().into_bytes();
    data.push(0); // Adding null terminator

    let mut data2 = vec![];

    #[allow(clippy::char_lit_as_u8)]
    data2.write_u8('j' as u8).unwrap();

    data.append(&mut data2);
    let output = vec![SupMCUValue::Str(s), SupMCUValue::Char('j')];
    assert_eq!(output, SupMCUFormat::new("Sc").parse_data(&data, 0).unwrap());
}

use supmcu_rs::supmcu::parsing::{
    SupMCUFormat, SupMCUModuleDefinition, SupMCUTelemetryDefinition, SupMCUValue, TelemetryType,
};
use supmcu_rs::supmcu::{
    reduce_results, RetryDecision, SupMCUMaster, SupMCUModule, FOOTER_SIZE, HEADER_SIZE,
};
use supmcu_rs::SupMCUError;

fn def_with(name: &str, address: u16) -> SupMCUModuleDefinition {
    let mut d = SupMCUModuleDefinition::default();
    d.name = name.to_string();
    d.address = address;
    d
}

fn item(name: &str, fmt: &str, idx: usize, t: TelemetryType) -> SupMCUTelemetryDefinition {
    SupMCUTelemetryDefinition {
        name: name.to_string(),
        format: SupMCUFormat::new(fmt),
        length: None,
        default_sim_value: None,
        idx,
        telemetry_type: t,
    }
}

/// A well-formed response frame: ready flag, timestamp, payload, zero footer.
fn frame(ready: bool, payload: &[u8], total: usize) -> Vec<u8> {
    let mut buff = vec![if ready { 1u8 } else { 0u8 }, 0, 0, 0, 0];
    buff.extend_from_slice(payload);
    buff.resize(total, 0);
    buff
}

#[test]
fn response_size_adds_header_and_footer() {
    let d = item("x", "ctsdFz", 0, TelemetryType::SupMCU);
    assert_eq!(18 + HEADER_SIZE + FOOTER_SIZE, SupMCUModule::telemetry_response_size(&d));
    let mut s = item("s", "S", 0, TelemetryType::SupMCU);
    s.length = Some(10);
    assert_eq!(10 + HEADER_SIZE + FOOTER_SIZE, SupMCUModule::telemetry_response_size(&s));
    assert_eq!(
        Some(10 + HEADER_SIZE + FOOTER_SIZE),
        SupMCUModule::telemetry_response_size_checked(&s)
    );
    // A string format with no declared length has no response size.
    let broken = item("s", "S", 0, TelemetryType::SupMCU);
    assert_eq!(None, SupMCUModule::telemetry_response_size_checked(&broken));
}

#[test]
fn send_command_appends_newline_and_records_last() {
    // The wire text alone can be computed without touching the handle.
    assert_eq!("SUP:LED ON\n", SupMCUModule::wire_command("SUP:LED ON"));
    assert_eq!("SUP:LED ON\n", SupMCUModule::wire_command("SUP:LED ON\n"));
    let mut m = SupMCUModule::new(0x52, None);
    let wire = m.send_command("SUP:LED ON");
    assert_eq!("SUP:LED ON\n", wire);
    assert_eq!("SUP:LED ON", m.last_command());
    let wire2 = m.send_command("SUP:LED OFF\n");
    assert_eq!("SUP:LED OFF\n", wire2);
    assert_eq!("SUP:LED OFF", m.last_command());
}

#[test]
fn tlm_command_uses_sup_or_module_prefix() {
    let mut m = SupMCUModule::new(0x52, None);
    let sup_item = item("v", "S", 5, TelemetryType::SupMCU);
    assert_eq!("SUP:TEL? 5", m.create_tlm_command(&sup_item).unwrap());
    let mod_item = item("v", "s", 12, TelemetryType::Module);
    assert!(matches!(
        m.create_tlm_command(&mod_item),
        Err(SupMCUError::MissingDefinitionError)
    ));
    m.set_definition(def_with("EPS", 0x52));
    assert_eq!("EPS:TEL? 12", m.create_tlm_command(&mod_item).unwrap());
}

#[test]
fn ready_response_decodes() {
    let m = SupMCUModule::new(0x52, None);
    let d = item("pair", "ss", 0, TelemetryType::SupMCU);
    let size = SupMCUModule::telemetry_response_size(&d);
    let buff = frame(true, &[0x34, 0x12, 0x78, 0x56], size);
    let tel = m.read_telemetry_response(&d, &buff).unwrap();
    assert_eq!(vec![SupMCUValue::U16(0x1234), SupMCUValue::U16(0x5678)], tel.data);
}

#[test]
fn nonready_response_names_address_and_command() {
    let mut m = SupMCUModule::new(0x52, None);
    let _ = m.send_command("SUP:TEL? 0");
    let d = item("pair", "ss", 0, TelemetryType::SupMCU);
    let size = SupMCUModule::telemetry_response_size(&d);
    let buff = frame(false, &[0, 0, 0, 0], size);
    match m.read_telemetry_response(&d, &buff) {
        Err(SupMCUError::NonReadyError(addr, cmd)) => {
            assert_eq!(0x52, addr);
            assert_eq!("SUP:TEL? 0", cmd);
        },
        other => panic!("expected a non-ready error, got {:?}", other.map(|t| t.data)),
    }
}

#[test]
fn checksum_mode_validates_footer() {
    let mut m = SupMCUModule::new(0x52, None);
    m.set_checksum_mode(true);
    let d = item("one", "s", 0, TelemetryType::SupMCU);
    let size = SupMCUModule::telemetry_response_size(&d);
    let mut buff = frame(true, &[0x21, 0x43], size);
    let body_len = size - FOOTER_SIZE;
    let digest = crc::Crc::<u32>::new(&crc::CRC_32_CKSUM).checksum(&buff[..body_len]);
    buff[body_len..body_len + 4].copy_from_slice(&digest.to_le_bytes());
    let tel = m.read_telemetry_response(&d, &buff).unwrap();
    assert_eq!(vec![SupMCUValue::U16(0x4321)], tel.data);

    // A corrupted footer must be caught.
    buff[body_len] ^= 0xFF;
    assert!(matches!(
        m.read_telemetry_response(&d, &buff),
        Err(SupMCUError::ValidationError)
    ));
}

#[test]
fn retry_budget_gives_one_initial_attempt_plus_budget() {
    let with_budget = SupMCUModule::new(0x52, Some(5));
    assert_eq!(6, with_budget.nonready_attempt_count());
    let no_budget = SupMCUModule::new(0x52, None);
    assert_eq!(1, no_budget.nonready_attempt_count());
}

#[test]
fn retry_backoff_grows_linearly() {
    let m = SupMCUModule::new(0x52, Some(3));
    assert_eq!(RetryDecision::RetryAfter { delay_ms: 50 }, m.retry_nonready(0));
    assert_eq!(RetryDecision::RetryAfter { delay_ms: 150 }, m.retry_nonready(1));
    assert_eq!(RetryDecision::RetryAfter { delay_ms: 250 }, m.retry_nonready(2));
    assert_eq!(RetryDecision::GiveUp, m.retry_nonready(3));
    let none = SupMCUModule::new(0x52, None);
    assert_eq!(RetryDecision::GiveUp, none.retry_nonready(0));
}

#[test]
fn module_matches_by_address_or_name() {
    let mut m = SupMCUModule::new(0x52, None);
    let mut mine = def_with("EPS", 0x52);
    assert!(!m.matches(&mine));
    m.set_definition(mine.clone());
    let by_address = def_with("SOMETHING", 0x52);
    assert!(m.matches(&by_address));
    let by_name = def_with("EPS", 0x11);
    assert!(m.matches(&by_name));
    let neither = def_with("BM", 0x11);
    assert!(!m.matches(&neither));
    mine.address = 0x53;
    m.set_definition(mine);
    assert_eq!(0x53, m.get_address());
}

#[test]
fn find_telemetry_by_kind_and_index() {
    let mut m = SupMCUModule::new(0x52, None);
    assert!(matches!(
        m.find_telemetry(TelemetryType::SupMCU, 0),
        Err(SupMCUError::MissingDefinitionError)
    ));
    let mut d = def_with("EPS", 0x52);
    d.telemetry = vec![
        item("a", "s", 0, TelemetryType::SupMCU),
        item("b", "s", 1, TelemetryType::Module),
    ];
    m.set_definition(d);
    assert_eq!("b", m.find_telemetry(TelemetryType::Module, 1).unwrap().name);
    assert!(matches!(
        m.find_telemetry(TelemetryType::Module, 9),
        Err(SupMCUError::TelemetryIndexError(TelemetryType::Module, 9))
    ));
}

#[test]
fn select_telemetry_by_names_keeps_catalog_order() {
    let mut m = SupMCUModule::new(0x52, None);
    let mut d = def_with("EPS", 0x52);
    d.telemetry = vec![
        item("volts", "s", 0, TelemetryType::Module),
        item("amps", "s", 1, TelemetryType::Module),
        item("watts", "s", 2, TelemetryType::Module),
    ];
    m.set_definition(d);
    let picked = m
        .select_telemetry_by_names(&vec!["watts".to_string(), "volts".to_string()])
        .unwrap();
    assert_eq!(2, picked.len());
    assert_eq!("volts", picked[0].name);
    assert_eq!("watts", picked[1].name);
    match m.select_telemetry_by_names(&vec!["volts".to_string(), "power".to_string()]) {
        Err(SupMCUError::UnknownTelemName(n)) => assert_eq!("power", n),
        other => panic!("expected an unknown-name error, got {:?}", other.map(|v| v.len())),
    }
}

#[test]
fn master_finds_modules_by_address_or_name() {
    let mut a = SupMCUModule::new(0x10, None);
    a.set_definition(def_with("EPS", 0x10));
    let mut b = SupMCUModule::new(0x52, None);
    b.set_definition(def_with("BM", 0x52));
    let master = SupMCUMaster::new(vec![a, b]);
    assert_eq!(1, master.find_module(&def_with("BM", 0x99)).unwrap());
    assert_eq!(1, master.find_module(&def_with("NOPE", 0x52)).unwrap());
    assert_eq!(0, master.find_module(&def_with("EPS", 0x52)).unwrap());
    match master.find_module(&def_with("GPS", 0x99)) {
        Err(SupMCUError::ModuleNotFound(name, addr)) => {
            assert_eq!("GPS", name);
            assert_eq!(0x99, addr);
        },
        other => panic!("expected a not-found error, got {:?}", other),
    }
}

#[test]
fn master_collects_definitions_or_reports_the_gap() {
    let mut a = SupMCUModule::new(0x10, None);
    a.set_definition(def_with("EPS", 0x10));
    let b = SupMCUModule::new(0x52, None);
    let master = SupMCUMaster::new(vec![a, b]);
    assert!(matches!(
        master.get_definitions(),
        Err(SupMCUError::MissingDefinitionError)
    ));
}

#[test]
fn master_loads_definitions_positionally() {
    let master_modules = vec![SupMCUModule::new(1, None), SupMCUModule::new(2, None)];
    let mut master = SupMCUMaster::new(master_modules);
    master.load_definitions(vec![def_with("EPS", 0x10), def_with("BM", 0x52)]);
    let defs = master.get_definitions().unwrap();
    assert_eq!(2, defs.len());
    assert_eq!("EPS", defs[0].name);
    assert_eq!(0x52, defs[1].address);
    assert_eq!(0x10, master.modules[0].get_address());
}

#[test]
fn master_updates_response_delay() {
    let mut a = SupMCUModule::new(0x10, None);
    a.set_definition(def_with("EPS", 0x10));
    let mut master = SupMCUMaster::new(vec![a]);
    master.response_delay(&def_with("EPS", 0x10), 250).unwrap();
    assert_eq!(250, master.get_definitions().unwrap()[0].response_delay);
    assert_eq!(250, master.modules[0].response_delay());
}

#[test]
fn with_module_applies_the_closure_to_the_first_match() {
    let mut a = SupMCUModule::new(0x10, None);
    a.set_definition(def_with("EPS", 0x10));
    let mut b = SupMCUModule::new(0x52, None);
    b.set_definition(def_with("BM", 0x52));
    let master = SupMCUMaster::new(vec![a, b]);
    let addr = master.with_module(&def_with("BM", 0x99), |m| m.get_address()).unwrap();
    assert_eq!(0x52, addr);
    assert!(matches!(
        master.with_module(&def_with("GPS", 0x99), |m| m.get_address()),
        Err(SupMCUError::ModuleNotFound(_, 0x99))
    ));
}

#[test]
fn with_module_mut_replaces_the_matched_module() {
    let mut a = SupMCUModule::new(0x10, None);
    a.set_definition(def_with("EPS", 0x10));
    let mut b = SupMCUModule::new(0x52, None);
    b.set_definition(def_with("BM", 0x52));
    let mut master = SupMCUMaster::new(vec![a, b]);
    let old_delay = master
        .with_module_mut(&def_with("BM", 0x99), |mut m| {
            let before = m.response_delay();
            let _ = m.set_response_delay(400);
            (m, before)
        })
        .unwrap();
    assert_eq!(50, old_delay);
    assert_eq!(400, master.modules[1].response_delay());
    // The other module is untouched.
    assert_eq!(50, master.modules[0].response_delay());
    assert!(matches!(
        master.with_module_mut(&def_with("GPS", 0x99), |m| (m, ())),
        Err(SupMCUError::ModuleNotFound(_, 0x99))
    ));
}

#[test]
fn reduce_results_reports_the_first_error_only() {
    assert!(reduce_results(vec![Ok(()), Ok(())]).is_ok());
    let r = reduce_results(vec![
        Ok(()),
        Err(SupMCUError::ValidationError),
        Err(SupMCUError::MissingDefinitionError),
    ]);
    assert!(matches!(r, Err(SupMCUError::ValidationError)));
}

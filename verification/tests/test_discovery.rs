use supmcu_rs::supmcu::discovery::{
    normalize_name, parse_version, DiscoveryAction, DiscoverySession, PremadeTelemetryDefs,
};
use supmcu_rs::supmcu::parsing::{
    encode_values, SupMCUTelemetryDefinition, SupMCUValue, TelemetryType,
};
use supmcu_rs::supmcu::{reduce_results, SupMCUModule};
use supmcu_rs::SupMCUError;

#[test]
fn version_string_names_the_module() {
    let (name, simulatable) = parse_version(&"GPSRM-2 something (on STM)".to_string());
    assert_eq!("GPS", name);
    assert!(simulatable);

    let (name, simulatable) = parse_version(&"BM 2 v1.2".to_string());
    assert_eq!("BM", name);
    assert!(!simulatable);

    let (name, simulatable) = parse_version(&"RHM3-4 rev2 (on QSM)".to_string());
    assert_eq!("RHM", name);
    assert!(simulatable);

    let (name, _) = parse_version(&"DCPS-1 supply".to_string());
    assert_eq!("DCPS", name);
}

#[test]
fn names_are_normalized() {
    assert_eq!("cell_voltage_1", normalize_name(&"Cell Voltage #1".to_string()));
    assert_eq!("abc", normalize_name(&"ABC".to_string()));
    assert_eq!("_volts", normalize_name(&"##Volts##".to_string()));
    assert_eq!("a_b", normalize_name(&"a- -b".to_string()));
    assert_eq!("", normalize_name(&"".to_string()));
}

#[test]
fn premade_templates_describe_the_metadata_frames() {
    let v = PremadeTelemetryDefs::FirmwareVersion.to_definition();
    assert_eq!("Firmware Version", v.name);
    assert_eq!("S", v.format.get_format_str());
    assert_eq!(Some(77), v.length);
    assert_eq!(0, v.idx);
    assert_eq!(TelemetryType::SupMCU, v.telemetry_type);

    let amount = PremadeTelemetryDefs::TlmAmount.to_definition();
    assert_eq!(14, amount.idx);
    assert_eq!("ss", amount.format.get_format_str());

    let cmds = PremadeTelemetryDefs::CmdAmount.to_definition();
    assert_eq!(17, cmds.idx);

    let cmd_name = PremadeTelemetryDefs::CmdName.to_definition();
    assert_eq!(Some(33), cmd_name.length);

    let mcu = PremadeTelemetryDefs::McuId.to_definition();
    assert_eq!(19, mcu.idx);
    assert_eq!("u", mcu.format.get_format_str());
}

#[test]
fn suffix_lookup_ignores_letter_case() {
    assert_eq!(PremadeTelemetryDefs::Name, PremadeTelemetryDefs::from_suffix("name").unwrap());
    assert_eq!(PremadeTelemetryDefs::Length, PremadeTelemetryDefs::from_suffix("LENGTH").unwrap());
    assert_eq!(PremadeTelemetryDefs::Format, PremadeTelemetryDefs::from_suffix("Format").unwrap());
    assert_eq!(
        PremadeTelemetryDefs::Simulatable,
        PremadeTelemetryDefs::from_suffix("simulatable").unwrap()
    );
    assert_eq!(PremadeTelemetryDefs::McuId, PremadeTelemetryDefs::from_suffix("mcu_id").unwrap());
    assert_eq!(
        PremadeTelemetryDefs::FirmwareVersion,
        PremadeTelemetryDefs::from_suffix("version").unwrap()
    );
    match PremadeTelemetryDefs::from_suffix("bogus") {
        Err(supmcu_rs::ParsingError::CommandParsingError(m)) => {
            assert_eq!("Invalid suffix bogus", m);
        },
        other => panic!("expected a command-parsing error, got {:?}", other),
    }
}

/// One simulated telemetry item: its raw name, format string, declared
/// length (for string formats), and default values when it can be simulated.
struct SimItem {
    name: &'static str,
    fmt: &'static str,
    length: Option<u16>,
    sim: Option<Vec<SupMCUValue>>,
}

/// A simulated module catalog behind the byte protocol.
struct SimModule {
    version: &'static str,
    prefix: &'static str,
    supmcu: Vec<SimItem>,
    module: Vec<SimItem>,
    commands: Vec<&'static str>,
}

impl SimModule {
    /// The payload bytes the simulated module answers with.
    fn answer(&self, cmd: &str) -> Vec<u8> {
        let (prefix, rest) = cmd.split_once(':').unwrap();
        if let Some(idx_text) = rest.strip_prefix("COM? ") {
            let i: usize = idx_text.parse().unwrap();
            return self.commands[i].as_bytes().to_vec();
        }
        let spec = rest.strip_prefix("TEL? ").unwrap();
        let (idx_text, suffix) = match spec.split_once(',') {
            Some((i, s)) => (i, Some(s)),
            None => (spec, None),
        };
        let idx: usize = idx_text.parse().unwrap();
        match suffix {
            None => {
                if prefix == "SUP" {
                    match idx {
                        0 => self.version.as_bytes().to_vec(),
                        14 => {
                            let mut b = (self.supmcu.len() as u16).to_le_bytes().to_vec();
                            b.extend((self.module.len() as u16).to_le_bytes());
                            b
                        },
                        17 => (self.commands.len() as u16).to_le_bytes().to_vec(),
                        _ => panic!("unexpected SupMCU fetch of item {idx}"),
                    }
                } else {
                    assert_eq!(self.prefix, prefix);
                    let it = &self.module[idx];
                    encode_values(it.sim.as_ref().unwrap())
                }
            },
            Some(sfx) => {
                let it = if prefix == "SUP" { &self.supmcu[idx] } else { &self.module[idx] };
                match sfx {
                    "NAME" => it.name.as_bytes().to_vec(),
                    "FORMAT" => it.fmt.as_bytes().to_vec(),
                    "LENGTH" => it.length.unwrap().to_le_bytes().to_vec(),
                    "SIMULATABLE" => {
                        // Any nonzero response must trigger the defaults
                        // fetch, so answer with a value other than one.
                        let flag: u16 = if it.sim.is_some() { 2 } else { 0 };
                        flag.to_le_bytes().to_vec()
                    },
                    other => panic!("unexpected suffix {other}"),
                }
            },
        }
    }
}

/// A well-formed response frame around a payload: the padding doubles as the
/// string terminator, as the real modules' fixed-size responses do.
fn frame(ready: bool, payload: &[u8], total: usize) -> Vec<u8> {
    let mut buff = vec![if ready { 1u8 } else { 0u8 }, 0, 0, 0, 0];
    buff.extend_from_slice(payload);
    buff.resize(total, 0);
    buff
}

/// Runs a full discovery walk against a simulated module.
fn discover(sim: &SimModule, module: &mut SupMCUModule) -> Result<(), SupMCUError> {
    let (mut session, mut action) = DiscoverySession::begin(module);
    let mut steps = 0;
    loop {
        let (command, response_def) = match action {
            DiscoveryAction::Finished => return Ok(()),
            DiscoveryAction::Query { command, response_def } => (command, response_def),
        };
        steps += 1;
        assert!(steps < 1000, "discovery does not terminate");
        let _wire = module.send_command(command.as_str());
        let payload = sim.answer(&command);
        let size = SupMCUModule::telemetry_response_size(&response_def);
        let buff = frame(true, &payload, size);
        let tel = module.read_telemetry_response(&response_def, &buff)?;
        action = session.absorb(module, tel.data);
    }
}

fn gps_sim() -> SimModule {
    SimModule {
        version: "GPSRM-2 something (on STM)",
        prefix: "GPS",
        supmcu: vec![
            SimItem { name: "Status Flags", fmt: "s", length: None, sim: None },
            SimItem { name: "Uptime", fmt: "i", length: None, sim: None },
        ],
        module: vec![
            SimItem {
                name: "Cell Voltage #1",
                fmt: "s",
                length: None,
                sim: Some(vec![SupMCUValue::U16(42)]),
            },
            SimItem { name: "Log Message", fmt: "S", length: Some(8), sim: None },
        ],
        commands: vec!["NOOP", "RESET"],
    }
}

#[test]
fn discovery_reconstructs_the_full_definition() {
    let sim = gps_sim();
    let mut module = SupMCUModule::new(0x52, Some(5));
    discover(&sim, &mut module).unwrap();
    let def = module.get_definition().unwrap();

    assert_eq!("GPS", def.name);
    assert!(def.simulatable);
    assert_eq!(0x52, def.address);

    assert_eq!(4, def.telemetry.len());
    let t0 = &def.telemetry[0];
    assert_eq!("status_flags", t0.name);
    assert_eq!("s", t0.format.get_format_str());
    assert_eq!(0, t0.idx);
    assert_eq!(TelemetryType::SupMCU, t0.telemetry_type);
    assert!(t0.default_sim_value.is_none());

    let t1 = &def.telemetry[1];
    assert_eq!("uptime", t1.name);
    assert_eq!(1, t1.idx);

    let t2 = &def.telemetry[2];
    assert_eq!("cell_voltage_1", t2.name);
    assert_eq!(TelemetryType::Module, t2.telemetry_type);
    assert_eq!(0, t2.idx);
    assert_eq!(Some(vec![SupMCUValue::U16(42)]), t2.default_sim_value);

    let t3 = &def.telemetry[3];
    assert_eq!("log_message", t3.name);
    assert_eq!(Some(8), t3.length);
    assert!(t3.format.get_byte_length().is_none());

    assert_eq!(2, def.commands.len());
    assert_eq!("NOOP", def.commands[0].name);
    assert_eq!(0, def.commands[0].idx);
    assert_eq!("RESET", def.commands[1].name);
    assert_eq!(1, def.commands[1].idx);
}

#[test]
fn dcps_modules_skip_command_enumeration() {
    let sim = SimModule {
        version: "DCPS-1 supply",
        prefix: "DCPS",
        supmcu: vec![SimItem { name: "Status", fmt: "s", length: None, sim: None }],
        module: vec![],
        commands: vec![],
    };
    let mut module = SupMCUModule::new(0x30, Some(5));
    discover(&sim, &mut module).unwrap();
    let def = module.get_definition().unwrap();
    assert_eq!("DCPS", def.name);
    assert!(def.commands.is_empty());
    assert_eq!(1, def.telemetry.len());
}

#[test]
fn one_failed_module_keeps_the_others_complete() {
    let sim = gps_sim();
    let mut modules = vec![
        SupMCUModule::new(0x10, Some(5)),
        SupMCUModule::new(0x20, Some(5)),
        SupMCUModule::new(0x30, Some(5)),
    ];
    let mut results: Vec<Result<(), SupMCUError>> = Vec::new();
    for (k, module) in modules.iter_mut().enumerate() {
        if k == 1 {
            // This module's transport fails: its discovery never finishes.
            results.push(Err(SupMCUError::I2CTelemetryError(0x20, "bus stuck".to_string())));
        } else {
            results.push(discover(&sim, module));
        }
    }
    // Every completed module keeps its full definition in memory...
    assert_eq!("GPS", modules[0].get_definition().unwrap().name);
    assert_eq!(4, modules[0].get_definition().unwrap().telemetry.len());
    assert_eq!("GPS", modules[2].get_definition().unwrap().name);
    // ...while the aggregate result reports the first failure.
    assert!(matches!(
        reduce_results(results),
        Err(SupMCUError::I2CTelemetryError(0x20, _))
    ));
}

#[test]
fn nonready_responses_are_retried_within_budget() {
    let def = SupMCUTelemetryDefinition {
        name: "one".to_string(),
        format: supmcu_rs::supmcu::parsing::SupMCUFormat::new("s"),
        length: None,
        default_sim_value: None,
        idx: 3,
        telemetry_type: TelemetryType::SupMCU,
    };
    let size = SupMCUModule::telemetry_response_size(&def);
    // The module answers not-ready twice, then delivers the value.
    let mut module = SupMCUModule::new(0x52, Some(5));
    let _ = module.send_command("SUP:TEL? 3");
    let mut reads = 0;
    let mut retries: u8 = 0;
    let outcome = loop {
        reads += 1;
        let ready = reads > 2;
        let buff = frame(ready, &[0x2A, 0x00], size);
        match module.read_telemetry_response(&def, &buff) {
            Err(SupMCUError::NonReadyError(a, c)) => {
                match module.retry_nonready(retries) {
                    supmcu_rs::supmcu::RetryDecision::GiveUp => {
                        break Err(SupMCUError::NonReadyError(a, c));
                    },
                    supmcu_rs::supmcu::RetryDecision::RetryAfter { delay_ms: _ } => {
                        retries += 1;
                        let last = module.last_command().clone();
                        let _ = module.send_command(last.as_str());
                    },
                }
            },
            other => break other,
        }
    };
    assert_eq!(3, reads);
    assert_eq!(vec![SupMCUValue::U16(42)], outcome.unwrap().data);

    // Without a retry budget the first not-ready response is final.
    let mut strict = SupMCUModule::new(0x52, None);
    let _ = strict.send_command("SUP:TEL? 3");
    let buff = frame(false, &[0x2A, 0x00], size);
    match strict.read_telemetry_response(&def, &buff) {
        Err(SupMCUError::NonReadyError(_, _)) => {
            assert!(matches!(
                strict.retry_nonready(0),
                supmcu_rs::supmcu::RetryDecision::GiveUp
            ));
        },
        other => panic!("expected a non-ready error, got {:?}", other.map(|t| t.data)),
    }
}

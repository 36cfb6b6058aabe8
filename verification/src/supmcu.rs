//! Command/response engine and module catalog.
//!
//! A [`SupMCUModule`] holds the protocol state of one module: its address,
//! its last command, its discovered definition, and its retry budget. Every
//! decision of the wire protocol — command text, response sizing, response
//! interpretation, checksum validation, and the retry policy for not-ready
//! responses — is made here on plain values; the caller owns the transport
//! and performs the writes, waits and reads these functions prescribe.

use vstd::prelude::*;

pub mod discovery;
pub mod parsing;

verus! {

use vstd::bytes::{spec_u32_from_le_bytes, u32_from_le_bytes};
use vstd::slice::slice_subrange;
use vstd::string::{StrSliceExecFns, StringExecFns};
use crate::{ParsingError, SupMCUError};
use crate::supmcu::parsing::{
    ModuleDefModel, ParseAllOutcome, SupMCUCommand, SupMCUModuleDefinition, SupMCUTelemetry,
    SupMCUTelemetryDefinition, TelemetryDefModel, TelemetryType, spec_format_byte_length,
    spec_parse_values, value_models,
};

/// Width in bytes of the response header (ready flag byte + 4-byte timestamp).
pub const HEADER_SIZE: usize = 5;

/// Width in bytes of the response footer (padding, or a checksum region).
pub const FOOTER_SIZE: usize = 8;

/// Default wait between sending a command and reading the response, in milliseconds.
pub const DEFAULT_RESPONSE_DELAY: u32 = 50;

/// Default retry budget for not-ready responses.
pub const DEFAULT_RETRIES: u8 = 5;

/// Extra wait added per retry of a not-ready response, in milliseconds.
pub const RETRY_TIME_INCREMENT: u32 = 100;

/// The checksum of a byte sequence under the CRC-32/CKSUM algorithm.
pub uninterp spec fn crc32_cksum_of(bytes: Seq<u8>) -> u32;

/// Relies on `crc::Crc::<u32>::checksum` with the `CRC_32_CKSUM` algorithm:
/// the digest is a function of the input bytes alone.
#[verifier::external_body]
fn crc32_cksum(data: &[u8]) -> (r: u32)
    ensures
        r == crc32_cksum_of(data@),
{
    crc::Crc::<u32>::new(&crc::CRC_32_CKSUM).checksum(data)
}

/// The decimal digits of a number, most significant first.
pub open spec fn spec_udec(n: nat) -> Seq<char>
    decreases n,
{
    let digit = (('0' as u32) + (n % 10) as u32) as char;
    if n < 10 {
        seq![digit]
    } else {
        spec_udec(n / 10).push(digit)
    }
}

/// Writes the decimal digits of `n` after the given characters.
fn push_dec_chars(n: u64, out: &mut Vec<char>)
    ensures
        final(out)@ == old(out)@ + spec_udec(n as nat),
    decreases n,
{
    if n >= 10 {
        push_dec_chars(n / 10, out);
    }
    let d: u8 = (n % 10) as u8;
    let c: char = (('0' as u8) + d) as char;
    out.push(c);
    proof {
        assert(out@ =~= old(out)@ + spec_udec(n as nat));
    }
}

/// The decimal text of a number.
pub fn dec_string(n: u64) -> (s: String)
    ensures
        s@ == spec_udec(n as nat),
{
    let mut chars: Vec<char> = Vec::new();
    push_dec_chars(n, &mut chars);
    proof {
        assert(Seq::<char>::empty() + spec_udec(n as nat) =~= spec_udec(n as nat));
    }
    parsing::string_from_chars(&chars)
}

/// The text of a telemetry query: `"{prefix}:TEL? {idx}"`.
pub open spec fn spec_tlm_command(prefix: Seq<char>, idx: nat) -> Seq<char> {
    prefix + seq![':', 'T', 'E', 'L', '?', ' '] + spec_udec(idx)
}

/// The text of a command-name query: `"SUP:COM? {idx}"`.
pub open spec fn spec_com_command(idx: nat) -> Seq<char> {
    seq!['S', 'U', 'P', ':', 'C', 'O', 'M', '?', ' '] + spec_udec(idx)
}

/// Mathematical model of a module handle's protocol state.
pub struct ModuleModel {
    /// The last command sent, without its trailing newline.
    pub last_cmd: Seq<char>,
    /// The module's discovered or loaded definition, if any.
    pub definition: Option<ModuleDefModel>,
    /// The module's bus address.
    pub address: u16,
    /// The retry budget for not-ready responses; `None` disables retries.
    pub max_retries: Option<u8>,
    /// Whether response footers carry a checksum to validate.
    pub checksum_mode: bool,
}

/// The protocol state of one module on the bus.
///
/// The handle holds no transport: functions on it compute what to send, how
/// many bytes to read, and what a response means, and the caller performs
/// the I/O.
#[derive(Debug)]
pub struct SupMCUModule {
    last_cmd: String,
    definition: Option<SupMCUModuleDefinition>,
    address: u16,
    max_retries: Option<u8>,
    checksum_mode: bool,
}

impl View for SupMCUModule {
    type V = ModuleModel;

    closed spec fn view(&self) -> ModuleModel {
        ModuleModel {
            last_cmd: self.last_cmd@,
            definition: match &self.definition {
                Some(d) => Some(d@),
                None => None,
            },
            address: self.address,
            max_retries: self.max_retries,
            checksum_mode: self.checksum_mode,
        }
    }
}

/// Whether a module with this state matches a definition: by address or by
/// discovered name, and never before a definition exists.
pub open spec fn spec_matches(m: ModuleModel, other: ModuleDefModel) -> bool {
    match m.definition {
        Some(d) => other.address == d.address || other.name == d.name,
        None => false,
    }
}

/// The payload width a definition promises: the format's own width, or the
/// declared length where the format holds a string.
pub open spec fn spec_payload_size(d: TelemetryDefModel) -> int {
    match spec_format_byte_length(d.format) {
        Some(n) => n as int,
        None => d.length->0 as int,
    }
}

/// A definition that a response can be sized from: where the format's width
/// is undefined, a declared length stands in, and the total stays within
/// machine bounds.
pub open spec fn spec_sizable(d: TelemetryDefModel) -> bool {
    &&& 8 * d.format.len() <= usize::MAX
    &&& (spec_format_byte_length(d.format) is None ==> d.length is Some)
    &&& spec_payload_size(d) + HEADER_SIZE + FOOTER_SIZE <= usize::MAX
}

/// What the retry policy says to do after a not-ready response.
#[derive(Clone, Copy, Debug, PartialEq, Eq, Structural)]
pub enum RetryDecision {
    /// Return the not-ready error to the caller.
    GiveUp,
    /// Resend the last command, wait this many milliseconds, and read again.
    RetryAfter { delay_ms: u64 },
}

impl SupMCUModule {
    /// A fresh handle for the module at `address`, with no definition yet.
    pub fn new(address: u16, max_retries: Option<u8>) -> (r: SupMCUModule)
        ensures
            r@.last_cmd == Seq::<char>::empty(),
            r@.definition is None,
            r@.address == address,
            r@.max_retries == max_retries,
            r@.checksum_mode == false,
    {
        SupMCUModule {
            last_cmd: String::new(),
            definition: None,
            address,
            max_retries,
            checksum_mode: false,
        }
    }

    /// A handle built from an already-known definition, addressed where the
    /// definition says.
    pub fn new_from_def(max_retries: Option<u8>, def: SupMCUModuleDefinition) -> (r: SupMCUModule)
        ensures
            r@.last_cmd == Seq::<char>::empty(),
            r@.definition == Some(def@),
            r@.address == def.address,
            r@.max_retries == max_retries,
            r@.checksum_mode == false,
    {
        let address = def.address;
        SupMCUModule {
            last_cmd: String::new(),
            definition: Some(def),
            address,
            max_retries,
            checksum_mode: false,
        }
    }

    /// Turns footer checksum validation on or off for this handle.
    pub fn set_checksum_mode(&mut self, on: bool)
        ensures
            final(self)@ == (ModuleModel { checksum_mode: on, ..old(self)@ }),
    {
        self.checksum_mode = on;
    }

    /// The module's bus address.
    pub fn get_address(&self) -> (r: u16)
        ensures
            r == self@.address,
    {
        self.address
    }

    /// The module definition, or `MissingDefinitionError` before discovery
    /// or loading has provided one.
    pub fn get_definition(&self) -> (r: Result<&SupMCUModuleDefinition, SupMCUError>)
        ensures
            self@.definition is Some <==> r is Ok,
            r matches Ok(d) ==> Some(d@) == self@.definition,
            r matches Err(e) ==> e == SupMCUError::MissingDefinitionError,
    {
        match &self.definition {
            Some(d) => Ok(d),
            None => Err(SupMCUError::MissingDefinitionError),
        }
    }

    /// Installs a definition, and addresses the handle where it says.
    pub fn set_definition(&mut self, def: SupMCUModuleDefinition)
        ensures
            final(self)@ == (ModuleModel {
                definition: Some(def@),
                address: def.address,
                ..old(self)@
            }),
    {
        self.address = def.address;
        self.definition = Some(def);
    }

    /// Updates the definition's response delay, in milliseconds.
    pub fn set_response_delay(&mut self, delay: u32) -> (r: Result<(), SupMCUError>)
        ensures
            old(self)@.definition is None ==> r == Err::<(), SupMCUError>(
                SupMCUError::MissingDefinitionError,
            ) && final(self)@ == old(self)@,
            old(self)@.definition matches Some(d) ==> r == Ok::<(), SupMCUError>(()) && final(self)@
                == (ModuleModel {
                definition: Some(ModuleDefModel { response_delay: delay, ..d }),
                ..old(self)@
            }),
    {
        match &mut self.definition {
            Some(d) => {
                d.response_delay = delay;
                Ok(())
            },
            None => Err(SupMCUError::MissingDefinitionError),
        }
    }

    /// Whether this module fits a definition: its address or its discovered
    /// name matches; a handle without a definition matches nothing.
    pub fn matches(&self, other: &SupMCUModuleDefinition) -> (r: bool)
        ensures
            r == spec_matches(self@, other@),
    {
        match &self.definition {
            Some(def) => other.address == def.address || other.name == def.name,
            None => false,
        }
    }

    /// The wait between a command and its response read, in milliseconds:
    /// the definition's configured delay, or the default without one.
    pub fn response_delay(&self) -> (r: u32)
        ensures
            r == self.spec_response_delay(),
    {
        match &self.definition {
            Some(def) => def.response_delay,
            None => DEFAULT_RESPONSE_DELAY,
        }
    }

    /// The wait between a command and its response read, in milliseconds.
    pub open spec fn spec_response_delay(&self) -> u32 {
        match self@.definition {
            Some(d) => d.response_delay,
            None => DEFAULT_RESPONSE_DELAY,
        }
    }

    /// The wire text of a command: the command itself, with a trailing
    /// newline added when missing. Computes only; nothing is recorded, so a
    /// caller whose transport write fails leaves the handle untouched.
    pub fn wire_command(cmd: &str) -> (wire: String)
        ensures
            wire@ == if cmd@.len() > 0 && cmd@.last() == '\n' {
                cmd@
            } else {
                cmd@.push('\n')
            },
    {
        let len = cmd.unicode_len();
        let ends_nl = len > 0 && cmd.get_char(len - 1) == '\n';
        if ends_nl {
            String::from_str(cmd)
        } else {
            let wire = String::from_str(cmd).concat("\n");
            proof {
                reveal_strlit("\n");
                assert(cmd@ + "\n"@ =~= cmd@.push('\n'));
            }
            wire
        }
    }

    /// Records a command as sent and returns its wire text: the handle keeps
    /// the command, without the trailing newline, as its last command for
    /// retry reuse. A caller that writes to a transport should send
    /// [`Self::wire_command`]'s text first and record here only once the
    /// write has succeeded, so that a failed command is never what a retry
    /// resends.
    pub fn send_command(&mut self, cmd: &str) -> (wire: String)
        ensures
            wire@ == if cmd@.len() > 0 && cmd@.last() == '\n' {
                cmd@
            } else {
                cmd@.push('\n')
            },
            final(self)@ == (ModuleModel { last_cmd: wire@.drop_last(), ..old(self)@ }),
    {
        let len = cmd.unicode_len();
        let ends_nl = len > 0 && cmd.get_char(len - 1) == '\n';
        if ends_nl {
            self.last_cmd = String::from_str(cmd.substring_char(0, len - 1));
            proof {
                assert(cmd@.subrange(0, cmd@.len() - 1) =~= cmd@.drop_last());
            }
        } else {
            self.last_cmd = String::from_str(cmd);
            proof {
                assert(cmd@.push('\n').drop_last() =~= cmd@);
            }
        }
        Self::wire_command(cmd)
    }

    /// The last command sent, without its trailing newline: what a retry
    /// resends.
    pub fn last_command(&self) -> (r: &String)
        ensures
            r@ == self@.last_cmd,
    {
        &self.last_cmd
    }

    /// The telemetry query for an item: `"SUP:TEL? {idx}"` for a
    /// SupMCU-scoped item, `"{name}:TEL? {idx}"` with the module's
    /// discovered name otherwise — which takes a definition, or
    /// `MissingDefinitionError` without one.
    pub fn create_tlm_command(&self, def: &SupMCUTelemetryDefinition) -> (r: Result<
        String,
        SupMCUError,
    >)
        ensures
            def@.telemetry_type == TelemetryType::SupMCU ==> (r matches Ok(s) && s@
                == spec_tlm_command(seq!['S', 'U', 'P'], def@.idx as nat)),
            def@.telemetry_type == TelemetryType::Module ==> match self@.definition {
                Some(d) => r matches Ok(s) && s@ == spec_tlm_command(d.name, def@.idx as nat),
                None => r == Err::<String, SupMCUError>(SupMCUError::MissingDefinitionError),
            },
    {
        let prefix: String = if matches!(def.telemetry_type, TelemetryType::SupMCU) {
            let p = String::from_str("SUP");
            proof {
                reveal_strlit("SUP");
                assert("SUP"@ =~= seq!['S', 'U', 'P']);
            }
            p
        } else {
            match &self.definition {
                Some(d) => d.name.clone(),
                None => {
                    return Err(SupMCUError::MissingDefinitionError);
                },
            }
        };
        let mid = prefix.concat(":TEL? ");
        let idx64: u64 = def.idx as u64;
        let tail = dec_string(idx64);
        let cmd = mid.concat(tail.as_str());
        proof {
            reveal_strlit(":TEL? ");
            assert(":TEL? "@ =~= seq![':', 'T', 'E', 'L', '?', ' ']);
        }
        Ok(cmd)
    }

    /// The number of bytes to read for a response to this definition — the
    /// payload width plus the header and footer widths — or `None` for a
    /// definition no response can be sized from: one whose format holds a
    /// string but declares no length, or whose total exceeds the machine.
    pub fn telemetry_response_size_checked(def: &SupMCUTelemetryDefinition) -> (r: Option<usize>)
        ensures
            r is Some <==> spec_sizable(def@),
            r matches Some(n) ==> n == spec_payload_size(def@) + HEADER_SIZE + FOOTER_SIZE,
    {
        proof {
            crate::supmcu::parsing::lemma_format_byte_length_bound(def@.format);
        }
        let n = def.format.len();
        if n > usize::MAX / 8 {
            proof {
                assert(8 * (usize::MAX / 8) <= usize::MAX) by (nonlinear_arith);
                assert(8 * def@.format.len() > usize::MAX) by (nonlinear_arith)
                    requires
                        def@.format.len() > usize::MAX / 8,
                        8 * (usize::MAX / 8) + 7 >= usize::MAX,
                ;
            }
            return None;
        }
        proof {
            assert(8 * def@.format.len() <= 8 * (usize::MAX / 8)) by (nonlinear_arith)
                requires
                    def@.format.len() <= usize::MAX / 8,
            ;
            assert(8 * (usize::MAX / 8) <= usize::MAX) by (nonlinear_arith);
        }
        let payload = match def.format.get_byte_length() {
            Some(w) => w,
            None => match def.length {
                Some(l) => l,
                None => {
                    return None;
                },
            },
        };
        match payload.checked_add(HEADER_SIZE + FOOTER_SIZE) {
            Some(total) => Some(total),
            None => None,
        }
    }

    /// The exact number of bytes to read for a response to this definition:
    /// the payload width plus the header and footer widths.
    pub fn telemetry_response_size(def: &SupMCUTelemetryDefinition) -> (r: usize)
        requires
            spec_sizable(def@),
        ensures
            r == spec_payload_size(def@) + HEADER_SIZE + FOOTER_SIZE,
    {
        match Self::telemetry_response_size_checked(def) {
            Some(n) => n,
            None => {
                proof {
                    assert(false);  // a sizable definition always has a size
                }
                0
            },
        }
    }

    /// Interprets a raw response buffer.
    ///
    /// In checksum mode the last `FOOTER_SIZE` bytes are the footer; the
    /// response fails with `ValidationError` exactly when the first four
    /// footer bytes, read little-endian, differ from the CRC-32/CKSUM digest
    /// of everything before the footer. The remaining bytes decode as header
    /// and payload; a decoded response whose ready flag is clear fails with
    /// `NonReadyError` carrying the module's address and last command.
    pub fn read_telemetry_response(&self, def: &SupMCUTelemetryDefinition, buff: &Vec<u8>) -> (r:
        Result<SupMCUTelemetry, SupMCUError>)
        requires
            self@.checksum_mode ==> buff@.len() >= FOOTER_SIZE,
        ensures
            ({
                let body = if self@.checksum_mode {
                    buff@.take(buff@.len() - FOOTER_SIZE)
                } else {
                    buff@
                };
                let checksum_ok = !self@.checksum_mode || crc32_cksum_of(body)
                    == spec_u32_from_le_bytes(
                    buff@.subrange(buff@.len() - FOOTER_SIZE, buff@.len() - FOOTER_SIZE + 4),
                );
                &&& (!checksum_ok ==> r == Err::<SupMCUTelemetry, SupMCUError>(
                    SupMCUError::ValidationError,
                ))
                &&& (checksum_ok && body.len() < 5 ==> (r matches Err(e) && e matches SupMCUError::ParsingError(
                    pe,
                ) && pe matches ParsingError::InvalidBytes(_)))
                &&& (checksum_ok && body.len() >= 5 ==> match spec_parse_values(
                    def@.format,
                    body,
                    5,
                ) {
                    ParseAllOutcome::Values(vs, _) => {
                        let ready = body[0] & 1 == 1;
                        if ready {
                            r matches Ok(t) && t.definition@ == def@ && t.header.ready
                                && t.header.timestamp == spec_u32_from_le_bytes(
                                body.subrange(1, 5),
                            ) && value_models(t.data@) == vs
                        } else {
                            r matches Err(e) && e matches SupMCUError::NonReadyError(a, c) && a
                                == self@.address && c@ == self@.last_cmd
                        }
                    },
                    ParseAllOutcome::Truncated => r matches Err(e)
                        && e matches SupMCUError::ParsingError(pe) && pe matches ParsingError::InvalidBytes(
                        _,
                    ),
                    ParseAllOutcome::BadText => r == Err::<SupMCUTelemetry, SupMCUError>(
                        SupMCUError::ParsingError(ParsingError::StringParsingError),
                    ),
                })
            }),
    {
        let mut body: Vec<u8> = clone_bytes(buff);
        if self.checksum_mode {
            let split = buff.len() - FOOTER_SIZE;
            let digest = crc32_cksum(slice_subrange(buff.as_slice(), 0, split));
            let stated = u32_from_le_bytes(slice_subrange(buff.as_slice(), split, split + 4));
            if digest != stated {
                return Err(SupMCUError::ValidationError);
            }
            body.truncate(split);
            proof {
                assert(body@ =~= buff@.take(buff@.len() - FOOTER_SIZE));
            }
        }
        let tel = match SupMCUTelemetry::from_bytes(body, def) {
            Ok(t) => t,
            Err(e) => {
                return Err(SupMCUError::ParsingError(e));
            },
        };
        if tel.header.ready {
            Ok(tel)
        } else {
            Err(SupMCUError::NonReadyError(self.address, self.last_cmd.clone()))
        }
    }

    /// The retry policy after a not-ready response, given how many retries
    /// have already been made: without a retry budget, give up at once;
    /// within the budget, resend and wait the response delay plus one
    /// increment per retry already made (a linearly growing backoff);
    /// past the budget, give up and let the not-ready error stand.
    pub fn retry_nonready(&self, retries_done: u8) -> (d: RetryDecision)
        ensures
            d == match self@.max_retries {
                None => RetryDecision::GiveUp,
                Some(m) => if retries_done < m {
                    RetryDecision::RetryAfter {
                        delay_ms: (self.spec_response_delay() + RETRY_TIME_INCREMENT * retries_done) as u64,
                    }
                } else {
                    RetryDecision::GiveUp
                },
            },
    {
        match self.max_retries {
            None => RetryDecision::GiveUp,
            Some(m) => {
                if retries_done < m {
                    let delay: u64 = self.response_delay() as u64 + (RETRY_TIME_INCREMENT as u64)
                        * (retries_done as u64);
                    RetryDecision::RetryAfter { delay_ms: delay }
                } else {
                    RetryDecision::GiveUp
                }
            },
        }
    }

    /// How many read attempts a telemetry exchange makes against a module
    /// that never reports ready: the initial read, plus one retry per unit
    /// of budget; exactly one read when retries are disabled.
    pub fn nonready_attempt_count(&self) -> (n: u64)
        ensures
            n == 1 + match self@.max_retries {
                Some(m) => m as int,
                None => 0int,
            },
    {
        let mut attempts: u64 = 1;
        let mut retries: u8 = 0;
        loop
            invariant
                attempts == 1 + retries as int,
                match self@.max_retries {
                    Some(m) => retries <= m,
                    None => retries == 0,
                },
            ensures
                attempts == 1 + match self@.max_retries {
                    Some(m) => m as int,
                    None => 0int,
                },
            decreases (match self@.max_retries {
                Some(m) => m as int,
                None => 0int,
            }) - retries as int,
        {
            match self.retry_nonready(retries) {
                RetryDecision::GiveUp => {
                    break ;
                },
                RetryDecision::RetryAfter { delay_ms: _ } => {
                    attempts = attempts + 1;
                    retries = retries + 1;
                },
            }
        }
        attempts
    }

    /// Gives the handle an empty definition, carrying only its address, if
    /// it has none yet: the starting point of discovery.
    pub fn ensure_definition(&mut self)
        ensures
            old(self)@.definition is Some ==> final(self)@ == old(self)@,
            old(self)@.definition is None ==> final(self)@ == (ModuleModel {
                definition: Some(
                    ModuleDefModel {
                        name: Seq::<char>::empty(),
                        address: old(self)@.address,
                        simulatable: false,
                        telemetry: Seq::empty(),
                        commands: Seq::empty(),
                        mcu: crate::supmcu::parsing::McuType::UNKNOWN,
                        response_delay: DEFAULT_RESPONSE_DELAY,
                    },
                ),
                ..old(self)@
            }),
    {
        if self.definition.is_none() {
            let mut def = SupMCUModuleDefinition::default();
            def.address = self.address;
            self.definition = Some(def);
        }
    }

    /// Records what the firmware version said: the module's command-name
    /// prefix and whether it can simulate values.
    pub fn set_definition_identity(&mut self, name: String, simulatable: bool)
        requires
            old(self)@.definition is Some,
        ensures
            final(self)@ == (ModuleModel {
                definition: Some(
                    ModuleDefModel {
                        name: name@,
                        simulatable,
                        ..old(self)@.definition->0
                    },
                ),
                ..old(self)@
            }),
    {
        match &mut self.definition {
            Some(d) => {
                d.name = name;
                d.simulatable = simulatable;
            },
            None => {},
        }
    }

    /// Appends a discovered telemetry definition to the module's catalog.
    pub fn push_telemetry(&mut self, def: SupMCUTelemetryDefinition)
        requires
            old(self)@.definition is Some,
        ensures
            final(self)@ == (ModuleModel {
                definition: Some(
                    ModuleDefModel {
                        telemetry: old(self)@.definition->0.telemetry.push(def@),
                        ..old(self)@.definition->0
                    },
                ),
                ..old(self)@
            }),
    {
        let ghost dv = def@;
        match &mut self.definition {
            Some(d) => {
                let ghost told = d.telemetry@;
                d.telemetry.push(def);
                proof {
                    let m = |t: SupMCUTelemetryDefinition| t@;
                    assert(d.telemetry@.map_values(m) =~= told.map_values(m).push(dv));
                }
            },
            None => {},
        }
    }

    /// Appends a discovered command to the module's catalog.
    pub fn push_command(&mut self, cmd: SupMCUCommand)
        requires
            old(self)@.definition is Some,
        ensures
            final(self)@ == (ModuleModel {
                definition: Some(
                    ModuleDefModel {
                        commands: old(self)@.definition->0.commands.push(cmd@),
                        ..old(self)@.definition->0
                    },
                ),
                ..old(self)@
            }),
    {
        let ghost cv = cmd@;
        match &mut self.definition {
            Some(d) => {
                let ghost cold = d.commands@;
                d.commands.push(cmd);
                proof {
                    let m = |c: SupMCUCommand| c@;
                    assert(d.commands@.map_values(m) =~= cold.map_values(m).push(cv));
                }
            },
            None => {},
        }
    }

    /// The telemetry definitions with the given names, in catalog order, or
    /// `MissingDefinitionError` before discovery, or `UnknownTelemName`
    /// naming the first requested name that no item has.
    pub fn select_telemetry_by_names(&self, names: &Vec<String>) -> (r: Result<
        Vec<SupMCUTelemetryDefinition>,
        SupMCUError,
    >)
        ensures
            self@.definition is None ==> r == Err::<Vec<SupMCUTelemetryDefinition>, SupMCUError>(
                SupMCUError::MissingDefinitionError,
            ),
            self@.definition matches Some(d) ==> {
                let wanted = names@.map_values(|s: String| s@);
                if forall|k: int| 0 <= k < wanted.len() ==> spec_name_known(d, #[trigger] wanted[k]) {
                    r matches Ok(out) && out@.map_values(|t: SupMCUTelemetryDefinition| t@)
                        == d.telemetry.filter(|t: TelemetryDefModel| wanted.contains(t.name))
                } else {
                    exists|k: int|
                        0 <= k < wanted.len() && !spec_name_known(d, #[trigger] wanted[k]) && (
                        forall|j: int| 0 <= j < k ==> spec_name_known(d, #[trigger] wanted[j])) && (
                        r matches Err(e) && e matches SupMCUError::UnknownTelemName(n) && n@
                            == wanted[k])
                }
            },
    {
        let def = match &self.definition {
            Some(d) => d,
            None => {
                return Err(SupMCUError::MissingDefinitionError);
            },
        };
        let ghost dm = self@.definition->0;
        let ghost wanted = names@.map_values(|s: String| s@);
        let nn = names.len();
        for k in 0..nn
            invariant
                nn == names@.len(),
                self@.definition matches Some(d2) && d2 == dm,
                dm.telemetry == def.telemetry@.map_values(|t: SupMCUTelemetryDefinition| t@),
                wanted == names@.map_values(|s: String| s@),
                forall|j: int| 0 <= j < k ==> spec_name_known(dm, #[trigger] wanted[j]),
        {
            let name = vstd::std_specs::vec::vec_index(names, k);
            proof {
                assert(wanted[k as int] == names@[k as int]@);
            }
            let mut known = false;
            let tn = def.telemetry.len();
            for i in 0..tn
                invariant
                    tn == def.telemetry@.len(),
                    dm.telemetry == def.telemetry@.map_values(|t: SupMCUTelemetryDefinition| t@),
                    known ==> spec_name_known(dm, name@),
                    !known ==> forall|j: int|
                        0 <= j < i ==> (#[trigger] dm.telemetry[j]).name != name@,
                decreases tn - i,
            {
                let t = vstd::std_specs::vec::vec_index(&def.telemetry, i);
                proof {
                    assert(dm.telemetry[i as int] == def.telemetry@[i as int]@);
                }
                if t.name == *name {
                    known = true;
                }
            }
            if !known {
                return Err(SupMCUError::UnknownTelemName(name.clone()));
            }
        }
        let mut out: Vec<SupMCUTelemetryDefinition> = Vec::new();
        let tn = def.telemetry.len();
        proof {
            reveal(Seq::filter);
        }
        for i in 0..tn
            invariant
                tn == def.telemetry@.len(),
                nn == names@.len(),
                self@.definition matches Some(d2) && d2 == dm,
                dm.telemetry == def.telemetry@.map_values(|t: SupMCUTelemetryDefinition| t@),
                wanted == names@.map_values(|s: String| s@),
                out@.map_values(|t: SupMCUTelemetryDefinition| t@) == dm.telemetry.take(
                    i as int,
                ).filter(|t: TelemetryDefModel| wanted.contains(t.name)),
        {
            let t = vstd::std_specs::vec::vec_index(&def.telemetry, i);
            let mut wanted_here = false;
            for k in 0..nn
                invariant
                    nn == names@.len(),
                    wanted == names@.map_values(|s: String| s@),
                    wanted_here ==> wanted.contains(t.name@),
                    !wanted_here ==> forall|j: int| 0 <= j < k ==> wanted[j] != t.name@,
                decreases nn - k,
            {
                let name = vstd::std_specs::vec::vec_index(names, k);
                if t.name == *name {
                    proof {
                        assert(wanted[k as int] == names@[k as int]@);
                    }
                    wanted_here = true;
                }
                proof {
                    assert(wanted[k as int] == names@[k as int]@);
                }
            }
            proof {
                let f = |t2: TelemetryDefModel| wanted.contains(t2.name);
                assert(dm.telemetry[i as int] == def.telemetry@[i as int]@);
                assert(dm.telemetry.take(i + 1) =~= dm.telemetry.take(i as int).push(
                    dm.telemetry[i as int],
                ));
                crate::supmcu::parsing::seq_filter_push(
                    dm.telemetry.take(i as int),
                    dm.telemetry[i as int],
                    f,
                );
                if !wanted_here {
                    assert(!wanted.contains(t.name@)) by {
                        if wanted.contains(t.name@) {
                            let w = choose|j: int| 0 <= j < wanted.len() && wanted[j] == t.name@;
                            assert(wanted[w] != t.name@);
                        }
                    }
                }
            }
            if wanted_here {
                out.push(t.clone());
                proof {
                    let m = |t2: SupMCUTelemetryDefinition| t2@;
                    assert(out@.map_values(m) =~= out@.drop_last().map_values(m).push(out@.last()@));
                }
            }
        }
        proof {
            assert(dm.telemetry.take(tn as int) =~= dm.telemetry);
        }
        Ok(out)
    }

    /// The first telemetry definition with the given namespace and index, or
    /// `MissingDefinitionError` before discovery, or `TelemetryIndexError`
    /// when no item matches.
    pub fn find_telemetry(&self, telemetry_type: TelemetryType, idx: usize) -> (r: Result<
        SupMCUTelemetryDefinition,
        SupMCUError,
    >)
        ensures
            self@.definition is None ==> r == Err::<SupMCUTelemetryDefinition, SupMCUError>(
                SupMCUError::MissingDefinitionError,
            ),
            self@.definition matches Some(d) ==> match spec_first_telemetry_match(
                d.telemetry,
                telemetry_type,
                idx,
            ) {
                Some(i) => r matches Ok(out) && out@ == d.telemetry[i],
                None => r == Err::<SupMCUTelemetryDefinition, SupMCUError>(
                    SupMCUError::TelemetryIndexError(telemetry_type, idx),
                ),
            },
    {
        let def = match &self.definition {
            Some(d) => d,
            None => {
                return Err(SupMCUError::MissingDefinitionError);
            },
        };
        let n = def.telemetry.len();
        for i in 0..n
            invariant
                n == def.telemetry@.len(),
                self@.definition matches Some(dm) && dm.telemetry == def.telemetry@.map_values(
                    |t: SupMCUTelemetryDefinition| t@,
                ),
                forall|j: int|
                    0 <= j < i ==> !telemetry_matches(#[trigger] def.telemetry@[j]@, telemetry_type, idx),
        {
            let t = vstd::std_specs::vec::vec_index(&def.telemetry, i);
            if t.idx == idx && t.telemetry_type == telemetry_type {
                proof {
                    let tv = def.telemetry@.map_values(|t: SupMCUTelemetryDefinition| t@);
                    assert(forall|j: int|
                        0 <= j < tv.len() ==> #[trigger] tv[j] == def.telemetry@[j]@);
                    lemma_first_telemetry_match(tv, telemetry_type, idx, i as int);
                }
                return Ok(t.clone());
            }
        }
        proof {
            let tv = def.telemetry@.map_values(|t: SupMCUTelemetryDefinition| t@);
            assert(forall|j: int| 0 <= j < tv.len() ==> #[trigger] tv[j] == def.telemetry@[j]@);
            lemma_no_telemetry_match(tv, telemetry_type, idx);
        }
        Err(SupMCUError::TelemetryIndexError(telemetry_type, idx))
    }
}

/// The catalog of modules on one bus.
///
/// The catalog owns the module handles; the caller owns the transports and
/// the scheduler that fans an operation out across them. Fan-out results are
/// expected in catalog order, and the reduction of per-module outcomes to a
/// single result is [`reduce_results`].
pub struct SupMCUMaster {
    /// The modules on the bus, in catalog order.
    pub modules: Vec<SupMCUModule>,
}

/// The models of a module sequence.
pub open spec fn module_models(s: Seq<SupMCUModule>) -> Seq<ModuleModel> {
    s.map_values(|m: SupMCUModule| m@)
}

impl SupMCUMaster {
    /// A catalog of the given modules, in order.
    pub fn new(modules: Vec<SupMCUModule>) -> (r: SupMCUMaster)
        ensures
            r.modules@ == modules@,
    {
        SupMCUMaster { modules }
    }

    /// Every module's definition, in catalog order, or the missing-definition
    /// error if any module has none.
    pub fn get_definitions(&self) -> (r: Result<Vec<SupMCUModuleDefinition>, SupMCUError>)
        ensures
            (forall|i: int|
                0 <= i < self.modules@.len() ==> (#[trigger] self.modules@[i])@.definition is Some)
                <==> r is Ok,
            r matches Ok(defs) ==> defs@.len() == self.modules@.len() && forall|i: int|
                0 <= i < defs@.len() ==> Some((#[trigger] defs@[i])@) == self.modules@[i]@.definition,
            r matches Err(e) ==> e == SupMCUError::MissingDefinitionError,
    {
        let mut defs: Vec<SupMCUModuleDefinition> = Vec::new();
        let n = self.modules.len();
        for i in 0..n
            invariant
                n == self.modules@.len(),
                defs@.len() == i,
                forall|j: int|
                    0 <= j < i ==> Some((#[trigger] defs@[j])@) == self.modules@[j]@.definition,
                forall|j: int|
                    0 <= j < i ==> (#[trigger] self.modules@[j])@.definition is Some,
        {
            match vstd::std_specs::vec::vec_index(&self.modules, i).get_definition() {
                Ok(d) => {
                    defs.push(d.clone());
                },
                Err(_) => {
                    proof {
                        assert(self.modules@[i as int]@.definition is None);
                    }
                    return Err(SupMCUError::MissingDefinitionError);
                },
            }
        }
        Ok(defs)
    }

    /// The position of the first module that matches the definition, by
    /// address or by name, or `ModuleNotFound` naming the definition.
    pub fn find_module(&self, module: &SupMCUModuleDefinition) -> (r: Result<usize, SupMCUError>)
        ensures
            match spec_first_module_match(module_models(self.modules@), module@) {
                Some(i) => 0 <= i < self.modules@.len() && spec_matches(
                    self.modules@[i]@,
                    module@,
                ) && r == Ok::<usize, SupMCUError>(i as usize),
                None => (r matches Err(e) && e matches SupMCUError::ModuleNotFound(n, a) && n@
                    == module@.name && a == module@.address),
            },
    {
        let n = self.modules.len();
        for i in 0..n
            invariant
                n == self.modules@.len(),
                forall|j: int|
                    0 <= j < i ==> !spec_matches((#[trigger] self.modules@[j])@, module@),
        {
            if vstd::std_specs::vec::vec_index(&self.modules, i).matches(module) {
                proof {
                    let mv = module_models(self.modules@);
                    assert(forall|j: int| 0 <= j < mv.len() ==> #[trigger] mv[j] == self.modules@[j]@);
                    lemma_first_module_match(mv, module@, i as int);
                }
                return Ok(i);
            }
        }
        proof {
            let mv = module_models(self.modules@);
            assert(forall|j: int| 0 <= j < mv.len() ==> #[trigger] mv[j] == self.modules@[j]@);
        }
        Err(SupMCUError::ModuleNotFound(module.name.clone(), module.address))
    }

    /// Applies a closure to the first module that matches the definition, by
    /// address or by name, or fails with `ModuleNotFound`. The closure must
    /// accept every matching module.
    pub fn with_module<O, F: FnOnce(&SupMCUModule) -> O>(
        &self,
        module: &SupMCUModuleDefinition,
        f: F,
    ) -> (r: Result<O, SupMCUError>)
        requires
            forall|m: &SupMCUModule| spec_matches(m@, module@) ==> #[trigger] f.requires((m,)),
        ensures
            match spec_first_module_match(module_models(self.modules@), module@) {
                Some(i) => (r matches Ok(o) && f.ensures((&self.modules@[i],), o)),
                None => (r matches Err(e) && e matches SupMCUError::ModuleNotFound(n, a) && n@
                    == module@.name && a == module@.address),
            },
    {
        let i = match self.find_module(module) {
            Ok(i) => i,
            Err(e) => {
                return Err(e);
            },
        };
        proof {
            vstd::std_specs::vec::axiom_spec_len(&self.modules);
        }
        let m = vstd::std_specs::vec::vec_index(&self.modules, i);
        Ok(f(m))
    }

    /// Applies a state-passing closure to the first module that matches the
    /// definition, or fails with `ModuleNotFound`. The closure takes the
    /// module and returns its new state with the output; exactly that state
    /// replaces the matched module, and every other module is untouched. The
    /// closure must accept every matching module.
    #[verifier::rlimit(50)]
    pub fn with_module_mut<O, F: FnOnce(SupMCUModule) -> (SupMCUModule, O)>(
        &mut self,
        module: &SupMCUModuleDefinition,
        f: F,
    ) -> (r: Result<O, SupMCUError>)
        requires
            forall|m: SupMCUModule| spec_matches(m@, module@) ==> #[trigger] f.requires((m,)),
        ensures
            match spec_first_module_match(module_models(old(self).modules@), module@) {
                Some(i) => final(self).modules@.len() == old(self).modules@.len() && (forall|j: int|
                    0 <= j < old(self).modules@.len() && j != i
                        ==> (#[trigger] final(self).modules@[j]) == old(self).modules@[j]) && (
                r matches Ok(o) && f.ensures(
                    (old(self).modules@[i],),
                    (final(self).modules@[i], o),
                )),
                None => final(self).modules@ == old(self).modules@ && (r matches Err(e)
                    && e matches SupMCUError::ModuleNotFound(n, a) && n@ == module@.name && a
                    == module@.address),
            },
    {
        let i = match self.find_module(module) {
            Ok(i) => i,
            Err(e) => {
                return Err(e);
            },
        };
        proof {
            vstd::std_specs::vec::axiom_spec_len(&self.modules);
        }
        let ghost before = self.modules@;
        let taken = self.modules.remove(i);
        let ghost shrunk = self.modules@;
        let (updated, out) = f(taken);
        self.modules.insert(i, updated);
        proof {
            assert(self.modules@.len() == before.len());
            assert(self.modules@[i as int] == updated);
            assert forall|j: int|
                0 <= j < before.len() && j != i implies self.modules@[j] == before[j] by {
                if j < i {
                    assert(shrunk[j] == before[j]);
                } else {
                    assert(shrunk[j - 1] == before[j]);
                }
            }
        }
        Ok(out)
    }

    /// Updates the response delay, in milliseconds, of the first module that
    /// matches the definition, or fails with `ModuleNotFound` (or with
    /// `MissingDefinitionError` if that module lost its definition).
    pub fn response_delay(&mut self, module: &SupMCUModuleDefinition, delay: u32) -> (r: Result<
        (),
        SupMCUError,
    >)
        ensures
            match spec_first_module_match(module_models(old(self).modules@), module@) {
                Some(i) => final(self).modules@.len() == old(self).modules@.len() && (forall|j: int|
                    0 <= j < old(self).modules@.len() && j != i
                        ==> (#[trigger] final(self).modules@[j])@ == old(self).modules@[j]@) && (
                match old(self).modules@[i]@.definition {
                    Some(d) => r == Ok::<(), SupMCUError>(()) && final(self).modules@[i]@
                        == (ModuleModel {
                        definition: Some(ModuleDefModel { response_delay: delay, ..d }),
                        ..old(self).modules@[i]@
                    }),
                    None => r == Err::<(), SupMCUError>(SupMCUError::MissingDefinitionError)
                        && final(self).modules@[i]@ == old(self).modules@[i]@,
                }),
                None => final(self).modules@ == old(self).modules@ && (r matches Err(e)
                    && e matches SupMCUError::ModuleNotFound(n, a) && n@ == module@.name && a
                    == module@.address),
            },
    {
        let i = match self.find_module(module) {
            Ok(i) => i,
            Err(e) => {
                return Err(e);
            },
        };
        proof {
            vstd::std_specs::vec::axiom_spec_len(&self.modules);
        }
        let m = vstd::std_specs::vec::vec_index_mut(&mut self.modules, i);
        m.set_response_delay(delay)
    }

    /// Installs definitions position by position: the first definition goes
    /// to the first module, and so on; modules beyond the definitions keep
    /// their state, definitions beyond the modules are dropped.
    pub fn load_definitions(&mut self, defs: Vec<SupMCUModuleDefinition>)
        ensures
            final(self).modules@.len() == old(self).modules@.len(),
            forall|i: int|
                0 <= i < old(self).modules@.len() && i < defs@.len()
                    ==> (#[trigger] final(self).modules@[i])@ == (ModuleModel {
                    definition: Some(defs@[i]@),
                    address: defs@[i].address,
                    ..old(self).modules@[i]@
                }),
            forall|i: int|
                defs@.len() <= i < old(self).modules@.len()
                    ==> (#[trigger] final(self).modules@[i])@ == old(self).modules@[i]@,
    {
        let mut defs = defs;
        let n = self.modules.len();
        let k = defs.len();
        let count = if k < n {
            k
        } else {
            n
        };
        let mut i: usize = 0;
        while i < count
            invariant
                count <= n == self.modules@.len(),
                count <= k == defs@.len(),
                count == if k < n {
                    k as int
                } else {
                    n as int
                },
                i <= count,
                defs@.len() == k,
                forall|j: int|
                    0 <= j < i ==> (#[trigger] self.modules@[j])@ == (ModuleModel {
                        definition: Some(defs@[j]@),
                        address: defs@[j].address,
                        ..old(self).modules@[j]@
                    }),
                forall|j: int|
                    i <= j < n ==> (#[trigger] self.modules@[j])@ == old(self).modules@[j]@,
            decreases count - i,
        {
            let d = vstd::std_specs::vec::vec_index(&defs, i).clone();
            let dc = SupMCUModuleDefinition {
                name: d.name,
                address: d.address,
                simulatable: d.simulatable,
                telemetry: d.telemetry,
                commands: d.commands,
                mcu: d.mcu,
                response_delay: d.response_delay,
            };
            vstd::std_specs::vec::vec_index_mut(&mut self.modules, i).set_definition(dc);
            i = i + 1;
        }
    }
}

/// Reduces per-module fan-out outcomes to one result: success only when
/// every module succeeded, and otherwise the first error, in catalog order.
/// Every outcome was already produced when this runs, so one module's
/// failure never undoes another module's completed work.
pub fn reduce_results(results: Vec<Result<(), SupMCUError>>) -> (r: Result<(), SupMCUError>)
    ensures
        (forall|i: int| 0 <= i < results@.len() ==> (#[trigger] results@[i]) is Ok) <==> r is Ok,
        r matches Err(e) ==> exists|i: int|
            0 <= i < results@.len() && ((#[trigger] results@[i]) matches Err(e2) && e == e2) && (
            forall|j: int| 0 <= j < i ==> (#[trigger] results@[j]) is Ok),
{
    let mut work = results;
    let n = work.len();
    let mut i: usize = 0;
    // Walk in order; taking an error out by index keeps catalog order intact.
    while i < n
        invariant
            work@ == results@,
            n == results@.len(),
            i <= n,
            forall|j: int| 0 <= j < i ==> (#[trigger] results@[j]) is Ok,
        decreases n - i,
    {
        let is_err = match vstd::std_specs::vec::vec_index(&work, i) {
            Ok(_) => false,
            Err(_) => true,
        };
        if is_err {
            let taken = work.remove(i);
            match taken {
                Err(e) => {
                    return Err(e);
                },
                Ok(_) => {
                    proof {
                        assert(false);
                    }
                },
            }
        }
        i = i + 1;
    }
    Ok(())
}

/// The position of the first module that matches a definition, if any.
pub open spec fn spec_first_module_match(s: Seq<ModuleModel>, d: ModuleDefModel) -> Option<int> {
    if exists|i: int| 0 <= i < s.len() && spec_matches(#[trigger] s[i], d) {
        Some(
            choose|i: int|
                0 <= i < s.len() && spec_matches(#[trigger] s[i], d) && forall|j: int|
                    0 <= j < i ==> !spec_matches(#[trigger] s[j], d),
        )
    } else {
        None
    }
}

/// A match at `i` with none before it is the first match.
proof fn lemma_first_module_match(s: Seq<ModuleModel>, d: ModuleDefModel, i: int)
    requires
        0 <= i < s.len(),
        spec_matches(s[i], d),
        forall|j: int| 0 <= j < i ==> !spec_matches(#[trigger] s[j], d),
    ensures
        spec_first_module_match(s, d) == Some(i),
{
    let w = choose|k: int|
        0 <= k < s.len() && spec_matches(#[trigger] s[k], d) && forall|j: int|
            0 <= j < k ==> !spec_matches(#[trigger] s[j], d);
    assert(exists|k: int|
        0 <= k < s.len() && spec_matches(#[trigger] s[k], d) && forall|j: int|
            0 <= j < k ==> !spec_matches(#[trigger] s[j], d)) by {
        assert(0 <= i < s.len() && spec_matches(s[i], d) && forall|j: int|
            0 <= j < i ==> !spec_matches(#[trigger] s[j], d));
    }
    if w < i {
        assert(!spec_matches(s[w], d));
    }
    if i < w {
        assert(!spec_matches(s[i], d));
    }
}

/// A copy of a byte vector.
fn clone_bytes(v: &Vec<u8>) -> (r: Vec<u8>)
    ensures
        r@ == v@,
{
    let mut r: Vec<u8> = Vec::new();
    let n = v.len();
    for i in 0..n
        invariant
            n == v.len(),
            r@ == v@.take(i as int),
    {
        r.push(v[i]);
        proof {
            assert(v@.take(i + 1) =~= v@.take(i as int).push(v@[i as int]));
        }
    }
    proof {
        assert(v@.take(n as int) =~= v@);
    }
    r
}

/// Whether some telemetry item carries the given name.
pub open spec fn spec_name_known(d: ModuleDefModel, n: Seq<char>) -> bool {
    exists|i: int| 0 <= i < d.telemetry.len() && (#[trigger] d.telemetry[i]).name == n
}

/// Whether a telemetry definition has the given namespace and index.
pub open spec fn telemetry_matches(d: TelemetryDefModel, t: TelemetryType, idx: usize) -> bool {
    d.idx == idx && d.telemetry_type == t
}

/// The position of the first telemetry definition with the given namespace
/// and index, if any.
pub open spec fn spec_first_telemetry_match(
    s: Seq<TelemetryDefModel>,
    t: TelemetryType,
    idx: usize,
) -> Option<int> {
    if exists|i: int| 0 <= i < s.len() && telemetry_matches(#[trigger] s[i], t, idx) {
        Some(
            choose|i: int|
                0 <= i < s.len() && telemetry_matches(#[trigger] s[i], t, idx) && forall|j: int|
                    0 <= j < i ==> !telemetry_matches(#[trigger] s[j], t, idx),
        )
    } else {
        None
    }
}

/// A match at `i` with none before it is the first match.
proof fn lemma_first_telemetry_match(s: Seq<TelemetryDefModel>, t: TelemetryType, idx: usize, i: int)
    requires
        0 <= i < s.len(),
        telemetry_matches(s[i], t, idx),
        forall|j: int| 0 <= j < i ==> !telemetry_matches(#[trigger] s[j], t, idx),
    ensures
        spec_first_telemetry_match(s, t, idx) == Some(i),
{
    let w = choose|k: int|
        0 <= k < s.len() && telemetry_matches(#[trigger] s[k], t, idx) && forall|j: int|
            0 <= j < k ==> !telemetry_matches(#[trigger] s[j], t, idx);
    assert(exists|k: int|
        0 <= k < s.len() && telemetry_matches(#[trigger] s[k], t, idx) && forall|j: int|
            0 <= j < k ==> !telemetry_matches(#[trigger] s[j], t, idx)) by {
        assert(0 <= i < s.len() && telemetry_matches(s[i], t, idx) && forall|j: int|
            0 <= j < i ==> !telemetry_matches(#[trigger] s[j], t, idx));
    }
    if w < i {
        assert(!telemetry_matches(s[w], t, idx));
    }
    if i < w {
        assert(!telemetry_matches(s[i], t, idx));
    }
}

/// With no match anywhere, there is no first match.
proof fn lemma_no_telemetry_match(s: Seq<TelemetryDefModel>, t: TelemetryType, idx: usize)
    requires
        forall|j: int| 0 <= j < s.len() ==> !telemetry_matches(#[trigger] s[j], t, idx),
    ensures
        spec_first_telemetry_match(s, t, idx) is None,
{
}

} // verus!

//! Discovery protocol: the ordered walk that reconstructs a module's full
//! definition from raw index numbers alone.
//!
//! Discovery proceeds in phases: the firmware version string names the module
//! and tells whether it can simulate values; a reserved item counts the
//! telemetry of each namespace; every item is then described by name, format,
//! optional length and optional default values; and, unless the module is the
//! `DCPS` power supply, a reserved item counts the commands, which are then
//! named one by one. A [`DiscoverySession`] makes every decision of that walk
//! on plain values, and the caller performs each prescribed exchange.

use vstd::prelude::*;

verus! {

use crate::supmcu::parsing::{
    CommandModel, DataType, ModuleDefModel, SupMCUCommand, SupMCUFormat, SupMCUTelemetryDefinition,
    SupMCUValue, TelemetryDefModel, TelemetryType, ValueModel, spec_format_byte_length,
    spec_format_of_chars, value_models, chars_of_str, string_from_chars,
};
use crate::supmcu::{ModuleModel, SupMCUModule, spec_tlm_command, spec_com_command, dec_string};
use crate::ParsingError;
use vstd::string::StringExecFns;

/// The position of the first occurrence of a character at or after `pos`.
pub open spec fn spec_find_char(s: Seq<char>, c: char, pos: int) -> Option<int>
    decreases (if pos < s.len() { s.len() - pos } else { 0int }),
{
    if pos < 0 || pos >= s.len() {
        None
    } else if s[pos] == c {
        Some(pos)
    } else {
        spec_find_char(s, c, pos + 1)
    }
}

/// The part of a string before the first occurrence of a character: the
/// whole string when the character is absent.
pub open spec fn spec_token_before(s: Seq<char>, c: char) -> Seq<char> {
    match spec_find_char(s, c, 0) {
        Some(j) => s.take(j),
        None => s,
    }
}

/// Whether `m` occurs as a contiguous part of `s`.
pub open spec fn spec_contains(s: Seq<char>, m: Seq<char>) -> bool {
    exists|i: int| 0 <= i <= s.len() - m.len() && #[trigger] s.subrange(i, i + m.len()) == m
}

/// The literal module names that discovery rewrites to their command prefix.
pub open spec fn spec_alias(t: Seq<char>) -> Seq<char> {
    if t == seq!['G', 'P', 'S', 'R', 'M'] {
        seq!['G', 'P', 'S']
    } else if t == seq!['R', 'H', 'M', '3'] {
        seq!['R', 'H', 'M']
    } else {
        t
    }
}

/// The command-name prefix a firmware version string yields: the token
/// before the first space and before the first hyphen, with the known
/// aliases rewritten.
pub open spec fn spec_cmd_name(v: Seq<char>) -> Seq<char> {
    spec_alias(spec_token_before(spec_token_before(v, ' '), '-'))
}

/// The marker that names a module simulated on an STM part.
pub open spec fn stm_marker() -> Seq<char> {
    seq!['(', 'o', 'n', ' ', 'S', 'T', 'M', ')']
}

/// The marker that names a module simulated on a QSM part.
pub open spec fn qsm_marker() -> Seq<char> {
    seq!['(', 'o', 'n', ' ', 'Q', 'S', 'M', ')']
}

/// Whether a firmware version string marks the module simulatable: it
/// carries either simulation marker.
pub open spec fn spec_simulatable_version(v: Seq<char>) -> bool {
    spec_contains(v, stm_marker()) || spec_contains(v, qsm_marker())
}

/// What `spec_find_char` finds: the first occurrence at or after `pos`.
proof fn lemma_find_char_found(s: Seq<char>, c: char, pos: int, j: int)
    requires
        0 <= pos <= j < s.len(),
        s[j] == c,
        forall|k: int| pos <= k < j ==> s[k] != c,
    ensures
        spec_find_char(s, c, pos) == Some(j),
    decreases j - pos,
{
    if pos < j {
        lemma_find_char_found(s, c, pos + 1, j);
    }
}

/// Where the character never occurs at or after `pos`, none is found.
proof fn lemma_find_char_none(s: Seq<char>, c: char, pos: int)
    requires
        0 <= pos,
        forall|k: int| pos <= k < s.len() ==> s[k] != c,
    ensures
        spec_find_char(s, c, pos) is None,
    decreases (if pos < s.len() { s.len() - pos } else { 0int }),
{
    if pos < s.len() {
        lemma_find_char_none(s, c, pos + 1);
    }
}

/// The position of the first occurrence of a character, if any.
fn find_char(chars: &Vec<char>, c: char) -> (r: Option<usize>)
    ensures
        match r {
            Some(j) => j < chars@.len() && spec_find_char(chars@, c, 0) == Some(j as int),
            None => spec_find_char(chars@, c, 0) is None,
        },
{
    let n = chars.len();
    for j in 0..n
        invariant
            n == chars@.len(),
            forall|k: int| 0 <= k < j ==> chars@[k] != c,
    {
        if chars[j] == c {
            proof {
                lemma_find_char_found(chars@, c, 0, j as int);
            }
            return Some(j);
        }
    }
    proof {
        lemma_find_char_none(chars@, c, 0);
    }
    None
}

/// The characters before the first occurrence of `c`: all of them when `c`
/// is absent.
fn take_before(chars: &Vec<char>, c: char) -> (r: Vec<char>)
    ensures
        r@ == spec_token_before(chars@, c),
{
    let end = match find_char(chars, c) {
        Some(j) => j,
        None => chars.len(),
    };
    let mut r: Vec<char> = Vec::new();
    for i in 0..end
        invariant
            end <= chars@.len(),
            r@ == chars@.take(i as int),
        decreases end - i,
    {
        r.push(chars[i]);
        proof {
            assert(chars@.take(i + 1) =~= chars@.take(i as int).push(chars@[i as int]));
        }
    }
    proof {
        match spec_find_char(chars@, c, 0) {
            Some(j) => {},
            None => {
                assert(chars@.take(chars@.len() as int) =~= chars@);
            },
        }
    }
    r
}

/// Whether two character vectors hold the same characters.
fn chars_eq(a: &Vec<char>, b: &Vec<char>) -> (r: bool)
    ensures
        r == (a@ == b@),
{
    if a.len() != b.len() {
        return false;
    }
    let n = a.len();
    for i in 0..n
        invariant
            n == a@.len() == b@.len(),
            forall|j: int| 0 <= j < i ==> a@[j] == b@[j],
    {
        if a[i] != b[i] {
            return false;
        }
    }
    proof {
        assert(a@ =~= b@);
    }
    true
}

/// Whether `m` occurs as a contiguous part of `s`.
fn contains_seq(s: &Vec<char>, m: &Vec<char>) -> (r: bool)
    ensures
        r == spec_contains(s@, m@),
{
    let sn = s.len();
    let mn = m.len();
    if mn > sn {
        return false;
    }
    if mn == 0 {
        proof {
            assert(s@.subrange(0, 0 + m@.len() as int) =~= m@);
        }
        return true;
    }
    let last = sn - mn;
    let mut i: usize = 0;
    while i <= last
        invariant
            1 <= mn <= sn == s@.len(),
            mn == m@.len(),
            last == sn - mn,
            i <= last + 1,
            forall|p: int| 0 <= p < i ==> #[trigger] s@.subrange(p, p + m@.len()) != m@,
        decreases last - i + 1,
    {
        let mut all: bool = true;
        let mut j: usize = 0;
        while j < mn
            invariant
                i <= last,
                last == sn - mn,
                mn <= sn == s@.len(),
                mn == m@.len(),
                j <= mn,
                all ==> forall|k: int| 0 <= k < j ==> s@[i + k] == #[trigger] m@[k],
                !all ==> s@.subrange(i as int, i + m@.len()) != m@,
            decreases mn - j,
        {
            if s[i + j] != m[j] {
                all = false;
                proof {
                    assert(s@.subrange(i as int, i + m@.len())[j as int] == s@[i + j]);
                }
                // The mismatch at offset j rules this position out.
                assert(s@.subrange(i as int, i + m@.len()) != m@);
                j = mn;
            } else {
                j = j + 1;
            }
        }
        proof {
            if all {
                assert(s@.subrange(i as int, i + m@.len()) =~= m@);
            }
        }
        if all {
            proof {
                assert(s@.subrange(i as int, i as int + m@.len() as int) =~= m@);
            }
            return true;
        }
        i = i + 1;
    }
    false
}

/// Parses a firmware version string: the command-name prefix it names, and
/// whether it marks the module simulatable.
pub fn parse_version(version: &String) -> (r: (String, bool))
    ensures
        r.0@ == spec_cmd_name(version@),
        r.1 == spec_simulatable_version(version@),
{
    let chars = chars_of_str(version.as_str());
    let before_space = take_before(&chars, ' ');
    let token = take_before(&before_space, '-');
    let gpsrm: Vec<char> = chars_of_str("GPSRM");
    let rhm3: Vec<char> = chars_of_str("RHM3");
    proof {
        reveal_strlit("GPSRM");
        reveal_strlit("RHM3");
        assert("GPSRM"@ =~= seq!['G', 'P', 'S', 'R', 'M']);
        assert("RHM3"@ =~= seq!['R', 'H', 'M', '3']);
    }
    let name: String = if chars_eq(&token, &gpsrm) {
        let s = String::from_str("GPS");
        proof {
            reveal_strlit("GPS");
            assert("GPS"@ =~= seq!['G', 'P', 'S']);
        }
        s
    } else if chars_eq(&token, &rhm3) {
        let s = String::from_str("RHM");
        proof {
            reveal_strlit("RHM");
            assert("RHM"@ =~= seq!['R', 'H', 'M']);
        }
        s
    } else {
        string_from_chars(&token)
    };
    let stm: Vec<char> = chars_of_str("(on STM)");
    let qsm: Vec<char> = chars_of_str("(on QSM)");
    proof {
        reveal_strlit("(on STM)");
        reveal_strlit("(on QSM)");
        assert("(on STM)"@ =~= stm_marker());
        assert("(on QSM)"@ =~= qsm_marker());
    }
    let simulatable = contains_seq(&chars, &stm) || contains_seq(&chars, &qsm);
    (name, simulatable)
}

/// The constant metadata templates of the discovery protocol: they describe
/// how metadata responses themselves are framed, independent of the item
/// under discovery.
#[derive(Clone, Copy, Debug, PartialEq, Eq, Structural)]
pub enum PremadeTelemetryDefs {
    FirmwareVersion,
    Length,
    Name,
    Format,
    TlmAmount,
    CmdAmount,
    CmdName,
    Simulatable,
    McuId,
}

/// The template that frames a firmware version response.
pub open spec fn firmware_version_model() -> TelemetryDefModel {
    TelemetryDefModel {
        name: "Firmware Version"@,
        format: seq![DataType::Str],
        length: Some(77usize),
        default_sim_value: None,
        idx: 0,
        telemetry_type: TelemetryType::SupMCU,
    }
}

/// The template that frames a length (or simulatability) response.
pub open spec fn length_model() -> TelemetryDefModel {
    TelemetryDefModel {
        name: "Length"@,
        format: seq![DataType::UINT16],
        length: None,
        default_sim_value: None,
        idx: 0,
        telemetry_type: TelemetryType::SupMCU,
    }
}

/// The template that frames an item-name response.
pub open spec fn name_model() -> TelemetryDefModel {
    TelemetryDefModel {
        name: "Name"@,
        format: seq![DataType::Str],
        length: Some(33usize),
        default_sim_value: None,
        idx: 0,
        telemetry_type: TelemetryType::SupMCU,
    }
}

/// The template that frames a format-string response.
pub open spec fn format_model() -> TelemetryDefModel {
    TelemetryDefModel {
        name: "Format"@,
        format: seq![DataType::Str],
        length: Some(25usize),
        default_sim_value: None,
        idx: 0,
        telemetry_type: TelemetryType::SupMCU,
    }
}

/// The template that frames the telemetry-count response (item 14).
pub open spec fn tlm_amount_model() -> TelemetryDefModel {
    TelemetryDefModel {
        name: "Amount"@,
        format: seq![DataType::UINT16, DataType::UINT16],
        length: None,
        default_sim_value: None,
        idx: 14,
        telemetry_type: TelemetryType::SupMCU,
    }
}

/// The template that frames the command-count response (item 17).
pub open spec fn cmd_amount_model() -> TelemetryDefModel {
    TelemetryDefModel {
        name: "Commands"@,
        format: seq![DataType::UINT16],
        length: None,
        default_sim_value: None,
        idx: 17,
        telemetry_type: TelemetryType::SupMCU,
    }
}

/// The template that frames a command-name response.
pub open spec fn cmd_name_model() -> TelemetryDefModel {
    TelemetryDefModel {
        name: "Command Name"@,
        format: seq![DataType::Str],
        length: Some(33usize),
        default_sim_value: None,
        idx: 0,
        telemetry_type: TelemetryType::SupMCU,
    }
}

/// The template that frames the MCU-identifier response (item 19).
pub open spec fn mcu_id_model() -> TelemetryDefModel {
    TelemetryDefModel {
        name: "MCU ID"@,
        format: seq![DataType::UINT8],
        length: None,
        default_sim_value: None,
        idx: 19,
        telemetry_type: TelemetryType::SupMCU,
    }
}

/// A one-character format names exactly one data type.
proof fn lemma_format_single(c: char, t: DataType)
    requires
        spec_data_type_of_char_is(c, t),
    ensures
        spec_format_of_chars(seq![c]) == seq![t],
{
    assert(seq![c].skip(1) =~= Seq::<char>::empty());
    assert(spec_format_of_chars(Seq::<char>::empty()) =~= Seq::<DataType>::empty());
    assert(spec_format_of_chars(seq![c]) =~= seq![t]);
}

/// A two-character format names exactly two data types.
proof fn lemma_format_pair(c1: char, c2: char, t1: DataType, t2: DataType)
    requires
        spec_data_type_of_char_is(c1, t1),
        spec_data_type_of_char_is(c2, t2),
    ensures
        spec_format_of_chars(seq![c1, c2]) == seq![t1, t2],
{
    assert(seq![c1, c2].skip(1) =~= seq![c2]);
    lemma_format_single(c2, t2);
    assert(spec_format_of_chars(seq![c1, c2]) =~= seq![t1, t2]);
}

/// Whether the character names the data type.
pub open spec fn spec_data_type_of_char_is(c: char, t: DataType) -> bool {
    crate::supmcu::parsing::spec_data_type_of_char(c) == Some(t)
}

impl PremadeTelemetryDefs {
    /// The constant metadata template this name stands for.
    pub fn to_definition(&self) -> (r: SupMCUTelemetryDefinition)
        ensures
            r@ == match self {
                PremadeTelemetryDefs::FirmwareVersion => firmware_version_model(),
                PremadeTelemetryDefs::Length => length_model(),
                PremadeTelemetryDefs::Simulatable => length_model(),
                PremadeTelemetryDefs::Name => name_model(),
                PremadeTelemetryDefs::Format => format_model(),
                PremadeTelemetryDefs::TlmAmount => tlm_amount_model(),
                PremadeTelemetryDefs::CmdAmount => cmd_amount_model(),
                PremadeTelemetryDefs::CmdName => cmd_name_model(),
                PremadeTelemetryDefs::McuId => mcu_id_model(),
            },
    {
        proof {
            reveal_strlit("S");
            reveal_strlit("s");
            reveal_strlit("ss");
            reveal_strlit("u");
            assert("S"@ =~= seq!['S']);
            assert("s"@ =~= seq!['s']);
            assert("ss"@ =~= seq!['s', 's']);
            assert("u"@ =~= seq!['u']);
            lemma_format_single('S', DataType::Str);
            lemma_format_single('s', DataType::UINT16);
            lemma_format_single('u', DataType::UINT8);
            lemma_format_pair('s', 's', DataType::UINT16, DataType::UINT16);
        }
        match self {
            PremadeTelemetryDefs::FirmwareVersion => SupMCUTelemetryDefinition {
                name: String::from_str("Firmware Version"),
                format: SupMCUFormat::new("S"),
                length: Some(77),
                default_sim_value: None,
                idx: 0,
                telemetry_type: TelemetryType::SupMCU,
            },
            PremadeTelemetryDefs::Length | PremadeTelemetryDefs::Simulatable => {
                SupMCUTelemetryDefinition {
                    name: String::from_str("Length"),
                    format: SupMCUFormat::new("s"),
                    length: None,
                    default_sim_value: None,
                    idx: 0,
                    telemetry_type: TelemetryType::SupMCU,
                }
            },
            PremadeTelemetryDefs::Name => SupMCUTelemetryDefinition {
                name: String::from_str("Name"),
                format: SupMCUFormat::new("S"),
                length: Some(33),
                default_sim_value: None,
                idx: 0,
                telemetry_type: TelemetryType::SupMCU,
            },
            PremadeTelemetryDefs::Format => SupMCUTelemetryDefinition {
                name: String::from_str("Format"),
                format: SupMCUFormat::new("S"),
                length: Some(25),
                default_sim_value: None,
                idx: 0,
                telemetry_type: TelemetryType::SupMCU,
            },
            PremadeTelemetryDefs::TlmAmount => SupMCUTelemetryDefinition {
                name: String::from_str("Amount"),
                format: SupMCUFormat::new("ss"),
                length: None,
                default_sim_value: None,
                idx: 14,
                telemetry_type: TelemetryType::SupMCU,
            },
            PremadeTelemetryDefs::CmdAmount => SupMCUTelemetryDefinition {
                name: String::from_str("Commands"),
                format: SupMCUFormat::new("s"),
                length: None,
                default_sim_value: None,
                idx: 17,
                telemetry_type: TelemetryType::SupMCU,
            },
            PremadeTelemetryDefs::CmdName => SupMCUTelemetryDefinition {
                name: String::from_str("Command Name"),
                format: SupMCUFormat::new("S"),
                length: Some(33),
                default_sim_value: None,
                idx: 0,
                telemetry_type: TelemetryType::SupMCU,
            },
            PremadeTelemetryDefs::McuId => SupMCUTelemetryDefinition {
                name: String::from_str("MCU ID"),
                format: SupMCUFormat::new("u"),
                length: None,
                default_sim_value: None,
                idx: 19,
                telemetry_type: TelemetryType::SupMCU,
            },
        }
    }

    /// The template a query suffix names, ignoring ASCII letter case, or
    /// `CommandParsingError` naming the suffix when none matches.
    pub fn from_suffix(s: &str) -> (r: Result<PremadeTelemetryDefs, ParsingError>)
        ensures
            match spec_suffix_def(s@) {
                Some(d) => r == Result::<PremadeTelemetryDefs, ParsingError>::Ok(d),
                None => (r matches Err(e) && e matches ParsingError::CommandParsingError(m) && m@
                    == "Invalid suffix "@ + s@),
            },
    {
        let upper = ascii_upper_chars(&chars_of_str(s));
        proof {
            reveal_strlit("NAME");
            reveal_strlit("LENGTH");
            reveal_strlit("FORMAT");
            reveal_strlit("SIMULATABLE");
            reveal_strlit("MCU_ID");
            reveal_strlit("VERSION");
            assert("NAME"@ =~= seq!['N', 'A', 'M', 'E']);
            assert("LENGTH"@ =~= seq!['L', 'E', 'N', 'G', 'T', 'H']);
            assert("FORMAT"@ =~= seq!['F', 'O', 'R', 'M', 'A', 'T']);
            assert("SIMULATABLE"@ =~= seq![
                'S',
                'I',
                'M',
                'U',
                'L',
                'A',
                'T',
                'A',
                'B',
                'L',
                'E',
            ]);
            assert("MCU_ID"@ =~= seq!['M', 'C', 'U', '_', 'I', 'D']);
            assert("VERSION"@ =~= seq!['V', 'E', 'R', 'S', 'I', 'O', 'N']);
        }
        if chars_eq(&upper, &chars_of_str("NAME")) {
            Ok(PremadeTelemetryDefs::Name)
        } else if chars_eq(&upper, &chars_of_str("LENGTH")) {
            Ok(PremadeTelemetryDefs::Length)
        } else if chars_eq(&upper, &chars_of_str("FORMAT")) {
            Ok(PremadeTelemetryDefs::Format)
        } else if chars_eq(&upper, &chars_of_str("SIMULATABLE")) {
            Ok(PremadeTelemetryDefs::Simulatable)
        } else if chars_eq(&upper, &chars_of_str("MCU_ID")) {
            Ok(PremadeTelemetryDefs::McuId)
        } else if chars_eq(&upper, &chars_of_str("VERSION")) {
            Ok(PremadeTelemetryDefs::FirmwareVersion)
        } else {
            Err(ParsingError::CommandParsingError(String::from_str("Invalid suffix ").concat(s)))
        }
    }
}

/// An ASCII letter raised; any other character unchanged.
pub open spec fn spec_to_upper(c: char) -> char {
    if 'a' <= c && c <= 'z' {
        (((c as u32) - 32) as char)
    } else {
        c
    }
}

/// A string with its ASCII letters raised.
pub open spec fn spec_ascii_upper(s: Seq<char>) -> Seq<char> {
    s.map_values(|c: char| spec_to_upper(c))
}

/// The metadata template a query suffix names, ignoring ASCII letter case.
pub open spec fn spec_suffix_def(s: Seq<char>) -> Option<PremadeTelemetryDefs> {
    let u = spec_ascii_upper(s);
    if u == seq!['N', 'A', 'M', 'E'] {
        Some(PremadeTelemetryDefs::Name)
    } else if u == seq!['L', 'E', 'N', 'G', 'T', 'H'] {
        Some(PremadeTelemetryDefs::Length)
    } else if u == seq!['F', 'O', 'R', 'M', 'A', 'T'] {
        Some(PremadeTelemetryDefs::Format)
    } else if u == seq!['S', 'I', 'M', 'U', 'L', 'A', 'T', 'A', 'B', 'L', 'E'] {
        Some(PremadeTelemetryDefs::Simulatable)
    } else if u == seq!['M', 'C', 'U', '_', 'I', 'D'] {
        Some(PremadeTelemetryDefs::McuId)
    } else if u == seq!['V', 'E', 'R', 'S', 'I', 'O', 'N'] {
        Some(PremadeTelemetryDefs::FirmwareVersion)
    } else {
        None
    }
}

/// An ASCII letter raised; any other character unchanged.
fn to_upper(c: char) -> (r: char)
    ensures
        r == spec_to_upper(c),
{
    if 'a' <= c && c <= 'z' {
        (((c as u32) - 32) as u8) as char
    } else {
        c
    }
}

/// The characters with their ASCII letters raised.
fn ascii_upper_chars(chars: &Vec<char>) -> (r: Vec<char>)
    ensures
        r@ == spec_ascii_upper(chars@),
{
    let mut r: Vec<char> = Vec::new();
    let n = chars.len();
    proof {
        assert(r@ =~= spec_ascii_upper(chars@.take(0int)));
    }
    for i in 0..n
        invariant
            n == chars@.len(),
            r@ == spec_ascii_upper(chars@.take(i as int)),
    {
        r.push(to_upper(chars[i]));
        proof {
            assert(chars@.take(i + 1) =~= chars@.take(i as int).push(chars@[i as int]));
            assert(spec_ascii_upper(chars@.take(i + 1)) =~= spec_ascii_upper(
                chars@.take(i as int),
            ).push(spec_to_upper(chars@[i as int])));
        }
    }
    proof {
        assert(chars@.take(n as int) =~= chars@);
    }
    r
}

/// Whether a character is an ASCII letter or digit: the classes that survive
/// name normalization.
pub open spec fn spec_is_alnum(c: char) -> bool {
    ('a' <= c && c <= 'z') || ('A' <= c && c <= 'Z') || ('0' <= c && c <= '9')
}

/// An ASCII letter lowered; any other character unchanged.
pub open spec fn spec_to_lower(c: char) -> char {
    if 'A' <= c && c <= 'Z' {
        (((c as u32) + 32) as char)
    } else {
        c
    }
}

/// Lowers every kept character and replaces each maximal run of
/// non-alphanumeric characters with a single underscore. `prev_sep` says
/// whether a run is already open to the left.
pub open spec fn spec_collapse(s: Seq<char>, prev_sep: bool) -> Seq<char>
    decreases s.len(),
{
    if s.len() == 0 {
        Seq::empty()
    } else if spec_is_alnum(s[0]) {
        seq![spec_to_lower(s[0])] + spec_collapse(s.skip(1), false)
    } else if prev_sep {
        spec_collapse(s.skip(1), true)
    } else {
        seq!['_'] + spec_collapse(s.skip(1), true)
    }
}

/// A normalized telemetry name: runs of non-alphanumeric characters become
/// one underscore each, letters are lowered, and one trailing underscore, if
/// any, is trimmed.
pub open spec fn spec_normalized_name(s: Seq<char>) -> Seq<char> {
    let collapsed = spec_collapse(s, false);
    if collapsed.len() > 0 && collapsed.last() == '_' {
        collapsed.drop_last()
    } else {
        collapsed
    }
}

/// Whether a character is an ASCII letter or digit.
fn is_alnum(c: char) -> (r: bool)
    ensures
        r == spec_is_alnum(c),
{
    ('a' <= c && c <= 'z') || ('A' <= c && c <= 'Z') || ('0' <= c && c <= '9')
}

/// An ASCII letter lowered; any other character unchanged.
fn to_lower(c: char) -> (r: char)
    ensures
        r == spec_to_lower(c),
{
    if 'A' <= c && c <= 'Z' {
        (((c as u32) + 32) as u8) as char
    } else {
        c
    }
}

/// Normalizes a raw telemetry name: every maximal run of non-alphanumeric
/// characters becomes a single underscore, letters are lowered, and one
/// trailing underscore, if present, is trimmed.
pub fn normalize_name(name: &String) -> (r: String)
    ensures
        r@ == spec_normalized_name(name@),
{
    let chars = chars_of_str(name.as_str());
    let n = chars.len();
    let mut out: Vec<char> = Vec::new();
    let mut prev_sep: bool = false;
    proof {
        assert(name@.skip(0) =~= name@);
        assert(Seq::<char>::empty() + spec_collapse(name@, false) =~= spec_collapse(name@, false));
    }
    for i in 0..n
        invariant
            n == chars@.len(),
            chars@ == name@,
            spec_collapse(name@, false) == out@ + spec_collapse(name@.skip(i as int), prev_sep),
    {
        proof {
            assert(name@.skip(i as int).skip(1) =~= name@.skip(i + 1));
            assert(name@.skip(i as int)[0] == name@[i as int]);
        }
        let c = chars[i];
        if is_alnum(c) {
            out.push(to_lower(c));
            prev_sep = false;
            proof {
                assert(out@ + spec_collapse(name@.skip(i + 1), false) =~= out@.drop_last() + (seq![
                    spec_to_lower(name@[i as int]),
                ] + spec_collapse(name@.skip(i + 1), false)));
            }
        } else if !prev_sep {
            out.push('_');
            prev_sep = true;
            proof {
                assert(out@ + spec_collapse(name@.skip(i + 1), true) =~= out@.drop_last() + (seq![
                    '_',
                ] + spec_collapse(name@.skip(i + 1), true)));
            }
        }
    }
    proof {
        assert(name@.skip(n as int) =~= Seq::<char>::empty());
        assert(out@ + Seq::<char>::empty() =~= out@);
    }
    if out.len() > 0 {
        let lastc = out[out.len() - 1];
        if lastc == '_' {
            let _ = out.pop();
            proof {
                assert(out@ =~= spec_collapse(name@, false).drop_last());
            }
        }
    }
    string_from_chars(&out)
}

} // verus!

verus! {

/// Where the discovery walk stands.
#[derive(Clone, Copy, Debug, PartialEq, Eq, Structural)]
pub enum DiscoveryPhase {
    /// Awaiting the firmware version (item 0).
    Version,
    /// Awaiting the two telemetry counts (item 14).
    TlmCounts,
    /// Awaiting the current item's name.
    ItemName,
    /// Awaiting the current item's format string.
    ItemFormat,
    /// Awaiting the current item's declared length.
    ItemLength,
    /// Awaiting whether the current item can be simulated: any nonzero
    /// response leads to fetching the item's default values.
    ItemSimulatable,
    /// Awaiting the current item's own telemetry, as its default values.
    ItemDefault,
    /// Awaiting the command count (item 17).
    CmdCount,
    /// Awaiting the current command's name.
    CmdName,
    /// The walk is complete.
    Done,
}

/// Mathematical model of a discovery session.
pub struct SessionModel {
    pub phase: DiscoveryPhase,
    pub supmcu_total: u16,
    pub module_total: u16,
    pub item_idx: u16,
    pub current_kind: TelemetryType,
    pub cmd_total: u16,
    pub cmd_idx: u16,
    pub partial: TelemetryDefModel,
}

/// Mathematical model of what the caller must do next.
pub enum ActionModel {
    Query { command: Seq<char>, response_def: TelemetryDefModel },
    Finished,
}

/// What the caller must do next: run one command/response exchange — send
/// the command, wait the module's response delay, read a response sized by
/// (and decoded with) the given definition, retrying not-ready responses per
/// the module's policy — and hand the decoded values back; or stop, the
/// definition being complete.
pub enum DiscoveryAction {
    Query { command: String, response_def: SupMCUTelemetryDefinition },
    Finished,
}

impl View for DiscoveryAction {
    type V = ActionModel;

    open spec fn view(&self) -> ActionModel {
        match self {
            DiscoveryAction::Query { command, response_def } => ActionModel::Query {
                command: command@,
                response_def: response_def@,
            },
            DiscoveryAction::Finished => ActionModel::Finished,
        }
    }
}

/// The walk over one module: which phase it is in, the counts it has
/// learned, and the telemetry item under construction.
#[derive(Debug)]
pub struct DiscoverySession {
    phase: DiscoveryPhase,
    supmcu_total: u16,
    module_total: u16,
    item_idx: u16,
    current_kind: TelemetryType,
    cmd_total: u16,
    cmd_idx: u16,
    partial: SupMCUTelemetryDefinition,
}

impl View for DiscoverySession {
    type V = SessionModel;

    closed spec fn view(&self) -> SessionModel {
        SessionModel {
            phase: self.phase,
            supmcu_total: self.supmcu_total,
            module_total: self.module_total,
            item_idx: self.item_idx,
            current_kind: self.current_kind,
            cmd_total: self.cmd_total,
            cmd_idx: self.cmd_idx,
            partial: self.partial@,
        }
    }
}

/// A telemetry item about to be discovered: only its place is known.
pub open spec fn spec_fresh_item(kind: TelemetryType, idx: u16) -> TelemetryDefModel {
    TelemetryDefModel {
        name: Seq::empty(),
        format: Seq::empty(),
        length: None,
        default_sim_value: None,
        idx: idx as usize,
        telemetry_type: kind,
    }
}

/// The command prefix an item's queries use: the reserved `SUP` token for
/// SupMCU-scoped items, the module's own discovered name otherwise.
pub open spec fn spec_item_prefix(def: ModuleDefModel, kind: TelemetryType) -> Seq<char> {
    if kind == TelemetryType::SupMCU {
        seq!['S', 'U', 'P']
    } else {
        def.name
    }
}

/// A metadata query for an item: its telemetry query plus a suffix.
pub open spec fn spec_item_query(
    def: ModuleDefModel,
    partial: TelemetryDefModel,
    suffix: Seq<char>,
) -> Seq<char> {
    spec_tlm_command(spec_item_prefix(def, partial.telemetry_type), partial.idx as nat) + suffix
}

/// The `,NAME` query suffix.
pub open spec fn name_suffix() -> Seq<char> {
    seq![',', 'N', 'A', 'M', 'E']
}

/// The `,FORMAT` query suffix.
pub open spec fn format_suffix() -> Seq<char> {
    seq![',', 'F', 'O', 'R', 'M', 'A', 'T']
}

/// The `,LENGTH` query suffix.
pub open spec fn length_suffix() -> Seq<char> {
    seq![',', 'L', 'E', 'N', 'G', 'T', 'H']
}

/// The `,SIMULATABLE` query suffix.
pub open spec fn simulatable_suffix() -> Seq<char> {
    seq![',', 'S', 'I', 'M', 'U', 'L', 'A', 'T', 'A', 'B', 'L', 'E']
}

/// The module name whose command catalog is never enumerated.
pub open spec fn dcps_name() -> Seq<char> {
    seq!['D', 'C', 'P', 'S']
}

/// A counter moved one step on, wrapping at its bound.
pub open spec fn spec_wrap_inc(n: u16) -> u16 {
    if n == u16::MAX {
        0u16
    } else {
        (n + 1) as u16
    }
}

/// Begins the next telemetry item, moves on to command enumeration, or
/// finishes: SupMCU-scoped items come first, then module-scoped items, then
/// the command catalog — skipped entirely for a `DCPS` module.
pub open spec fn spec_start_next(s: SessionModel, def: ModuleDefModel) -> (SessionModel, ActionModel) {
    let switch = s.current_kind == TelemetryType::SupMCU && s.item_idx >= s.supmcu_total;
    let kind = if switch { TelemetryType::Module } else { s.current_kind };
    let idx = if switch { 0u16 } else { s.item_idx };
    let total = if kind == TelemetryType::SupMCU { s.supmcu_total } else { s.module_total };
    if idx < total {
        let partial = spec_fresh_item(kind, idx);
        (
            SessionModel {
                phase: DiscoveryPhase::ItemName,
                current_kind: kind,
                item_idx: idx,
                partial,
                ..s
            },
            ActionModel::Query {
                command: spec_item_query(def, partial, name_suffix()),
                response_def: name_model(),
            },
        )
    } else if def.name == dcps_name() {
        (
            SessionModel { phase: DiscoveryPhase::Done, current_kind: kind, item_idx: idx, ..s },
            ActionModel::Finished,
        )
    } else {
        (
            SessionModel { phase: DiscoveryPhase::CmdCount, current_kind: kind, item_idx: idx, ..s },
            ActionModel::Query {
                command: spec_tlm_command(seq!['S', 'U', 'P'], 17),
                response_def: cmd_amount_model(),
            },
        )
    }
}

/// Asks for the next command name, or finishes when the catalog is complete.
pub open spec fn spec_next_cmd(s: SessionModel) -> (SessionModel, ActionModel) {
    if s.cmd_idx < s.cmd_total {
        (
            SessionModel { phase: DiscoveryPhase::CmdName, ..s },
            ActionModel::Query {
                command: spec_com_command(s.cmd_idx as nat),
                response_def: cmd_name_model(),
            },
        )
    } else {
        (SessionModel { phase: DiscoveryPhase::Done, ..s }, ActionModel::Finished)
    }
}

/// Appends the finished item to the module definition and moves on.
pub open spec fn spec_finish_item(s: SessionModel, def: ModuleDefModel) -> (
    SessionModel,
    ModuleDefModel,
    ActionModel,
) {
    let def2 = ModuleDefModel { telemetry: def.telemetry.push(s.partial), ..def };
    let s2 = SessionModel { item_idx: spec_wrap_inc(s.item_idx), ..s };
    let (s3, a) = spec_start_next(s2, def2);
    (s3, def2, a)
}

/// After the item's format (and length, if needed) is known: ask whether it
/// can be simulated — only on a simulatable module — or finish the item.
pub open spec fn spec_maybe_simulatable(s: SessionModel, def: ModuleDefModel) -> (
    SessionModel,
    ModuleDefModel,
    ActionModel,
) {
    if def.simulatable {
        (
            SessionModel { phase: DiscoveryPhase::ItemSimulatable, ..s },
            def,
            ActionModel::Query {
                command: spec_item_query(def, s.partial, simulatable_suffix()),
                response_def: length_model(),
            },
        )
    } else {
        spec_finish_item(s, def)
    }
}

/// After the item's format is known: fetch the declared length when the
/// format holds a string, else continue.
pub open spec fn spec_after_format(s: SessionModel, def: ModuleDefModel) -> (
    SessionModel,
    ModuleDefModel,
    ActionModel,
) {
    if spec_format_byte_length(s.partial.format) is None {
        (
            SessionModel { phase: DiscoveryPhase::ItemLength, ..s },
            def,
            ActionModel::Query {
                command: spec_item_query(def, s.partial, length_suffix()),
                response_def: length_model(),
            },
        )
    } else {
        spec_maybe_simulatable(s, def)
    }
}

/// One step of the discovery walk: how the decoded values of the phase's
/// response change the session and the module definition, and what exchange
/// comes next. A response of an unexpected shape changes nothing of the data
/// and the walk moves on.
pub open spec fn spec_absorb(s: SessionModel, def: ModuleDefModel, data: Seq<ValueModel>) -> (
    SessionModel,
    ModuleDefModel,
    ActionModel,
) {
    match s.phase {
        DiscoveryPhase::Version => {
            let def2 = if data.len() > 0 && data[0] is Str {
                ModuleDefModel {
                    name: spec_cmd_name(data[0]->Str_0),
                    simulatable: spec_simulatable_version(data[0]->Str_0),
                    ..def
                }
            } else {
                def
            };
            (
                SessionModel { phase: DiscoveryPhase::TlmCounts, ..s },
                def2,
                ActionModel::Query {
                    command: spec_tlm_command(seq!['S', 'U', 'P'], 14),
                    response_def: tlm_amount_model(),
                },
            )
        },
        DiscoveryPhase::TlmCounts => {
            let sup = if data.len() > 0 && data[0] is U16 { data[0]->U16_0 } else { 0u16 };
            let md = if data.len() > 1 && data[1] is U16 { data[1]->U16_0 } else { 0u16 };
            let s2 = SessionModel {
                supmcu_total: sup,
                module_total: md,
                current_kind: TelemetryType::SupMCU,
                item_idx: 0u16,
                ..s
            };
            let (s3, a) = spec_start_next(s2, def);
            (s3, def, a)
        },
        DiscoveryPhase::ItemName => {
            let s2 = if data.len() > 0 && data[0] is Str {
                SessionModel {
                    partial: TelemetryDefModel {
                        name: spec_normalized_name(data[0]->Str_0),
                        ..s.partial
                    },
                    ..s
                }
            } else {
                s
            };
            (
                SessionModel { phase: DiscoveryPhase::ItemFormat, ..s2 },
                def,
                ActionModel::Query {
                    command: spec_item_query(def, s2.partial, format_suffix()),
                    response_def: format_model(),
                },
            )
        },
        DiscoveryPhase::ItemFormat => {
            let s2 = if data.len() > 0 && data[0] is Str {
                SessionModel {
                    partial: TelemetryDefModel {
                        format: spec_format_of_chars(data[0]->Str_0),
                        ..s.partial
                    },
                    ..s
                }
            } else {
                s
            };
            spec_after_format(s2, def)
        },
        DiscoveryPhase::ItemLength => {
            let s2 = if data.len() > 0 && data[0] is U16 {
                SessionModel {
                    partial: TelemetryDefModel {
                        length: Some(data[0]->U16_0 as usize),
                        ..s.partial
                    },
                    ..s
                }
            } else {
                s
            };
            spec_maybe_simulatable(s2, def)
        },
        DiscoveryPhase::ItemSimulatable => {
            if data.len() > 0 && data[0] is U16 && data[0]->U16_0 != 0 {
                (
                    SessionModel { phase: DiscoveryPhase::ItemDefault, ..s },
                    def,
                    ActionModel::Query {
                        command: spec_item_query(def, s.partial, Seq::empty()),
                        response_def: s.partial,
                    },
                )
            } else {
                spec_finish_item(s, def)
            }
        },
        DiscoveryPhase::ItemDefault => {
            let s2 = SessionModel {
                partial: TelemetryDefModel { default_sim_value: Some(data), ..s.partial },
                ..s
            };
            spec_finish_item(s2, def)
        },
        DiscoveryPhase::CmdCount => {
            let total = if data.len() > 0 && data[0] is U16 { data[0]->U16_0 } else { 0u16 };
            let s2 = SessionModel { cmd_total: total, cmd_idx: 0u16, ..s };
            let (s3, a) = spec_next_cmd(s2);
            (s3, def, a)
        },
        DiscoveryPhase::CmdName => {
            let def2 = if data.len() > 0 && data[0] is Str {
                ModuleDefModel {
                    commands: def.commands.push(
                        CommandModel { name: data[0]->Str_0, idx: s.cmd_idx },
                    ),
                    ..def
                }
            } else {
                def
            };
            let s2 = SessionModel { cmd_idx: spec_wrap_inc(s.cmd_idx), ..s };
            let (s3, a) = spec_next_cmd(s2);
            (s3, def2, a)
        },
        DiscoveryPhase::Done => (s, def, ActionModel::Finished),
    }
}

} // verus!

verus! {

/// A counter moved one step on, wrapping at its bound.
fn wrap_inc(n: u16) -> (r: u16)
    ensures
        r == spec_wrap_inc(n),
{
    if n == u16::MAX {
        0
    } else {
        n + 1
    }
}

/// The metadata query for the item under construction: its telemetry query
/// plus the given suffix.
fn item_query_cmd(module: &SupMCUModule, partial: &SupMCUTelemetryDefinition, suffix: &str) -> (r:
    String)
    requires
        module@.definition is Some,
    ensures
        r@ == spec_item_query(module@.definition->0, partial@, suffix@),
{
    let base = match module.create_tlm_command(partial) {
        Ok(c) => c,
        Err(_) => {
            proof {
                assert(false);
            }
            String::new()
        },
    };
    base.concat(suffix)
}

impl DiscoverySession {
    /// Starts the discovery walk over a module: gives it an empty definition
    /// if it has none, and prescribes the first exchange, the firmware
    /// version query.
    pub fn begin(module: &mut SupMCUModule) -> (r: (DiscoverySession, DiscoveryAction))
        ensures
            final(module)@.definition is Some,
            old(module)@.definition is Some ==> final(module)@ == old(module)@,
            old(module)@.definition is None ==> final(module)@ == (ModuleModel {
                definition: Some(
                    ModuleDefModel {
                        name: Seq::<char>::empty(),
                        address: old(module)@.address,
                        simulatable: false,
                        telemetry: Seq::empty(),
                        commands: Seq::empty(),
                        mcu: crate::supmcu::parsing::McuType::UNKNOWN,
                        response_delay: crate::supmcu::DEFAULT_RESPONSE_DELAY,
                    },
                ),
                ..old(module)@
            }),
            r.0@ == (SessionModel {
                phase: DiscoveryPhase::Version,
                supmcu_total: 0u16,
                module_total: 0u16,
                item_idx: 0u16,
                current_kind: TelemetryType::SupMCU,
                cmd_total: 0u16,
                cmd_idx: 0u16,
                partial: spec_fresh_item(TelemetryType::SupMCU, 0u16),
            }),
            r.1@ == (ActionModel::Query {
                command: spec_tlm_command(seq!['S', 'U', 'P'], 0),
                response_def: firmware_version_model(),
            }),
    {
        module.ensure_definition();
        let response_def = PremadeTelemetryDefs::FirmwareVersion.to_definition();
        let command = match module.create_tlm_command(&response_def) {
            Ok(c) => c,
            Err(_) => {
                proof {
                    assert(false);
                }
                String::new()
            },
        };
        let session = DiscoverySession {
            phase: DiscoveryPhase::Version,
            supmcu_total: 0,
            module_total: 0,
            item_idx: 0,
            current_kind: TelemetryType::SupMCU,
            cmd_total: 0,
            cmd_idx: 0,
            partial: SupMCUTelemetryDefinition::default(),
        };
        (session, DiscoveryAction::Query { command, response_def })
    }

    /// Feeds the decoded values of the pending exchange into the walk: the
    /// session and the module definition change exactly as [`spec_absorb`]
    /// says, and the returned action is the next exchange to run.
    pub fn absorb(&mut self, module: &mut SupMCUModule, data: Vec<SupMCUValue>) -> (a:
        DiscoveryAction)
        requires
            old(module)@.definition is Some,
        ensures
            final(module)@.definition is Some,
            ({
                let (s2, def2, am) = spec_absorb(
                    old(self)@,
                    old(module)@.definition->0,
                    value_models(data@),
                );
                &&& final(self)@ == s2
                &&& final(module)@ == (ModuleModel { definition: Some(def2), ..old(module)@ })
                &&& a@ == am
            }),
    {
        proof {
            if data@.len() > 0 {
                assert(value_models(data@)[0] == data@[0]@);
            }
            if data@.len() > 1 {
                assert(value_models(data@)[1] == data@[1]@);
            }
        }
        match self.phase {
            DiscoveryPhase::Version => {
                if data.len() > 0 {
                    match vstd::std_specs::vec::vec_index(&data, 0) {
                        SupMCUValue::Str(v) => {
                            let (name, simulatable) = parse_version(v);
                            module.set_definition_identity(name, simulatable);
                        },
                        _ => {},
                    }
                }
                self.phase = DiscoveryPhase::TlmCounts;
                let response_def = PremadeTelemetryDefs::TlmAmount.to_definition();
                let command = match module.create_tlm_command(&response_def) {
                    Ok(c) => c,
                    Err(_) => {
                        proof {
                            assert(false);
                        }
                        String::new()
                    },
                };
                DiscoveryAction::Query { command, response_def }
            },
            DiscoveryPhase::TlmCounts => {
                let mut sup: u16 = 0;
                let mut md: u16 = 0;
                if data.len() > 0 {
                    match vstd::std_specs::vec::vec_index(&data, 0) {
                        SupMCUValue::U16(u) => {
                            sup = *u;
                        },
                        _ => {},
                    }
                }
                if data.len() > 1 {
                    match vstd::std_specs::vec::vec_index(&data, 1) {
                        SupMCUValue::U16(u) => {
                            md = *u;
                        },
                        _ => {},
                    }
                }
                self.supmcu_total = sup;
                self.module_total = md;
                self.current_kind = TelemetryType::SupMCU;
                self.item_idx = 0;
                self.start_next(module)
            },
            DiscoveryPhase::ItemName => {
                if data.len() > 0 {
                    match vstd::std_specs::vec::vec_index(&data, 0) {
                        SupMCUValue::Str(n) => {
                            self.partial.name = normalize_name(n);
                        },
                        _ => {},
                    }
                }
                self.phase = DiscoveryPhase::ItemFormat;
                let command = item_query_cmd(module, &self.partial, ",FORMAT");
                proof {
                    reveal_strlit(",FORMAT");
                    assert(",FORMAT"@ =~= format_suffix());
                }
                DiscoveryAction::Query {
                    command,
                    response_def: PremadeTelemetryDefs::Format.to_definition(),
                }
            },
            DiscoveryPhase::ItemFormat => {
                if data.len() > 0 {
                    match vstd::std_specs::vec::vec_index(&data, 0) {
                        SupMCUValue::Str(f) => {
                            self.partial.format = SupMCUFormat::new(f.as_str());
                        },
                        _ => {},
                    }
                }
                self.after_format(module)
            },
            DiscoveryPhase::ItemLength => {
                if data.len() > 0 {
                    match vstd::std_specs::vec::vec_index(&data, 0) {
                        SupMCUValue::U16(l) => {
                            self.partial.length = Some(*l as usize);
                        },
                        _ => {},
                    }
                }
                self.maybe_simulatable(module)
            },
            DiscoveryPhase::ItemSimulatable => {
                let mut simulate: bool = false;
                if data.len() > 0 {
                    match vstd::std_specs::vec::vec_index(&data, 0) {
                        SupMCUValue::U16(u) => {
                            simulate = *u != 0;
                        },
                        _ => {},
                    }
                }
                if simulate {
                    self.phase = DiscoveryPhase::ItemDefault;
                    let command = item_query_cmd(module, &self.partial, "");
                    proof {
                        reveal_strlit("");
                        assert(""@ =~= Seq::<char>::empty());
                    }
                    DiscoveryAction::Query { command, response_def: self.partial.clone() }
                } else {
                    self.finish_item(module)
                }
            },
            DiscoveryPhase::ItemDefault => {
                self.partial.default_sim_value = Some(data);
                self.finish_item(module)
            },
            DiscoveryPhase::CmdCount => {
                let mut total: u16 = 0;
                if data.len() > 0 {
                    match vstd::std_specs::vec::vec_index(&data, 0) {
                        SupMCUValue::U16(u) => {
                            total = *u;
                        },
                        _ => {},
                    }
                }
                self.cmd_total = total;
                self.cmd_idx = 0;
                self.next_cmd()
            },
            DiscoveryPhase::CmdName => {
                if data.len() > 0 {
                    match vstd::std_specs::vec::vec_index(&data, 0) {
                        SupMCUValue::Str(n) => {
                            let cmd = SupMCUCommand { name: n.clone(), idx: self.cmd_idx };
                            module.push_command(cmd);
                        },
                        _ => {},
                    }
                }
                self.cmd_idx = wrap_inc(self.cmd_idx);
                self.next_cmd()
            },
            DiscoveryPhase::Done => DiscoveryAction::Finished,
        }
    }

    /// Begins the next telemetry item, moves on to command enumeration, or
    /// finishes, as [`spec_start_next`] says.
    fn start_next(&mut self, module: &SupMCUModule) -> (a: DiscoveryAction)
        requires
            module@.definition is Some,
        ensures
            ({
                let (s2, a2) = spec_start_next(old(self)@, module@.definition->0);
                final(self)@ == s2 && a@ == a2
            }),
    {
        if matches!(self.current_kind, TelemetryType::SupMCU) && self.item_idx
            >= self.supmcu_total {
            self.current_kind = TelemetryType::Module;
            self.item_idx = 0;
        }
        let total = if matches!(self.current_kind, TelemetryType::SupMCU) {
            self.supmcu_total
        } else {
            self.module_total
        };
        if self.item_idx < total {
            self.phase = DiscoveryPhase::ItemName;
            let mut partial = SupMCUTelemetryDefinition::default();
            partial.idx = self.item_idx as usize;
            partial.telemetry_type = self.current_kind;
            self.partial = partial;
            let command = item_query_cmd(module, &self.partial, ",NAME");
            proof {
                reveal_strlit(",NAME");
                assert(",NAME"@ =~= name_suffix());
            }
            DiscoveryAction::Query {
                command,
                response_def: PremadeTelemetryDefs::Name.to_definition(),
            }
        } else {
            let def = match module.get_definition() {
                Ok(d) => d,
                Err(_) => {
                    proof {
                        assert(false);
                    }
                    return DiscoveryAction::Finished;
                },
            };
            let dcps = String::from_str("DCPS");
            proof {
                reveal_strlit("DCPS");
                assert("DCPS"@ =~= dcps_name());
            }
            if def.name == dcps {
                self.phase = DiscoveryPhase::Done;
                DiscoveryAction::Finished
            } else {
                self.phase = DiscoveryPhase::CmdCount;
                let response_def = PremadeTelemetryDefs::CmdAmount.to_definition();
                let command = match module.create_tlm_command(&response_def) {
                    Ok(c) => c,
                    Err(_) => {
                        proof {
                            assert(false);
                        }
                        String::new()
                    },
                };
                DiscoveryAction::Query { command, response_def }
            }
        }
    }

    /// Asks for the next command name, or finishes, as [`spec_next_cmd`] says.
    fn next_cmd(&mut self) -> (a: DiscoveryAction)
        ensures
            ({
                let (s2, a2) = spec_next_cmd(old(self)@);
                final(self)@ == s2 && a@ == a2
            }),
    {
        if self.cmd_idx < self.cmd_total {
            self.phase = DiscoveryPhase::CmdName;
            let base = String::from_str("SUP:COM? ");
            let tail = dec_string(self.cmd_idx as u64);
            let command = base.concat(tail.as_str());
            proof {
                reveal_strlit("SUP:COM? ");
                assert("SUP:COM? "@ =~= seq!['S', 'U', 'P', ':', 'C', 'O', 'M', '?', ' ']);
            }
            DiscoveryAction::Query {
                command,
                response_def: PremadeTelemetryDefs::CmdName.to_definition(),
            }
        } else {
            self.phase = DiscoveryPhase::Done;
            DiscoveryAction::Finished
        }
    }

    /// Appends the finished item to the module definition and moves on, as
    /// [`spec_finish_item`] says.
    fn finish_item(&mut self, module: &mut SupMCUModule) -> (a: DiscoveryAction)
        requires
            old(module)@.definition is Some,
        ensures
            final(module)@.definition is Some,
            ({
                let (s2, def2, a2) = spec_finish_item(old(self)@, old(module)@.definition->0);
                &&& final(self)@ == s2
                &&& final(module)@ == (ModuleModel { definition: Some(def2), ..old(module)@ })
                &&& a@ == a2
            }),
    {
        let done = self.partial.clone();
        module.push_telemetry(done);
        self.item_idx = wrap_inc(self.item_idx);
        self.start_next(module)
    }

    /// Asks whether the item can be simulated, or finishes it, as
    /// [`spec_maybe_simulatable`] says.
    fn maybe_simulatable(&mut self, module: &mut SupMCUModule) -> (a: DiscoveryAction)
        requires
            old(module)@.definition is Some,
        ensures
            final(module)@.definition is Some,
            ({
                let (s2, def2, a2) = spec_maybe_simulatable(old(self)@, old(module)@.definition->0);
                &&& final(self)@ == s2
                &&& final(module)@ == (ModuleModel { definition: Some(def2), ..old(module)@ })
                &&& a@ == a2
            }),
    {
        let simulatable = match module.get_definition() {
            Ok(d) => d.simulatable,
            Err(_) => {
                proof {
                    assert(false);
                }
                false
            },
        };
        if simulatable {
            self.phase = DiscoveryPhase::ItemSimulatable;
            let command = item_query_cmd(module, &self.partial, ",SIMULATABLE");
            proof {
                reveal_strlit(",SIMULATABLE");
                assert(",SIMULATABLE"@ =~= simulatable_suffix());
            }
            DiscoveryAction::Query {
                command,
                response_def: PremadeTelemetryDefs::Simulatable.to_definition(),
            }
        } else {
            self.finish_item(module)
        }
    }

    /// Fetches the item's declared length when its format holds a string, or
    /// continues, as [`spec_after_format`] says.
    fn after_format(&mut self, module: &mut SupMCUModule) -> (a: DiscoveryAction)
        requires
            old(module)@.definition is Some,
        ensures
            final(module)@.definition is Some,
            ({
                let (s2, def2, a2) = spec_after_format(old(self)@, old(module)@.definition->0);
                &&& final(self)@ == s2
                &&& final(module)@ == (ModuleModel { definition: Some(def2), ..old(module)@ })
                &&& a@ == a2
            }),
    {
        if self.partial.format.has_str() {
            self.phase = DiscoveryPhase::ItemLength;
            let command = item_query_cmd(module, &self.partial, ",LENGTH");
            proof {
                reveal_strlit(",LENGTH");
                assert(",LENGTH"@ =~= length_suffix());
            }
            DiscoveryAction::Query {
                command,
                response_def: PremadeTelemetryDefs::Length.to_definition(),
            }
        } else {
            self.maybe_simulatable(module)
        }
    }
}

} // verus!

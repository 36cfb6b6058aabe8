//! Argument parsing for query tools: a module may be named by its address or
//! its discovered name, and a telemetry item by its index or its name.

use vstd::prelude::*;

verus! {

use crate::supmcu::parsing::chars_of_str;
use vstd::string::StringExecFns;

/// The two ways a caller can name a module: by discovered name, or by bus
/// address.
#[derive(Debug)]
pub enum ModuleOption {
    Name(String),
    Address(u16),
}

impl PartialEq for ModuleOption {
    fn eq(&self, other: &Self) -> (r: bool) {
        match (self, other) {
            (ModuleOption::Name(a), ModuleOption::Name(b)) => *a == *b,
            (ModuleOption::Address(a), ModuleOption::Address(b)) => *a == *b,
            _ => false,
        }
    }
}

impl vstd::std_specs::cmp::PartialEqSpecImpl for ModuleOption {
    open spec fn obeys_eq_spec() -> bool {
        true
    }

    open spec fn eq_spec(&self, other: &Self) -> bool {
        match (self, other) {
            (ModuleOption::Name(a), ModuleOption::Name(b)) => a@ == b@,
            (ModuleOption::Address(a), ModuleOption::Address(b)) => a == b,
            _ => false,
        }
    }
}

impl Clone for ModuleOption {
    fn clone(&self) -> (r: Self)
        ensures
            match (self, &r) {
                (ModuleOption::Name(a), ModuleOption::Name(b)) => a@ == b@,
                (ModuleOption::Address(a), ModuleOption::Address(b)) => a == b,
                _ => false,
            },
    {
        match self {
            ModuleOption::Name(n) => ModuleOption::Name(n.clone()),
            ModuleOption::Address(a) => ModuleOption::Address(*a),
        }
    }
}

/// The two ways a caller can name a telemetry item: by name, or by index.
#[derive(Debug)]
pub enum TelemetryOption {
    Name(String),
    Index(usize),
}

impl PartialEq for TelemetryOption {
    fn eq(&self, other: &Self) -> (r: bool) {
        match (self, other) {
            (TelemetryOption::Name(a), TelemetryOption::Name(b)) => *a == *b,
            (TelemetryOption::Index(a), TelemetryOption::Index(b)) => *a == *b,
            _ => false,
        }
    }
}

impl vstd::std_specs::cmp::PartialEqSpecImpl for TelemetryOption {
    open spec fn obeys_eq_spec() -> bool {
        true
    }

    open spec fn eq_spec(&self, other: &Self) -> bool {
        match (self, other) {
            (TelemetryOption::Name(a), TelemetryOption::Name(b)) => a@ == b@,
            (TelemetryOption::Index(a), TelemetryOption::Index(b)) => a == b,
            _ => false,
        }
    }
}

impl Clone for TelemetryOption {
    fn clone(&self) -> (r: Self)
        ensures
            match (self, &r) {
                (TelemetryOption::Name(a), TelemetryOption::Name(b)) => a@ == b@,
                (TelemetryOption::Index(a), TelemetryOption::Index(b)) => a == b,
                _ => false,
            },
    {
        match self {
            TelemetryOption::Name(n) => TelemetryOption::Name(n.clone()),
            TelemetryOption::Index(i) => TelemetryOption::Index(*i),
        }
    }
}

/// The value of one digit character under the given radix, if any. Both
/// letter cases count from ten.
pub open spec fn spec_digit_val(c: char, radix: int) -> Option<int> {
    let v = if '0' <= c && c <= '9' {
        (c as u32) - ('0' as u32)
    } else if 'a' <= c && c <= 'z' {
        (c as u32) - ('a' as u32) + 10
    } else if 'A' <= c && c <= 'Z' {
        (c as u32) - ('A' as u32) + 10
    } else {
        -1
    };
    if 0 <= v < radix {
        Some(v)
    } else {
        None
    }
}

/// Whether every character is a digit under the radix.
pub open spec fn spec_all_digits(s: Seq<char>, radix: int) -> bool {
    forall|i: int| 0 <= i < s.len() ==> spec_digit_val(#[trigger] s[i], radix) is Some
}

/// The number the digit string denotes under the radix.
pub open spec fn spec_digits_val(s: Seq<char>, radix: int) -> int
    decreases s.len(),
{
    if s.len() == 0 {
        0int
    } else {
        spec_digits_val(s.drop_last(), radix) * radix + spec_digit_val(s.last(), radix)->0
    }
}

/// The number an unsigned integer literal denotes under the radix, within
/// the given bound: an optional leading plus, then one or more digits. A
/// minus sign never parses, as unsigned parsing refuses one.
pub open spec fn spec_parse_uint(s: Seq<char>, radix: int, max: int) -> Option<int> {
    let body = if s.len() > 0 && s[0] == '+' {
        s.skip(1)
    } else {
        s
    };
    if s.len() > 0 && s[0] == '-' {
        None
    } else if body.len() == 0 || !spec_all_digits(body, radix) {
        None
    } else {
        let v = spec_digits_val(body, radix);
        if v <= max {
            Some(v)
        } else {
            None
        }
    }
}

/// The string with every leading `0x` removed, as hexadecimal address
/// parsing strips it.
pub open spec fn spec_strip_0x(s: Seq<char>) -> Seq<char>
    decreases s.len(),
{
    if s.len() >= 2 && s[0] == '0' && s[1] == 'x' {
        spec_strip_0x(s.skip(2))
    } else {
        s
    }
}

/// One digit character's value under the radix, if any.
fn digit_val(c: char, radix: u32) -> (r: Option<u32>)
    requires
        2 <= radix <= 36,
    ensures
        match spec_digit_val(c, radix as int) {
            Some(v) => r == Some(v as u32),
            None => r is None,
        },
{
    let code = c as u32;
    let v: u32 = if '0' <= c && c <= '9' {
        code - ('0' as u32)
    } else if 'a' <= c && c <= 'z' {
        code - ('a' as u32) + 10
    } else if 'A' <= c && c <= 'Z' {
        code - ('A' as u32) + 10
    } else {
        return None;
    };
    if v < radix {
        Some(v)
    } else {
        None
    }
}

/// Parses an unsigned integer literal from characters: an optional leading
/// plus and one or more digits under the radix, refusing a minus sign and
/// values over `max`.
fn parse_uint_chars(chars: &Vec<char>, radix: u32, max: u64) -> (r: Option<u64>)
    requires
        2 <= radix <= 36,
    ensures
        match spec_parse_uint(chars@, radix as int, max as int) {
            Some(v) => 0 <= v <= max && r == Some(v as u64),
            None => r is None,
        },
{
    let n = chars.len();
    if n > 0 && chars[0] == '-' {
        return None;
    }
    let signed = n > 0 && chars[0] == '+';
    let start: usize = if signed {
        1
    } else {
        0
    };
    if start >= n {
        return None;
    }
    let ghost body = if signed {
        chars@.skip(1)
    } else {
        chars@
    };
    let mut acc: u64 = 0;
    let mut over: bool = false;
    let mut i: usize = start;
    while i < n
        invariant
            start <= i <= n,
            n == chars@.len(),
            signed == (chars@.len() > 0 && chars@[0] == '+'),
            chars@.len() > 0 ==> chars@[0] != '-',
            start == (if signed {
                1int
            } else {
                0int
            }),
            body == (if signed {
                chars@.skip(1)
            } else {
                chars@
            }),
            2 <= radix <= 36,
            max <= u64::MAX,
            spec_all_digits(body.take(i - start), radix as int),
            !over ==> acc == spec_digits_val(body.take(i - start), radix as int) && acc <= max,
            over ==> spec_digits_val(body.take(i - start), radix as int) > max,
        decreases n - i,
    {
        proof {
            assert(body[i - start] == chars@[i as int]);
            assert(body.take(i - start + 1).drop_last() =~= body.take(i - start));
            assert(body.take(i - start + 1).last() == body[i - start]);
        }
        let d = match digit_val(chars[i], radix) {
            Some(d) => d,
            None => {
                return None;
            },
        };
        if !over {
            let stepped = match acc.checked_mul(radix as u64) {
                Some(x) => x.checked_add(d as u64),
                None => None,
            };
            match stepped {
                Some(y) => {
                    if y <= max {
                        acc = y;
                    } else {
                        over = true;
                    }
                },
                None => {
                    over = true;
                },
            }
        } else {
            proof {
                let prev = spec_digits_val(body.take(i - start), radix as int);
                assert(prev * radix >= prev * 2) by (nonlinear_arith)
                    requires
                        prev > max >= 0,
                        radix >= 2,
                ;
            }
        }
        i = i + 1;
    }
    proof {
        assert(body.take(n - start) =~= body);
    }
    if over {
        return None;
    }
    Some(acc)
}

/// The given characters with every leading `0x` removed.
fn strip_0x(chars: Vec<char>) -> (r: Vec<char>)
    ensures
        r@ == spec_strip_0x(chars@),
    decreases chars@.len(),
{
    if chars.len() >= 2 {
        let starts = chars[0] == '0' && chars[1] == 'x';
        if starts {
            let mut rest: Vec<char> = Vec::new();
            let n = chars.len();
            for i in 2..n
                invariant
                    n == chars@.len(),
                    rest@ == chars@.subrange(2, i as int),
            {
                rest.push(chars[i]);
                proof {
                    assert(chars@.subrange(2, i + 1) =~= chars@.subrange(2, i as int).push(
                        chars@[i as int],
                    ));
                }
            }
            proof {
                assert(rest@ =~= chars@.skip(2));
            }
            return strip_0x(rest);
        }
    }
    chars
}

/// Parses a hexadecimal bus address, with any leading `0x` stripped; fails
/// with a fixed message on anything but a hexadecimal integer that fits.
pub fn parse_hex(s: &str) -> (r: Result<u16, String>)
    ensures
        match spec_parse_uint(spec_strip_0x(s@), 16, 0xffff) {
            Some(v) => 0 <= v <= 0xffff && r == Ok::<u16, String>(v as u16),
            None => (r matches Err(m) && m@ == "Error parsing hex address"@),
        },
{
    let chars = strip_0x(chars_of_str(s));
    match parse_uint_chars(&chars, 16, 0xffff) {
        Some(v) => Ok(v as u16),
        None => Err(String::from_str("Error parsing hex address")),
    }
}

/// Parses how the caller names a telemetry item: a decimal index when the
/// text is one, else the item's name, as given.
pub fn parse_tlm(s: &str) -> (r: Result<TelemetryOption, String>)
    ensures
        match spec_parse_uint(s@, 10, usize::MAX as int) {
            Some(v) => (r matches Ok(t) && t matches TelemetryOption::Index(i) && i == v),
            None => (r matches Ok(t) && t matches TelemetryOption::Name(n) && n@ == s@),
        },
{
    let chars = chars_of_str(s);
    match parse_uint_chars(&chars, 10, usize::MAX as u64) {
        Some(v) => Ok(TelemetryOption::Index(v as usize)),
        None => Ok(TelemetryOption::Name(String::from_str(s))),
    }
}

/// Parses how the caller names a module: a hexadecimal address when the text
/// is one (with any leading `0x` stripped), else the module's name, as given.
pub fn parse_module(s: &str) -> (r: Result<ModuleOption, String>)
    ensures
        match spec_parse_uint(spec_strip_0x(s@), 16, 0xffff) {
            Some(v) => (r matches Ok(m) && m matches ModuleOption::Address(a) && a == v),
            None => (r matches Ok(m) && m matches ModuleOption::Name(n) && n@ == s@),
        },
{
    match parse_hex(s) {
        Ok(a) => Ok(ModuleOption::Address(a)),
        Err(_) => Ok(ModuleOption::Name(String::from_str(s))),
    }
}

} // verus!

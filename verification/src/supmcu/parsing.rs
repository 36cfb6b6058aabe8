//! Binary telemetry codec: wire data types, format strings, typed values,
//! header parsing, and the byte-level decode/encode pair.
//!
//! Decoding is a pure function of a format and a byte sequence. Every
//! multi-byte quantity is little-endian on the wire; string payloads run up
//! to, and exclude, a null terminator. Floating-point payloads are carried
//! as their raw IEEE-754 bit patterns, so that byte round-trips are exact.

use itertools::Itertools;
use vstd::prelude::*;

verus! {

use vstd::bytes::{
    spec_u16_to_le_bytes, spec_u16_from_le_bytes, u16_to_le_bytes, u16_from_le_bytes,
    spec_u32_to_le_bytes, spec_u32_from_le_bytes, u32_to_le_bytes, u32_from_le_bytes,
    spec_u64_to_le_bytes, spec_u64_from_le_bytes, u64_to_le_bytes, u64_from_le_bytes,
    lemma_auto_spec_u16_to_from_le_bytes, lemma_auto_spec_u32_to_from_le_bytes,
    lemma_auto_spec_u64_to_from_le_bytes,
};
use vstd::utf8::{valid_utf8, decode_utf8, encode_utf8};
use vstd::slice::{slice_subrange, slice_to_vec};
use crate::ParsingError;

/// The closed set of primitive wire types a telemetry payload may hold.
///
/// Every type but `Str` has a fixed width; `Str` is variable-length and
/// null-terminated on the wire. Multi-byte values are little-endian.
#[derive(Clone, Copy, Debug, PartialEq, Eq, Structural)]
pub enum DataType {
    Str,
    Char,
    UINT8,
    INT8,
    UINT16,
    INT16,
    UINT32,
    INT32,
    UINT64,
    INT64,
    Float,
    Double,
    Hex8,
    Hex16,
}

/// The data type denoted by one format-string character, if any.
pub open spec fn spec_data_type_of_char(c: char) -> Option<DataType> {
    match c {
        'S' => Some(DataType::Str),
        'c' => Some(DataType::Char),
        'u' => Some(DataType::UINT8),
        't' => Some(DataType::INT8),
        's' => Some(DataType::UINT16),
        'n' => Some(DataType::INT16),
        'i' => Some(DataType::UINT32),
        'd' => Some(DataType::INT32),
        'l' => Some(DataType::UINT64),
        'k' => Some(DataType::INT64),
        'f' => Some(DataType::Float),
        'F' => Some(DataType::Double),
        'x' => Some(DataType::Hex8),
        'X' => Some(DataType::Hex8),
        'z' => Some(DataType::Hex16),
        'Z' => Some(DataType::Hex16),
        _ => None,
    }
}

/// The canonical tag character of a data type, as written by format strings.
pub open spec fn spec_tag_char(t: DataType) -> char {
    match t {
        DataType::Str => 'S',
        DataType::Char => 'c',
        DataType::UINT8 => 'u',
        DataType::INT8 => 't',
        DataType::UINT16 => 's',
        DataType::INT16 => 'n',
        DataType::UINT32 => 'i',
        DataType::INT32 => 'd',
        DataType::UINT64 => 'l',
        DataType::INT64 => 'k',
        DataType::Float => 'f',
        DataType::Double => 'F',
        DataType::Hex8 => 'x',
        DataType::Hex16 => 'z',
    }
}

/// The wire width in bytes of a data type, or `None` for `Str`.
pub open spec fn spec_byte_length(t: DataType) -> Option<usize> {
    match t {
        DataType::Str => None,
        DataType::Char => Some(1usize),
        DataType::UINT8 => Some(1usize),
        DataType::INT8 => Some(1usize),
        DataType::UINT16 => Some(2usize),
        DataType::INT16 => Some(2usize),
        DataType::UINT32 => Some(4usize),
        DataType::INT32 => Some(4usize),
        DataType::UINT64 => Some(8usize),
        DataType::INT64 => Some(8usize),
        DataType::Float => Some(4usize),
        DataType::Double => Some(8usize),
        DataType::Hex8 => Some(1usize),
        DataType::Hex16 => Some(2usize),
    }
}

impl DataType {
    /// The data type named by a format-string character, or
    /// `InvalidFormatCharacter` if the character is not a recognized tag.
    pub fn try_from_char(c: char) -> (r: Result<DataType, ParsingError>)
        ensures
            match spec_data_type_of_char(c) {
                Some(t) => r == Result::<DataType, ParsingError>::Ok(t),
                None => r == Result::<DataType, ParsingError>::Err(
                    ParsingError::InvalidFormatCharacter(c),
                ),
            },
    {
        match c {
            'S' => Ok(DataType::Str),
            'c' => Ok(DataType::Char),
            'u' => Ok(DataType::UINT8),
            't' => Ok(DataType::INT8),
            's' => Ok(DataType::UINT16),
            'n' => Ok(DataType::INT16),
            'i' => Ok(DataType::UINT32),
            'd' => Ok(DataType::INT32),
            'l' => Ok(DataType::UINT64),
            'k' => Ok(DataType::INT64),
            'f' => Ok(DataType::Float),
            'F' => Ok(DataType::Double),
            'x' => Ok(DataType::Hex8),
            'X' => Ok(DataType::Hex8),
            'z' => Ok(DataType::Hex16),
            'Z' => Ok(DataType::Hex16),
            _ => Err(ParsingError::InvalidFormatCharacter(c)),
        }
    }

    /// The canonical tag character for this data type.
    pub fn tag_char(&self) -> (c: char)
        ensures
            c == spec_tag_char(*self),
    {
        match self {
            DataType::Str => 'S',
            DataType::Char => 'c',
            DataType::UINT8 => 'u',
            DataType::INT8 => 't',
            DataType::UINT16 => 's',
            DataType::INT16 => 'n',
            DataType::UINT32 => 'i',
            DataType::INT32 => 'd',
            DataType::UINT64 => 'l',
            DataType::INT64 => 'k',
            DataType::Float => 'f',
            DataType::Double => 'F',
            DataType::Hex8 => 'x',
            DataType::Hex16 => 'z',
        }
    }

    /// The size in bytes of the data type, unless the type is `Str`.
    pub fn get_byte_length(&self) -> (r: Option<usize>)
        ensures
            r == spec_byte_length(*self),
    {
        match self {
            DataType::Str => None,
            DataType::Char => Some(1),
            DataType::UINT8 => Some(1),
            DataType::INT8 => Some(1),
            DataType::UINT16 => Some(2),
            DataType::INT16 => Some(2),
            DataType::UINT32 => Some(4),
            DataType::INT32 => Some(4),
            DataType::UINT64 => Some(8),
            DataType::INT64 => Some(8),
            DataType::Float => Some(4),
            DataType::Double => Some(8),
            DataType::Hex8 => Some(1),
            DataType::Hex16 => Some(2),
        }
    }
}

/// Mathematical model of a telemetry value: string payloads become character
/// sequences, everything else keeps its machine representation.
pub enum ValueModel {
    Str(Seq<char>),
    Char(char),
    U8(u8),
    I8(i8),
    U16(u16),
    I16(i16),
    U32(u32),
    I32(i32),
    U64(u64),
    I64(i64),
    Float(u32),
    Double(u64),
    Hex8(u8),
    Hex16(u16),
}

/// One decoded telemetry value: a tagged union over the wire types.
///
/// `Float` and `Double` carry the raw IEEE-754 bit pattern of the wire
/// value, single and double precision respectively.
#[derive(Debug)]
pub enum SupMCUValue {
    Str(String),
    Char(char),
    U8(u8),
    I8(i8),
    U16(u16),
    I16(i16),
    U32(u32),
    I32(i32),
    U64(u64),
    I64(i64),
    Float(u32),
    Double(u64),
    Hex8(u8),
    Hex16(u16),
}

impl View for SupMCUValue {
    type V = ValueModel;

    open spec fn view(&self) -> ValueModel {
        match self {
            SupMCUValue::Str(s) => ValueModel::Str(s@),
            SupMCUValue::Char(c) => ValueModel::Char(*c),
            SupMCUValue::U8(x) => ValueModel::U8(*x),
            SupMCUValue::I8(x) => ValueModel::I8(*x),
            SupMCUValue::U16(x) => ValueModel::U16(*x),
            SupMCUValue::I16(x) => ValueModel::I16(*x),
            SupMCUValue::U32(x) => ValueModel::U32(*x),
            SupMCUValue::I32(x) => ValueModel::I32(*x),
            SupMCUValue::U64(x) => ValueModel::U64(*x),
            SupMCUValue::I64(x) => ValueModel::I64(*x),
            SupMCUValue::Float(x) => ValueModel::Float(*x),
            SupMCUValue::Double(x) => ValueModel::Double(*x),
            SupMCUValue::Hex8(x) => ValueModel::Hex8(*x),
            SupMCUValue::Hex16(x) => ValueModel::Hex16(*x),
        }
    }
}

/// The models of a sequence of values.
pub open spec fn value_models(s: Seq<SupMCUValue>) -> Seq<ValueModel> {
    s.map_values(|v: SupMCUValue| v@)
}

impl PartialEq for SupMCUValue {
    fn eq(&self, other: &Self) -> (r: bool) {
        match (self, other) {
            (SupMCUValue::Str(a), SupMCUValue::Str(b)) => *a == *b,
            (SupMCUValue::Char(a), SupMCUValue::Char(b)) => *a == *b,
            (SupMCUValue::U8(a), SupMCUValue::U8(b)) => *a == *b,
            (SupMCUValue::I8(a), SupMCUValue::I8(b)) => *a == *b,
            (SupMCUValue::U16(a), SupMCUValue::U16(b)) => *a == *b,
            (SupMCUValue::I16(a), SupMCUValue::I16(b)) => *a == *b,
            (SupMCUValue::U32(a), SupMCUValue::U32(b)) => *a == *b,
            (SupMCUValue::I32(a), SupMCUValue::I32(b)) => *a == *b,
            (SupMCUValue::U64(a), SupMCUValue::U64(b)) => *a == *b,
            (SupMCUValue::I64(a), SupMCUValue::I64(b)) => *a == *b,
            (SupMCUValue::Float(a), SupMCUValue::Float(b)) => *a == *b,
            (SupMCUValue::Double(a), SupMCUValue::Double(b)) => *a == *b,
            (SupMCUValue::Hex8(a), SupMCUValue::Hex8(b)) => *a == *b,
            (SupMCUValue::Hex16(a), SupMCUValue::Hex16(b)) => *a == *b,
            _ => false,
        }
    }
}

impl vstd::std_specs::cmp::PartialEqSpecImpl for SupMCUValue {
    open spec fn obeys_eq_spec() -> bool {
        true
    }

    open spec fn eq_spec(&self, other: &Self) -> bool {
        self@ == other@
    }
}

impl Clone for SupMCUValue {
    fn clone(&self) -> (r: Self)
        ensures
            r == *self,
    {
        match self {
            SupMCUValue::Str(s) => SupMCUValue::Str(s.clone()),
            SupMCUValue::Char(c) => SupMCUValue::Char(*c),
            SupMCUValue::U8(x) => SupMCUValue::U8(*x),
            SupMCUValue::I8(x) => SupMCUValue::I8(*x),
            SupMCUValue::U16(x) => SupMCUValue::U16(*x),
            SupMCUValue::I16(x) => SupMCUValue::I16(*x),
            SupMCUValue::U32(x) => SupMCUValue::U32(*x),
            SupMCUValue::I32(x) => SupMCUValue::I32(*x),
            SupMCUValue::U64(x) => SupMCUValue::U64(*x),
            SupMCUValue::I64(x) => SupMCUValue::I64(*x),
            SupMCUValue::Float(x) => SupMCUValue::Float(*x),
            SupMCUValue::Double(x) => SupMCUValue::Double(*x),
            SupMCUValue::Hex8(x) => SupMCUValue::Hex8(*x),
            SupMCUValue::Hex16(x) => SupMCUValue::Hex16(*x),
        }
    }
}

/// A copy of a value vector, element for element.
fn clone_values(v: &Vec<SupMCUValue>) -> (r: Vec<SupMCUValue>)
    ensures
        r@ == v@,
{
    let mut r: Vec<SupMCUValue> = Vec::new();
    let n = v.len();
    for i in 0..n
        invariant
            n == v.len(),
            r@ == v@.take(i as int),
    {
        r.push(vstd::std_specs::vec::vec_index(v, i).clone());
        proof {
            assert(v@.take(i + 1) =~= v@.take(i as int).push(v@[i as int]));
        }
    }
    proof {
        assert(v@.take(n as int) =~= v@);
    }
    r
}

/// A decoded telemetry payload: the values, in format order.
pub type SupMCUTelemetryData = Vec<SupMCUValue>;

/// An ordered sequence of data types, built from a format string.
#[derive(Debug)]
pub struct SupMCUFormat {
    format: Vec<DataType>,
}

impl View for SupMCUFormat {
    type V = Seq<DataType>;

    closed spec fn view(&self) -> Seq<DataType> {
        self.format@
    }
}

impl PartialEq for SupMCUFormat {
    fn eq(&self, other: &Self) -> (r: bool) {
        let n = self.format.len();
        if n != other.format.len() {
            return false;
        }
        for i in 0..n
            invariant
                n == self.format.len() == other.format.len(),
                forall|j: int| 0 <= j < i ==> self.format@[j] == other.format@[j],
        {
            if self.format[i] != other.format[i] {
                return false;
            }
        }
        proof {
            assert(self.format@ =~= other.format@);
        }
        true
    }
}

impl vstd::std_specs::cmp::PartialEqSpecImpl for SupMCUFormat {
    open spec fn obeys_eq_spec() -> bool {
        true
    }

    open spec fn eq_spec(&self, other: &Self) -> bool {
        self@ == other@
    }
}

impl Clone for SupMCUFormat {
    fn clone(&self) -> (r: Self)
        ensures
            r@ == self@,
    {
        let mut format: Vec<DataType> = Vec::new();
        let n = self.format.len();
        for i in 0..n
            invariant
                n == self.format.len(),
                format@ == self.format@.take(i as int),
        {
            format.push(self.format[i]);
            proof {
                assert(self.format@.take(i + 1) =~= self.format@.take(i as int).push(
                    self.format@[i as int],
                ));
            }
        }
        proof {
            assert(self.format@.take(n as int) =~= self.format@);
        }
        SupMCUFormat { format }
    }
}

/// The format described by a string: each recognized tag character in order,
/// unrecognized characters dropped.
pub open spec fn spec_format_of_chars(s: Seq<char>) -> Seq<DataType>
    decreases s.len(),
{
    if s.len() == 0 {
        Seq::empty()
    } else {
        match spec_data_type_of_char(s[0]) {
            Some(t) => seq![t] + spec_format_of_chars(s.skip(1)),
            None => spec_format_of_chars(s.skip(1)),
        }
    }
}

/// The total wire width of a format, or `None` if it contains a `Str`.
pub open spec fn spec_format_byte_length(fmt: Seq<DataType>) -> Option<int>
    decreases fmt.len(),
{
    if fmt.len() == 0 {
        Some(0int)
    } else {
        match spec_byte_length(fmt[0]) {
            None => None,
            Some(w) => match spec_format_byte_length(fmt.skip(1)) {
                None => None,
                Some(rest) => Some(w + rest),
            },
        }
    }
}

/// A defined format width is nonnegative and at most eight bytes per element.
pub proof fn lemma_format_byte_length_bound(fmt: Seq<DataType>)
    ensures
        spec_format_byte_length(fmt) matches Some(n) ==> 0 <= n <= 8 * fmt.len(),
    decreases fmt.len(),
{
    if fmt.len() > 0 {
        lemma_format_byte_length_bound(fmt.skip(1));
    }
}

/// Appending one element to a format adds its width to the total.
proof fn lemma_format_byte_length_push(fmt: Seq<DataType>, t: DataType)
    ensures
        spec_format_byte_length(fmt.push(t)) == match (
            spec_format_byte_length(fmt),
            spec_byte_length(t),
        ) {
            (Some(n), Some(w)) => Some(n + w),
            _ => None::<int>,
        },
    decreases fmt.len(),
{
    assert(fmt.push(t)[fmt.len() as int] == t);
    if fmt.len() == 0 {
        assert(fmt.push(t).skip(1) =~= Seq::<DataType>::empty());
        assert(spec_format_byte_length(Seq::<DataType>::empty()) == Some(0int));
    } else {
        assert(fmt.push(t)[0] == fmt[0]);
        assert(fmt.push(t).skip(1) =~= fmt.skip(1).push(t));
        lemma_format_byte_length_push(fmt.skip(1), t);
    }
}

/// Extending a character sequence extends the format it describes.
proof fn lemma_format_of_chars_push(s: Seq<char>, c: char)
    ensures
        spec_format_of_chars(s.push(c)) == match spec_data_type_of_char(c) {
            Some(t) => spec_format_of_chars(s).push(t),
            None => spec_format_of_chars(s),
        },
    decreases s.len(),
{
    assert(s.push(c)[s.len() as int] == c);
    if s.len() == 0 {
        assert(s.push(c).skip(1) =~= Seq::<char>::empty());
        assert(spec_format_of_chars(Seq::<char>::empty()) =~= Seq::<DataType>::empty());
        match spec_data_type_of_char(c) {
            Some(t) => {
                assert(spec_format_of_chars(s.push(c)) =~= spec_format_of_chars(s).push(t));
            },
            None => {},
        }
    } else {
        assert(s.push(c)[0] == s[0]);
        assert(s.push(c).skip(1) =~= s.skip(1).push(c));
        lemma_format_of_chars_push(s.skip(1), c);
        match (spec_data_type_of_char(s[0]), spec_data_type_of_char(c)) {
            (Some(t0), Some(t)) => {
                assert(spec_format_of_chars(s.push(c)) =~= spec_format_of_chars(s).push(t));
            },
            _ => {},
        }
    }
}

impl SupMCUFormat {
    /// Builds a format from the recognized tag characters of a string,
    /// silently dropping every unrecognized character.
    pub fn new(fmt_str: &str) -> (r: SupMCUFormat)
        ensures
            r@ == spec_format_of_chars(fmt_str@),
    {
        let chars: Vec<char> = chars_of_str(fmt_str);
        let mut format: Vec<DataType> = Vec::new();
        let n = chars.len();
        for i in 0..n
            invariant
                n == chars.len(),
                chars@ == fmt_str@,
                format@ == spec_format_of_chars(fmt_str@.take(i as int)),
        {
            proof {
                assert(fmt_str@.take(i + 1) =~= fmt_str@.take(i as int).push(fmt_str@[i as int]));
                lemma_format_of_chars_push(fmt_str@.take(i as int), fmt_str@[i as int]);
            }
            match DataType::try_from_char(chars[i]) {
                Ok(t) => format.push(t),
                Err(_) => {},
            }
        }
        proof {
            assert(fmt_str@.take(n as int) =~= fmt_str@);
        }
        SupMCUFormat { format }
    }

    /// The number of elements in the format.
    pub fn len(&self) -> (n: usize)
        ensures
            n == self@.len(),
    {
        self.format.len()
    }

    /// The wire width of the data this format describes, or `None` if the
    /// format holds a string element, whose width is not fixed.
    pub fn get_byte_length(&self) -> (r: Option<usize>)
        requires
            8 * self@.len() <= usize::MAX,
        ensures
            match spec_format_byte_length(self@) {
                Some(n) => r == Some(n as usize),
                None => r is None,
            },
    {
        let n = self.format.len();
        // A string element makes the total undefined.
        for i in 0..n
            invariant
                n == self.format.len(),
                spec_format_byte_length(self@.take(i as int)) is Some,
                8 * self@.len() <= usize::MAX,
        {
            proof {
                assert(self@.take(i + 1) =~= self@.take(i as int).push(self@[i as int]));
                lemma_format_byte_length_push(self@.take(i as int), self@[i as int]);
            }
            if self.format[i].get_byte_length().is_none() {
                proof {
                    lemma_format_byte_length_none(self@, i as int);
                }
                return None;
            }
        }
        let mut sum: usize = 0;
        for i in 0..n
            invariant
                n == self.format.len(),
                8 * self@.len() <= usize::MAX,
                spec_format_byte_length(self@.take(n as int)) is Some,
                spec_format_byte_length(self@.take(i as int)) == Some(sum as int),
                sum <= 8 * i,
        {
            proof {
                assert(self@.take(i + 1) =~= self@.take(i as int).push(self@[i as int]));
                lemma_format_byte_length_push(self@.take(i as int), self@[i as int]);
                lemma_format_byte_length_prefix(self@, i as int);
            }
            match self.format[i].get_byte_length() {
                Some(w) => {
                    sum = sum + w;
                },
                None => {
                    // Unreachable: the first pass found no string element.
                    proof {
                        lemma_format_byte_length_prefix(self@, i as int);
                    }
                    assert(false);
                    return None;
                },
            }
        }
        proof {
            assert(self@.take(n as int) =~= self@);
        }
        Some(sum)
    }

    /// Whether the format holds a string element, which makes its wire
    /// width undefined.
    pub fn has_str(&self) -> (r: bool)
        ensures
            r == (spec_format_byte_length(self@) is None),
    {
        let n = self.format.len();
        for i in 0..n
            invariant
                n == self@.len(),
                forall|j: int| 0 <= j < i ==> (#[trigger] self@[j]) != DataType::Str,
        {
            if matches!(self.format[i], DataType::Str) {
                proof {
                    lemma_format_byte_length_none(self@, i as int);
                }
                return true;
            }
        }
        proof {
            lemma_format_byte_length_no_str(self@);
        }
        false
    }

    /// The canonical format string: one tag character per element.
    pub fn get_format_str(&self) -> (s: String)
        ensures
            s@ == self@.map_values(|t: DataType| spec_tag_char(t)),
    {
        let mut chars: Vec<char> = Vec::new();
        let n = self.format.len();
        for i in 0..n
            invariant
                n == self.format.len(),
                chars@ == self@.take(i as int).map_values(|t: DataType| spec_tag_char(t)),
        {
            chars.push(self.format[i].tag_char());
            proof {
                assert(self@.take(i + 1) =~= self@.take(i as int).push(self@[i as int]));
                assert(self@.take(i + 1).map_values(|t: DataType| spec_tag_char(t)) =~= self@.take(
                    i as int,
                ).map_values(|t: DataType| spec_tag_char(t)).push(spec_tag_char(self@[i as int])));
            }
        }
        proof {
            assert(self@.take(n as int) =~= self@);
        }
        string_from_chars(&chars)
    }
}

/// A format whose prefix is well-defined up to a string element at `i` has no
/// defined total width.
proof fn lemma_format_byte_length_none(fmt: Seq<DataType>, i: int)
    requires
        0 <= i < fmt.len(),
        spec_byte_length(fmt[i]) is None,
    ensures
        spec_format_byte_length(fmt) is None,
    decreases i,
{
    if i > 0 {
        lemma_format_byte_length_none(fmt.skip(1), i - 1);
    }
}

/// If a format's total width is defined, so is every prefix's.
proof fn lemma_format_byte_length_prefix(fmt: Seq<DataType>, i: int)
    requires
        0 <= i <= fmt.len(),
        spec_format_byte_length(fmt.take(fmt.len() as int)) is Some,
    ensures
        spec_byte_length(fmt[i]) is Some || i == fmt.len(),
    decreases i,
{
    assert(fmt.take(fmt.len() as int) =~= fmt);
    if i < fmt.len() {
        lemma_format_byte_length_element(fmt, i);
    }
}

/// Every element of a format with a defined total width has a defined width.
proof fn lemma_format_byte_length_element(fmt: Seq<DataType>, i: int)
    requires
        0 <= i < fmt.len(),
        spec_format_byte_length(fmt) is Some,
    ensures
        spec_byte_length(fmt[i]) is Some,
    decreases i,
{
    if i > 0 {
        lemma_format_byte_length_element(fmt.skip(1), i - 1);
    }
}

/// A format without a string element has a defined wire width.
proof fn lemma_format_byte_length_no_str(fmt: Seq<DataType>)
    requires
        forall|j: int| 0 <= j < fmt.len() ==> (#[trigger] fmt[j]) != DataType::Str,
    ensures
        spec_format_byte_length(fmt) is Some,
    decreases fmt.len(),
{
    if fmt.len() > 0 {
        assert(fmt[0] != DataType::Str);
        assert(forall|j: int| 0 <= j < fmt.skip(1).len() ==> (#[trigger] fmt.skip(1)[j]) != DataType::Str);
        lemma_format_byte_length_no_str(fmt.skip(1));
    }
}

/// All the recognized tag characters of a string, in order. Every law about
/// formats reduces to this: unrecognized characters never reach the format.
pub proof fn lemma_unrecognized_chars_dropped(s: Seq<char>)
    ensures
        spec_format_of_chars(s) == spec_format_of_chars(
            s.filter(|c: char| spec_data_type_of_char(c) is Some),
        ),
    decreases s.len(),
{
    reveal(Seq::filter);
    if s.len() > 0 {
        let last = s.last();
        let prefix = s.drop_last();
        lemma_unrecognized_chars_dropped(prefix);
        lemma_format_of_chars_push(prefix, last);
        assert(s =~= prefix.push(last));
        match spec_data_type_of_char(last) {
            Some(t) => {
                lemma_format_of_chars_push(
                    prefix.filter(|c: char| spec_data_type_of_char(c) is Some),
                    last,
                );
            },
            None => {},
        }
    }
}

/// An 8-bit wire value reinterpreted as a signed integer (two's complement).
pub open spec fn spec_i8_of_u8(u: u8) -> i8 {
    if u < 0x80 {
        u as i8
    } else {
        (u - 0x100) as i8
    }
}

/// A signed 8-bit value as it appears on the wire (two's complement).
pub open spec fn spec_u8_of_i8(v: i8) -> u8 {
    if v >= 0 {
        v as u8
    } else {
        (v + 0x100) as u8
    }
}

/// A 16-bit wire value reinterpreted as a signed integer (two's complement).
pub open spec fn spec_i16_of_u16(u: u16) -> i16 {
    if u < 0x8000 {
        u as i16
    } else {
        (u - 0x10000) as i16
    }
}

/// A signed 16-bit value as it appears on the wire (two's complement).
pub open spec fn spec_u16_of_i16(v: i16) -> u16 {
    if v >= 0 {
        v as u16
    } else {
        (v + 0x10000) as u16
    }
}

/// A 32-bit wire value reinterpreted as a signed integer (two's complement).
pub open spec fn spec_i32_of_u32(u: u32) -> i32 {
    if u < 0x8000_0000 {
        u as i32
    } else {
        (u - 0x1_0000_0000) as i32
    }
}

/// A signed 32-bit value as it appears on the wire (two's complement).
pub open spec fn spec_u32_of_i32(v: i32) -> u32 {
    if v >= 0 {
        v as u32
    } else {
        (v + 0x1_0000_0000) as u32
    }
}

/// A 64-bit wire value reinterpreted as a signed integer (two's complement).
pub open spec fn spec_i64_of_u64(u: u64) -> i64 {
    if u < 0x8000_0000_0000_0000 {
        u as i64
    } else {
        (u - 0x1_0000_0000_0000_0000) as i64
    }
}

/// A signed 64-bit value as it appears on the wire (two's complement).
pub open spec fn spec_u64_of_i64(v: i64) -> u64 {
    if v >= 0 {
        v as u64
    } else {
        (v + 0x1_0000_0000_0000_0000) as u64
    }
}

fn i8_from_u8(u: u8) -> (r: i8)
    ensures
        r == spec_i8_of_u8(u),
{
    if u < 0x80 {
        u as i8
    } else {
        ((u - 0x80) as i8) + i8::MIN
    }
}

fn u8_from_i8(v: i8) -> (r: u8)
    ensures
        r == spec_u8_of_i8(v),
{
    if v >= 0 {
        v as u8
    } else {
        ((v - i8::MIN) as u8) + 0x80
    }
}

fn i16_from_u16(u: u16) -> (r: i16)
    ensures
        r == spec_i16_of_u16(u),
{
    if u < 0x8000 {
        u as i16
    } else {
        ((u - 0x8000) as i16) + i16::MIN
    }
}

fn u16_from_i16(v: i16) -> (r: u16)
    ensures
        r == spec_u16_of_i16(v),
{
    if v >= 0 {
        v as u16
    } else {
        ((v - i16::MIN) as u16) + 0x8000
    }
}

fn i32_from_u32(u: u32) -> (r: i32)
    ensures
        r == spec_i32_of_u32(u),
{
    if u < 0x8000_0000 {
        u as i32
    } else {
        ((u - 0x8000_0000) as i32) + i32::MIN
    }
}

fn u32_from_i32(v: i32) -> (r: u32)
    ensures
        r == spec_u32_of_i32(v),
{
    if v >= 0 {
        v as u32
    } else {
        ((v - i32::MIN) as u32) + 0x8000_0000
    }
}

fn i64_from_u64(u: u64) -> (r: i64)
    ensures
        r == spec_i64_of_u64(u),
{
    if u < 0x8000_0000_0000_0000 {
        u as i64
    } else {
        ((u - 0x8000_0000_0000_0000) as i64) + i64::MIN
    }
}

fn u64_from_i64(v: i64) -> (r: u64)
    ensures
        r == spec_u64_of_i64(v),
{
    if v >= 0 {
        v as u64
    } else {
        ((v - i64::MIN) as u64) + 0x8000_0000_0000_0000
    }
}

/// The data type a value belongs to.
pub open spec fn value_type_of(v: ValueModel) -> DataType {
    match v {
        ValueModel::Str(_) => DataType::Str,
        ValueModel::Char(_) => DataType::Char,
        ValueModel::U8(_) => DataType::UINT8,
        ValueModel::I8(_) => DataType::INT8,
        ValueModel::U16(_) => DataType::UINT16,
        ValueModel::I16(_) => DataType::INT16,
        ValueModel::U32(_) => DataType::UINT32,
        ValueModel::I32(_) => DataType::INT32,
        ValueModel::U64(_) => DataType::UINT64,
        ValueModel::I64(_) => DataType::INT64,
        ValueModel::Float(_) => DataType::Float,
        ValueModel::Double(_) => DataType::Double,
        ValueModel::Hex8(_) => DataType::Hex8,
        ValueModel::Hex16(_) => DataType::Hex16,
    }
}

/// A value that can go on the wire and come back unchanged: a string payload
/// holds no null character, a character payload is a single byte.
pub open spec fn value_wf(v: ValueModel) -> bool {
    match v {
        ValueModel::Str(s) => forall|i: int| 0 <= i < s.len() ==> s[i] != '\u{0}',
        ValueModel::Char(c) => (c as u32) < 0x100,
        _ => true,
    }
}

/// The bytes of one value, without any terminator: a string payload is its
/// UTF-8 encoding, a character is truncated to one byte, multi-byte values
/// are little-endian.
pub open spec fn spec_encode_value(v: ValueModel) -> Seq<u8> {
    match v {
        ValueModel::Str(s) => encode_utf8(s),
        ValueModel::Char(c) => seq![(((c as u32) % 0x100) as u8)],
        ValueModel::U8(x) => seq![x],
        ValueModel::I8(x) => seq![spec_u8_of_i8(x)],
        ValueModel::U16(x) => spec_u16_to_le_bytes(x),
        ValueModel::I16(x) => spec_u16_to_le_bytes(spec_u16_of_i16(x)),
        ValueModel::U32(x) => spec_u32_to_le_bytes(x),
        ValueModel::I32(x) => spec_u32_to_le_bytes(spec_u32_of_i32(x)),
        ValueModel::U64(x) => spec_u64_to_le_bytes(x),
        ValueModel::I64(x) => spec_u64_to_le_bytes(spec_u64_of_i64(x)),
        ValueModel::Float(b) => spec_u32_to_le_bytes(b),
        ValueModel::Double(b) => spec_u64_to_le_bytes(b),
        ValueModel::Hex8(x) => seq![x],
        ValueModel::Hex16(x) => spec_u16_to_le_bytes(x),
    }
}

/// The bytes of one value as it stands inside a payload: a string payload
/// carries the null terminator that decoding expects.
pub open spec fn spec_wire_bytes(v: ValueModel) -> Seq<u8> {
    match v {
        ValueModel::Str(s) => encode_utf8(s) + seq![0u8],
        _ => spec_encode_value(v),
    }
}

/// The payload bytes of a value sequence: each value's wire bytes, in order.
pub open spec fn spec_encode_values(vs: Seq<ValueModel>) -> Seq<u8>
    decreases vs.len(),
{
    if vs.len() == 0 {
        Seq::empty()
    } else {
        spec_wire_bytes(vs[0]) + spec_encode_values(vs.skip(1))
    }
}

/// Appending a value appends its wire bytes.
proof fn lemma_encode_values_push(vs: Seq<ValueModel>, v: ValueModel)
    ensures
        spec_encode_values(vs.push(v)) == spec_encode_values(vs) + spec_wire_bytes(v),
    decreases vs.len(),
{
    assert(vs.push(v)[vs.len() as int] == v);
    assert(spec_encode_values(Seq::<ValueModel>::empty()) =~= Seq::<u8>::empty());
    if vs.len() == 0 {
        assert(vs.push(v).skip(1) =~= Seq::<ValueModel>::empty());
        assert(spec_encode_values(vs.push(v)) =~= spec_encode_values(vs) + spec_wire_bytes(v));
    } else {
        assert(vs.push(v)[0] == vs[0]);
        assert(vs.push(v).skip(1) =~= vs.skip(1).push(v));
        lemma_encode_values_push(vs.skip(1), v);
        assert(spec_encode_values(vs.push(v)) =~= spec_encode_values(vs) + spec_wire_bytes(v));
    }
}

/// The outcome of decoding one value at a position: the value and the
/// position after it, or the failure that stops the decode.
pub enum ParseOutcome {
    Value(ValueModel, int),
    Truncated,
    BadText,
}

/// The outcome of decoding a whole payload.
pub enum ParseAllOutcome {
    Values(Seq<ValueModel>, int),
    Truncated,
    BadText,
}

/// The position of the first null byte at or after `pos`, if any.
pub open spec fn spec_find_null(bytes: Seq<u8>, pos: int) -> Option<int>
    decreases (if pos < bytes.len() { bytes.len() - pos } else { 0int }),
{
    if pos < 0 || pos >= bytes.len() {
        None
    } else if bytes[pos] == 0 {
        Some(pos)
    } else {
        spec_find_null(bytes, pos + 1)
    }
}

/// What `spec_find_null` finds: the first null at or after `pos`.
proof fn lemma_find_null_found(bytes: Seq<u8>, pos: int, j: int)
    requires
        0 <= pos <= j < bytes.len(),
        bytes[j] == 0,
        forall|k: int| pos <= k < j ==> bytes[k] != 0,
    ensures
        spec_find_null(bytes, pos) == Some(j),
    decreases j - pos,
{
    if pos < j {
        lemma_find_null_found(bytes, pos + 1, j);
    }
}

/// Where no null byte stands at or after `pos`, none is found.
proof fn lemma_find_null_none(bytes: Seq<u8>, pos: int)
    requires
        0 <= pos,
        forall|k: int| pos <= k < bytes.len() ==> bytes[k] != 0,
    ensures
        spec_find_null(bytes, pos) is None,
    decreases (if pos < bytes.len() { bytes.len() - pos } else { 0int }),
{
    if pos < bytes.len() {
        lemma_find_null_none(bytes, pos + 1);
    }
}

/// Decodes one value of the given type at `pos`: a `Str` runs to, and
/// excludes, the first null byte and must be valid UTF-8; every other type
/// reads exactly its width, little-endian.
pub open spec fn spec_parse_one(t: DataType, bytes: Seq<u8>, pos: int) -> ParseOutcome {
    match t {
        DataType::Str => match spec_find_null(bytes, pos) {
            None => ParseOutcome::Truncated,
            Some(j) => {
                let sub = bytes.subrange(pos, j);
                if valid_utf8(sub) {
                    ParseOutcome::Value(ValueModel::Str(decode_utf8(sub)), j + 1)
                } else {
                    ParseOutcome::BadText
                }
            },
        },
        DataType::Char => if pos + 1 <= bytes.len() {
            ParseOutcome::Value(ValueModel::Char((bytes[pos] as u32) as char), pos + 1)
        } else {
            ParseOutcome::Truncated
        },
        DataType::UINT8 => if pos + 1 <= bytes.len() {
            ParseOutcome::Value(ValueModel::U8(bytes[pos]), pos + 1)
        } else {
            ParseOutcome::Truncated
        },
        DataType::INT8 => if pos + 1 <= bytes.len() {
            ParseOutcome::Value(ValueModel::I8(spec_i8_of_u8(bytes[pos])), pos + 1)
        } else {
            ParseOutcome::Truncated
        },
        DataType::UINT16 => if pos + 2 <= bytes.len() {
            ParseOutcome::Value(
                ValueModel::U16(spec_u16_from_le_bytes(bytes.subrange(pos, pos + 2))),
                pos + 2,
            )
        } else {
            ParseOutcome::Truncated
        },
        DataType::INT16 => if pos + 2 <= bytes.len() {
            ParseOutcome::Value(
                ValueModel::I16(spec_i16_of_u16(spec_u16_from_le_bytes(bytes.subrange(pos, pos + 2)))),
                pos + 2,
            )
        } else {
            ParseOutcome::Truncated
        },
        DataType::UINT32 => if pos + 4 <= bytes.len() {
            ParseOutcome::Value(
                ValueModel::U32(spec_u32_from_le_bytes(bytes.subrange(pos, pos + 4))),
                pos + 4,
            )
        } else {
            ParseOutcome::Truncated
        },
        DataType::INT32 => if pos + 4 <= bytes.len() {
            ParseOutcome::Value(
                ValueModel::I32(spec_i32_of_u32(spec_u32_from_le_bytes(bytes.subrange(pos, pos + 4)))),
                pos + 4,
            )
        } else {
            ParseOutcome::Truncated
        },
        DataType::UINT64 => if pos + 8 <= bytes.len() {
            ParseOutcome::Value(
                ValueModel::U64(spec_u64_from_le_bytes(bytes.subrange(pos, pos + 8))),
                pos + 8,
            )
        } else {
            ParseOutcome::Truncated
        },
        DataType::INT64 => if pos + 8 <= bytes.len() {
            ParseOutcome::Value(
                ValueModel::I64(spec_i64_of_u64(spec_u64_from_le_bytes(bytes.subrange(pos, pos + 8)))),
                pos + 8,
            )
        } else {
            ParseOutcome::Truncated
        },
        DataType::Float => if pos + 4 <= bytes.len() {
            ParseOutcome::Value(
                ValueModel::Float(spec_u32_from_le_bytes(bytes.subrange(pos, pos + 4))),
                pos + 4,
            )
        } else {
            ParseOutcome::Truncated
        },
        DataType::Double => if pos + 8 <= bytes.len() {
            ParseOutcome::Value(
                ValueModel::Double(spec_u64_from_le_bytes(bytes.subrange(pos, pos + 8))),
                pos + 8,
            )
        } else {
            ParseOutcome::Truncated
        },
        DataType::Hex8 => if pos + 1 <= bytes.len() {
            ParseOutcome::Value(ValueModel::Hex8(bytes[pos]), pos + 1)
        } else {
            ParseOutcome::Truncated
        },
        DataType::Hex16 => if pos + 2 <= bytes.len() {
            ParseOutcome::Value(
                ValueModel::Hex16(spec_u16_from_le_bytes(bytes.subrange(pos, pos + 2))),
                pos + 2,
            )
        } else {
            ParseOutcome::Truncated
        },
    }
}

/// Decodes a whole payload: one value per format element, in order, each
/// starting where the previous one ended.
pub open spec fn spec_parse_values(fmt: Seq<DataType>, bytes: Seq<u8>, pos: int) -> ParseAllOutcome
    decreases fmt.len(),
{
    if fmt.len() == 0 {
        ParseAllOutcome::Values(Seq::empty(), pos)
    } else {
        match spec_parse_one(fmt[0], bytes, pos) {
            ParseOutcome::Value(v, p) => match spec_parse_values(fmt.skip(1), bytes, p) {
                ParseAllOutcome::Values(vs, p2) => ParseAllOutcome::Values(seq![v] + vs, p2),
                ParseAllOutcome::Truncated => ParseAllOutcome::Truncated,
                ParseAllOutcome::BadText => ParseAllOutcome::BadText,
            },
            ParseOutcome::Truncated => ParseAllOutcome::Truncated,
            ParseOutcome::BadText => ParseAllOutcome::BadText,
        }
    }
}

/// Decoding a concatenated format decodes the first part, then the second
/// from where the first ended.
proof fn lemma_parse_values_append(f1: Seq<DataType>, f2: Seq<DataType>, bytes: Seq<u8>, pos: int)
    ensures
        spec_parse_values(f1 + f2, bytes, pos) == match spec_parse_values(f1, bytes, pos) {
            ParseAllOutcome::Values(vs, p) => match spec_parse_values(f2, bytes, p) {
                ParseAllOutcome::Values(vs2, p2) => ParseAllOutcome::Values(vs + vs2, p2),
                ParseAllOutcome::Truncated => ParseAllOutcome::Truncated,
                ParseAllOutcome::BadText => ParseAllOutcome::BadText,
            },
            ParseAllOutcome::Truncated => ParseAllOutcome::Truncated,
            ParseAllOutcome::BadText => ParseAllOutcome::BadText,
        },
    decreases f1.len(),
{
    if f1.len() == 0 {
        assert(f1 + f2 =~= f2);
        match spec_parse_values(f2, bytes, pos) {
            ParseAllOutcome::Values(vs2, p2) => {
                assert(Seq::<ValueModel>::empty() + vs2 =~= vs2);
            },
            _ => {},
        }
    } else {
        assert((f1 + f2)[0] == f1[0]);
        assert((f1 + f2).skip(1) =~= f1.skip(1) + f2);
        match spec_parse_one(f1[0], bytes, pos) {
            ParseOutcome::Value(v, p) => {
                lemma_parse_values_append(f1.skip(1), f2, bytes, p);
                match spec_parse_values(f1.skip(1), bytes, p) {
                    ParseAllOutcome::Values(vs, p1) => {
                        match spec_parse_values(f2, bytes, p1) {
                            ParseAllOutcome::Values(vs2, p2) => {
                                assert(seq![v] + (vs + vs2) =~= (seq![v] + vs) + vs2);
                            },
                            _ => {},
                        }
                    },
                    _ => {},
                }
            },
            _ => {},
        }
    }
}

/// Decoding one more format element decodes one more value.
proof fn lemma_parse_values_push(fmt: Seq<DataType>, t: DataType, bytes: Seq<u8>, pos: int)
    ensures
        spec_parse_values(fmt.push(t), bytes, pos) == match spec_parse_values(fmt, bytes, pos) {
            ParseAllOutcome::Values(vs, p) => match spec_parse_one(t, bytes, p) {
                ParseOutcome::Value(v, p2) => ParseAllOutcome::Values(vs.push(v), p2),
                ParseOutcome::Truncated => ParseAllOutcome::Truncated,
                ParseOutcome::BadText => ParseAllOutcome::BadText,
            },
            ParseAllOutcome::Truncated => ParseAllOutcome::Truncated,
            ParseAllOutcome::BadText => ParseAllOutcome::BadText,
        },
{
    assert(fmt.push(t) =~= fmt + seq![t]);
    lemma_parse_values_append(fmt, seq![t], bytes, pos);
    assert(seq![t].skip(1) =~= Seq::<DataType>::empty());
    match spec_parse_values(fmt, bytes, pos) {
        ParseAllOutcome::Values(vs, p) => {
            match spec_parse_one(t, bytes, p) {
                ParseOutcome::Value(v, p2) => {
                    lemma_parse_values_empty(bytes, p2);
                    assert(seq![v] + Seq::<ValueModel>::empty() =~= seq![v]);
                    assert(vs + seq![v] =~= vs.push(v));
                },
                _ => {},
            }
        },
        _ => {},
    }
}

/// Decoding against the empty format yields no values and stays in place.
proof fn lemma_parse_values_empty(bytes: Seq<u8>, pos: int)
    ensures
        spec_parse_values(Seq::<DataType>::empty(), bytes, pos) == ParseAllOutcome::Values(
            Seq::<ValueModel>::empty(),
            pos,
        ),
{
}

impl SupMCUValue {
    /// The bytes of this value, without any terminator: strings are UTF-8,
    /// characters are truncated to one byte, multi-byte values little-endian.
    pub fn to_bytes(&self) -> (r: Vec<u8>)
        ensures
            r@ == spec_encode_value(self@),
    {
        match self {
            SupMCUValue::Str(s) => {
                let r = s.as_str().as_bytes_vec();
                r
            },
            SupMCUValue::Char(c) => {
                let code: u32 = *c as u32;
                let b: u8 = (code % 0x100) as u8;
                let mut r: Vec<u8> = Vec::new();
                r.push(b);
                proof {
                    assert(r@ =~= spec_encode_value(self@));
                }
                r
            },
            SupMCUValue::U8(x) => {
                let mut r: Vec<u8> = Vec::new();
                r.push(*x);
                proof {
                    assert(r@ =~= spec_encode_value(self@));
                }
                r
            },
            SupMCUValue::I8(x) => {
                let mut r: Vec<u8> = Vec::new();
                r.push(u8_from_i8(*x));
                proof {
                    assert(r@ =~= spec_encode_value(self@));
                }
                r
            },
            SupMCUValue::U16(x) => u16_to_le_bytes(*x),
            SupMCUValue::I16(x) => u16_to_le_bytes(u16_from_i16(*x)),
            SupMCUValue::U32(x) => u32_to_le_bytes(*x),
            SupMCUValue::I32(x) => u32_to_le_bytes(u32_from_i32(*x)),
            SupMCUValue::U64(x) => u64_to_le_bytes(*x),
            SupMCUValue::I64(x) => u64_to_le_bytes(u64_from_i64(*x)),
            SupMCUValue::Float(b) => u32_to_le_bytes(*b),
            SupMCUValue::Double(b) => u64_to_le_bytes(*b),
            SupMCUValue::Hex8(x) => {
                let mut r: Vec<u8> = Vec::new();
                r.push(*x);
                proof {
                    assert(r@ =~= spec_encode_value(self@));
                }
                r
            },
            SupMCUValue::Hex16(x) => u16_to_le_bytes(*x),
        }
    }
}

/// The payload bytes of a value sequence: each value's bytes in order, with
/// the null terminator after each string that decoding expects.
pub fn encode_values(values: &Vec<SupMCUValue>) -> (r: Vec<u8>)
    ensures
        r@ == spec_encode_values(value_models(values@)),
{
    let mut r: Vec<u8> = Vec::new();
    let n = values.len();
    proof {
        assert(value_models(values@.take(0int)) =~= Seq::<ValueModel>::empty());
    }
    for i in 0..n
        invariant
            n == values.len(),
            r@ == spec_encode_values(value_models(values@.take(i as int))),
    {
        let v = vstd::std_specs::vec::vec_index(values, i);
        let mut piece = v.to_bytes();
        r.append(&mut piece);
        let is_str = match v {
            SupMCUValue::Str(_) => true,
            _ => false,
        };
        if is_str {
            r.push(0u8);
        }
        proof {
            let ms = value_models(values@.take(i as int));
            assert(value_models(values@.take(i + 1)) =~= ms.push(values@[i as int]@));
            lemma_encode_values_push(ms, values@[i as int]@);
            assert(r@ =~= spec_encode_values(ms) + spec_wire_bytes(values@[i as int]@));
        }
    }
    proof {
        assert(values@.take(n as int) =~= values@);
    }
    r
}

impl SupMCUFormat {
    /// Decodes the payload that starts at `start`: one value per format
    /// element, in order. A string element runs to, and excludes, the first
    /// null byte, failing with `InvalidBytes` when no null follows and with
    /// `StringParsingError` when the bytes before the null are not valid
    /// UTF-8; a fixed-width element reads exactly its width, little-endian,
    /// failing with `InvalidBytes` when the bytes run out. Bytes after the
    /// last value are ignored.
    pub fn parse_data(&self, bytes: &Vec<u8>, start: usize) -> (r: Result<
        Vec<SupMCUValue>,
        ParsingError,
    >)
        ensures
            match spec_parse_values(self@, bytes@, start as int) {
                ParseAllOutcome::Values(vs, _) => r matches Ok(out) && value_models(out@) == vs,
                ParseAllOutcome::Truncated => r matches Err(e)
                    && e matches ParsingError::InvalidBytes(_),
                ParseAllOutcome::BadText => r == Err::<Vec<SupMCUValue>, ParsingError>(
                    ParsingError::StringParsingError,
                ),
            },
    {
        let mut out: Vec<SupMCUValue> = Vec::new();
        let mut pos: usize = start;
        let n = self.format.len();
        let total = bytes.len();
        proof {
            assert(value_models(out@) =~= Seq::<ValueModel>::empty());
        }
        for i in 0..n
            invariant
                n == self@.len(),
                total == bytes@.len(),
                spec_parse_values(self@.take(i as int), bytes@, start as int)
                    == ParseAllOutcome::Values(value_models(out@), pos as int),
        {
            proof {
                assert(self@.take(i + 1) =~= self@.take(i as int).push(self@[i as int]));
                lemma_parse_values_push(self@.take(i as int), self@[i as int], bytes@, start as int);
            }
            let ghost prev_out = out@;
            let t = self.format[i];
            match t {
                DataType::Str => {
                    let terminator = find_null_byte(bytes, pos);
                    let j = match terminator {
                        None => {
                            proof {
                                lemma_parse_error_prefix(self@, i as int, bytes@, start as int);
                            }
                            return Err(ParsingError::InvalidBytes(truncated_message()));
                        },
                        Some(j) => j,
                    };
                    let sub: Vec<u8> = slice_to_vec(slice_subrange(bytes.as_slice(), pos, j));
                    match string_from_utf8(sub) {
                        Some(text) => {
                            out.push(SupMCUValue::Str(text));
                            pos = j + 1;
                        },
                        None => {
                            proof {
                                lemma_parse_error_prefix(self@, i as int, bytes@, start as int);
                            }
                            return Err(ParsingError::StringParsingError);
                        },
                    }
                },
                DataType::Char => {
                    if pos >= bytes.len() {
                        proof {
                            lemma_parse_error_prefix(self@, i as int, bytes@, start as int);
                        }
                        return Err(ParsingError::InvalidBytes(truncated_message()));
                    }
                    let b = bytes[pos];
                    out.push(SupMCUValue::Char(byte_to_char(b)));
                    pos = pos + 1;
                },
                DataType::UINT8 => {
                    if pos >= bytes.len() {
                        proof {
                            lemma_parse_error_prefix(self@, i as int, bytes@, start as int);
                        }
                        return Err(ParsingError::InvalidBytes(truncated_message()));
                    }
                    out.push(SupMCUValue::U8(bytes[pos]));
                    pos = pos + 1;
                },
                DataType::INT8 => {
                    if pos >= bytes.len() {
                        proof {
                            lemma_parse_error_prefix(self@, i as int, bytes@, start as int);
                        }
                        return Err(ParsingError::InvalidBytes(truncated_message()));
                    }
                    out.push(SupMCUValue::I8(i8_from_u8(bytes[pos])));
                    pos = pos + 1;
                },
                DataType::UINT16 => {
                    if bytes.len() < 2 || pos > bytes.len() - 2 {
                        proof {
                            lemma_parse_error_prefix(self@, i as int, bytes@, start as int);
                        }
                        return Err(ParsingError::InvalidBytes(truncated_message()));
                    }
                    let x = u16_from_le_bytes(slice_subrange(bytes.as_slice(), pos, pos + 2));
                    out.push(SupMCUValue::U16(x));
                    pos = pos + 2;
                },
                DataType::INT16 => {
                    if bytes.len() < 2 || pos > bytes.len() - 2 {
                        proof {
                            lemma_parse_error_prefix(self@, i as int, bytes@, start as int);
                        }
                        return Err(ParsingError::InvalidBytes(truncated_message()));
                    }
                    let x = u16_from_le_bytes(slice_subrange(bytes.as_slice(), pos, pos + 2));
                    out.push(SupMCUValue::I16(i16_from_u16(x)));
                    pos = pos + 2;
                },
                DataType::UINT32 => {
                    if bytes.len() < 4 || pos > bytes.len() - 4 {
                        proof {
                            lemma_parse_error_prefix(self@, i as int, bytes@, start as int);
                        }
                        return Err(ParsingError::InvalidBytes(truncated_message()));
                    }
                    let x = u32_from_le_bytes(slice_subrange(bytes.as_slice(), pos, pos + 4));
                    out.push(SupMCUValue::U32(x));
                    pos = pos + 4;
                },
                DataType::INT32 => {
                    if bytes.len() < 4 || pos > bytes.len() - 4 {
                        proof {
                            lemma_parse_error_prefix(self@, i as int, bytes@, start as int);
                        }
                        return Err(ParsingError::InvalidBytes(truncated_message()));
                    }
                    let x = u32_from_le_bytes(slice_subrange(bytes.as_slice(), pos, pos + 4));
                    out.push(SupMCUValue::I32(i32_from_u32(x)));
                    pos = pos + 4;
                },
                DataType::UINT64 => {
                    if bytes.len() < 8 || pos > bytes.len() - 8 {
                        proof {
                            lemma_parse_error_prefix(self@, i as int, bytes@, start as int);
                        }
                        return Err(ParsingError::InvalidBytes(truncated_message()));
                    }
                    let x = u64_from_le_bytes(slice_subrange(bytes.as_slice(), pos, pos + 8));
                    out.push(SupMCUValue::U64(x));
                    pos = pos + 8;
                },
                DataType::INT64 => {
                    if bytes.len() < 8 || pos > bytes.len() - 8 {
                        proof {
                            lemma_parse_error_prefix(self@, i as int, bytes@, start as int);
                        }
                        return Err(ParsingError::InvalidBytes(truncated_message()));
                    }
                    let x = u64_from_le_bytes(slice_subrange(bytes.as_slice(), pos, pos + 8));
                    out.push(SupMCUValue::I64(i64_from_u64(x)));
                    pos = pos + 8;
                },
                DataType::Float => {
                    if bytes.len() < 4 || pos > bytes.len() - 4 {
                        proof {
                            lemma_parse_error_prefix(self@, i as int, bytes@, start as int);
                        }
                        return Err(ParsingError::InvalidBytes(truncated_message()));
                    }
                    let x = u32_from_le_bytes(slice_subrange(bytes.as_slice(), pos, pos + 4));
                    out.push(SupMCUValue::Float(x));
                    pos = pos + 4;
                },
                DataType::Double => {
                    if bytes.len() < 8 || pos > bytes.len() - 8 {
                        proof {
                            lemma_parse_error_prefix(self@, i as int, bytes@, start as int);
                        }
                        return Err(ParsingError::InvalidBytes(truncated_message()));
                    }
                    let x = u64_from_le_bytes(slice_subrange(bytes.as_slice(), pos, pos + 8));
                    out.push(SupMCUValue::Double(x));
                    pos = pos + 8;
                },
                DataType::Hex8 => {
                    if pos >= bytes.len() {
                        proof {
                            lemma_parse_error_prefix(self@, i as int, bytes@, start as int);
                        }
                        return Err(ParsingError::InvalidBytes(truncated_message()));
                    }
                    out.push(SupMCUValue::Hex8(bytes[pos]));
                    pos = pos + 1;
                },
                DataType::Hex16 => {
                    if bytes.len() < 2 || pos > bytes.len() - 2 {
                        proof {
                            lemma_parse_error_prefix(self@, i as int, bytes@, start as int);
                        }
                        return Err(ParsingError::InvalidBytes(truncated_message()));
                    }
                    let x = u16_from_le_bytes(slice_subrange(bytes.as_slice(), pos, pos + 2));
                    out.push(SupMCUValue::Hex16(x));
                    pos = pos + 2;
                },
            }
            proof {
                assert(out@ == prev_out.push(out@.last()));
                assert(value_models(out@) =~= value_models(prev_out).push(out@.last()@));
            }
        }
        proof {
            assert(self@.take(n as int) =~= self@);
        }
        Ok(out)
    }
}

/// The position of the first null byte at or after `start`, if any.
fn find_null_byte(bytes: &Vec<u8>, start: usize) -> (r: Option<usize>)
    ensures
        match r {
            Some(j) => start <= j < bytes@.len() && spec_find_null(bytes@, start as int) == Some(
                j as int,
            ),
            None => spec_find_null(bytes@, start as int) is None,
        },
{
    let len = bytes.len();
    if start >= len {
        proof {
            lemma_find_null_none(bytes@, start as int);
        }
        return None;
    }
    let mut j: usize = start;
    while j < len
        invariant
            start <= j <= len,
            len == bytes@.len(),
            forall|k: int| start <= k < j ==> bytes@[k] != 0,
        ensures
            start <= j <= len,
            forall|k: int| start <= k < j ==> bytes@[k] != 0,
            j < len ==> bytes@[j as int] == 0,
        decreases len - j,
    {
        if bytes[j] == 0 {
            break ;
        }
        j = j + 1;
    }
    if j < len {
        proof {
            lemma_find_null_found(bytes@, start as int, j as int);
        }
        Some(j)
    } else {
        proof {
            lemma_find_null_none(bytes@, start as int);
        }
        None
    }
}

/// The message that a truncated payload reports.
fn truncated_message() -> String {
    String::from_str("not enough bytes for the format")
}

/// A single byte read as the character with that code point.
fn byte_to_char(b: u8) -> (c: char)
    ensures
        c == ((b as u32) as char),
{
    b as char
}

/// A failed element fails the decode of the whole format with the same failure.
proof fn lemma_parse_error_prefix(fmt: Seq<DataType>, i: int, bytes: Seq<u8>, pos: int)
    requires
        0 <= i < fmt.len(),
        spec_parse_values(fmt.take(i), bytes, pos) matches ParseAllOutcome::Values(vs, p)
            && !(spec_parse_one(fmt[i], bytes, p) matches ParseOutcome::Value(_, _)),
    ensures
        spec_parse_values(fmt, bytes, pos) == match spec_parse_values(fmt.take(i), bytes, pos) {
            ParseAllOutcome::Values(vs, p) => match spec_parse_one(fmt[i], bytes, p) {
                ParseOutcome::Truncated => ParseAllOutcome::Truncated,
                _ => ParseAllOutcome::BadText,
            },
            ParseAllOutcome::Truncated => ParseAllOutcome::Truncated,
            ParseAllOutcome::BadText => ParseAllOutcome::BadText,
        },
{
    assert(fmt =~= fmt.take(i) + fmt.skip(i));
    lemma_parse_values_append(fmt.take(i), fmt.skip(i), bytes, pos);
    assert(fmt.skip(i)[0] == fmt[i]);
}

/// Encoding a character sequence without null characters yields no null
/// byte: multi-byte encodings use only bytes with their high bit set, and a
/// one-byte encoding is the character's own nonzero code.
proof fn lemma_encode_utf8_no_null(s: Seq<char>)
    requires
        forall|i: int| 0 <= i < s.len() ==> s[i] != '\u{0}',
    ensures
        forall|j: int| 0 <= j < encode_utf8(s).len() ==> encode_utf8(s)[j] != 0,
    decreases s.len(),
{
    if s.len() > 0 {
        let c = s[0] as u32;
        vstd::utf8::char_u32_cast(s[0], c);
        assert(('\u{0}' as u32) == 0);
        assert(c != 0) by {
            if c == 0 {
                assert((0u32 as char) == s[0]);
                assert(('\u{0}' as u32) as char == '\u{0}');
            }
        }
        let piece = vstd::utf8::encode_scalar(c);
        assert(forall|j: int| 0 <= j < piece.len() ==> piece[j] != 0) by {
            lemma_encode_scalar_no_null(c);
        }
        lemma_encode_utf8_no_null(s.drop_first());
        assert(encode_utf8(s) == piece + encode_utf8(s.drop_first()));
        assert forall|j: int| 0 <= j < encode_utf8(s).len() implies encode_utf8(s)[j] != 0 by {
            if j < piece.len() {
                assert(encode_utf8(s)[j] == piece[j]);
            } else {
                assert(encode_utf8(s)[j] == encode_utf8(s.drop_first())[j - piece.len()]);
            }
        }
    }
}

/// No byte of the encoding of a nonzero scalar is zero.
proof fn lemma_encode_scalar_no_null(c: u32)
    requires
        c != 0,
    ensures
        forall|j: int|
            0 <= j < vstd::utf8::encode_scalar(c).len() ==> vstd::utf8::encode_scalar(c)[j] != 0,
{
    if vstd::utf8::has_width_1_encoding(c) {
        assert((c & 0x7F) != 0) by (bit_vector)
            requires
                c != 0 && c < 0x80,
        ;
    } else {
        assert((0xC0u8 | ((c >> 6) & 0x1F) as u8) != 0) by (bit_vector);
        assert((0xE0u8 | ((c >> 12) & 0x0F) as u8) != 0) by (bit_vector);
        assert((0xF0u8 | ((c >> 18) & 0x7) as u8) != 0) by (bit_vector);
        assert((0x80u8 | (c & 0x3F) as u8) != 0) by (bit_vector);
        assert((0x80u8 | ((c >> 6) & 0x3F) as u8) != 0) by (bit_vector);
        assert((0x80u8 | ((c >> 12) & 0x3F) as u8) != 0) by (bit_vector);
    }
}

/// Round trip: decoding an encoded payload restores the values exactly.
///
/// For every well-formed value sequence and the format made of the values'
/// own types, decoding the encoded bytes yields the same values and consumes
/// all the bytes.
pub proof fn lemma_decode_encode_roundtrip(values: Seq<ValueModel>, fmt: Seq<DataType>)
    requires
        fmt.len() == values.len(),
        forall|i: int| 0 <= i < values.len() ==> fmt[i] == value_type_of(#[trigger] values[i]),
        forall|i: int| 0 <= i < values.len() ==> value_wf(#[trigger] values[i]),
    ensures
        spec_parse_values(fmt, spec_encode_values(values), 0) == ParseAllOutcome::Values(
            values,
            spec_encode_values(values).len() as int,
        ),
{
    lemma_decode_encode_at(values, fmt, Seq::empty());
    assert(Seq::<u8>::empty() + spec_encode_values(values) =~= spec_encode_values(values));
}

/// Round trip at an offset: decoding an encoded payload that follows an
/// arbitrary prefix restores the values and stops at the end of the bytes.
proof fn lemma_decode_encode_at(values: Seq<ValueModel>, fmt: Seq<DataType>, prefix: Seq<u8>)
    requires
        fmt.len() == values.len(),
        forall|i: int| 0 <= i < values.len() ==> fmt[i] == value_type_of(#[trigger] values[i]),
        forall|i: int| 0 <= i < values.len() ==> value_wf(#[trigger] values[i]),
    ensures
        spec_parse_values(fmt, prefix + spec_encode_values(values), prefix.len() as int)
            == ParseAllOutcome::Values(
            values,
            prefix.len() + spec_encode_values(values).len() as int,
        ),
    decreases values.len(),
{
    let bytes = prefix + spec_encode_values(values);
    let pos = prefix.len() as int;
    if values.len() == 0 {
        assert(spec_encode_values(values).len() == 0);
        lemma_parse_values_empty(bytes, pos);
        assert(fmt =~= Seq::<DataType>::empty());
        assert(values =~= Seq::<ValueModel>::empty());
    } else {
        let v = values[0];
        let rest = values.skip(1);
        let wire = spec_wire_bytes(v);
        assert(spec_encode_values(values) == wire + spec_encode_values(rest));
        assert(bytes =~= (prefix + wire) + spec_encode_values(rest));
        lemma_parse_one_encoded(v, fmt[0], prefix, spec_encode_values(rest));
        assert(spec_parse_one(fmt[0], bytes, pos) == ParseOutcome::Value(v, pos + wire.len()));
        lemma_decode_encode_at(rest, fmt.skip(1), prefix + wire);
        assert((prefix + wire).len() == pos + wire.len());
        assert(spec_parse_values(fmt.skip(1), bytes, pos + wire.len() as int)
            == ParseAllOutcome::Values(
            rest,
            (prefix + wire).len() + spec_encode_values(rest).len() as int,
        ));
        assert(seq![v] + rest =~= values);
        assert(spec_encode_values(values).len() == wire.len() + spec_encode_values(rest).len());
    }
}

/// Decoding one encoded value at its own offset restores it and ends where
/// its wire bytes end.
proof fn lemma_parse_one_encoded(v: ValueModel, t: DataType, prefix: Seq<u8>, tail: Seq<u8>)
    requires
        t == value_type_of(v),
        value_wf(v),
    ensures
        spec_parse_one(t, prefix + spec_wire_bytes(v) + tail, prefix.len() as int)
            == ParseOutcome::Value(v, prefix.len() + spec_wire_bytes(v).len() as int),
{
    let wire = spec_wire_bytes(v);
    let bytes = prefix + wire + tail;
    let pos = prefix.len() as int;
    assert(forall|k: int| 0 <= k < wire.len() ==> bytes[pos + k] == wire[k]);
    match v {
        ValueModel::Str(s) => {
            let enc = encode_utf8(s);
            lemma_encode_utf8_no_null(s);
            assert(forall|k: int| pos <= k < pos + enc.len() ==> bytes[k] != 0);
            assert(bytes[pos + enc.len()] == wire[enc.len() as int] == 0);
            lemma_find_null_found(bytes, pos, pos + enc.len());
            assert(bytes.subrange(pos, pos + enc.len()) =~= enc);
            vstd::utf8::encode_utf8_valid_utf8(s);
            vstd::utf8::encode_utf8_decode_utf8(s);
        },
        ValueModel::Char(c) => {
            assert(bytes[pos] == wire[0]);
            assert(((c as u32) % 0x100) == (c as u32));
            vstd::utf8::char_u32_cast(c, c as u32);
        },
        ValueModel::U8(_) => {
            assert(bytes[pos] == wire[0]);
        },
        ValueModel::I8(x) => {
            assert(bytes[pos] == wire[0]);
            assert(spec_i8_of_u8(spec_u8_of_i8(x)) == x);
        },
        ValueModel::U16(x) => {
            lemma_auto_spec_u16_to_from_le_bytes();
            assert(bytes.subrange(pos, pos + 2) =~= wire);
        },
        ValueModel::I16(x) => {
            lemma_auto_spec_u16_to_from_le_bytes();
            assert(bytes.subrange(pos, pos + 2) =~= wire);
            assert(spec_i16_of_u16(spec_u16_of_i16(x)) == x);
        },
        ValueModel::U32(x) => {
            lemma_auto_spec_u32_to_from_le_bytes();
            assert(bytes.subrange(pos, pos + 4) =~= wire);
        },
        ValueModel::I32(x) => {
            lemma_auto_spec_u32_to_from_le_bytes();
            assert(bytes.subrange(pos, pos + 4) =~= wire);
            assert(spec_i32_of_u32(spec_u32_of_i32(x)) == x);
        },
        ValueModel::U64(x) => {
            lemma_auto_spec_u64_to_from_le_bytes();
            assert(bytes.subrange(pos, pos + 8) =~= wire);
        },
        ValueModel::I64(x) => {
            lemma_auto_spec_u64_to_from_le_bytes();
            assert(bytes.subrange(pos, pos + 8) =~= wire);
            assert(spec_i64_of_u64(spec_u64_of_i64(x)) == x);
        },
        ValueModel::Float(b) => {
            lemma_auto_spec_u32_to_from_le_bytes();
            assert(bytes.subrange(pos, pos + 4) =~= wire);
        },
        ValueModel::Double(b) => {
            lemma_auto_spec_u64_to_from_le_bytes();
            assert(bytes.subrange(pos, pos + 8) =~= wire);
        },
        ValueModel::Hex8(_) => {
            assert(bytes[pos] == wire[0]);
        },
        ValueModel::Hex16(x) => {
            lemma_auto_spec_u16_to_from_le_bytes();
            assert(bytes.subrange(pos, pos + 2) =~= wire);
        },
    }
}

/// The namespace of a telemetry item: generic cross-module metadata
/// (`SupMCU`) or the module's own domain-specific data (`Module`).
#[derive(Clone, Copy, Debug, PartialEq, Eq, Structural)]
pub enum TelemetryType {
    SupMCU,
    Module,
}

impl Default for TelemetryType {
    fn default() -> (r: Self)
        ensures
            r == TelemetryType::SupMCU,
    {
        TelemetryType::SupMCU
    }
}

/// The microcontroller family a module reports.
#[derive(Clone, Copy, Debug, PartialEq, Eq, Structural)]
pub enum McuType {
    UNKNOWN,
    PIC24EP256MC206,
    PIC24EP512MC206,
}

impl Default for McuType {
    fn default() -> (r: Self)
        ensures
            r == McuType::UNKNOWN,
    {
        McuType::UNKNOWN
    }
}

impl McuType {
    /// The MCU named by an identifier byte, or `McuIdParsingError` for an
    /// unknown identifier.
    pub fn from_id(value: u8) -> (r: Result<McuType, ParsingError>)
        ensures
            value == 1 ==> r == Result::<McuType, ParsingError>::Ok(McuType::PIC24EP256MC206),
            value == 2 ==> r == Result::<McuType, ParsingError>::Ok(McuType::PIC24EP512MC206),
            value != 1 && value != 2 ==> r == Result::<McuType, ParsingError>::Err(
                ParsingError::McuIdParsingError(value),
            ),
    {
        match value {
            1 => Ok(McuType::PIC24EP256MC206),
            2 => Ok(McuType::PIC24EP512MC206),
            _ => Err(ParsingError::McuIdParsingError(value)),
        }
    }
}

/// The response header: a readiness flag and a module timestamp.
#[derive(Clone, Copy, Debug, PartialEq, Eq, Structural)]
pub struct SupMCUHDR {
    /// True when the module has finished producing the requested data.
    pub ready: bool,
    /// The module's clock at response time.
    pub timestamp: u32,
}

impl SupMCUHDR {
    /// Parses a header from the front of a response: the first byte's low
    /// bit is the ready flag, the next four bytes are a little-endian
    /// timestamp. Fails with `InvalidBytes` when fewer than five bytes are
    /// given.
    pub fn parse(bytes: &Vec<u8>) -> (r: Result<SupMCUHDR, ParsingError>)
        ensures
            bytes@.len() >= 5 ==> r == Result::<SupMCUHDR, ParsingError>::Ok(
                SupMCUHDR {
                    ready: bytes@[0] & 1 == 1,
                    timestamp: spec_u32_from_le_bytes(bytes@.subrange(1, 5)),
                },
            ),
            bytes@.len() < 5 ==> (r matches Err(e) && e matches ParsingError::InvalidBytes(_)),
    {
        if bytes.len() < 5 {
            return Err(ParsingError::InvalidBytes(truncated_message()));
        }
        let ready = bytes[0] & 1 == 1;
        let timestamp = u32_from_le_bytes(slice_subrange(bytes.as_slice(), 1, 5));
        Ok(SupMCUHDR { ready, timestamp })
    }

    /// The five header bytes: the ready flag as one byte, then the
    /// timestamp, little-endian.
    pub fn to_bytes(&self) -> (r: Vec<u8>)
        ensures
            r@ == seq![if self.ready { 1u8 } else { 0u8 }] + spec_u32_to_le_bytes(self.timestamp),
    {
        let mut r: Vec<u8> = Vec::new();
        r.push(if self.ready { 1u8 } else { 0u8 });
        let mut ts = u32_to_le_bytes(self.timestamp);
        r.append(&mut ts);
        proof {
            assert(r@ =~= seq![if self.ready { 1u8 } else { 0u8 }] + spec_u32_to_le_bytes(
                self.timestamp,
            ));
        }
        r
    }
}

/// Mathematical model of a telemetry definition.
pub struct TelemetryDefModel {
    pub name: Seq<char>,
    pub format: Seq<DataType>,
    pub length: Option<usize>,
    pub default_sim_value: Option<Seq<ValueModel>>,
    pub idx: usize,
    pub telemetry_type: TelemetryType,
}

/// The discovered description of one telemetry item: its name, payload
/// format, declared payload width (required when the format holds a string),
/// optional default simulation values, index and namespace.
#[derive(Debug)]
pub struct SupMCUTelemetryDefinition {
    pub name: String,
    pub format: SupMCUFormat,
    pub length: Option<usize>,
    pub default_sim_value: Option<Vec<SupMCUValue>>,
    pub idx: usize,
    pub telemetry_type: TelemetryType,
}

impl View for SupMCUTelemetryDefinition {
    type V = TelemetryDefModel;

    open spec fn view(&self) -> TelemetryDefModel {
        TelemetryDefModel {
            name: self.name@,
            format: self.format@,
            length: self.length,
            default_sim_value: match self.default_sim_value {
                Some(v) => Some(value_models(v@)),
                None => None,
            },
            idx: self.idx,
            telemetry_type: self.telemetry_type,
        }
    }
}

impl Default for SupMCUTelemetryDefinition {
    fn default() -> (r: Self)
        ensures
            r@.name == Seq::<char>::empty(),
            r@.format == Seq::<DataType>::empty(),
            r@.length is None,
            r@.default_sim_value is None,
            r@.idx == 0,
            r@.telemetry_type == TelemetryType::SupMCU,
    {
        let r = SupMCUTelemetryDefinition {
            name: String::new(),
            format: SupMCUFormat::new(""),
            length: None,
            default_sim_value: None,
            idx: 0,
            telemetry_type: TelemetryType::SupMCU,
        };
        proof {
            reveal_strlit("");
            assert(spec_format_of_chars(""@) =~= Seq::<DataType>::empty());
        }
        r
    }
}

impl SupMCUTelemetryDefinition {
    /// True exactly when the item carries default simulation values.
    pub fn simulatable(&self) -> (r: bool)
        ensures
            r == (self.default_sim_value is Some),
    {
        self.default_sim_value.is_some()
    }
}

impl PartialEq for SupMCUTelemetryDefinition {
    fn eq(&self, other: &Self) -> (r: bool) {
        if !(self.name == other.name && self.format == other.format && self.idx == other.idx
            && self.telemetry_type == other.telemetry_type) {
            return false;
        }
        let length_eq = match (&self.length, &other.length) {
            (Some(a), Some(b)) => *a == *b,
            (None, None) => true,
            _ => false,
        };
        if !length_eq {
            return false;
        }
        match (&self.default_sim_value, &other.default_sim_value) {
            (Some(a), Some(b)) => {
                proof {
                    lemma_values_eq(a@, b@);
                }
                values_eq_exec(a, b)
            },
            (None, None) => true,
            _ => false,
        }
    }
}

/// Two value sequences are element-wise model-equal exactly when their model
/// sequences are equal.
proof fn lemma_values_eq(a: Seq<SupMCUValue>, b: Seq<SupMCUValue>)
    ensures
        values_eq(a, b) <==> value_models(a) == value_models(b),
{
    assert(value_models(a).len() == a.len());
    assert(value_models(b).len() == b.len());
    if values_eq(a, b) {
        assert(value_models(a) =~= value_models(b));
    }
    if value_models(a) == value_models(b) {
        assert(a.len() == b.len());
        assert forall|i: int| 0 <= i < a.len() implies a[i]@ == b[i]@ by {
            assert(value_models(a)[i] == a[i]@);
            assert(value_models(b)[i] == b[i]@);
        }
    }
}

impl vstd::std_specs::cmp::PartialEqSpecImpl for SupMCUTelemetryDefinition {
    open spec fn obeys_eq_spec() -> bool {
        true
    }

    open spec fn eq_spec(&self, other: &Self) -> bool {
        self@ == other@
    }
}

impl Clone for SupMCUTelemetryDefinition {
    fn clone(&self) -> (r: Self)
        ensures
            r@ == self@,
    {
        SupMCUTelemetryDefinition {
            name: self.name.clone(),
            format: self.format.clone(),
            length: self.length,
            default_sim_value: match &self.default_sim_value {
                Some(v) => Some(clone_values(v)),
                None => None,
            },
            idx: self.idx,
            telemetry_type: self.telemetry_type,
        }
    }
}

/// Element-wise model equality of two value sequences.
pub open spec fn values_eq(a: Seq<SupMCUValue>, b: Seq<SupMCUValue>) -> bool {
    a.len() == b.len() && forall|i: int| 0 <= i < a.len() ==> a[i]@ == b[i]@
}

/// Compares two value vectors by their models.
fn values_eq_exec(a: &Vec<SupMCUValue>, b: &Vec<SupMCUValue>) -> (r: bool)
    ensures
        r == values_eq(a@, b@),
{
    if a.len() != b.len() {
        return false;
    }
    let n = a.len();
    for i in 0..n
        invariant
            n == a.len() == b.len(),
            forall|j: int| 0 <= j < i ==> a@[j]@ == b@[j]@,
    {
        let eq = *vstd::std_specs::vec::vec_index(a, i) == *vstd::std_specs::vec::vec_index(b, i);
        if !eq {
            return false;
        }
    }
    true
}

/// One decoded telemetry response: the definition it was read with, the
/// response header, and the decoded payload values.
#[derive(Debug)]
pub struct SupMCUTelemetry {
    pub definition: SupMCUTelemetryDefinition,
    pub header: SupMCUHDR,
    pub data: SupMCUTelemetryData,
}

impl SupMCUTelemetry {
    /// Decodes a raw response buffer against a definition: the five header
    /// bytes first, then the payload per the definition's format. Bytes after
    /// the payload (the footer) are ignored. Fails with the header's or the
    /// payload's own decode error.
    pub fn from_bytes(buff: Vec<u8>, def: &SupMCUTelemetryDefinition) -> (r: Result<
        SupMCUTelemetry,
        ParsingError,
    >)
        ensures
            buff@.len() < 5 ==> (r matches Err(e) && e matches ParsingError::InvalidBytes(_)),
            buff@.len() >= 5 ==> match spec_parse_values(def@.format, buff@, 5) {
                ParseAllOutcome::Values(vs, _) => r matches Ok(t) && t.definition@ == def@
                    && t.header.ready == (buff@[0] & 1 == 1) && t.header.timestamp
                    == spec_u32_from_le_bytes(buff@.subrange(1, 5)) && value_models(t.data@) == vs,
                ParseAllOutcome::Truncated => r matches Err(e) && e matches ParsingError::InvalidBytes(
                    _,
                ),
                ParseAllOutcome::BadText => r == Err::<SupMCUTelemetry, ParsingError>(
                    ParsingError::StringParsingError,
                ),
            },
    {
        let header = match SupMCUHDR::parse(&buff) {
            Ok(h) => h,
            Err(e) => {
                return Err(e);
            },
        };
        let data = match def.format.parse_data(&buff, 5) {
            Ok(d) => d,
            Err(e) => {
                return Err(e);
            },
        };
        Ok(SupMCUTelemetry { definition: def.clone(), header, data })
    }
}

/// Mathematical model of a command definition.
pub struct CommandModel {
    pub name: Seq<char>,
    pub idx: u16,
}

/// The discovered description of one module command: its name and index.
#[derive(Debug)]
pub struct SupMCUCommand {
    pub name: String,
    pub idx: u16,
}

impl View for SupMCUCommand {
    type V = CommandModel;

    open spec fn view(&self) -> CommandModel {
        CommandModel { name: self.name@, idx: self.idx }
    }
}

impl PartialEq for SupMCUCommand {
    fn eq(&self, other: &Self) -> (r: bool) {
        self.name == other.name && self.idx == other.idx
    }
}

impl vstd::std_specs::cmp::PartialEqSpecImpl for SupMCUCommand {
    open spec fn obeys_eq_spec() -> bool {
        true
    }

    open spec fn eq_spec(&self, other: &Self) -> bool {
        self@ == other@
    }
}

impl Clone for SupMCUCommand {
    fn clone(&self) -> (r: Self)
        ensures
            r == *self,
    {
        SupMCUCommand { name: self.name.clone(), idx: self.idx }
    }
}

/// Mathematical model of a module definition.
pub struct ModuleDefModel {
    pub name: Seq<char>,
    pub address: u16,
    pub simulatable: bool,
    pub telemetry: Seq<TelemetryDefModel>,
    pub commands: Seq<CommandModel>,
    pub mcu: McuType,
    pub response_delay: u32,
}

/// The full discovered description of a module: its command-name prefix,
/// bus address, simulatability, telemetry and command catalogs, MCU family,
/// and response delay in milliseconds.
#[derive(Debug)]
pub struct SupMCUModuleDefinition {
    /// The prefix of every module-scoped command (`"{name}:TEL? {idx}"`).
    pub name: String,
    pub address: u16,
    pub simulatable: bool,
    pub telemetry: Vec<SupMCUTelemetryDefinition>,
    pub commands: Vec<SupMCUCommand>,
    pub mcu: McuType,
    /// Wait between sending a command and reading the response, in milliseconds.
    pub response_delay: u32,
}

impl View for SupMCUModuleDefinition {
    type V = ModuleDefModel;

    open spec fn view(&self) -> ModuleDefModel {
        ModuleDefModel {
            name: self.name@,
            address: self.address,
            simulatable: self.simulatable,
            telemetry: self.telemetry@.map_values(|d: SupMCUTelemetryDefinition| d@),
            commands: self.commands@.map_values(|c: SupMCUCommand| c@),
            mcu: self.mcu,
            response_delay: self.response_delay,
        }
    }
}

impl Default for SupMCUModuleDefinition {
    fn default() -> (r: Self)
        ensures
            r@.name == Seq::<char>::empty(),
            r@.address == 0,
            r@.simulatable == false,
            r@.telemetry == Seq::<TelemetryDefModel>::empty(),
            r@.commands == Seq::<CommandModel>::empty(),
            r@.mcu == McuType::UNKNOWN,
            r@.response_delay == crate::supmcu::DEFAULT_RESPONSE_DELAY,
    {
        let r = SupMCUModuleDefinition {
            name: String::new(),
            address: 0,
            simulatable: false,
            telemetry: Vec::new(),
            commands: Vec::new(),
            mcu: McuType::UNKNOWN,
            response_delay: crate::supmcu::DEFAULT_RESPONSE_DELAY,
        };
        proof {
            assert(r@.telemetry =~= Seq::<TelemetryDefModel>::empty());
            assert(r@.commands =~= Seq::<CommandModel>::empty());
        }
        r
    }
}

impl PartialEq for SupMCUModuleDefinition {
    fn eq(&self, other: &Self) -> (r: bool) {
        if !(self.name == other.name && self.address == other.address && self.simulatable
            == other.simulatable && self.mcu == other.mcu && self.response_delay
            == other.response_delay) {
            return false;
        }
        if self.telemetry.len() != other.telemetry.len() {
            proof {
                assert(self@.telemetry.len() == self.telemetry@.len());
                assert(other@.telemetry.len() == other.telemetry@.len());
            }
            return false;
        }
        let n = self.telemetry.len();
        for i in 0..n
            invariant
                n == self.telemetry.len() == other.telemetry.len(),
                forall|j: int| 0 <= j < i ==> self.telemetry@[j]@ == other.telemetry@[j]@,
        {
            let eq = *vstd::std_specs::vec::vec_index(&self.telemetry, i)
                == *vstd::std_specs::vec::vec_index(&other.telemetry, i);
            if !eq {
                proof {
                    assert(self@.telemetry[i as int] == self.telemetry@[i as int]@);
                    assert(other@.telemetry[i as int] == other.telemetry@[i as int]@);
                }
                return false;
            }
        }
        if self.commands.len() != other.commands.len() {
            proof {
                assert(self@.commands.len() == self.commands@.len());
                assert(other@.commands.len() == other.commands@.len());
            }
            return false;
        }
        let m = self.commands.len();
        for i in 0..m
            invariant
                m == self.commands.len() == other.commands.len(),
                forall|j: int| 0 <= j < i ==> self.commands@[j]@ == other.commands@[j]@,
        {
            let eq = *vstd::std_specs::vec::vec_index(&self.commands, i)
                == *vstd::std_specs::vec::vec_index(&other.commands, i);
            if !eq {
                proof {
                    assert(self@.commands[i as int] == self.commands@[i as int]@);
                    assert(other@.commands[i as int] == other.commands@[i as int]@);
                }
                return false;
            }
        }
        proof {
            assert(self@.telemetry =~= other@.telemetry);
            assert(self@.commands =~= other@.commands);
        }
        true
    }
}

impl vstd::std_specs::cmp::PartialEqSpecImpl for SupMCUModuleDefinition {
    open spec fn obeys_eq_spec() -> bool {
        true
    }

    open spec fn eq_spec(&self, other: &Self) -> bool {
        self@ == other@
    }
}

impl Clone for SupMCUModuleDefinition {
    fn clone(&self) -> (r: Self)
        ensures
            r@ == self@,
    {
        let mut telemetry: Vec<SupMCUTelemetryDefinition> = Vec::new();
        let n = self.telemetry.len();
        for i in 0..n
            invariant
                n == self.telemetry.len(),
                telemetry@.map_values(|d: SupMCUTelemetryDefinition| d@) == self.telemetry@.take(
                    i as int,
                ).map_values(|d: SupMCUTelemetryDefinition| d@),
        {
            telemetry.push(vstd::std_specs::vec::vec_index(&self.telemetry, i).clone());
            proof {
                let m = |d: SupMCUTelemetryDefinition| d@;
                assert(telemetry@.map_values(m) =~= telemetry@.drop_last().map_values(m).push(
                    telemetry@.last()@,
                ));
                assert(self.telemetry@.take(i + 1).map_values(m) =~= self.telemetry@.take(
                    i as int,
                ).map_values(m).push(self.telemetry@[i as int]@));
            }
        }
        let mut commands: Vec<SupMCUCommand> = Vec::new();
        let m = self.commands.len();
        for i in 0..m
            invariant
                m == self.commands.len(),
                commands@ == self.commands@.take(i as int),
        {
            commands.push(vstd::std_specs::vec::vec_index(&self.commands, i).clone());
            proof {
                assert(self.commands@.take(i + 1) =~= self.commands@.take(i as int).push(
                    self.commands@[i as int],
                ));
            }
        }
        let r = SupMCUModuleDefinition {
            name: self.name.clone(),
            address: self.address,
            simulatable: self.simulatable,
            telemetry,
            commands,
            mcu: self.mcu,
            response_delay: self.response_delay,
        };
        proof {
            assert(self.telemetry@.take(n as int) =~= self.telemetry@);
            assert(self.commands@.take(m as int) =~= self.commands@);
        }
        r
    }
}

/// Whether a definition sequence is sorted by item index.
pub open spec fn sorted_by_idx(s: Seq<TelemetryDefModel>) -> bool {
    forall|i: int, j: int| 0 <= i < j < s.len() ==> s[i].idx <= s[j].idx
}

/// Relies on `itertools::Itertools::sorted_by_key` (a stable sort by the
/// given key): the result holds exactly the input items, ordered by index.
#[verifier::external_body]
fn sort_defs_by_idx(v: Vec<SupMCUTelemetryDefinition>) -> (r: Vec<SupMCUTelemetryDefinition>)
    ensures
        r@.map_values(|d: SupMCUTelemetryDefinition| d@).to_multiset() == v@.map_values(
            |d: SupMCUTelemetryDefinition| d@,
        ).to_multiset(),
        sorted_by_idx(r@.map_values(|d: SupMCUTelemetryDefinition| d@)),
{
    v.into_iter().sorted_by_key(|d| d.idx).collect()
}

impl SupMCUModuleDefinition {
    /// The SupMCU-scoped telemetry definitions, ordered by index.
    pub fn get_supmcu_telemetry(&self) -> (r: Vec<SupMCUTelemetryDefinition>)
        ensures
            r@.map_values(|d: SupMCUTelemetryDefinition| d@).to_multiset() == self@.telemetry.filter(
                |d: TelemetryDefModel| d.telemetry_type == TelemetryType::SupMCU,
            ).to_multiset(),
            sorted_by_idx(r@.map_values(|d: SupMCUTelemetryDefinition| d@)),
    {
        let picked = filter_by_type(&self.telemetry, TelemetryType::SupMCU);
        sort_defs_by_idx(picked)
    }

    /// The module-scoped telemetry definitions, ordered by index.
    pub fn get_module_telemetry(&self) -> (r: Vec<SupMCUTelemetryDefinition>)
        ensures
            r@.map_values(|d: SupMCUTelemetryDefinition| d@).to_multiset() == self@.telemetry.filter(
                |d: TelemetryDefModel| d.telemetry_type == TelemetryType::Module,
            ).to_multiset(),
            sorted_by_idx(r@.map_values(|d: SupMCUTelemetryDefinition| d@)),
    {
        let picked = filter_by_type(&self.telemetry, TelemetryType::Module);
        sort_defs_by_idx(picked)
    }
}

/// The definitions of the given namespace, in catalog order.
fn filter_by_type(v: &Vec<SupMCUTelemetryDefinition>, t: TelemetryType) -> (r: Vec<
    SupMCUTelemetryDefinition,
>)
    ensures
        r@.map_values(|d: SupMCUTelemetryDefinition| d@) == v@.map_values(
            |d: SupMCUTelemetryDefinition| d@,
        ).filter(|d: TelemetryDefModel| d.telemetry_type == t),
{
    let mut r: Vec<SupMCUTelemetryDefinition> = Vec::new();
    let n = v.len();
    proof {
        reveal(Seq::filter);
    }
    for i in 0..n
        invariant
            n == v.len(),
            r@.map_values(|d: SupMCUTelemetryDefinition| d@) == v@.take(i as int).map_values(
                |d: SupMCUTelemetryDefinition| d@,
            ).filter(|d: TelemetryDefModel| d.telemetry_type == t),
    {
        proof {
            reveal(Seq::filter);
            let f = |d: TelemetryDefModel| d.telemetry_type == t;
            let m = |d: SupMCUTelemetryDefinition| d@;
            assert(v@.take(i + 1) =~= v@.take(i as int).push(v@[i as int]));
            assert(v@.take(i + 1).map_values(m) =~= v@.take(i as int).map_values(m).push(
                v@[i as int]@,
            ));
            seq_filter_push(v@.take(i as int).map_values(m), v@[i as int]@, f);
        }
        if v[i].telemetry_type == t {
            let d = v[i].clone();
            r.push(d);
            proof {
                assert(r@.map_values(|d: SupMCUTelemetryDefinition| d@) =~= r@.drop_last().map_values(
                    |d: SupMCUTelemetryDefinition| d@,
                ).push(r@.last()@));
            }
        }
    }
    proof {
        assert(v@.take(n as int) =~= v@);
    }
    r
}

/// Filtering after a push keeps or drops exactly the pushed element.
pub(crate) proof fn seq_filter_push<A>(s: Seq<A>, x: A, f: spec_fn(A) -> bool)
    ensures
        s.push(x).filter(f) == if f(x) {
            s.filter(f).push(x)
        } else {
            s.filter(f)
        },
{
    reveal(Seq::filter);
    assert(s.push(x).drop_last() =~= s);
}

/// Relies on `str::chars`: it yields the characters of the string, in order.
#[verifier::external_body]
pub(crate) fn chars_of_str(s: &str) -> (r: Vec<char>)
    ensures
        r@ == s@,
{
    s.chars().collect()
}

/// Relies on `String: FromIterator<char>`: collecting characters builds the
/// string of exactly those characters, in order.
#[verifier::external_body]
pub(crate) fn string_from_chars(chars: &Vec<char>) -> (r: String)
    ensures
        r@ == chars@,
{
    chars.iter().collect()
}

/// Relies on `String::from_utf8`: it succeeds exactly on valid UTF-8 input,
/// and the resulting string decodes those bytes.
#[verifier::external_body]
fn string_from_utf8(bytes: Vec<u8>) -> (r: Option<String>)
    ensures
        r is Some <==> valid_utf8(bytes@),
        r matches Some(s) ==> s@ == decode_utf8(bytes@),
{
    String::from_utf8(bytes).ok()
}

} // verus!

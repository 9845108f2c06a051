//! Node values and node definitions.
//!
//! A node value is one of four typed shapes; floats are carried as their
//! IEEE-754 bit patterns so the engine never computes with them.
//!
//! A node definition arrives as a raw byte block, already unescaped by the
//! frame decoder.  Its layout, all integers big-endian:
//!
//! - `id: i32`, `parent_id: i32`, `index: u16`, `flags: u8` (bit 0 is the
//!   read-only flag), a type code `u8`, a unit code `u8`;
//! - two length-prefixed UTF-8 strings (name, long name), each one length
//!   byte then that many bytes;
//! - a type-specific tail: nothing for `Node`; `max_string_len: u16` for
//!   `String`; `min, max, steps: i32` for `Integer`; `min, max` as float
//!   bits and `steps: i32` for the three float shapes; a one-byte item
//!   count then length-prefixed `(item, long item)` string pairs for
//!   `StringEnum`; a one-byte count then `(float bits, long item)` pairs
//!   for `FloatEnum`.
//!
//! The block must be consumed exactly; trailing bytes are invalid.  The
//! raw bytes are retained verbatim in the parsed definition so a schema
//! dump can re-serialize without loss.

use vstd::prelude::*;
use vstd::utf8::{decode_utf8, encode_utf8, valid_utf8};
use crate::bytes::{be16, be32, sign32};
use crate::Error;

verus! {

/// The shape of a node's value.
#[derive(Clone, Copy, PartialEq, Eq, Structural, Debug)]
pub enum NodeType {
    Node,
    String,
    StringEnum,
    Integer,
    LinearFloat,
    LogarithmicFloat,
    FaderLevel,
    FloatEnum,
}

/// The unit a node's value is expressed in.
#[derive(Clone, Copy, PartialEq, Eq, Structural, Debug)]
pub enum NodeUnit {
    NoUnit,
    Decibels,
    Percent,
    Hertz,
    Milliseconds,
    Degrees,
    Other,
}

/// The node type a wire code stands for; codes above 7 are invalid.
pub open spec fn spec_node_type(c: u8) -> Option<NodeType> {
    if c == 0 {
        Some(NodeType::Node)
    } else if c == 1 {
        Some(NodeType::String)
    } else if c == 2 {
        Some(NodeType::StringEnum)
    } else if c == 3 {
        Some(NodeType::Integer)
    } else if c == 4 {
        Some(NodeType::LinearFloat)
    } else if c == 5 {
        Some(NodeType::LogarithmicFloat)
    } else if c == 6 {
        Some(NodeType::FaderLevel)
    } else if c == 7 {
        Some(NodeType::FloatEnum)
    } else {
        None
    }
}

/// The unit a wire code stands for; unassigned codes read as `Other`.
pub open spec fn spec_node_unit(c: u8) -> NodeUnit {
    if c == 0 {
        NodeUnit::NoUnit
    } else if c == 1 {
        NodeUnit::Decibels
    } else if c == 2 {
        NodeUnit::Percent
    } else if c == 3 {
        NodeUnit::Hertz
    } else if c == 4 {
        NodeUnit::Milliseconds
    } else if c == 5 {
        NodeUnit::Degrees
    } else {
        NodeUnit::Other
    }
}

/// The node type a wire code stands for.
pub fn node_type_of_code(c: u8) -> (r: Option<NodeType>)
    ensures
        r == spec_node_type(c),
{
    if c == 0 {
        Some(NodeType::Node)
    } else if c == 1 {
        Some(NodeType::String)
    } else if c == 2 {
        Some(NodeType::StringEnum)
    } else if c == 3 {
        Some(NodeType::Integer)
    } else if c == 4 {
        Some(NodeType::LinearFloat)
    } else if c == 5 {
        Some(NodeType::LogarithmicFloat)
    } else if c == 6 {
        Some(NodeType::FaderLevel)
    } else if c == 7 {
        Some(NodeType::FloatEnum)
    } else {
        None
    }
}

/// The unit a wire code stands for.
pub fn node_unit_of_code(c: u8) -> (r: NodeUnit)
    ensures
        r == spec_node_unit(c),
{
    if c == 0 {
        NodeUnit::NoUnit
    } else if c == 1 {
        NodeUnit::Decibels
    } else if c == 2 {
        NodeUnit::Percent
    } else if c == 3 {
        NodeUnit::Hertz
    } else if c == 4 {
        NodeUnit::Milliseconds
    } else if c == 5 {
        NodeUnit::Degrees
    } else {
        NodeUnit::Other
    }
}

/// Specification-level image of a node value: strings as their UTF-8
/// bytes.
pub enum SpecValue {
    Int(i32),
    Short(i16),
    Float(u32),
    Text(Seq<u8>),
}

/// One typed node value.  `FloatBits` holds the IEEE-754 bit pattern of a
/// 32-bit float.
pub enum WingNodeData {
    Integer(i32),
    Short(i16),
    FloatBits(u32),
    Text(String),
}

impl View for WingNodeData {
    type V = SpecValue;

    open spec fn view(&self) -> SpecValue {
        match self {
            WingNodeData::Integer(v) => SpecValue::Int(*v),
            WingNodeData::Short(v) => SpecValue::Short(*v),
            WingNodeData::FloatBits(v) => SpecValue::Float(*v),
            WingNodeData::Text(s) => SpecValue::Text(encode_utf8(s@)),
        }
    }
}

impl WingNodeData {
    /// Wrap a 32-bit integer value.
    pub fn with_i32(v: i32) -> (r: WingNodeData)
        ensures
            r == WingNodeData::Integer(v),
    {
        WingNodeData::Integer(v)
    }

    /// Wrap a 16-bit integer value.
    pub fn with_i16(v: i16) -> (r: WingNodeData)
        ensures
            r == WingNodeData::Short(v),
    {
        WingNodeData::Short(v)
    }

    /// Wrap a float value given as its IEEE-754 bit pattern.
    pub fn with_float_bits(bits: u32) -> (r: WingNodeData)
        ensures
            r == WingNodeData::FloatBits(bits),
    {
        WingNodeData::FloatBits(bits)
    }

    /// Wrap a string value.
    pub fn with_string(s: String) -> (r: WingNodeData)
        ensures
            r == WingNodeData::Text(s),
    {
        WingNodeData::Text(s)
    }

    /// Whether this value carries an integer.
    pub fn has_int(&self) -> (r: bool)
        ensures
            r == (self@ is Int || self@ is Short),
    {
        match self {
            WingNodeData::Integer(_) => true,
            WingNodeData::Short(_) => true,
            _ => false,
        }
    }

    /// Whether this value carries a float bit pattern.
    pub fn has_float(&self) -> (r: bool)
        ensures
            r == (self@ is Float),
    {
        matches!(self, WingNodeData::FloatBits(_))
    }

    /// Whether this value carries a string.
    pub fn has_string(&self) -> (r: bool)
        ensures
            r == (self@ is Text),
    {
        matches!(self, WingNodeData::Text(_))
    }

    /// The integer carried, exactly: the value of an `Integer` or `Short`
    /// variant, nothing for the others.
    pub fn get_int(&self) -> (r: Option<i32>)
        ensures
            match self@ {
                SpecValue::Int(v) => r == Some(v),
                SpecValue::Short(v) => r matches Some(w) && w == v as i32,
                _ => r is None,
            },
    {
        match self {
            WingNodeData::Integer(v) => Some(*v),
            WingNodeData::Short(v) => Some(*v as i32),
            _ => None,
        }
    }

    /// The IEEE-754 bit pattern carried by a `FloatBits` variant.
    pub fn get_float_bits(&self) -> (r: Option<u32>)
        ensures
            match self@ {
                SpecValue::Float(v) => r == Some(v),
                _ => r is None,
            },
    {
        match self {
            WingNodeData::FloatBits(v) => Some(*v),
            _ => None,
        }
    }

    /// The string carried by a `Text` variant.
    pub fn get_string(&self) -> (r: Option<&String>)
        ensures
            match self@ {
                SpecValue::Text(bs) => r matches Some(s) && encode_utf8(s@) == bs,
                _ => r is None,
            },
    {
        match self {
            WingNodeData::Text(s) => Some(s),
            _ => None,
        }
    }
}

/// One `(item, long item)` pair of a string-enum table.
pub struct StringEnumItem {
    pub item: String,
    pub long_item: String,
}

/// One `(float bits, long item)` pair of a float-enum table.
pub struct FloatEnumItem {
    pub item: u32,
    pub long_item: String,
}

/// Specification-level image of a parsed definition: strings as their
/// UTF-8 bytes, wide integers as mathematical integers.
#[verifier::ext_equal]
pub struct SpecDef {
    pub id: int,
    pub parent_id: int,
    pub index: int,
    pub node_type: NodeType,
    pub unit: NodeUnit,
    pub name: Seq<u8>,
    pub long_name: Seq<u8>,
    pub read_only: bool,
    pub min_float: Option<u32>,
    pub max_float: Option<u32>,
    pub steps: Option<int>,
    pub min_int: Option<int>,
    pub max_int: Option<int>,
    pub max_string_len: Option<int>,
    pub string_enum: Option<Seq<(Seq<u8>, Seq<u8>)>>,
    pub float_enum: Option<Seq<(u32, Seq<u8>)>>,
}

/// A length-prefixed string starting at `pos`: one length byte, then that
/// many bytes.  Returns the bytes and the position past them.
pub open spec fn parse_lstr(b: Seq<u8>, pos: int) -> Option<(Seq<u8>, int)> {
    if 0 <= pos < b.len() {
        let n = b[pos] as int;
        if pos + 1 + n <= b.len() {
            Some((b.subrange(pos + 1, pos + 1 + n), pos + 1 + n))
        } else {
            None
        }
    } else {
        None
    }
}

/// `n` consecutive `(item, long item)` string pairs starting at `pos`.
pub open spec fn parse_string_items(b: Seq<u8>, pos: int, n: nat) -> Option<
    (Seq<(Seq<u8>, Seq<u8>)>, int),
>
    decreases n,
{
    if n == 0 {
        Some((Seq::empty(), pos))
    } else {
        match parse_lstr(b, pos) {
            None => None,
            Some((item, p1)) => match parse_lstr(b, p1) {
                None => None,
                Some((long_item, p2)) => match parse_string_items(b, p2, (n - 1) as nat) {
                    None => None,
                    Some((rest, p3)) => Some((seq![(item, long_item)] + rest, p3)),
                },
            },
        }
    }
}

/// `n` consecutive `(float bits, long item)` pairs starting at `pos`.
pub open spec fn parse_float_items(b: Seq<u8>, pos: int, n: nat) -> Option<
    (Seq<(u32, Seq<u8>)>, int),
>
    decreases n,
{
    if n == 0 {
        Some((Seq::empty(), pos))
    } else {
        if 0 <= pos && pos + 4 <= b.len() {
            let bits = be32(b[pos], b[pos + 1], b[pos + 2], b[pos + 3]) as u32;
            match parse_lstr(b, pos + 4) {
                None => None,
                Some((long_item, p1)) => match parse_float_items(b, p1, (n - 1) as nat) {
                    None => None,
                    Some((rest, p2)) => Some((seq![(bits, long_item)] + rest, p2)),
                },
            }
        } else {
            None
        }
    }
}

/// A whole definition block.  `None` when the block is malformed: too
/// short, an unassigned type code, a string running past the end, or
/// trailing bytes.
pub open spec fn spec_parse_def(b: Seq<u8>) -> Option<SpecDef> {
    if b.len() < 13 {
        None
    } else {
        match spec_node_type(b[11]) {
            None => None,
            Some(t) => match parse_lstr(b, 13) {
                None => None,
                Some((name, p1)) => match parse_lstr(b, p1) {
                    None => None,
                    Some((long_name, p2)) => {
                        let base = SpecDef {
                            id: sign32(be32(b[0], b[1], b[2], b[3])),
                            parent_id: sign32(be32(b[4], b[5], b[6], b[7])),
                            index: be16(b[8], b[9]),
                            node_type: t,
                            unit: spec_node_unit(b[12]),
                            name: name,
                            long_name: long_name,
                            read_only: b[10] & 1 == 1,
                            min_float: None,
                            max_float: None,
                            steps: None,
                            min_int: None,
                            max_int: None,
                            max_string_len: None,
                            string_enum: None,
                            float_enum: None,
                        };
                        spec_parse_tail(b, p2, t, base)
                    },
                },
            },
        }
    }
}

/// The type-specific tail of a definition block, which must end exactly at
/// the end of the block.
pub open spec fn spec_parse_tail(b: Seq<u8>, p: int, t: NodeType, base: SpecDef) -> Option<
    SpecDef,
> {
    match t {
        NodeType::Node => if p == b.len() {
            Some(base)
        } else {
            None
        },
        NodeType::String => if p + 2 == b.len() {
            Some(SpecDef { max_string_len: Some(be16(b[p], b[p + 1])), ..base })
        } else {
            None
        },
        NodeType::Integer => if p + 12 == b.len() {
            Some(
                SpecDef {
                    min_int: Some(sign32(be32(b[p], b[p + 1], b[p + 2], b[p + 3]))),
                    max_int: Some(sign32(be32(b[p + 4], b[p + 5], b[p + 6], b[p + 7]))),
                    steps: Some(sign32(be32(b[p + 8], b[p + 9], b[p + 10], b[p + 11]))),
                    ..base
                },
            )
        } else {
            None
        },
        NodeType::StringEnum => if p < b.len() {
            match parse_string_items(b, p + 1, b[p] as nat) {
                Some((items, pend)) => if pend == b.len() {
                    Some(SpecDef { string_enum: Some(items), ..base })
                } else {
                    None
                },
                None => None,
            }
        } else {
            None
        },
        NodeType::FloatEnum => if p < b.len() {
            match parse_float_items(b, p + 1, b[p] as nat) {
                Some((items, pend)) => if pend == b.len() {
                    Some(SpecDef { float_enum: Some(items), ..base })
                } else {
                    None
                },
                None => None,
            }
        } else {
            None
        },
        _ => if p + 12 == b.len() {
            Some(
                SpecDef {
                    min_float: Some(be32(b[p], b[p + 1], b[p + 2], b[p + 3]) as u32),
                    max_float: Some(be32(b[p + 4], b[p + 5], b[p + 6], b[p + 7]) as u32),
                    steps: Some(sign32(be32(b[p + 8], b[p + 9], b[p + 10], b[p + 11]))),
                    ..base
                },
            )
        } else {
            None
        },
    }
}

/// Whether every string of a parsed definition is valid UTF-8.
pub open spec fn def_strings_ok(d: SpecDef) -> bool {
    &&& valid_utf8(d.name)
    &&& valid_utf8(d.long_name)
    &&& match d.string_enum {
        Some(items) => forall|j: int|
            #![trigger items[j]]
            0 <= j < items.len() ==> valid_utf8(items[j].0) && valid_utf8(items[j].1),
        None => true,
    }
    &&& match d.float_enum {
        Some(items) => forall|j: int|
            #![trigger items[j]]
            0 <= j < items.len() ==> valid_utf8(items[j].1),
        None => true,
    }
}

/// The byte-level image of a string-enum table.
pub open spec fn string_enum_view(items: Seq<StringEnumItem>) -> Seq<(Seq<u8>, Seq<u8>)> {
    items.map(|j: int, it: StringEnumItem| (encode_utf8(it.item@), encode_utf8(it.long_item@)))
}

/// The byte-level image of a float-enum table.
pub open spec fn float_enum_view(items: Seq<FloatEnumItem>) -> Seq<(u32, Seq<u8>)> {
    items.map(|j: int, it: FloatEnumItem| (it.item, encode_utf8(it.long_item@)))
}

/// One parsed node definition.  The `raw` field retains the received block
/// verbatim.
pub struct WingNodeDef {
    pub id: i32,
    pub parent_id: i32,
    pub index: u16,
    pub node_type: NodeType,
    pub unit: NodeUnit,
    pub name: String,
    pub long_name: String,
    pub read_only: bool,
    pub min_float: Option<u32>,
    pub max_float: Option<u32>,
    pub steps: Option<i32>,
    pub min_int: Option<i32>,
    pub max_int: Option<i32>,
    pub max_string_len: Option<u16>,
    pub string_enum: Option<Vec<StringEnumItem>>,
    pub float_enum: Option<Vec<FloatEnumItem>>,
    pub raw: Vec<u8>,
}

impl View for WingNodeDef {
    type V = SpecDef;

    open spec fn view(&self) -> SpecDef {
        SpecDef {
            id: self.id as int,
            parent_id: self.parent_id as int,
            index: self.index as int,
            node_type: self.node_type,
            unit: self.unit,
            name: encode_utf8(self.name@),
            long_name: encode_utf8(self.long_name@),
            read_only: self.read_only,
            min_float: self.min_float,
            max_float: self.max_float,
            steps: match self.steps {
                Some(v) => Some(v as int),
                None => None,
            },
            min_int: match self.min_int {
                Some(v) => Some(v as int),
                None => None,
            },
            max_int: match self.max_int {
                Some(v) => Some(v as int),
                None => None,
            },
            max_string_len: match self.max_string_len {
                Some(v) => Some(v as int),
                None => None,
            },
            string_enum: match &self.string_enum {
                Some(v) => Some(string_enum_view(v@)),
                None => None,
            },
            float_enum: match &self.float_enum {
                Some(v) => Some(float_enum_view(v@)),
                None => None,
            },
        }
    }
}

/// Read one length-prefixed string out of `b` at `pos`.
fn read_lstr(b: &Vec<u8>, pos: usize) -> (r: Option<(Vec<u8>, usize)>)
    ensures
        match parse_lstr(b@, pos as int) {
            Some((s, p)) => {
                &&& r matches Some(t)
                &&& t.0@ == s
                &&& t.1 == p
                &&& pos < p <= b@.len()
            },
            None => r is None,
        },
{
    if pos < b.len() {
        let n = b[pos] as usize;
        if n <= b.len() - (pos + 1) {
            let s = crate::bytes::vec_subrange(b, pos + 1, pos + 1 + n);
            Some((s, pos + 1 + n))
        } else {
            None
        }
    } else {
        None
    }
}

/// Read a string-enum table of `n` pairs out of `b` at `pos`, converting
/// each pair to owned strings.  Fails when the table runs past the end of
/// the block or a pair is not valid UTF-8.
fn read_string_table(b: &Vec<u8>, pos: usize, n: u8) -> (r: Result<(Vec<StringEnumItem>, usize), Error>)
    requires
        pos <= b@.len(),
    ensures
        match r {
            Ok((table, p)) => {
                &&& parse_string_items(b@, pos as int, n as nat) == Some(
                    (string_enum_view(table@), p as int),
                )
                &&& p <= b@.len()
            },
            Err(e) => {
                &&& e is InvalidData
                &&& match parse_string_items(b@, pos as int, n as nat) {
                    None => true,
                    Some((items, p)) => exists|j: int|
                        #![trigger items[j]]
                        0 <= j < items.len() && (!valid_utf8(items[j].0) || !valid_utf8(
                            items[j].1,
                        )),
                }
            },
        },
{
    broadcast use vstd::utf8::encode_utf8_valid_utf8, vstd::utf8::decode_utf8_encode_utf8;

    let mut table: Vec<StringEnumItem> = Vec::new();
    let mut p: usize = pos;
    let mut k: u8 = 0;
    while k < n
        invariant
            k <= n,
            p <= b@.len(),
            table@.len() == k,
            match parse_string_items(b@, p as int, (n - k) as nat) {
                Some((rest, pe)) => parse_string_items(b@, pos as int, n as nat) == Some(
                    (string_enum_view(table@) + rest, pe),
                ),
                None => parse_string_items(b@, pos as int, n as nat) is None,
            },
        decreases n - k,
    {
        let ghost table0 = table@;
        let (item_b, p1) = match read_lstr(b, p) {
            Some(t) => t,
            None => {
                return Err(Error::InvalidData);
            },
        };
        let (long_b, p2) = match read_lstr(b, p1) {
            Some(t) => t,
            None => {
                return Err(Error::InvalidData);
            },
        };
        let ghost ib = item_b@;
        let ghost lb = long_b@;
        let item = match crate::text::bytes_to_string(item_b) {
            Some(s) => s,
            None => {
                proof {
                    lemma_bad_item(b@, pos as int, p as int, n as nat, k as nat, table0, ib, lb);
                }
                return Err(Error::InvalidData);
            },
        };
        let long_item = match crate::text::bytes_to_string(long_b) {
            Some(s) => s,
            None => {
                proof {
                    lemma_bad_item(b@, pos as int, p as int, n as nat, k as nat, table0, ib, lb);
                }
                return Err(Error::InvalidData);
            },
        };
        table.push(StringEnumItem { item, long_item });
        proof {
            vstd::utf8::decode_utf8_encode_utf8(ib);
            vstd::utf8::decode_utf8_encode_utf8(lb);
            assert(string_enum_view(table@) =~= string_enum_view(table0) + seq![(ib, lb)]);
            let r2 = parse_string_items(b@, p2 as int, (n - k - 1) as nat);
            if r2 is Some {
                let (rest2, pe2) = r2->0;
                assert(string_enum_view(table0) + (seq![(ib, lb)] + rest2) =~= string_enum_view(
                    table@,
                ) + rest2);
            }
        }
        p = p2;
        k = k + 1;
    }
    proof {
        assert(string_enum_view(table@) + Seq::<(Seq<u8>, Seq<u8>)>::empty() =~= string_enum_view(
            table@,
        ));
    }
    Ok((table, p))
}

/// When the pair just read at `p` is not valid UTF-8 and the whole table
/// parses, some parsed item is not valid UTF-8.
proof fn lemma_bad_item(
    b: Seq<u8>,
    pos: int,
    p: int,
    n: nat,
    k: nat,
    table0: Seq<StringEnumItem>,
    ib: Seq<u8>,
    lb: Seq<u8>,
)
    requires
        k < n,
        table0.len() == k,
        ({
            &&& parse_lstr(b, p) matches Some((s1, p1))
            &&& s1 == ib
            &&& parse_lstr(b, p1) matches Some((s2, p2))
            &&& s2 == lb
        }),
        !valid_utf8(ib) || !valid_utf8(lb),
        match parse_string_items(b, p, (n - k) as nat) {
            Some((rest, pe)) => parse_string_items(b, pos, n) == Some(
                (string_enum_view(table0) + rest, pe),
            ),
            None => parse_string_items(b, pos, n) is None,
        },
    ensures
        match parse_string_items(b, pos, n) {
            None => true,
            Some((items, pe)) => exists|j: int|
                #![trigger items[j]]
                0 <= j < items.len() && (!valid_utf8(items[j].0) || !valid_utf8(items[j].1)),
        },
{
    if parse_string_items(b, pos, n) is Some {
        let (items, pe) = parse_string_items(b, pos, n)->0;
        let (rest, pe2) = parse_string_items(b, p, (n - k) as nat)->0;
        assert(items == string_enum_view(table0) + rest);
        assert(rest[0] == (ib, lb));
        assert(items[k as int] == (ib, lb));
        assert(0 <= k < items.len() && (!valid_utf8(items[k as int].0) || !valid_utf8(
            items[k as int].1,
        )));
    }
}

/// Read a float-enum table of `n` pairs out of `b` at `pos`.  Fails when
/// the table runs past the end of the block or a long item is not valid
/// UTF-8.
fn read_float_table(b: &Vec<u8>, pos: usize, n: u8) -> (r: Result<(Vec<FloatEnumItem>, usize), Error>)
    requires
        pos <= b@.len(),
    ensures
        match r {
            Ok((table, p)) => {
                &&& parse_float_items(b@, pos as int, n as nat) == Some(
                    (float_enum_view(table@), p as int),
                )
                &&& p <= b@.len()
            },
            Err(e) => {
                &&& e is InvalidData
                &&& match parse_float_items(b@, pos as int, n as nat) {
                    None => true,
                    Some((items, p)) => exists|j: int|
                        #![trigger items[j]]
                        0 <= j < items.len() && !valid_utf8(items[j].1),
                }
            },
        },
{
    broadcast use vstd::utf8::encode_utf8_valid_utf8, vstd::utf8::decode_utf8_encode_utf8;

    let mut table: Vec<FloatEnumItem> = Vec::new();
    let mut p: usize = pos;
    let mut k: u8 = 0;
    while k < n
        invariant
            k <= n,
            p <= b@.len(),
            table@.len() == k,
            match parse_float_items(b@, p as int, (n - k) as nat) {
                Some((rest, pe)) => parse_float_items(b@, pos as int, n as nat) == Some(
                    (float_enum_view(table@) + rest, pe),
                ),
                None => parse_float_items(b@, pos as int, n as nat) is None,
            },
        decreases n - k,
    {
        let ghost table0 = table@;
        if b.len() - p < 4 {
            return Err(Error::InvalidData);
        }
        let bits = crate::bytes::u32_from_be(b[p], b[p + 1], b[p + 2], b[p + 3]);
        let (long_b, p1) = match read_lstr(b, p + 4) {
            Some(t) => t,
            None => {
                return Err(Error::InvalidData);
            },
        };
        let ghost lb = long_b@;
        let long_item = match crate::text::bytes_to_string(long_b) {
            Some(s) => s,
            None => {
                proof {
                    lemma_bad_float_item(
                        b@,
                        pos as int,
                        p as int,
                        n as nat,
                        k as nat,
                        table0,
                        bits,
                        lb,
                    );
                }
                return Err(Error::InvalidData);
            },
        };
        table.push(FloatEnumItem { item: bits, long_item });
        proof {
            vstd::utf8::decode_utf8_encode_utf8(lb);
            assert(float_enum_view(table@) =~= float_enum_view(table0) + seq![(bits, lb)]);
            let r2 = parse_float_items(b@, p1 as int, (n - k - 1) as nat);
            if r2 is Some {
                let (rest2, pe2) = r2->0;
                assert(float_enum_view(table0) + (seq![(bits, lb)] + rest2) =~= float_enum_view(
                    table@,
                ) + rest2);
            }
        }
        p = p1;
        k = k + 1;
    }
    proof {
        assert(float_enum_view(table@) + Seq::<(u32, Seq<u8>)>::empty() =~= float_enum_view(
            table@,
        ));
    }
    Ok((table, p))
}

/// When the long item just read at `p` is not valid UTF-8 and the whole
/// table parses, some parsed long item is not valid UTF-8.
proof fn lemma_bad_float_item(
    b: Seq<u8>,
    pos: int,
    p: int,
    n: nat,
    k: nat,
    table0: Seq<FloatEnumItem>,
    bits: u32,
    lb: Seq<u8>,
)
    requires
        k < n,
        table0.len() == k,
        0 <= p && p + 4 <= b.len(),
        bits == be32(b[p], b[p + 1], b[p + 2], b[p + 3]) as u32,
        parse_lstr(b, p + 4) matches Some((s1, p1)) && s1 == lb,
        !valid_utf8(lb),
        match parse_float_items(b, p, (n - k) as nat) {
            Some((rest, pe)) => parse_float_items(b, pos, n) == Some(
                (float_enum_view(table0) + rest, pe),
            ),
            None => parse_float_items(b, pos, n) is None,
        },
    ensures
        match parse_float_items(b, pos, n) {
            None => true,
            Some((items, pe)) => exists|j: int|
                #![trigger items[j]]
                0 <= j < items.len() && !valid_utf8(items[j].1),
        },
{
    if parse_float_items(b, pos, n) is Some {
        let (items, pe) = parse_float_items(b, pos, n)->0;
        let (rest, pe2) = parse_float_items(b, p, (n - k) as nat)->0;
        assert(items == float_enum_view(table0) + rest);
        assert(rest[0] == (bits, lb));
        assert(items[k as int] == (bits, lb));
        assert(0 <= k < items.len() && !valid_utf8(items[k as int].1));
    }
}

impl WingNodeDef {
    /// A definition is well formed when its fields are exactly what its
    /// retained raw block parses to.
    pub open spec fn wf(&self) -> bool {
        spec_parse_def(self.raw@) == Some(self@)
    }

    /// Parse a raw definition block.  Succeeds exactly on blocks the
    /// layout above accepts whose strings are valid UTF-8, and then
    /// returns the parsed fields together with the block itself.
    pub fn from_bytes(b: &Vec<u8>) -> (r: Result<WingNodeDef, Error>)
        ensures
            match spec_parse_def(b@) {
                Some(d) => {
                    if def_strings_ok(d) {
                        &&& r matches Ok(def)
                        &&& def@ == d
                        &&& def.raw@ == b@
                    } else {
                        r matches Err(e) && e is InvalidData
                    }
                },
                None => r matches Err(e) && e is InvalidData,
            },
    {
        broadcast use vstd::utf8::encode_utf8_valid_utf8, vstd::utf8::decode_utf8_encode_utf8;

        if b.len() < 13 {
            return Err(Error::InvalidData);
        }
        let id = crate::bytes::i32_from_be(b[0], b[1], b[2], b[3]);
        let parent_id = crate::bytes::i32_from_be(b[4], b[5], b[6], b[7]);
        let index = crate::bytes::u16_from_be(b[8], b[9]);
        let flags = b[10];
        let read_only = flags & 1 == 1;
        let node_type = match node_type_of_code(b[11]) {
            Some(t) => t,
            None => {
                return Err(Error::InvalidData);
            },
        };
        let unit = node_unit_of_code(b[12]);
        let (name_b, p1) = match read_lstr(b, 13) {
            Some(t) => t,
            None => {
                return Err(Error::InvalidData);
            },
        };
        let (long_b, p2) = match read_lstr(b, p1) {
            Some(t) => t,
            None => {
                return Err(Error::InvalidData);
            },
        };
        let ghost name_bytes = name_b@;
        let ghost long_bytes = long_b@;
        let name = match crate::text::bytes_to_string(name_b) {
            Some(s) => s,
            None => {
                return Err(Error::InvalidData);
            },
        };
        let long_name = match crate::text::bytes_to_string(long_b) {
            Some(s) => s,
            None => {
                return Err(Error::InvalidData);
            },
        };
        let mut def = WingNodeDef {
            id,
            parent_id,
            index,
            node_type,
            unit,
            name,
            long_name,
            read_only,
            min_float: None,
            max_float: None,
            steps: None,
            min_int: None,
            max_int: None,
            max_string_len: None,
            string_enum: None,
            float_enum: None,
            raw: crate::bytes::vec_subrange(b, 0, b.len()),
        };
        match node_type {
            NodeType::Node => {
                if b.len() - p2 != 0 {
                    return Err(Error::InvalidData);
                }
            },
            NodeType::String => {
                if b.len() - p2 != 2 {
                    return Err(Error::InvalidData);
                }
                def.max_string_len = Some(crate::bytes::u16_from_be(b[p2], b[p2 + 1]));
            },
            NodeType::Integer => {
                if b.len() - p2 != 12 {
                    return Err(Error::InvalidData);
                }
                def.min_int = Some(
                    crate::bytes::i32_from_be(b[p2], b[p2 + 1], b[p2 + 2], b[p2 + 3]),
                );
                def.max_int = Some(
                    crate::bytes::i32_from_be(b[p2 + 4], b[p2 + 5], b[p2 + 6], b[p2 + 7]),
                );
                def.steps = Some(
                    crate::bytes::i32_from_be(b[p2 + 8], b[p2 + 9], b[p2 + 10], b[p2 + 11]),
                );
            },
            NodeType::StringEnum => {
                if b.len() - p2 < 1 {
                    return Err(Error::InvalidData);
                }
                let n = b[p2];
                let (table, pend) = match read_string_table(b, p2 + 1, n) {
                    Ok(t) => t,
                    Err(e) => {
                        proof {
                            let pr = parse_string_items(b@, p2 + 1, n as nat);
                            if pr is Some {
                                let (items, pe) = pr->0;
                                let j = choose|j: int|
                                    #![trigger items[j]]
                                    0 <= j < items.len() && (!valid_utf8(items[j].0)
                                        || !valid_utf8(items[j].1));
                                if spec_parse_def(b@) is Some {
                                    let d = spec_parse_def(b@)->0;
                                    assert(d.string_enum == Some(items));
                                    assert(d.string_enum->0[j] == items[j]);
                                    assert(!def_strings_ok(d));
                                }
                            }
                        }
                        return Err(e);
                    },
                };
                if pend != b.len() {
                    return Err(Error::InvalidData);
                }
                def.string_enum = Some(table);
            },
            NodeType::FloatEnum => {
                if b.len() - p2 < 1 {
                    return Err(Error::InvalidData);
                }
                let n = b[p2];
                let (table, pend) = match read_float_table(b, p2 + 1, n) {
                    Ok(t) => t,
                    Err(e) => {
                        proof {
                            let pr = parse_float_items(b@, p2 + 1, n as nat);
                            if pr is Some {
                                let (items, pe) = pr->0;
                                let j = choose|j: int|
                                    #![trigger items[j]]
                                    0 <= j < items.len() && !valid_utf8(items[j].1);
                                if spec_parse_def(b@) is Some {
                                    let d = spec_parse_def(b@)->0;
                                    assert(d.float_enum == Some(items));
                                    assert(d.float_enum->0[j] == items[j]);
                                    assert(!def_strings_ok(d));
                                }
                            }
                        }
                        return Err(e);
                    },
                };
                if pend != b.len() {
                    return Err(Error::InvalidData);
                }
                def.float_enum = Some(table);
            },
            _ => {
                if b.len() - p2 != 12 {
                    return Err(Error::InvalidData);
                }
                def.min_float = Some(
                    crate::bytes::u32_from_be(b[p2], b[p2 + 1], b[p2 + 2], b[p2 + 3]),
                );
                def.max_float = Some(
                    crate::bytes::u32_from_be(b[p2 + 4], b[p2 + 5], b[p2 + 6], b[p2 + 7]),
                );
                def.steps = Some(
                    crate::bytes::i32_from_be(b[p2 + 8], b[p2 + 9], b[p2 + 10], b[p2 + 11]),
                );
            },
        }
        proof {
            vstd::utf8::decode_utf8_encode_utf8(name_bytes);
            vstd::utf8::decode_utf8_encode_utf8(long_bytes);
            let d = spec_parse_def(b@)->0;
            assert(def@ =~~= d);
        }
        Ok(def)
    }
}

} // verus!

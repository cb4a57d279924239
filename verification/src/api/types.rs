//! The field types a packet is read and written in, each with the bytes it
//! reads and the bytes it writes.

use vstd::prelude::*;
use crate::codec::{
    append_bytes, be_bytes, be_value, copy_range, lemma_be_round_trip, lemma_fixed_widths,
    lemma_prefixed_len, lemma_prefixed_round_trip, lemma_signed_round_trip,
    lemma_string_round_trip, lemma_var_int_len, lemma_var_int_round_trip, lemma_var_long_len,
    lemma_var_long_round_trip, prefixed_at, prefixed_bytes, read_bool, read_i16, read_i32,
    read_i64, read_prefixed, read_string, read_u128, read_u8, read_var_int, read_var_long,
    rest_of, signed_be, signed_bytes, string_at, utf8_valid, var_int_at, var_int_bytes,
    var_long_at, var_long_bytes, write_bool, write_i16, write_i32, write_i64, write_prefixed,
    write_u128, write_u8, write_var_int, write_var_long, MAX_STRING_BYTES,
};

verus! {

/// A field type: how its value is read from a payload and written back.
pub trait WireType {
    type Value: DeepView;

    /// The value at the front of `s` and the bytes it takes, `None` where
    /// the bytes are not one.
    spec fn parse(&self, s: Seq<u8>) -> Option<(<Self::Value as DeepView>::V, nat)>;

    /// The bytes `v` is written as.
    spec fn encode(&self, v: <Self::Value as DeepView>::V) -> Seq<u8>;

    /// Whether the writer accepts `v`.
    spec fn writable(&self, v: <Self::Value as DeepView>::V) -> bool;

    /// Whether what is written of `v` reads back as `v`.
    spec fn well_formed(&self, v: <Self::Value as DeepView>::V) -> bool;

    /// Whether a read takes every byte left, so that nothing can follow it.
    spec fn reads_to_end(&self) -> bool;

    /// A read never takes more than it is given.
    proof fn lemma_parse_len(&self, s: Seq<u8>)
        ensures
            self.parse(s) matches Some((_, n)) ==> n <= s.len(),
    ;

    /// A written value reads back as itself, whatever follows it where
    /// anything can.
    proof fn lemma_round_trip(&self, v: <Self::Value as DeepView>::V, rest: Seq<u8>)
        requires
            self.writable(v),
            self.well_formed(v),
            self.reads_to_end() ==> rest.len() == 0,
        ensures
            self.parse(self.encode(v) + rest) == Some((v, self.encode(v).len())),
    ;

    /// Reads the value at `pos` and gives the position after it.
    fn read(&self, buf: &[u8], pos: usize) -> (r: Option<(Self::Value, usize)>)
        requires
            pos <= buf@.len(),
        ensures
            match self.parse(rest_of(buf@, pos as int)) {
                Some((v, n)) => r matches Some((x, p)) && x.deep_view() == v && p == pos + n
                    && p <= buf@.len(),
                None => r is None,
            },
    ;

    /// Appends `v`; `false`, with nothing appended, where the writer refuses it.
    fn write(&self, out: &mut Vec<u8>, v: &Self::Value) -> (r: bool)
        ensures
            r == self.writable(v.deep_view()),
            r ==> final(out)@ == old(out)@ + self.encode(v.deep_view()),
            !r ==> final(out)@ == old(out)@,
    ;
}

/// A `VarInt`.
#[derive(Clone, Copy, Debug)]
pub struct VarIntT;

pub const VAR_INT: VarIntT = VarIntT;

impl WireType for VarIntT {
    type Value = i32;

    open spec fn parse(&self, s: Seq<u8>) -> Option<(i32, nat)> {
        var_int_at(s)
    }

    open spec fn encode(&self, v: i32) -> Seq<u8> {
        var_int_bytes(v)
    }

    open spec fn writable(&self, v: i32) -> bool {
        true
    }

    open spec fn well_formed(&self, v: i32) -> bool {
        true
    }

    open spec fn reads_to_end(&self) -> bool {
        false
    }

    proof fn lemma_parse_len(&self, s: Seq<u8>) {
        lemma_var_int_len(s);
    }

    proof fn lemma_round_trip(&self, v: i32, rest: Seq<u8>) {
        lemma_var_int_round_trip(v, rest);
    }

    fn read(&self, buf: &[u8], pos: usize) -> (r: Option<(i32, usize)>) {
        read_var_int(buf, pos)
    }

    fn write(&self, out: &mut Vec<u8>, v: &i32) -> (r: bool) {
        write_var_int(out, *v);
        true
    }
}

/// A `VarLong`.
#[derive(Clone, Copy, Debug)]
pub struct VarLongT;

pub const VAR_LONG: VarLongT = VarLongT;

impl WireType for VarLongT {
    type Value = i64;

    open spec fn parse(&self, s: Seq<u8>) -> Option<(i64, nat)> {
        var_long_at(s)
    }

    open spec fn encode(&self, v: i64) -> Seq<u8> {
        var_long_bytes(v)
    }

    open spec fn writable(&self, v: i64) -> bool {
        true
    }

    open spec fn well_formed(&self, v: i64) -> bool {
        true
    }

    open spec fn reads_to_end(&self) -> bool {
        false
    }

    proof fn lemma_parse_len(&self, s: Seq<u8>) {
        lemma_var_long_len(s);
    }

    proof fn lemma_round_trip(&self, v: i64, rest: Seq<u8>) {
        lemma_var_long_round_trip(v, rest);
    }

    fn read(&self, buf: &[u8], pos: usize) -> (r: Option<(i64, usize)>) {
        read_var_long(buf, pos)
    }

    fn write(&self, out: &mut Vec<u8>, v: &i64) -> (r: bool) {
        write_var_long(out, *v);
        true
    }
}

/// A boolean: one byte, anything but zero read as true.
#[derive(Clone, Copy, Debug)]
pub struct BoolT;

pub const BOOL: BoolT = BoolT;

impl WireType for BoolT {
    type Value = bool;

    open spec fn parse(&self, s: Seq<u8>) -> Option<(bool, nat)> {
        if s.len() >= 1 { Some((s[0] != 0, 1)) } else { None }
    }

    open spec fn encode(&self, v: bool) -> Seq<u8> {
        seq![if v { 1u8 } else { 0u8 }]
    }

    open spec fn writable(&self, v: bool) -> bool {
        true
    }

    open spec fn well_formed(&self, v: bool) -> bool {
        true
    }

    open spec fn reads_to_end(&self) -> bool {
        false
    }

    proof fn lemma_parse_len(&self, s: Seq<u8>) {
    }

    proof fn lemma_round_trip(&self, v: bool, rest: Seq<u8>) {
        assert((self.encode(v) + rest)[0] == self.encode(v)[0]);
    }

    fn read(&self, buf: &[u8], pos: usize) -> (r: Option<(bool, usize)>) {
        read_bool(buf, pos)
    }

    fn write(&self, out: &mut Vec<u8>, v: &bool) -> (r: bool) {
        write_bool(out, *v);
        true
    }
}

/// An unsigned byte.
#[derive(Clone, Copy, Debug)]
pub struct U8T;

pub const U8: U8T = U8T;

impl WireType for U8T {
    type Value = u8;

    open spec fn parse(&self, s: Seq<u8>) -> Option<(u8, nat)> {
        if s.len() >= 1 { Some((s[0], 1)) } else { None }
    }

    open spec fn encode(&self, v: u8) -> Seq<u8> {
        seq![v]
    }

    open spec fn writable(&self, v: u8) -> bool {
        true
    }

    open spec fn well_formed(&self, v: u8) -> bool {
        true
    }

    open spec fn reads_to_end(&self) -> bool {
        false
    }

    proof fn lemma_parse_len(&self, s: Seq<u8>) {
    }

    proof fn lemma_round_trip(&self, v: u8, rest: Seq<u8>) {
        assert((self.encode(v) + rest)[0] == v);
    }

    fn read(&self, buf: &[u8], pos: usize) -> (r: Option<(u8, usize)>) {
        read_u8(buf, pos)
    }

    fn write(&self, out: &mut Vec<u8>, v: &u8) -> (r: bool) {
        write_u8(out, *v);
        true
    }
}

/// A big endian `i16`.
#[derive(Clone, Copy, Debug)]
pub struct I16T;

pub const I16: I16T = I16T;

impl WireType for I16T {
    type Value = i16;

    open spec fn parse(&self, s: Seq<u8>) -> Option<(i16, nat)> {
        if s.len() >= 2 { Some((signed_be(s.subrange(0, 2)) as i16, 2)) } else { None }
    }

    open spec fn encode(&self, v: i16) -> Seq<u8> {
        signed_bytes(v as int, 2)
    }

    open spec fn writable(&self, v: i16) -> bool {
        true
    }

    open spec fn well_formed(&self, v: i16) -> bool {
        true
    }

    open spec fn reads_to_end(&self) -> bool {
        false
    }

    proof fn lemma_parse_len(&self, s: Seq<u8>) {
    }

    proof fn lemma_round_trip(&self, v: i16, rest: Seq<u8>) {
        lemma_fixed_widths();
        lemma_signed_round_trip(v as int, 2, rest);
    }

    fn read(&self, buf: &[u8], pos: usize) -> (r: Option<(i16, usize)>) {
        proof {
            if pos + 2 <= buf@.len() {
                assert(rest_of(buf@, pos as int).subrange(0, 2) =~= buf@.subrange(pos as int, pos + 2));
            }
        }
        read_i16(buf, pos)
    }

    fn write(&self, out: &mut Vec<u8>, v: &i16) -> (r: bool) {
        write_i16(out, *v);
        true
    }
}

/// A big endian `i32`.
#[derive(Clone, Copy, Debug)]
pub struct I32T;

pub const I32: I32T = I32T;

impl WireType for I32T {
    type Value = i32;

    open spec fn parse(&self, s: Seq<u8>) -> Option<(i32, nat)> {
        if s.len() >= 4 { Some((signed_be(s.subrange(0, 4)) as i32, 4)) } else { None }
    }

    open spec fn encode(&self, v: i32) -> Seq<u8> {
        signed_bytes(v as int, 4)
    }

    open spec fn writable(&self, v: i32) -> bool {
        true
    }

    open spec fn well_formed(&self, v: i32) -> bool {
        true
    }

    open spec fn reads_to_end(&self) -> bool {
        false
    }

    proof fn lemma_parse_len(&self, s: Seq<u8>) {
    }

    proof fn lemma_round_trip(&self, v: i32, rest: Seq<u8>) {
        lemma_fixed_widths();
        lemma_signed_round_trip(v as int, 4, rest);
    }

    fn read(&self, buf: &[u8], pos: usize) -> (r: Option<(i32, usize)>) {
        proof {
            if pos + 4 <= buf@.len() {
                assert(rest_of(buf@, pos as int).subrange(0, 4) =~= buf@.subrange(pos as int, pos + 4));
            }
        }
        read_i32(buf, pos)
    }

    fn write(&self, out: &mut Vec<u8>, v: &i32) -> (r: bool) {
        write_i32(out, *v);
        true
    }
}

/// A big endian `i64`.
#[derive(Clone, Copy, Debug)]
pub struct I64T;

pub const I64: I64T = I64T;

impl WireType for I64T {
    type Value = i64;

    open spec fn parse(&self, s: Seq<u8>) -> Option<(i64, nat)> {
        if s.len() >= 8 { Some((signed_be(s.subrange(0, 8)) as i64, 8)) } else { None }
    }

    open spec fn encode(&self, v: i64) -> Seq<u8> {
        signed_bytes(v as int, 8)
    }

    open spec fn writable(&self, v: i64) -> bool {
        true
    }

    open spec fn well_formed(&self, v: i64) -> bool {
        true
    }

    open spec fn reads_to_end(&self) -> bool {
        false
    }

    proof fn lemma_parse_len(&self, s: Seq<u8>) {
    }

    proof fn lemma_round_trip(&self, v: i64, rest: Seq<u8>) {
        lemma_fixed_widths();
        lemma_signed_round_trip(v as int, 8, rest);
    }

    fn read(&self, buf: &[u8], pos: usize) -> (r: Option<(i64, usize)>) {
        proof {
            if pos + 8 <= buf@.len() {
                assert(rest_of(buf@, pos as int).subrange(0, 8) =~= buf@.subrange(pos as int, pos + 8));
            }
        }
        read_i64(buf, pos)
    }

    fn write(&self, out: &mut Vec<u8>, v: &i64) -> (r: bool) {
        write_i64(out, *v);
        true
    }
}

/// A signed byte.
#[derive(Clone, Copy, Debug)]
pub struct I8T;

pub const I8: I8T = I8T;

impl WireType for I8T {
    type Value = i8;

    open spec fn parse(&self, s: Seq<u8>) -> Option<(i8, nat)> {
        if s.len() >= 1 { Some((signed_be(s.subrange(0, 1)) as i8, 1)) } else { None }
    }

    open spec fn encode(&self, v: i8) -> Seq<u8> {
        signed_bytes(v as int, 1)
    }

    open spec fn writable(&self, v: i8) -> bool {
        true
    }

    open spec fn well_formed(&self, v: i8) -> bool {
        true
    }

    open spec fn reads_to_end(&self) -> bool {
        false
    }

    proof fn lemma_parse_len(&self, s: Seq<u8>) {
    }

    proof fn lemma_round_trip(&self, v: i8, rest: Seq<u8>) {
        lemma_fixed_widths();
        lemma_signed_round_trip(v as int, 1, rest);
    }

    fn read(&self, buf: &[u8], pos: usize) -> (r: Option<(i8, usize)>) {
        match read_u8(buf, pos) {
            Some((byte, next)) => {
                proof {
                    lemma_fixed_widths();
                    let one = rest_of(buf@, pos as int).subrange(0, 1);
                    assert(one.drop_last() =~= Seq::<u8>::empty());
                    assert(one.len() == 1 && one.last() == byte);
                    assert(be_value(one.drop_last()) == 0);
                    assert(be_value(one) == byte as nat);
                }
                let value: i8 = if byte >= 128 { (byte as i16 - 256) as i8 } else { byte as i8 };
                Some((value, next))
            },
            None => None,
        }
    }

    fn write(&self, out: &mut Vec<u8>, v: &i8) -> (r: bool) {
        let byte: u8 = if *v < 0 { (*v as i16 + 256) as u8 } else { *v as u8 };
        proof {
            lemma_fixed_widths();
            assert(be_bytes(byte as nat, 1) =~= seq![byte]) by {
                assert(be_bytes(byte as nat / 256, 0) =~= Seq::<u8>::empty());
            }
        }
        write_u8(out, byte);
        true
    }
}

/// A UUID: sixteen bytes, most significant first.
#[derive(Clone, Copy, Debug)]
pub struct UuidT;

pub const UUID: UuidT = UuidT;

impl WireType for UuidT {
    type Value = u128;

    open spec fn parse(&self, s: Seq<u8>) -> Option<(u128, nat)> {
        if s.len() >= 16 { Some((be_value(s.subrange(0, 16)) as u128, 16)) } else { None }
    }

    open spec fn encode(&self, v: u128) -> Seq<u8> {
        be_bytes(v as nat, 16)
    }

    open spec fn writable(&self, v: u128) -> bool {
        true
    }

    open spec fn well_formed(&self, v: u128) -> bool {
        true
    }

    open spec fn reads_to_end(&self) -> bool {
        false
    }

    proof fn lemma_parse_len(&self, s: Seq<u8>) {
    }

    proof fn lemma_round_trip(&self, v: u128, rest: Seq<u8>) {
        lemma_fixed_widths();
        lemma_be_round_trip(v as nat, 16);
        assert((self.encode(v) + rest).subrange(0, 16) =~= self.encode(v));
    }

    fn read(&self, buf: &[u8], pos: usize) -> (r: Option<(u128, usize)>) {
        proof {
            if pos + 16 <= buf@.len() {
                assert(rest_of(buf@, pos as int).subrange(0, 16) =~= buf@.subrange(pos as int, pos + 16));
            }
        }
        read_u128(buf, pos)
    }

    fn write(&self, out: &mut Vec<u8>, v: &u128) -> (r: bool) {
        write_u128(out, *v);
        true
    }
}

/// A block position, packed into eight bytes the same way from 1.14 on.
#[derive(Clone, Copy, Debug)]
pub struct BlockPosT;

pub const BLOCK_POS: BlockPosT = BlockPosT;

impl WireType for BlockPosT {
    type Value = i64;

    open spec fn parse(&self, s: Seq<u8>) -> Option<(i64, nat)> {
        I64.parse(s)
    }

    open spec fn encode(&self, v: i64) -> Seq<u8> {
        I64.encode(v)
    }

    open spec fn writable(&self, v: i64) -> bool {
        true
    }

    open spec fn well_formed(&self, v: i64) -> bool {
        true
    }

    open spec fn reads_to_end(&self) -> bool {
        false
    }

    proof fn lemma_parse_len(&self, s: Seq<u8>) {
    }

    proof fn lemma_round_trip(&self, v: i64, rest: Seq<u8>) {
        I64.lemma_round_trip(v, rest);
    }

    fn read(&self, buf: &[u8], pos: usize) -> (r: Option<(i64, usize)>) {
        I64.read(buf, pos)
    }

    fn write(&self, out: &mut Vec<u8>, v: &i64) -> (r: bool) {
        I64.write(out, v)
    }
}

/// A string: a `VarInt` byte length and that many bytes of UTF-8.
#[derive(Clone, Copy, Debug)]
pub struct StringT;

pub const STRING: StringT = StringT;

impl WireType for StringT {
    type Value = Vec<u8>;

    open spec fn parse(&self, s: Seq<u8>) -> Option<(Seq<u8>, nat)> {
        string_at(s)
    }

    open spec fn encode(&self, v: Seq<u8>) -> Seq<u8> {
        prefixed_bytes(v)
    }

    open spec fn writable(&self, v: Seq<u8>) -> bool {
        v.len() <= MAX_STRING_BYTES
    }

    open spec fn well_formed(&self, v: Seq<u8>) -> bool {
        utf8_valid(v)
    }

    open spec fn reads_to_end(&self) -> bool {
        false
    }

    proof fn lemma_parse_len(&self, s: Seq<u8>) {
        lemma_prefixed_len(s, MAX_STRING_BYTES as nat);
    }

    proof fn lemma_round_trip(&self, v: Seq<u8>, rest: Seq<u8>) {
        lemma_string_round_trip(v, rest);
    }

    fn read(&self, buf: &[u8], pos: usize) -> (r: Option<(Vec<u8>, usize)>) {
        proof { lemma_prefixed_len(rest_of(buf@, pos as int), MAX_STRING_BYTES as nat); }
        let r = read_string(buf, pos);
        proof {
            if let Some((v, _)) = &r {
                lemma_bytes_deep_view(*v);
            }
        }
        r
    }

    fn write(&self, out: &mut Vec<u8>, v: &Vec<u8>) -> (r: bool) {
        proof { lemma_bytes_deep_view(*v); }
        if v.len() > MAX_STRING_BYTES {
            return false;
        }
        write_prefixed(out, v.as_slice());
        true
    }
}

/// The deep view of a byte vector is its view.
pub proof fn lemma_bytes_deep_view(v: Vec<u8>)
    ensures
        v.deep_view() == v@,
{
    assert(v.deep_view() =~= v@);
}

/// A byte array: a `VarInt` length and that many bytes.
#[derive(Clone, Copy, Debug)]
pub struct ByteArrayT;

pub const BYTE_ARRAY: ByteArrayT = ByteArrayT;

impl WireType for ByteArrayT {
    type Value = Vec<u8>;

    open spec fn parse(&self, s: Seq<u8>) -> Option<(Seq<u8>, nat)> {
        prefixed_at(s, i32::MAX as nat)
    }

    open spec fn encode(&self, v: Seq<u8>) -> Seq<u8> {
        prefixed_bytes(v)
    }

    open spec fn writable(&self, v: Seq<u8>) -> bool {
        v.len() <= i32::MAX
    }

    open spec fn well_formed(&self, v: Seq<u8>) -> bool {
        true
    }

    open spec fn reads_to_end(&self) -> bool {
        false
    }

    proof fn lemma_parse_len(&self, s: Seq<u8>) {
        lemma_prefixed_len(s, i32::MAX as nat);
    }

    proof fn lemma_round_trip(&self, v: Seq<u8>, rest: Seq<u8>) {
        lemma_prefixed_round_trip(v, i32::MAX as nat, rest);
    }

    fn read(&self, buf: &[u8], pos: usize) -> (r: Option<(Vec<u8>, usize)>) {
        proof { lemma_prefixed_len(rest_of(buf@, pos as int), i32::MAX as nat); }
        let r = read_prefixed(buf, pos, i32::MAX as usize);
        proof {
            if let Some((v, _)) = &r {
                lemma_bytes_deep_view(*v);
            }
        }
        r
    }

    fn write(&self, out: &mut Vec<u8>, v: &Vec<u8>) -> (r: bool) {
        proof { lemma_bytes_deep_view(*v); }
        if v.len() > i32::MAX as usize {
            return false;
        }
        write_prefixed(out, v.as_slice());
        true
    }
}

/// Every byte left in the payload.
#[derive(Clone, Copy, Debug)]
pub struct RemainingBytesT;

pub const REMAINING_BYTES: RemainingBytesT = RemainingBytesT;

impl WireType for RemainingBytesT {
    type Value = Vec<u8>;

    open spec fn parse(&self, s: Seq<u8>) -> Option<(Seq<u8>, nat)> {
        Some((s, s.len()))
    }

    open spec fn encode(&self, v: Seq<u8>) -> Seq<u8> {
        v
    }

    open spec fn writable(&self, v: Seq<u8>) -> bool {
        true
    }

    open spec fn well_formed(&self, v: Seq<u8>) -> bool {
        true
    }

    open spec fn reads_to_end(&self) -> bool {
        true
    }

    proof fn lemma_parse_len(&self, s: Seq<u8>) {
    }

    proof fn lemma_round_trip(&self, v: Seq<u8>, rest: Seq<u8>) {
    }

    fn read(&self, buf: &[u8], pos: usize) -> (r: Option<(Vec<u8>, usize)>) {
        let bytes = copy_range(buf, pos, buf.len());
        proof { lemma_bytes_deep_view(bytes); }
        Some((bytes, buf.len()))
    }

    fn write(&self, out: &mut Vec<u8>, v: &Vec<u8>) -> (r: bool) {
        proof { lemma_bytes_deep_view(*v); }
        append_bytes(out, v.as_slice());
        true
    }
}

/// A run of a fixed number of bytes with no length in front, such as a signature.
#[derive(Clone, Copy, Debug)]
pub struct FixedBytesT(pub usize);

impl WireType for FixedBytesT {
    type Value = Vec<u8>;

    open spec fn parse(&self, s: Seq<u8>) -> Option<(Seq<u8>, nat)> {
        if s.len() >= self.0 { Some((s.subrange(0, self.0 as int), self.0 as nat)) } else { None }
    }

    open spec fn encode(&self, v: Seq<u8>) -> Seq<u8> {
        v
    }

    open spec fn writable(&self, v: Seq<u8>) -> bool {
        true
    }

    open spec fn well_formed(&self, v: Seq<u8>) -> bool {
        v.len() == self.0
    }

    open spec fn reads_to_end(&self) -> bool {
        false
    }

    proof fn lemma_parse_len(&self, s: Seq<u8>) {
    }

    proof fn lemma_round_trip(&self, v: Seq<u8>, rest: Seq<u8>) {
        assert((v + rest).subrange(0, self.0 as int) =~= v);
    }

    fn read(&self, buf: &[u8], pos: usize) -> (r: Option<(Vec<u8>, usize)>) {
        if self.0 > buf.len() - pos {
            return None;
        }
        let bytes = copy_range(buf, pos, pos + self.0);
        proof {
            lemma_bytes_deep_view(bytes);
            assert(rest_of(buf@, pos as int).subrange(0, self.0 as int)
                =~= buf@.subrange(pos as int, pos + self.0));
        }
        Some((bytes, pos + self.0))
    }

    fn write(&self, out: &mut Vec<u8>, v: &Vec<u8>) -> (r: bool) {
        proof { lemma_bytes_deep_view(*v); }
        append_bytes(out, v.as_slice());
        true
    }
}

/// `count` values of `t`, one after another from the front of `s`.
pub open spec fn parse_items<T: WireType>(t: T, s: Seq<u8>, count: nat) -> Option<(Seq<<T::Value as DeepView>::V>, nat)>
    decreases count,
{
    if count == 0 {
        Some((Seq::empty(), 0))
    } else {
        match parse_items(t, s, (count - 1) as nat) {
            Some((values, n)) => match t.parse(s.skip(n as int)) {
                Some((v, m)) => Some((values.push(v), n + m)),
                None => None,
            },
            None => None,
        }
    }
}

/// The values of `values`, written one after another.
pub open spec fn encode_items<T: WireType>(t: T, values: Seq<<T::Value as DeepView>::V>) -> Seq<u8>
    decreases values.len(),
{
    if values.len() == 0 {
        Seq::empty()
    } else {
        encode_items(t, values.drop_last()) + t.encode(values.last())
    }
}

/// Reading items never takes more than it is given.
pub proof fn lemma_parse_items_len<T: WireType>(t: T, s: Seq<u8>, count: nat)
    ensures
        parse_items(t, s, count) matches Some((values, n)) ==> n <= s.len() && values.len() == count,
    decreases count,
{
    if count > 0 {
        lemma_parse_items_len(t, s, (count - 1) as nat);
        if let Some((_, n)) = parse_items(t, s, (count - 1) as nat) {
            t.lemma_parse_len(s.skip(n as int));
        }
    }
}

/// Written items read back as themselves, whatever follows them.
pub proof fn lemma_items_round_trip<T: WireType>(t: T, values: Seq<<T::Value as DeepView>::V>, rest: Seq<u8>)
    requires
        forall|i: int| 0 <= i < values.len() ==> t.writable(#[trigger] values[i]) && t.well_formed(values[i]),
        !t.reads_to_end(),
    ensures
        parse_items(t, encode_items(t, values) + rest, values.len()) == Some((values, encode_items(t, values).len())),
    decreases values.len(),
{
    if values.len() > 0 {
        let init = values.drop_last();
        let last = values.last();
        let tail = t.encode(last) + rest;
        assert forall|i: int| 0 <= i < init.len() implies t.writable(#[trigger] init[i]) && t.well_formed(init[i]) by {
            assert(init[i] == values[i]);
        }
        lemma_items_round_trip(t, init, tail);
        let s = encode_items(t, values) + rest;
        assert(s =~= encode_items(t, init) + tail);
        assert(s.skip(encode_items(t, init).len() as int) =~= tail);
        assert(t.writable(values[values.len() - 1]));
        t.lemma_round_trip(last, rest);
        assert(init.push(last) =~= values);
    }
}

/// Reads `count` values of `t` from `pos` on.
pub fn read_items<T: WireType>(t: &T, buf: &[u8], pos: usize, count: usize) -> (r: Option<(Vec<T::Value>, usize)>)
    requires
        pos <= buf@.len(),
    ensures
        match parse_items(*t, rest_of(buf@, pos as int), count as nat) {
            Some((values, n)) => r matches Some((x, p)) && x.deep_view() == values && p == pos + n
                && p <= buf@.len(),
            None => r is None,
        },
{
    let ghost s = rest_of(buf@, pos as int);
    let mut out: Vec<T::Value> = Vec::new();
    let mut p = pos;
    let mut k: usize = 0;
    proof {
        assert(out.deep_view() =~= Seq::<<T::Value as DeepView>::V>::empty());
    }
    while k < count
        invariant
            pos <= p <= buf@.len(),
            k <= count,
            s == rest_of(buf@, pos as int),
            parse_items(*t, s, k as nat) == Some((out.deep_view(), (p - pos) as nat)),
        decreases count - k,
    {
        proof {
            assert(s.skip(p - pos) =~= rest_of(buf@, p as int));
        }
        match t.read(buf, p) {
            Some((value, next)) => {
                let ghost before = out.deep_view();
                out.push(value);
                proof {
                    assert(out.deep_view() =~= before.push(value.deep_view()));
                }
                p = next;
            },
            None => {
                proof {
                    lemma_none_stays_none(*t, s, k as nat, count as nat);
                }
                return None;
            },
        }
        k = k + 1;
    }
    Some((out, p))
}

/// Once an item fails to read, so does every longer run.
proof fn lemma_none_stays_none<T: WireType>(t: T, s: Seq<u8>, k: nat, count: nat)
    requires
        k < count,
        parse_items(t, s, (k + 1) as nat) is None,
    ensures
        parse_items(t, s, count) is None,
    decreases count - k,
{
    if k + 1 < count {
        lemma_none_stays_none(t, s, k + 1, count);
    }
}

/// Writes each of `values` into a fresh buffer, `None` where one is refused.
pub fn write_items<T: WireType>(t: &T, values: &Vec<T::Value>) -> (r: Option<Vec<u8>>)
    ensures
        r is Some == (forall|i: int| 0 <= i < values@.len() ==> t.writable(#[trigger] values.deep_view()[i])),
        r matches Some(bytes) ==> bytes@ == encode_items(*t, values.deep_view()),
{
    let mut out: Vec<u8> = Vec::new();
    let mut i: usize = 0;
    proof {
        assert(values.deep_view().take(0) =~= Seq::<<T::Value as DeepView>::V>::empty());
    }
    while i < values.len()
        invariant
            i <= values@.len(),
            out@ == encode_items(*t, values.deep_view().take(i as int)),
            forall|j: int| 0 <= j < i ==> t.writable(#[trigger] values.deep_view()[j]),
        decreases values@.len() - i,
    {
        let ghost before = out@;
        assert(values.deep_view()[i as int] == values@[i as int].deep_view());
        if !t.write(&mut out, &values[i]) {
            return None;
        }
        proof {
            let taken = values.deep_view().take(i + 1);
            assert(taken.drop_last() =~= values.deep_view().take(i as int));
            assert(taken.last() == values.deep_view()[i as int]);
        }
        i = i + 1;
    }
    proof {
        assert(values.deep_view().take(values@.len() as int) =~= values.deep_view());
    }
    Some(out)
}

/// A value that may be absent: a boolean and, when it is set, the value.
#[derive(Debug)]
pub struct OptionalT<T>(pub T);

impl<T: WireType> WireType for OptionalT<T> {
    type Value = Option<T::Value>;

    open spec fn parse(&self, s: Seq<u8>) -> Option<(Option<<T::Value as DeepView>::V>, nat)> {
        if s.len() < 1 {
            None
        } else if s[0] != 0 {
            match self.0.parse(s.skip(1)) {
                Some((v, n)) => Some((Some(v), n + 1)),
                None => None,
            }
        } else {
            Some((None, 1))
        }
    }

    open spec fn encode(&self, v: Option<<T::Value as DeepView>::V>) -> Seq<u8> {
        match v {
            Some(inner) => seq![1u8] + self.0.encode(inner),
            None => seq![0u8],
        }
    }

    open spec fn writable(&self, v: Option<<T::Value as DeepView>::V>) -> bool {
        match v {
            Some(inner) => self.0.writable(inner),
            None => true,
        }
    }

    open spec fn well_formed(&self, v: Option<<T::Value as DeepView>::V>) -> bool {
        match v {
            Some(inner) => self.0.well_formed(inner),
            None => true,
        }
    }

    open spec fn reads_to_end(&self) -> bool {
        self.0.reads_to_end()
    }

    proof fn lemma_parse_len(&self, s: Seq<u8>) {
        if s.len() >= 1 {
            self.0.lemma_parse_len(s.skip(1));
        }
    }

    proof fn lemma_round_trip(&self, v: Option<<T::Value as DeepView>::V>, rest: Seq<u8>) {
        if let Some(inner) = v {
            self.0.lemma_round_trip(inner, rest);
            assert((self.encode(v) + rest).skip(1) =~= self.0.encode(inner) + rest);
        }
    }

    fn read(&self, buf: &[u8], pos: usize) -> (r: Option<(Option<T::Value>, usize)>) {
        match read_bool(buf, pos) {
            Some((present, next)) => {
                if present {
                    proof {
                        assert(rest_of(buf@, pos as int).skip(1) =~= rest_of(buf@, next as int));
                    }
                    match self.0.read(buf, next) {
                        Some((value, after)) => Some((Some(value), after)),
                        None => None,
                    }
                } else {
                    Some((None, next))
                }
            },
            None => None,
        }
    }

    fn write(&self, out: &mut Vec<u8>, v: &Option<T::Value>) -> (r: bool) {
        match v {
            Some(inner) => {
                let mut body: Vec<u8> = Vec::new();
                if !self.0.write(&mut body, inner) {
                    return false;
                }
                write_bool(out, true);
                append_bytes(out, body.as_slice());
                assert(final(out)@ =~= old(out)@ + self.encode(v.deep_view()));
                true
            },
            None => {
                write_bool(out, false);
                true
            },
        }
    }
}

/// A `VarInt` count and that many values. A count larger than the bytes left
/// is refused before anything is read.
#[derive(Debug)]
pub struct ArrayT<T>(pub T);

impl<T: WireType> WireType for ArrayT<T> {
    type Value = Vec<T::Value>;

    open spec fn parse(&self, s: Seq<u8>) -> Option<(Seq<<T::Value as DeepView>::V>, nat)> {
        match var_int_at(s) {
            Some((len, n)) => if len < 0 || len > s.len() - n {
                None
            } else {
                match parse_items(self.0, s.skip(n as int), len as nat) {
                    Some((values, m)) => Some((values, n + m)),
                    None => None,
                }
            },
            None => None,
        }
    }

    open spec fn encode(&self, v: Seq<<T::Value as DeepView>::V>) -> Seq<u8> {
        var_int_bytes(v.len() as i32) + encode_items(self.0, v)
    }

    open spec fn writable(&self, v: Seq<<T::Value as DeepView>::V>) -> bool {
        &&& v.len() <= i32::MAX
        &&& forall|i: int| 0 <= i < v.len() ==> self.0.writable(#[trigger] v[i])
    }

    open spec fn well_formed(&self, v: Seq<<T::Value as DeepView>::V>) -> bool {
        &&& forall|i: int| 0 <= i < v.len() ==> self.0.well_formed(#[trigger] v[i])
        &&& v.len() <= encode_items(self.0, v).len()
        &&& !self.0.reads_to_end()
    }

    open spec fn reads_to_end(&self) -> bool {
        false
    }

    proof fn lemma_parse_len(&self, s: Seq<u8>) {
        lemma_var_int_len(s);
        if let Some((len, n)) = var_int_at(s) {
            if len >= 0 {
                lemma_parse_items_len(self.0, s.skip(n as int), len as nat);
            }
        }
    }

    proof fn lemma_round_trip(&self, v: Seq<<T::Value as DeepView>::V>, rest: Seq<u8>) {
        let items = encode_items(self.0, v);
        lemma_var_int_round_trip(v.len() as i32, items + rest);
        let s = self.encode(v) + rest;
        assert(s =~= var_int_bytes(v.len() as i32) + (items + rest));
        assert(s.skip(var_int_bytes(v.len() as i32).len() as int) =~= items + rest);
        lemma_items_round_trip(self.0, v, rest);
    }

    fn read(&self, buf: &[u8], pos: usize) -> (r: Option<(Vec<T::Value>, usize)>) {
        proof { lemma_var_int_len(rest_of(buf@, pos as int)); }
        match read_var_int(buf, pos) {
            Some((len, next)) => {
                if len < 0 || len as usize > buf.len() - next {
                    return None;
                }
                proof {
                    let n = (next - pos) as int;
                    assert(rest_of(buf@, pos as int).skip(n) =~= rest_of(buf@, next as int));
                }
                read_items(&self.0, buf, next, len as usize)
            },
            None => None,
        }
    }

    fn write(&self, out: &mut Vec<u8>, v: &Vec<T::Value>) -> (r: bool) {
        if v.len() > i32::MAX as usize {
            return false;
        }
        match write_items(&self.0, v) {
            Some(bytes) => {
                write_var_int(out, v.len() as i32);
                append_bytes(out, bytes.as_slice());
                assert(final(out)@ =~= old(out)@ + self.encode(v.deep_view()));
                true
            },
            None => false,
        }
    }
}

/// A bit set: a `VarInt` count of longs and that many big endian longs.
#[derive(Clone, Copy, Debug)]
pub struct BitSetT;

pub const BIT_SET: BitSetT = BitSetT;

impl WireType for BitSetT {
    type Value = Vec<i64>;

    open spec fn parse(&self, s: Seq<u8>) -> Option<(Seq<i64>, nat)> {
        ArrayT(I64).parse(s)
    }

    open spec fn encode(&self, v: Seq<i64>) -> Seq<u8> {
        ArrayT(I64).encode(v)
    }

    open spec fn writable(&self, v: Seq<i64>) -> bool {
        ArrayT(I64).writable(v)
    }

    open spec fn well_formed(&self, v: Seq<i64>) -> bool {
        ArrayT(I64).well_formed(v)
    }

    open spec fn reads_to_end(&self) -> bool {
        false
    }

    proof fn lemma_parse_len(&self, s: Seq<u8>) {
        ArrayT(I64).lemma_parse_len(s);
    }

    proof fn lemma_round_trip(&self, v: Seq<i64>, rest: Seq<u8>) {
        ArrayT(I64).lemma_round_trip(v, rest);
    }

    fn read(&self, buf: &[u8], pos: usize) -> (r: Option<(Vec<i64>, usize)>) {
        ArrayT(I64).read(buf, pos)
    }

    fn write(&self, out: &mut Vec<u8>, v: &Vec<i64>) -> (r: bool) {
        ArrayT(I64).write(out, v)
    }
}

} // verus!

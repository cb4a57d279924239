//! The network encodings every packet field is built from: variable length
//! integers, big endian fixed width integers, length prefixed strings.
//!
//! A read takes the whole buffer and the position to read at, and gives the
//! value and the position after it. Each one is stated against a spec
//! function over the bytes from that position on.

use vstd::prelude::*;

verus! {

// ---------------------------------------------------------------------------
// Variable length integers
// ---------------------------------------------------------------------------

/// `128` raised to `n`.
pub open spec fn radix(n: nat) -> nat
    decreases n,
{
    if n == 0 { 1 } else { 128 * radix((n - 1) as nat) }
}

/// The byte count of a variable length integer starting at `s[0]`: the first
/// byte from `i` on without the continuation bit ends it, and it may take at
/// most `max` bytes.
pub open spec fn var_end(s: Seq<u8>, i: nat, max: nat) -> Option<nat>
    decreases max - i,
{
    if i >= max || i >= s.len() {
        None
    } else if s[i as int] < 128 {
        Some(i + 1)
    } else {
        var_end(s, i + 1, max)
    }
}

/// The number the low seven bits of each byte of `s` spell, least
/// significant group first.
pub open spec fn groups(s: Seq<u8>) -> nat
    decreases s.len(),
{
    if s.len() == 0 { 0 } else { (s[0] % 128) as nat + 128 * groups(s.drop_first()) }
}

/// The encoding of `u`: seven bits per byte, least significant group first,
/// the high bit set on every byte but the last.
pub open spec fn var_bytes(u: nat) -> Seq<u8>
    decreases u,
{
    if u < 128 {
        seq![u as u8]
    } else {
        seq![(u % 128 + 128) as u8] + var_bytes(u / 128)
    }
}

/// `x` reduced to 32 bits and read as two's complement.
pub open spec fn wrap_i32(x: nat) -> i32 {
    let u = x % 0x1_0000_0000;
    if u >= 0x8000_0000 { (u - 0x1_0000_0000) as i32 } else { u as i32 }
}

/// `x` reduced to 64 bits and read as two's complement.
pub open spec fn wrap_i64(x: nat) -> i64 {
    let u = x % 0x1_0000_0000_0000_0000;
    if u >= 0x8000_0000_0000_0000 { (u - 0x1_0000_0000_0000_0000) as i64 } else { u as i64 }
}

/// The two's complement bits of `v` as an unsigned number.
pub open spec fn unsigned32(v: i32) -> nat {
    if v < 0 { (v + 0x1_0000_0000) as nat } else { v as nat }
}

/// The two's complement bits of `v` as an unsigned number.
pub open spec fn unsigned64(v: i64) -> nat {
    if v < 0 { (v + 0x1_0000_0000_0000_0000) as nat } else { v as nat }
}

/// A `VarInt` at the front of `s`: its value and byte count. Five bytes at
/// most, bits beyond the 32nd dropped.
pub open spec fn var_int_at(s: Seq<u8>) -> Option<(i32, nat)> {
    match var_end(s, 0, 5) {
        Some(n) => Some((wrap_i32(groups(s.take(n as int))), n)),
        None => None,
    }
}

/// A `VarLong` at the front of `s`: ten bytes at most, bits beyond the 64th
/// dropped.
pub open spec fn var_long_at(s: Seq<u8>) -> Option<(i64, nat)> {
    match var_end(s, 0, 10) {
        Some(n) => Some((wrap_i64(groups(s.take(n as int))), n)),
        None => None,
    }
}

/// The bytes `v` is written as.
pub open spec fn var_int_bytes(v: i32) -> Seq<u8> {
    var_bytes(unsigned32(v))
}

/// The bytes `v` is written as.
pub open spec fn var_long_bytes(v: i64) -> Seq<u8> {
    var_bytes(unsigned64(v))
}

proof fn lemma_radix_bounds(n: nat)
    ensures
        radix(n) >= 1,
        n >= 5 ==> radix(n) >= 0x1_0000_0000,
        n >= 10 ==> radix(n) >= 0x1_0000_0000_0000_0000,
        n <= 10 ==> radix(n) <= 0x40_0000_0000_0000_0000,
        n == 9 ==> radix(n) == 0x8000_0000_0000_0000,
    decreases n,
{
    reveal_with_fuel(radix, 11);
    if n > 0 {
        lemma_radix_bounds((n - 1) as nat);
    }
    if n >= 5 {
        lemma_radix_monotone(5, n);
    }
    if n >= 10 {
        lemma_radix_monotone(10, n);
    }
    if n <= 10 {
        lemma_radix_monotone(n, 10);
    }
}

proof fn lemma_radix_monotone(a: nat, b: nat)
    requires
        a <= b,
    ensures
        radix(a) <= radix(b),
    decreases b - a,
{
    if a < b {
        lemma_radix_monotone(a, (b - 1) as nat);
        lemma_radix_positive((b - 1) as nat);
    }
}

proof fn lemma_radix_positive(n: nat)
    ensures
        radix(n) >= 1,
    decreases n,
{
    if n > 0 {
        lemma_radix_positive((n - 1) as nat);
    }
}

/// What the groups of `n` bytes can spell stays below `128^n`.
proof fn lemma_groups_bound(s: Seq<u8>)
    ensures
        groups(s) < radix(s.len()),
    decreases s.len(),
{
    if s.len() > 0 {
        lemma_groups_bound(s.drop_first());
    }
}

/// The encoding of `u` is its groups, each byte but the last flagged.
proof fn lemma_var_bytes_shape(u: nat)
    ensures
        var_bytes(u).len() >= 1,
        groups(var_bytes(u)) == u,
        var_bytes(u).last() < 128,
        forall|j: int| 0 <= j < var_bytes(u).len() - 1 ==> #[trigger] var_bytes(u)[j] >= 128,
        forall|k: nat| u < radix(k) && k >= 1 ==> var_bytes(u).len() <= k,
    decreases u,
{
    if u < 128 {
        assert(groups(var_bytes(u).drop_first()) == 0) by {
            assert(var_bytes(u).drop_first() =~= Seq::<u8>::empty());
        }
    } else {
        let rest = var_bytes(u / 128);
        lemma_var_bytes_shape(u / 128);
        let head = seq![(u % 128 + 128) as u8];
        assert(var_bytes(u) == head + rest);
        assert((head + rest).drop_first() =~= rest);
        assert forall|k: nat| u < radix(k) && k >= 1 implies var_bytes(u).len() <= k by {
            if k == 1 {
                assert(radix(1) == 128) by { reveal_with_fuel(radix, 2); }
            } else {
                assert(radix(k) == 128 * radix((k - 1) as nat));
                assert(u / 128 < radix((k - 1) as nat));
            }
        }
        assert forall|j: int| 0 <= j < var_bytes(u).len() - 1 implies #[trigger] var_bytes(u)[j] >= 128 by {
            if j > 0 {
                assert(var_bytes(u)[j] == rest[j - 1]);
            }
        }
    }
}

/// A run of flagged bytes ended by an unflagged one is found where it ends.
proof fn lemma_var_end_finds(s: Seq<u8>, i: nat, len: nat, max: nat)
    requires
        i < len,
        len <= s.len(),
        len <= max,
        s[len - 1] < 128,
        forall|j: int| i <= j < len - 1 ==> s[j] >= 128,
    ensures
        var_end(s, i, max) == Some(len),
    decreases len - i,
{
    if i + 1 < len {
        lemma_var_end_finds(s, i + 1, len, max);
    }
}

/// Where `var_end` stops, every byte before the last one is flagged.
proof fn lemma_var_end_shape(s: Seq<u8>, i: nat, max: nat)
    ensures
        var_end(s, i, max) matches Some(n) ==> i < n <= s.len() && n <= max && s[n - 1] < 128
            && forall|j: int| i <= j < n - 1 ==> s[j] >= 128,
    decreases max - i,
{
    if i < max && i < s.len() && s[i as int] >= 128 {
        lemma_var_end_shape(s, i + 1, max);
    }
}

/// A `VarInt` reads back as the value it was written from, whatever follows.
pub proof fn lemma_var_int_round_trip(v: i32, rest: Seq<u8>)
    ensures
        var_int_at(var_int_bytes(v) + rest) == Some((v, var_int_bytes(v).len())),
        1 <= var_int_bytes(v).len() <= 5,
{
    let u = unsigned32(v);
    let b = var_bytes(u);
    lemma_var_bytes_shape(u);
    lemma_radix_bounds(5);
    let s = b + rest;
    assert forall|j: int| 0 <= j < b.len() - 1 implies s[j] >= 128 by {
        assert(s[j] == b[j]);
    }
    lemma_var_end_finds(s, 0, b.len(), 5);
    assert(s.take(b.len() as int) =~= b);
}

/// A `VarLong` reads back as the value it was written from, whatever follows.
pub proof fn lemma_var_long_round_trip(v: i64, rest: Seq<u8>)
    ensures
        var_long_at(var_long_bytes(v) + rest) == Some((v, var_long_bytes(v).len())),
        1 <= var_long_bytes(v).len() <= 10,
{
    let u = unsigned64(v);
    let b = var_bytes(u);
    lemma_var_bytes_shape(u);
    lemma_radix_bounds(10);
    let s = b + rest;
    assert forall|j: int| 0 <= j < b.len() - 1 implies s[j] >= 128 by {
        assert(s[j] == b[j]);
    }
    lemma_var_end_finds(s, 0, b.len(), 10);
    assert(s.take(b.len() as int) =~= b);
}

/// The bytes of `buf` from `pos` on.
pub open spec fn rest_of(buf: Seq<u8>, pos: int) -> Seq<u8> {
    buf.subrange(pos, buf.len() as int)
}

/// The length and the groups of the variable length integer at `pos`.
fn read_var(buf: &[u8], pos: usize, max: usize) -> (r: Option<(u128, usize)>)
    requires
        pos <= buf@.len(),
        max <= 10,
    ensures
        match var_end(rest_of(buf@, pos as int), 0, max as nat) {
            Some(n) => r matches Some((x, p)) && p == pos + n && pos + n <= buf@.len()
                && groups(rest_of(buf@, pos as int).take(n as int)) < 0x40_0000_0000_0000_0000
                && x == groups(rest_of(buf@, pos as int).take(n as int)),
            None => r is None,
        },
{
    let ghost s = rest_of(buf@, pos as int);
    let mut n: usize = 0;
    while n < max && n < buf.len() - pos && buf[pos + n] >= 128
        invariant
            pos <= buf@.len(),
            s == rest_of(buf@, pos as int),
            n <= max,
            max <= 10,
            pos + n <= buf@.len(),
            var_end(s, 0, max as nat) == var_end(s, n as nat, max as nat),
        decreases max - n,
    {
        assert(s[n as int] == buf@[pos + n]);
        n = n + 1;
    }
    if n >= max || n >= buf.len() - pos {
        return None;
    }
    assert(s[n as int] == buf@[pos + n]);
    let end = n + 1;
    proof {
        lemma_var_end_shape(s, 0, max as nat);
    }
    let ghost taken = s.take(end as int);
    let total = buf.len();
    let mut acc: u128 = 0;
    let mut j: usize = end;
    proof {
        lemma_radix_bounds(0);
        assert(taken.subrange(end as int, end as int) =~= Seq::<u8>::empty());
    }
    while j > 0
        invariant
            pos + end <= buf@.len(),
            buf@.len() <= usize::MAX,
            end <= 10,
            j <= end,
            taken == s.take(end as int),
            s == rest_of(buf@, pos as int),
            acc == groups(taken.subrange(j as int, end as int)),
        decreases j,
    {
        j = j - 1;
        let byte = buf[pos + j];
        let ghost tail = taken.subrange(j as int + 1, end as int);
        let ghost here = taken.subrange(j as int, end as int);
        proof {
            assert(here.drop_first() =~= tail);
            assert(here[0] == byte);
            lemma_groups_bound(tail);
            lemma_radix_monotone(tail.len(), 9);
            lemma_radix_bounds(9);
        }
        acc = (byte % 128) as u128 + 128 * acc;
    }
    proof {
        assert(taken.subrange(0, end as int) =~= taken);
        lemma_groups_bound(taken);
        lemma_radix_bounds(taken.len());
    }
    Some((acc, pos + end))
}

/// `x` reduced to 32 bits and read as two's complement.
fn to_i32(x: u128) -> (r: i32)
    ensures
        r == wrap_i32(x as nat),
{
    let u = x % 0x1_0000_0000;
    if u >= 0x8000_0000 { (u as i128 - 0x1_0000_0000) as i32 } else { u as i32 }
}

/// `x` reduced to 64 bits and read as two's complement.
fn to_i64(x: u128) -> (r: i64)
    ensures
        r == wrap_i64(x as nat),
{
    let u = x % 0x1_0000_0000_0000_0000;
    if u >= 0x8000_0000_0000_0000 { (u as i128 - 0x1_0000_0000_0000_0000) as i64 } else { u as i64 }
}

/// Reads the `VarInt` at `pos`: its value and the position after it.
pub fn read_var_int(buf: &[u8], pos: usize) -> (r: Option<(i32, usize)>)
    requires
        pos <= buf@.len(),
    ensures
        match var_int_at(rest_of(buf@, pos as int)) {
            Some((v, n)) => r matches Some((x, p)) && x == v && p == pos + n && pos + n <= buf@.len(),
            None => r is None,
        },
{
    match read_var(buf, pos, 5) {
        Some((raw, next)) => Some((to_i32(raw), next)),
        None => None,
    }
}

/// Reads the `VarLong` at `pos`: its value and the position after it.
pub fn read_var_long(buf: &[u8], pos: usize) -> (r: Option<(i64, usize)>)
    requires
        pos <= buf@.len(),
    ensures
        match var_long_at(rest_of(buf@, pos as int)) {
            Some((v, n)) => r matches Some((x, p)) && x == v && p == pos + n && pos + n <= buf@.len(),
            None => r is None,
        },
{
    match read_var(buf, pos, 10) {
        Some((raw, next)) => Some((to_i64(raw), next)),
        None => None,
    }
}

/// Appends the encoding of the unsigned number `u`.
fn write_var(out: &mut Vec<u8>, value: u64)
    ensures
        final(out)@ == old(out)@ + var_bytes(value as nat),
{
    let ghost start = old(out)@;
    let mut u = value;
    while u >= 128
        invariant
            out@ + var_bytes(u as nat) == start + var_bytes(value as nat),
        decreases u,
    {
        let ghost before = out@;
        assert(var_bytes(u as nat) == seq![(u % 128 + 128) as u8] + var_bytes((u / 128) as nat));
        out.push((u % 128 + 128) as u8);
        assert(out@ + var_bytes((u / 128) as nat) =~= before + var_bytes(u as nat));
        u = u / 128;
    }
    assert(var_bytes(u as nat) == seq![u as u8]);
    out.push(u as u8);
}

/// Appends `v` as a `VarInt`.
pub fn write_var_int(out: &mut Vec<u8>, v: i32)
    ensures
        final(out)@ == old(out)@ + var_int_bytes(v),
{
    let u: u64 = if v < 0 { (v as i64 + 0x1_0000_0000) as u64 } else { v as u64 };
    write_var(out, u);
}

/// Appends `v` as a `VarLong`.
pub fn write_var_long(out: &mut Vec<u8>, v: i64)
    ensures
        final(out)@ == old(out)@ + var_long_bytes(v),
{
    let u: u64 = if v < 0 { (v as i128 + 0x1_0000_0000_0000_0000) as u64 } else { v as u64 };
    write_var(out, u);
}

// ---------------------------------------------------------------------------
// Fixed width integers, big endian
// ---------------------------------------------------------------------------

/// The unsigned number the bytes of `s` spell, most significant first.
pub open spec fn be_value(s: Seq<u8>) -> nat
    decreases s.len(),
{
    if s.len() == 0 { 0 } else { be_value(s.drop_last()) * 256 + s.last() as nat }
}

/// `256` raised to `n`.
pub open spec fn byte_radix(n: nat) -> nat
    decreases n,
{
    if n == 0 { 1 } else { 256 * byte_radix((n - 1) as nat) }
}

/// The `n` low bytes of `v`, most significant first.
pub open spec fn be_bytes(v: nat, n: nat) -> Seq<u8>
    decreases n,
{
    if n == 0 { Seq::empty() } else { be_bytes(v / 256, (n - 1) as nat) + seq![(v % 256) as u8] }
}

proof fn lemma_be_value_bound(s: Seq<u8>)
    ensures
        be_value(s) < byte_radix(s.len()),
    decreases s.len(),
{
    if s.len() > 0 {
        lemma_be_value_bound(s.drop_last());
        let prefix = be_value(s.drop_last());
        let bound = byte_radix((s.len() - 1) as nat);
        assert(prefix * 256 + 256 <= bound * 256) by (nonlinear_arith)
            requires prefix < bound;
    }
}

proof fn lemma_byte_radix(n: nat)
    ensures
        n == 1 ==> byte_radix(n) == 0x100,
        n == 2 ==> byte_radix(n) == 0x1_0000,
        n == 4 ==> byte_radix(n) == 0x1_0000_0000,
        n == 8 ==> byte_radix(n) == 0x1_0000_0000_0000_0000,
        n == 16 ==> byte_radix(n) == 0x1_0000_0000_0000_0000_0000_0000_0000_0000,
{
    reveal_with_fuel(byte_radix, 17);
}

/// Bytes written from a value that fits read back as that value.
pub proof fn lemma_be_round_trip(v: nat, n: nat)
    requires
        v < byte_radix(n),
    ensures
        be_bytes(v, n).len() == n,
        be_value(be_bytes(v, n)) == v,
    decreases n,
{
    if n > 0 {
        assert(v / 256 < byte_radix((n - 1) as nat));
        lemma_be_round_trip(v / 256, (n - 1) as nat);
        let b = be_bytes(v, n);
        assert(b.drop_last() =~= be_bytes(v / 256, (n - 1) as nat));
    } else {
        assert(v == 0);
    }
}

/// The `n` bytes at `pos` as an unsigned number, `None` when fewer are left.
fn read_be(buf: &[u8], pos: usize, n: usize) -> (r: Option<(u128, usize)>)
    requires
        pos <= buf@.len(),
        n <= 16,
    ensures
        if pos + n <= buf@.len() {
            r matches Some((x, p)) && x == be_value(buf@.subrange(pos as int, pos + n)) as u128 && p == pos + n
        } else {
            r is None
        },
{
    if n > buf.len() - pos {
        return None;
    }
    let total = buf.len();
    let mut acc: u128 = 0;
    let mut i: usize = 0;
    proof {
        assert(buf@.subrange(pos as int, pos as int) =~= Seq::<u8>::empty());
    }
    while i < n
        invariant
            pos + n <= buf@.len(),
            buf@.len() <= usize::MAX,
            n <= 16,
            i <= n,
            acc == be_value(buf@.subrange(pos as int, pos + i)),
        decreases n - i,
    {
        let ghost prefix = buf@.subrange(pos as int, pos + i);
        let ghost next = buf@.subrange(pos as int, pos + i + 1);
        proof {
            assert(next.drop_last() =~= prefix);
            lemma_be_value_bound(prefix);
            lemma_byte_radix(16);
            lemma_byte_radix_monotone(i as nat, 15);
            assert(acc * 256 + 255 < 0x1_0000_0000_0000_0000_0000_0000_0000_0000) by (nonlinear_arith)
                requires acc < byte_radix(15), byte_radix(15) * 256 == 0x1_0000_0000_0000_0000_0000_0000_0000_0000;
        }
        assert(pos + i < buf@.len());
        let byte = buf[pos + i];
        acc = acc * 256 + byte as u128;
        i = i + 1;
    }
    Some((acc, pos + n))
}

proof fn lemma_byte_radix_monotone(a: nat, b: nat)
    requires
        a <= b,
    ensures
        byte_radix(a) <= byte_radix(b),
        b == 15 ==> byte_radix(b) * 256 == 0x1_0000_0000_0000_0000_0000_0000_0000_0000,
    decreases b - a,
{
    if a < b {
        lemma_byte_radix_monotone(a, (b - 1) as nat);
    }
    if b == 15 {
        reveal_with_fuel(byte_radix, 17);
    }
}

/// Appends the `n` low bytes of `v`, most significant first.
fn write_be(out: &mut Vec<u8>, v: u128, n: usize)
    requires
        n <= 16,
    ensures
        final(out)@ == old(out)@ + be_bytes(v as nat, n as nat),
{
    let ghost start = old(out)@;
    let mut i: usize = n;
    proof {
        assert(written(v as nat, n as nat, n as nat) =~= Seq::<u8>::empty());
        assert(start + written(v as nat, n as nat, n as nat) =~= start);
    }
    while i > 0
        invariant
            i <= n,
            n <= 16,
            out@ == start + written(v as nat, n as nat, i as nat),
        decreases i,
    {
        i = i - 1;
        proof {
            lemma_written_step(v as nat, n as nat, i as nat);
        }
        let ghost before = out@;
        out.push(byte_at(v, i));
        proof {
            assert(out@ =~= start + written(v as nat, n as nat, i as nat));
        }
    }
    proof {
        lemma_written_all(v as nat, n as nat);
    }
}

/// Byte `i` of `v`, counting from the least significant one.
spec fn byte_at_spec(v: nat, i: nat) -> u8 {
    ((v / byte_radix(i)) % 256) as u8
}

/// The bytes of `v` from position `n - 1` down to `i`, most significant first.
spec fn written(v: nat, n: nat, i: nat) -> Seq<u8>
    decreases n - i,
{
    if i >= n { Seq::empty() } else { seq![byte_at_spec(v, (n - 1) as nat)] + written(v, (n - 1) as nat, i) }
}

proof fn lemma_written_step(v: nat, n: nat, i: nat)
    requires
        i < n,
    ensures
        written(v, n, i) == written(v, n, i + 1) + seq![byte_at_spec(v, i)],
    decreases n - i,
{
    if i + 1 < n {
        lemma_written_step(v, (n - 1) as nat, i);
        assert(written(v, n, i) =~= written(v, n, i + 1) + seq![byte_at_spec(v, i)]);
    } else {
        assert(written(v, n, i + 1) =~= Seq::<u8>::empty());
        assert(written(v, (n - 1) as nat, i) =~= Seq::<u8>::empty());
        assert(written(v, n, i) =~= seq![byte_at_spec(v, i)]);
    }
}

proof fn lemma_written_all(v: nat, n: nat)
    ensures
        written(v, n, 0) == be_bytes(v, n),
    decreases n,
{
    if n > 0 {
        lemma_written_all(v / 256, (n - 1) as nat);
        lemma_written_step(v, n, 0);
        assert(byte_at_spec(v, 0) == (v % 256) as u8) by {
            assert(byte_radix(0) == 1);
            assert(v / 1 == v);
        }
        lemma_written_shift((n - 1) as nat, 0, v);
    }
}

/// Dropping the lowest byte shifts every other one down by a position.
proof fn lemma_written_shift(m: nat, i: nat, v: nat)
    requires
        i <= m,
    ensures
        written(v, m + 1, i + 1) == written(v / 256, m, i),
    decreases m - i,
{
    if i < m {
        lemma_written_shift((m - 1) as nat, i, v);
        assert(byte_at_spec(v / 256, (m - 1) as nat) == byte_at_spec(v, m)) by {
            assert(byte_radix(m) == 256 * byte_radix((m - 1) as nat));
            lemma_byte_radix_positive((m - 1) as nat);
            lemma_div_div(v, 256, byte_radix((m - 1) as nat));
        }
    } else {
        assert(written(v, m + 1, i + 1) =~= Seq::<u8>::empty());
        assert(written(v / 256, m, i) =~= Seq::<u8>::empty());
    }
}

proof fn lemma_byte_radix_positive(n: nat)
    ensures
        byte_radix(n) >= 1,
    decreases n,
{
    if n > 0 {
        lemma_byte_radix_positive((n - 1) as nat);
    }
}

proof fn lemma_div_div(v: nat, a: nat, b: nat)
    requires
        a >= 1,
        b >= 1,
    ensures
        v / a / b == v / (a * b),
{
    vstd::arithmetic::div_mod::lemma_div_denominator(v as int, a as int, b as int);
}

/// Byte `i` of `v`, counting from the least significant one.
fn byte_at(v: u128, i: usize) -> (r: u8)
    requires
        i < 16,
    ensures
        r == byte_at_spec(v as nat, i as nat),
{
    let mut shifted = v;
    let mut k: usize = 0;
    proof { assert(byte_radix(0) == 1); }
    while k < i
        invariant
            k <= i,
            i < 16,
            shifted as nat == (v as nat) / byte_radix(k as nat),
        decreases i - k,
    {
        proof {
            lemma_byte_radix_positive(k as nat);
            lemma_div_div(v as nat, byte_radix(k as nat), 256);
            assert(byte_radix((k + 1) as nat) == 256 * byte_radix(k as nat));
            assert(byte_radix(k as nat) * 256 == 256 * byte_radix(k as nat)) by (nonlinear_arith);
        }
        shifted = shifted / 256;
        k = k + 1;
    }
    (shifted % 256) as u8
}

/// Reads one byte.
pub fn read_u8(buf: &[u8], pos: usize) -> (r: Option<(u8, usize)>)
    requires
        pos <= buf@.len(),
    ensures
        if pos < buf@.len() { r matches Some((x, p)) && x == buf@[pos as int] && p == pos + 1 } else { r is None },
{
    if pos < buf.len() { Some((buf[pos], pos + 1)) } else { None }
}

/// Reads a boolean: any byte but zero is true.
pub fn read_bool(buf: &[u8], pos: usize) -> (r: Option<(bool, usize)>)
    requires
        pos <= buf@.len(),
    ensures
        if pos < buf@.len() { r matches Some((x, p)) && x == (buf@[pos as int] != 0) && p == pos + 1 } else { r is None },
{
    if pos < buf.len() { Some((buf[pos] != 0, pos + 1)) } else { None }
}

/// The signed number `n` big endian bytes spell, read as two's complement.
pub open spec fn signed_be(s: Seq<u8>) -> int {
    let u = be_value(s);
    let half = byte_radix(s.len()) / 2;
    if u >= half { u - byte_radix(s.len()) } else { u as int }
}

/// Reads a big endian `i16`.
pub fn read_i16(buf: &[u8], pos: usize) -> (r: Option<(i16, usize)>)
    requires
        pos <= buf@.len(),
    ensures
        if pos + 2 <= buf@.len() {
            r matches Some((x, p)) && x == signed_be(buf@.subrange(pos as int, pos + 2)) as i16 && p == pos + 2
        } else {
            r is None
        },
{
    match read_be(buf, pos, 2) {
        Some((raw, next)) => {
            proof {
                lemma_byte_radix(2);
                lemma_be_value_bound(buf@.subrange(pos as int, pos + 2));
            }
            let value: i16 = if raw >= 0x8000 { (raw as i32 - 0x1_0000) as i16 } else { raw as i16 };
            Some((value, next))
        },
        None => None,
    }
}

/// Reads a big endian `i32`.
pub fn read_i32(buf: &[u8], pos: usize) -> (r: Option<(i32, usize)>)
    requires
        pos <= buf@.len(),
    ensures
        if pos + 4 <= buf@.len() {
            r matches Some((x, p)) && x == signed_be(buf@.subrange(pos as int, pos + 4)) as i32 && p == pos + 4
        } else {
            r is None
        },
{
    match read_be(buf, pos, 4) {
        Some((raw, next)) => {
            proof {
                lemma_byte_radix(4);
                lemma_be_value_bound(buf@.subrange(pos as int, pos + 4));
            }
            let value: i32 = if raw >= 0x8000_0000 { (raw as i64 - 0x1_0000_0000) as i32 } else { raw as i32 };
            Some((value, next))
        },
        None => None,
    }
}

/// Reads a big endian `i64`.
pub fn read_i64(buf: &[u8], pos: usize) -> (r: Option<(i64, usize)>)
    requires
        pos <= buf@.len(),
    ensures
        if pos + 8 <= buf@.len() {
            r matches Some((x, p)) && x == signed_be(buf@.subrange(pos as int, pos + 8)) as i64 && p == pos + 8
        } else {
            r is None
        },
{
    match read_be(buf, pos, 8) {
        Some((raw, next)) => {
            proof {
                lemma_byte_radix(8);
                lemma_be_value_bound(buf@.subrange(pos as int, pos + 8));
            }
            let value: i64 = if raw >= 0x8000_0000_0000_0000 {
                (raw as i128 - 0x1_0000_0000_0000_0000) as i64
            } else {
                raw as i64
            };
            Some((value, next))
        },
        None => None,
    }
}

/// Reads sixteen bytes as one big endian number, the way a UUID travels.
pub fn read_u128(buf: &[u8], pos: usize) -> (r: Option<(u128, usize)>)
    requires
        pos <= buf@.len(),
    ensures
        if pos + 16 <= buf@.len() {
            r matches Some((x, p)) && x == be_value(buf@.subrange(pos as int, pos + 16)) as u128 && p == pos + 16
        } else {
            r is None
        },
{
    read_be(buf, pos, 16)
}

/// The two's complement bytes of `v` in `n` bytes.
pub open spec fn signed_bytes(v: int, n: nat) -> Seq<u8> {
    be_bytes((if v < 0 { v + byte_radix(n) } else { v }) as nat, n)
}

/// Appends a byte.
pub fn write_u8(out: &mut Vec<u8>, v: u8)
    ensures
        final(out)@ == old(out)@ + seq![v],
{
    out.push(v);
}

/// Appends a boolean as one or zero.
pub fn write_bool(out: &mut Vec<u8>, v: bool)
    ensures
        final(out)@ == old(out)@ + seq![if v { 1u8 } else { 0u8 }],
{
    out.push(if v { 1 } else { 0 });
}

/// Appends a big endian `i16`.
pub fn write_i16(out: &mut Vec<u8>, v: i16)
    ensures
        final(out)@ == old(out)@ + signed_bytes(v as int, 2),
{
    proof { lemma_byte_radix(2); }
    let u: u128 = if v < 0 { (v as i32 + 0x1_0000) as u128 } else { v as u128 };
    write_be(out, u, 2);
}

/// Appends a big endian `i32`.
pub fn write_i32(out: &mut Vec<u8>, v: i32)
    ensures
        final(out)@ == old(out)@ + signed_bytes(v as int, 4),
{
    proof { lemma_byte_radix(4); }
    let u: u128 = if v < 0 { (v as i64 + 0x1_0000_0000) as u128 } else { v as u128 };
    write_be(out, u, 4);
}

/// Appends a big endian `i64`.
pub fn write_i64(out: &mut Vec<u8>, v: i64)
    ensures
        final(out)@ == old(out)@ + signed_bytes(v as int, 8),
{
    proof { lemma_byte_radix(8); }
    let u: u128 = if v < 0 { (v as i128 + 0x1_0000_0000_0000_0000) as u128 } else { v as u128 };
    write_be(out, u, 8);
}

/// Appends sixteen bytes, most significant first.
pub fn write_u128(out: &mut Vec<u8>, v: u128)
    ensures
        final(out)@ == old(out)@ + be_bytes(v as nat, 16),
{
    write_be(out, v, 16);
}

// ---------------------------------------------------------------------------
// Byte runs and strings
// ---------------------------------------------------------------------------

/// The longest string, in bytes, a string field may carry: 32767 characters of
/// at most three bytes each.
pub const MAX_STRING_BYTES: usize = 98301;

/// Whether `bytes` is well formed UTF-8, as `std::str::from_utf8` decides it.
pub uninterp spec fn utf8_valid(bytes: Seq<u8>) -> bool;

/// Calls `std::str::from_utf8` and reports whether it accepted `bytes`; the
/// contract claims no more than that its answer is `utf8_valid` of them.
#[verifier::external_body]
fn is_utf8(bytes: &[u8]) -> (r: bool)
    ensures
        r == utf8_valid(bytes@),
{
    std::str::from_utf8(bytes).is_ok()
}

/// A `VarInt` length of at most `max` and that many bytes, at the front of `s`.
pub open spec fn prefixed_at(s: Seq<u8>, max: nat) -> Option<(Seq<u8>, nat)> {
    match var_int_at(s) {
        Some((len, n)) => if len < 0 || len > max || n + len > s.len() {
            None
        } else {
            Some((s.subrange(n as int, n + len), (n + len) as nat))
        },
        None => None,
    }
}

/// A string field at the front of `s`: its UTF-8 bytes and the bytes it took.
pub open spec fn string_at(s: Seq<u8>) -> Option<(Seq<u8>, nat)> {
    match prefixed_at(s, MAX_STRING_BYTES as nat) {
        Some((bytes, n)) => if utf8_valid(bytes) { Some((bytes, n)) } else { None },
        None => None,
    }
}

/// The bytes a length prefixed run is written as.
pub open spec fn prefixed_bytes(bytes: Seq<u8>) -> Seq<u8> {
    var_int_bytes(bytes.len() as i32) + bytes
}

/// A string field the reader accepts: UTF-8 and not longer than the bound.
pub open spec fn string_fits(bytes: Seq<u8>) -> bool {
    bytes.len() <= MAX_STRING_BYTES && utf8_valid(bytes)
}

/// A length prefixed run reads back as the bytes it was written from.
pub proof fn lemma_prefixed_round_trip(bytes: Seq<u8>, max: nat, rest: Seq<u8>)
    requires
        bytes.len() <= max,
        bytes.len() <= i32::MAX,
    ensures
        prefixed_at(prefixed_bytes(bytes) + rest, max) == Some((bytes, prefixed_bytes(bytes).len())),
{
    let head = var_int_bytes(bytes.len() as i32);
    lemma_var_int_round_trip(bytes.len() as i32, bytes + rest);
    assert(prefixed_bytes(bytes) + rest =~= head + (bytes + rest));
    let s = head + (bytes + rest);
    assert(s.subrange(head.len() as int, (head.len() + bytes.len()) as int) =~= bytes);
}

/// A string reads back as the bytes it was written from.
pub proof fn lemma_string_round_trip(bytes: Seq<u8>, rest: Seq<u8>)
    requires
        string_fits(bytes),
    ensures
        string_at(prefixed_bytes(bytes) + rest) == Some((bytes, prefixed_bytes(bytes).len())),
{
    lemma_prefixed_round_trip(bytes, MAX_STRING_BYTES as nat, rest);
}

/// The bytes `buf[start..end]` as a vector of their own.
pub fn copy_range(buf: &[u8], start: usize, end: usize) -> (r: Vec<u8>)
    requires
        start <= end <= buf@.len(),
    ensures
        r@ == buf@.subrange(start as int, end as int),
{
    let mut r: Vec<u8> = Vec::new();
    let mut i = start;
    while i < end
        invariant
            start <= i <= end,
            end <= buf@.len(),
            r@ == buf@.subrange(start as int, i as int),
        decreases end - i,
    {
        r.push(buf[i]);
        assert(r@ =~= buf@.subrange(start as int, i + 1));
        i = i + 1;
    }
    r
}

/// Appends `bytes` to `out`.
pub fn append_bytes(out: &mut Vec<u8>, bytes: &[u8])
    ensures
        final(out)@ == old(out)@ + bytes@,
{
    let ghost start = old(out)@;
    let mut i: usize = 0;
    while i < bytes.len()
        invariant
            i <= bytes@.len(),
            out@ == start + bytes@.subrange(0, i as int),
        decreases bytes@.len() - i,
    {
        out.push(bytes[i]);
        assert(out@ =~= start + bytes@.subrange(0, i + 1));
        i = i + 1;
    }
    assert(bytes@.subrange(0, bytes@.len() as int) =~= bytes@);
}

/// Reads a `VarInt` length of at most `max` and that many bytes.
pub fn read_prefixed(buf: &[u8], pos: usize, max: usize) -> (r: Option<(Vec<u8>, usize)>)
    requires
        pos <= buf@.len(),
    ensures
        match prefixed_at(rest_of(buf@, pos as int), max as nat) {
            Some((bytes, n)) => r matches Some((v, p)) && v@ == bytes && p == pos + n,
            None => r is None,
        },
{
    match read_var_int(buf, pos) {
        Some((len, next)) => {
            if len < 0 || len as usize > max || len as usize > buf.len() - next {
                return None;
            }
            let end = next + len as usize;
            let bytes = copy_range(buf, next, end);
            proof {
                let s = rest_of(buf@, pos as int);
                let n = (next - pos) as nat;
                assert(s.subrange(n as int, n + len) =~= buf@.subrange(next as int, end as int));
            }
            Some((bytes, end))
        },
        None => None,
    }
}

/// Reads a string field: its UTF-8 bytes and the position after it.
pub fn read_string(buf: &[u8], pos: usize) -> (r: Option<(Vec<u8>, usize)>)
    requires
        pos <= buf@.len(),
    ensures
        match string_at(rest_of(buf@, pos as int)) {
            Some((bytes, n)) => r matches Some((v, p)) && v@ == bytes && p == pos + n,
            None => r is None,
        },
{
    match read_prefixed(buf, pos, MAX_STRING_BYTES) {
        Some((bytes, next)) => {
            if is_utf8(bytes.as_slice()) { Some((bytes, next)) } else { None }
        },
        None => None,
    }
}

/// Appends `bytes` with its `VarInt` length in front.
pub fn write_prefixed(out: &mut Vec<u8>, bytes: &[u8])
    requires
        bytes@.len() <= i32::MAX,
    ensures
        final(out)@ == old(out)@ + prefixed_bytes(bytes@),
{
    write_var_int(out, bytes.len() as i32);
    append_bytes(out, bytes);
    assert(final(out)@ =~= old(out)@ + prefixed_bytes(bytes@));
}

/// A signed number written in `k` bytes reads back as itself.
pub proof fn lemma_signed_round_trip(v: int, k: nat, rest: Seq<u8>)
    requires
        k >= 1,
        -(byte_radix(k) / 2) <= v < byte_radix(k) / 2,
    ensures
        signed_bytes(v, k).len() == k,
        (signed_bytes(v, k) + rest).subrange(0, k as int) == signed_bytes(v, k),
        signed_be(signed_bytes(v, k)) == v,
{
    let r = byte_radix(k);
    assert(r == 256 * byte_radix((k - 1) as nat));
    lemma_byte_radix_positive((k - 1) as nat);
    let u: nat = (if v < 0 { v + r } else { v }) as nat;
    lemma_be_round_trip(u, k);
    assert((signed_bytes(v, k) + rest).subrange(0, k as int) =~= signed_bytes(v, k));
}

/// The radix of the widths the fixed width fields use.
pub proof fn lemma_fixed_widths()
    ensures
        byte_radix(1) == 0x100,
        byte_radix(2) == 0x1_0000,
        byte_radix(4) == 0x1_0000_0000,
        byte_radix(8) == 0x1_0000_0000_0000_0000,
        byte_radix(16) == 0x1_0000_0000_0000_0000_0000_0000_0000_0000,
{
    lemma_byte_radix(1);
    lemma_byte_radix(2);
    lemma_byte_radix(4);
    lemma_byte_radix(8);
    lemma_byte_radix(16);
}

/// A `VarInt` never takes more bytes than it is given.
pub proof fn lemma_var_int_len(s: Seq<u8>)
    ensures
        var_int_at(s) matches Some((_, n)) ==> 1 <= n <= s.len() && n <= 5,
{
    lemma_var_end_shape(s, 0, 5);
}

/// A `VarLong` never takes more bytes than it is given.
pub proof fn lemma_var_long_len(s: Seq<u8>)
    ensures
        var_long_at(s) matches Some((_, n)) ==> 1 <= n <= s.len() && n <= 10,
{
    lemma_var_end_shape(s, 0, 10);
}

/// A length prefixed run never takes more bytes than it is given.
pub proof fn lemma_prefixed_len(s: Seq<u8>, max: nat)
    ensures
        prefixed_at(s, max) matches Some((_, n)) ==> n <= s.len(),
        string_at(s) matches Some((_, n)) ==> n <= s.len(),
{
    lemma_var_int_len(s);
}

} // verus!

//! Primitive wire codecs: fixed-width integers in either byte order, base-128
//! variable-length integers, booleans, raw bytes and length-prefixed text.
//!
//! Every encoder appends to a byte vector and is specified by a spec function
//! giving the exact bytes it appends. Every decoder reads from a byte slice at
//! a position and is specified by a spec parser over the slice's view that
//! returns the decoded value and the position just past it.
use crate::error::Error;
use vstd::prelude::*;
use vstd::utf8::*;

verus! {

broadcast use vstd::utf8::encode_utf8_valid_utf8, vstd::utf8::encode_utf8_decode_utf8;

// ---------------------------------------------------------------------------
// Positions
// ---------------------------------------------------------------------------

/// `e` stands in `s` starting at position `pos`.
pub open spec fn holds_at(s: Seq<u8>, pos: nat, e: Seq<u8>) -> bool {
    pos + e.len() <= s.len() && s.subrange(pos as int, (pos + e.len()) as int) == e
}

/// A decoder's result is what its spec parser gives, and stays within the input.
pub open spec fn agrees<T>(r: Result<(T, usize), Error>, p: Result<(T, nat), Error>, len: nat) -> bool {
    match r {
        Ok((v, q)) => p == Ok::<(T, nat), Error>((v, q as nat)) && q <= len,
        Err(e) => p == Err::<(T, nat), Error>(e),
    }
}

pub proof fn lemma_holds_at_concat(s: Seq<u8>, pos: nat, a: Seq<u8>, b: Seq<u8>)
    requires
        holds_at(s, pos, a + b),
    ensures
        holds_at(s, pos, a),
        holds_at(s, pos + a.len(), b),
{
    let t = s.subrange(pos as int, (pos + a.len() + b.len()) as int);
    assert(t == a + b);
    assert(s.subrange(pos as int, (pos + a.len()) as int) =~= t.subrange(0, a.len() as int));
    assert(t.subrange(0, a.len() as int) =~= a);
    assert(s.subrange((pos + a.len()) as int, (pos + a.len() + b.len()) as int) =~= t.subrange(
        a.len() as int,
        (a.len() + b.len()) as int,
    ));
    assert(t.subrange(a.len() as int, (a.len() + b.len()) as int) =~= b);
}

pub proof fn lemma_holds_at_concat3(s: Seq<u8>, pos: nat, a: Seq<u8>, b: Seq<u8>, c: Seq<u8>)
    requires
        holds_at(s, pos, a + b + c),
    ensures
        holds_at(s, pos, a),
        holds_at(s, pos + a.len(), b),
        holds_at(s, pos + a.len() + b.len(), c),
{
    lemma_holds_at_concat(s, pos, a + b, c);
    lemma_holds_at_concat(s, pos, a, b);
}

// ---------------------------------------------------------------------------
// Single bytes and booleans
// ---------------------------------------------------------------------------

pub open spec fn parse_u8(s: Seq<u8>, pos: nat) -> Result<(u8, nat), Error> {
    if pos < s.len() {
        Ok((s[pos as int], pos + 1))
    } else {
        Err(Error::UnexpectedEnd)
    }
}

pub fn write_u8(out: &mut Vec<u8>, v: u8)
    ensures
        final(out)@ == old(out)@ + seq![v],
{
    out.push(v);
}

pub fn read_u8(buf: &[u8], pos: usize) -> (r: Result<(u8, usize), Error>)
    ensures
        agrees(r, parse_u8(buf@, pos as nat), buf@.len()),
{
    if pos < buf.len() {
        Ok((buf[pos], pos + 1))
    } else {
        Err(Error::UnexpectedEnd)
    }
}

/// A boolean is one byte, 1 for true and 0 for false.
pub open spec fn bool_bytes(b: bool) -> Seq<u8> {
    seq![if b { 1u8 } else { 0u8 }]
}

/// Any nonzero byte decodes as true.
pub open spec fn parse_bool(s: Seq<u8>, pos: nat) -> Result<(bool, nat), Error> {
    if pos < s.len() {
        Ok((s[pos as int] != 0, pos + 1))
    } else {
        Err(Error::UnexpectedEnd)
    }
}

pub fn write_bool(out: &mut Vec<u8>, b: bool)
    ensures
        final(out)@ == old(out)@ + bool_bytes(b),
{
    out.push(if b { 1u8 } else { 0u8 });
}

pub fn read_bool(buf: &[u8], pos: usize) -> (r: Result<(bool, usize), Error>)
    ensures
        agrees(r, parse_bool(buf@, pos as nat), buf@.len()),
{
    if pos < buf.len() {
        Ok((buf[pos] != 0, pos + 1))
    } else {
        Err(Error::UnexpectedEnd)
    }
}

pub proof fn lemma_bool_round_trip(s: Seq<u8>, pos: nat, b: bool)
    requires
        holds_at(s, pos, bool_bytes(b)),
    ensures
        parse_bool(s, pos) == Ok::<(bool, nat), Error>((b, pos + 1)),
{
    assert(s[pos as int] == s.subrange(pos as int, (pos + 1) as int)[0]);
}

// ---------------------------------------------------------------------------
// Fixed-width integers
// ---------------------------------------------------------------------------

pub open spec fn pow256(k: nat) -> nat
    decreases k,
{
    if k == 0 {
        1
    } else {
        256 * pow256((k - 1) as nat)
    }
}

/// The `n` low-order bytes of `v`, least significant first.
pub open spec fn le_bytes(v: nat, n: nat) -> Seq<u8>
    decreases n,
{
    if n == 0 {
        Seq::empty()
    } else {
        seq![(v % 256) as u8] + le_bytes(v / 256, (n - 1) as nat)
    }
}

/// The number whose bytes, least significant first, are `s`.
pub open spec fn le_value(s: Seq<u8>) -> nat
    decreases s.len(),
{
    if s.len() == 0 {
        0
    } else {
        s[0] as nat + 256 * le_value(s.drop_first())
    }
}

/// The `n` low-order bytes of `v`, most significant first.
pub open spec fn be_bytes(v: nat, n: nat) -> Seq<u8>
    decreases n,
{
    if n == 0 {
        Seq::empty()
    } else {
        be_bytes(v / 256, (n - 1) as nat).push((v % 256) as u8)
    }
}

/// The number whose bytes, most significant first, are `s`.
pub open spec fn be_value(s: Seq<u8>) -> nat
    decreases s.len(),
{
    if s.len() == 0 {
        0
    } else {
        be_value(s.drop_last()) * 256 + s.last() as nat
    }
}

pub open spec fn parse_le(s: Seq<u8>, pos: nat, n: nat) -> Result<(nat, nat), Error> {
    if pos + n <= s.len() {
        Ok((le_value(s.subrange(pos as int, (pos + n) as int)), pos + n))
    } else {
        Err(Error::UnexpectedEnd)
    }
}

pub open spec fn parse_be(s: Seq<u8>, pos: nat, n: nat) -> Result<(nat, nat), Error> {
    if pos + n <= s.len() {
        Ok((be_value(s.subrange(pos as int, (pos + n) as int)), pos + n))
    } else {
        Err(Error::UnexpectedEnd)
    }
}

pub proof fn lemma_pow256_mono(k: nat)
    requires
        k <= 8,
    ensures
        1 <= pow256(k) <= pow256(8),
        pow256(8) == 0x1_0000_0000_0000_0000,
    decreases 8 - k,
{
    reveal_with_fuel(pow256, 9);
    if k < 8 {
        lemma_pow256_mono(k + 1);
    }
}

pub proof fn lemma_le_value_bound(s: Seq<u8>)
    ensures
        le_value(s) < pow256(s.len()),
    decreases s.len(),
{
    if s.len() > 0 {
        lemma_le_value_bound(s.drop_first());
    }
}

pub proof fn lemma_be_value_bound(s: Seq<u8>)
    ensures
        be_value(s) < pow256(s.len()),
    decreases s.len(),
{
    if s.len() > 0 {
        lemma_be_value_bound(s.drop_last());
    }
}

pub proof fn lemma_le_round_trip(v: nat, n: nat)
    requires
        v < pow256(n),
    ensures
        le_bytes(v, n).len() == n,
        le_value(le_bytes(v, n)) == v,
    decreases n,
{
    if n > 0 {
        assert(v / 256 < pow256((n - 1) as nat)) by (nonlinear_arith)
            requires
                v < 256 * pow256((n - 1) as nat),
        ;
        lemma_le_round_trip(v / 256, (n - 1) as nat);
        assert(le_bytes(v, n).drop_first() =~= le_bytes(v / 256, (n - 1) as nat));
    }
}

pub proof fn lemma_be_round_trip(v: nat, n: nat)
    requires
        v < pow256(n),
    ensures
        be_bytes(v, n).len() == n,
        be_value(be_bytes(v, n)) == v,
    decreases n,
{
    if n > 0 {
        assert(v / 256 < pow256((n - 1) as nat)) by (nonlinear_arith)
            requires
                v < 256 * pow256((n - 1) as nat),
        ;
        lemma_be_round_trip(v / 256, (n - 1) as nat);
        assert(be_bytes(v, n).drop_last() =~= be_bytes(v / 256, (n - 1) as nat));
    }
}

pub proof fn lemma_parse_le_round_trip(s: Seq<u8>, pos: nat, v: nat, n: nat)
    requires
        v < pow256(n),
        holds_at(s, pos, le_bytes(v, n)),
    ensures
        le_bytes(v, n).len() == n,
        parse_le(s, pos, n) == Ok::<(nat, nat), Error>((v, pos + n)),
{
    lemma_le_round_trip(v, n);
}

pub proof fn lemma_parse_be_round_trip(s: Seq<u8>, pos: nat, v: nat, n: nat)
    requires
        v < pow256(n),
        holds_at(s, pos, be_bytes(v, n)),
    ensures
        be_bytes(v, n).len() == n,
        parse_be(s, pos, n) == Ok::<(nat, nat), Error>((v, pos + n)),
{
    lemma_be_round_trip(v, n);
}

/// Appends the `n` low-order bytes of `v`, least significant first.
pub fn write_le(out: &mut Vec<u8>, v: u64, n: usize)
    ensures
        final(out)@ == old(out)@ + le_bytes(v as nat, n as nat),
{
    let ghost start = out@;
    let mut x: u64 = v;
    let mut i: usize = 0;
    while i < n
        invariant
            i <= n,
            start + le_bytes(v as nat, n as nat) == out@ + le_bytes(x as nat, (n - i) as nat),
        decreases n - i,
    {
        let ghost before = out@;
        out.push((x % 256) as u8);
        assert(before + le_bytes(x as nat, (n - i) as nat) =~= out@ + le_bytes(
            (x / 256) as nat,
            (n - i - 1) as nat,
        ));
        x = x / 256;
        i = i + 1;
    }
    assert(out@ + le_bytes(x as nat, 0) =~= out@);
}

/// Reads `n` bytes, least significant first.
pub fn read_le(buf: &[u8], pos: usize, n: usize) -> (r: Result<(u64, usize), Error>)
    requires
        n <= 8,
    ensures
        r is Ok ==> r->Ok_0.1 <= buf@.len(),
        match r {
            Ok((v, p)) => parse_le(buf@, pos as nat, n as nat) == Ok::<(nat, nat), Error>(
                (v as nat, p as nat),
            ),
            Err(e) => parse_le(buf@, pos as nat, n as nat) == Err::<(nat, nat), Error>(e),
        },
{
    if pos > buf.len() || n > buf.len() - pos {
        return Err(Error::UnexpectedEnd);
    }
    let ghost s = buf@.subrange(pos as int, (pos + n) as int);
    let mut value: u64 = 0;
    let mut i: usize = n;
    while i > 0
        invariant
            i <= n <= 8,
            pos + n <= buf.len(),
            s == buf@.subrange(pos as int, (pos + n) as int),
            value as nat == le_value(s.subrange(i as int, n as int)),
        decreases i,
    {
        let ghost t = s.subrange(i - 1, n as int);
        assert(t.drop_first() =~= s.subrange(i as int, n as int));
        assert(t[0] == buf@[pos + i - 1]);
        proof {
            lemma_le_value_bound(t);
            lemma_pow256_mono((n - i + 1) as nat);
            assert(le_value(t) == t[0] as nat + 256 * le_value(t.drop_first()));
            assert(value * 256 + buf[pos + i - 1] < 0x1_0000_0000_0000_0000);
        }
        value = value * 256 + buf[pos + (i - 1)] as u64;
        i = i - 1;
    }
    assert(s.subrange(0, n as int) =~= s);
    Ok((value, pos + n))
}

/// Appends the `n` low-order bytes of `v`, most significant first.
pub fn write_be(out: &mut Vec<u8>, v: u64, n: usize)
    ensures
        final(out)@ == old(out)@ + be_bytes(v as nat, n as nat),
    decreases n,
{
    if n > 0 {
        write_be(out, v / 256, n - 1);
        out.push((v % 256) as u8);
        assert(old(out)@ + be_bytes(v as nat, n as nat) =~= old(out)@ + be_bytes(
            (v / 256) as nat,
            (n - 1) as nat,
        ) + seq![(v % 256) as u8]);
    } else {
        assert(old(out)@ + be_bytes(v as nat, 0) =~= old(out)@);
    }
}

/// Reads `n` bytes, most significant first.
pub fn read_be(buf: &[u8], pos: usize, n: usize) -> (r: Result<(u64, usize), Error>)
    requires
        n <= 8,
    ensures
        r is Ok ==> r->Ok_0.1 <= buf@.len(),
        match r {
            Ok((v, p)) => parse_be(buf@, pos as nat, n as nat) == Ok::<(nat, nat), Error>(
                (v as nat, p as nat),
            ),
            Err(e) => parse_be(buf@, pos as nat, n as nat) == Err::<(nat, nat), Error>(e),
        },
{
    if pos > buf.len() || n > buf.len() - pos {
        return Err(Error::UnexpectedEnd);
    }
    let ghost s = buf@.subrange(pos as int, (pos + n) as int);
    let mut value: u64 = 0;
    let mut i: usize = 0;
    while i < n
        invariant
            i <= n <= 8,
            pos + n <= buf.len(),
            s == buf@.subrange(pos as int, (pos + n) as int),
            value as nat == be_value(s.subrange(0, i as int)),
        decreases n - i,
    {
        let ghost t = s.subrange(0, i + 1);
        assert(t.drop_last() =~= s.subrange(0, i as int));
        assert(t.last() == buf@[pos + i]);
        proof {
            lemma_be_value_bound(t);
            lemma_pow256_mono((i + 1) as nat);
            assert(be_value(t) == be_value(t.drop_last()) * 256 + t.last() as nat);
            assert(value * 256 + buf[pos + i] < 0x1_0000_0000_0000_0000);
        }
        value = value * 256 + buf[pos + i] as u64;
        i = i + 1;
    }
    assert(s.subrange(0, n as int) =~= s);
    Ok((value, pos + n))
}

// ---------------------------------------------------------------------------
// Variable-length integers
// ---------------------------------------------------------------------------

pub open spec fn pow128(k: nat) -> nat
    decreases k,
{
    if k == 0 {
        1
    } else {
        128 * pow128((k - 1) as nat)
    }
}

/// Base-128 digits of `v`, least significant first; every byte but the last
/// has its high bit set.
pub open spec fn var_bytes(v: nat) -> Seq<u8>
    decreases v,
{
    if v < 128 {
        seq![v as u8]
    } else {
        seq![(v % 128 + 128) as u8] + var_bytes(v / 128)
    }
}

/// Reads base-128 digits from `pos` until a byte without the high bit, taking at
/// most `max` bytes.
pub open spec fn parse_var(s: Seq<u8>, pos: nat, max: nat) -> Result<(nat, nat), Error>
    decreases max,
{
    if max == 0 {
        Err(Error::VarIntOverflow)
    } else if pos >= s.len() {
        Err(Error::UnexpectedEnd)
    } else if s[pos as int] < 128 {
        Ok((s[pos as int] as nat, pos + 1))
    } else {
        match parse_var(s, pos + 1, (max - 1) as nat) {
            Ok((v, p)) => Ok((((s[pos as int] - 128) + 128 * v) as nat, p)),
            Err(e) => Err(e),
        }
    }
}

pub proof fn lemma_pow128_facts()
    ensures
        pow128(5) == 0x8_0000_0000,
        pow128(10) == 0x40_0000_0000_0000_0000,
{
    reveal_with_fuel(pow128, 11);
}

pub proof fn lemma_pow128_positive(k: nat)
    ensures
        pow128(k) >= 1,
    decreases k,
{
    if k > 0 {
        lemma_pow128_positive((k - 1) as nat);
    }
}

pub proof fn lemma_parse_var_bound(s: Seq<u8>, pos: nat, max: nat)
    ensures
        parse_var(s, pos, max) matches Ok((v, p)) ==> v < pow128(max) && pos < p <= s.len(),
    decreases max,
{
    if max > 0 {
        lemma_pow128_positive((max - 1) as nat);
    }
    if max > 0 && pos < s.len() && s[pos as int] >= 128 {
        lemma_parse_var_bound(s, pos + 1, (max - 1) as nat);
        if let Ok((v, p)) = parse_var(s, pos + 1, (max - 1) as nat) {
            let b = s[pos as int] - 128;
            assert(b + 128 * v < 128 * pow128((max - 1) as nat)) by (nonlinear_arith)
                requires
                    0 <= b < 128,
                    v < pow128((max - 1) as nat),
            ;
        }
    }
}

pub proof fn lemma_var_bytes_len(v: nat, k: nat)
    requires
        1 <= k,
        v < pow128(k),
    ensures
        1 <= var_bytes(v).len() <= k,
    decreases v,
{
    if v >= 128 {
        assert(k >= 2) by {
            if k == 1 {
                reveal_with_fuel(pow128, 2);
            }
        }
        assert(v / 128 < pow128((k - 1) as nat)) by (nonlinear_arith)
            requires
                v < 128 * pow128((k - 1) as nat),
        ;
        lemma_var_bytes_len(v / 128, (k - 1) as nat);
    }
}

pub proof fn lemma_parse_var_round_trip(s: Seq<u8>, pos: nat, v: nat, max: nat)
    requires
        var_bytes(v).len() <= max,
        holds_at(s, pos, var_bytes(v)),
    ensures
        parse_var(s, pos, max) == Ok::<(nat, nat), Error>((v, pos + var_bytes(v).len())),
    decreases v,
{
    assert(s[pos as int] == var_bytes(v)[0]);
    if v >= 128 {
        lemma_holds_at_concat(s, pos, seq![(v % 128 + 128) as u8], var_bytes(v / 128));
        lemma_parse_var_round_trip(s, pos + 1, v / 128, (max - 1) as nat);
    }
}

/// Appends the base-128 digits of `v`.
pub fn write_var(out: &mut Vec<u8>, v: u64)
    ensures
        final(out)@ == old(out)@ + var_bytes(v as nat),
    decreases v,
{
    if v < 128 {
        out.push(v as u8);
    } else {
        out.push((v % 128 + 128) as u8);
        write_var(out, v / 128);
        assert(old(out)@ + var_bytes(v as nat) =~= old(out)@ + seq![(v % 128 + 128) as u8]
            + var_bytes((v / 128) as nat));
    }
}

/// Reads base-128 digits, at most `max` bytes of them.
pub fn read_var(buf: &[u8], pos: usize, max: usize) -> (r: Result<(u128, usize), Error>)
    requires
        max <= 10,
    ensures
        r is Ok ==> r->Ok_0.1 <= buf@.len(),
        match r {
            Ok((v, p)) => parse_var(buf@, pos as nat, max as nat) == Ok::<(nat, nat), Error>(
                (v as nat, p as nat),
            ),
            Err(e) => parse_var(buf@, pos as nat, max as nat) == Err::<(nat, nat), Error>(e),
        },
    decreases max,
{
    if max == 0 {
        return Err(Error::VarIntOverflow);
    }
    if pos >= buf.len() {
        return Err(Error::UnexpectedEnd);
    }
    let b = buf[pos];
    if b < 128 {
        return Ok((b as u128, pos + 1));
    }
    match read_var(buf, pos + 1, max - 1) {
        Ok((v, p)) => {
            proof {
                lemma_parse_var_bound(buf@, (pos + 1) as nat, (max - 1) as nat);
                reveal_with_fuel(pow128, 11);
                assert(pow128((max - 1) as nat) <= pow128(9)) by {
                    assert(max - 1 <= 9);
                }
            }
            Ok(((b - 128) as u128 + 128 * v, p))
        },
        Err(e) => Err(e),
    }
}

/// A `u32` as a variable-length integer of at most five bytes.
pub open spec fn parse_var_u32(s: Seq<u8>, pos: nat) -> Result<(u32, nat), Error> {
    match parse_var(s, pos, 5) {
        Ok((v, p)) => if v <= u32::MAX {
            Ok((v as u32, p))
        } else {
            Err(Error::VarIntOverflow)
        },
        Err(e) => Err(e),
    }
}

/// A `u64` as a variable-length integer of at most ten bytes.
pub open spec fn parse_var_u64(s: Seq<u8>, pos: nat) -> Result<(u64, nat), Error> {
    match parse_var(s, pos, 10) {
        Ok((v, p)) => if v <= u64::MAX {
            Ok((v as u64, p))
        } else {
            Err(Error::VarIntOverflow)
        },
        Err(e) => Err(e),
    }
}

/// A signed 32-bit value goes on the wire as the variable-length form of its
/// two's-complement bits.
pub open spec fn var_i32_bytes(v: i32) -> Seq<u8> {
    var_bytes((v as u32) as nat)
}

pub open spec fn parse_var_i32(s: Seq<u8>, pos: nat) -> Result<(i32, nat), Error> {
    match parse_var_u32(s, pos) {
        Ok((v, p)) => Ok((v as i32, p)),
        Err(e) => Err(e),
    }
}

/// A signed 64-bit value goes on the wire as the variable-length form of its
/// two's-complement bits.
pub open spec fn var_i64_bytes(v: i64) -> Seq<u8> {
    var_bytes((v as u64) as nat)
}

pub open spec fn parse_var_i64(s: Seq<u8>, pos: nat) -> Result<(i64, nat), Error> {
    match parse_var_u64(s, pos) {
        Ok((v, p)) => Ok((v as i64, p)),
        Err(e) => Err(e),
    }
}

pub fn write_var_u32(out: &mut Vec<u8>, v: u32)
    ensures
        final(out)@ == old(out)@ + var_bytes(v as nat),
{
    write_var(out, v as u64);
}

pub fn read_var_u32(buf: &[u8], pos: usize) -> (r: Result<(u32, usize), Error>)
    ensures
        agrees(r, parse_var_u32(buf@, pos as nat), buf@.len()),
{
    match read_var(buf, pos, 5) {
        Ok((v, p)) => if v <= u32::MAX as u128 {
            Ok((v as u32, p))
        } else {
            Err(Error::VarIntOverflow)
        },
        Err(e) => Err(e),
    }
}

pub fn write_var_u64(out: &mut Vec<u8>, v: u64)
    ensures
        final(out)@ == old(out)@ + var_bytes(v as nat),
{
    write_var(out, v);
}

pub fn read_var_u64(buf: &[u8], pos: usize) -> (r: Result<(u64, usize), Error>)
    ensures
        agrees(r, parse_var_u64(buf@, pos as nat), buf@.len()),
{
    match read_var(buf, pos, 10) {
        Ok((v, p)) => if v <= u64::MAX as u128 {
            Ok((v as u64, p))
        } else {
            Err(Error::VarIntOverflow)
        },
        Err(e) => Err(e),
    }
}

pub fn write_var_i32(out: &mut Vec<u8>, v: i32)
    ensures
        final(out)@ == old(out)@ + var_i32_bytes(v),
{
    write_var(out, (v as u32) as u64);
}

pub fn read_var_i32(buf: &[u8], pos: usize) -> (r: Result<(i32, usize), Error>)
    ensures
        agrees(r, parse_var_i32(buf@, pos as nat), buf@.len()),
{
    match read_var_u32(buf, pos) {
        Ok((v, p)) => Ok((v as i32, p)),
        Err(e) => Err(e),
    }
}

pub fn write_var_i64(out: &mut Vec<u8>, v: i64)
    ensures
        final(out)@ == old(out)@ + var_i64_bytes(v),
{
    write_var(out, v as u64);
}

pub fn read_var_i64(buf: &[u8], pos: usize) -> (r: Result<(i64, usize), Error>)
    ensures
        agrees(r, parse_var_i64(buf@, pos as nat), buf@.len()),
{
    match read_var_u64(buf, pos) {
        Ok((v, p)) => Ok((v as i64, p)),
        Err(e) => Err(e),
    }
}

pub proof fn lemma_var_u32_round_trip(s: Seq<u8>, pos: nat, v: u32)
    requires
        holds_at(s, pos, var_bytes(v as nat)),
    ensures
        parse_var_u32(s, pos) == Ok::<(u32, nat), Error>((v, pos + var_bytes(v as nat).len())),
{
    lemma_pow128_facts();
    lemma_var_bytes_len(v as nat, 5);
    lemma_parse_var_round_trip(s, pos, v as nat, 5);
}

pub proof fn lemma_var_u64_round_trip(s: Seq<u8>, pos: nat, v: u64)
    requires
        holds_at(s, pos, var_bytes(v as nat)),
    ensures
        parse_var_u64(s, pos) == Ok::<(u64, nat), Error>((v, pos + var_bytes(v as nat).len())),
{
    lemma_pow128_facts();
    lemma_var_bytes_len(v as nat, 10);
    lemma_parse_var_round_trip(s, pos, v as nat, 10);
}

pub proof fn lemma_var_i32_round_trip(s: Seq<u8>, pos: nat, v: i32)
    requires
        holds_at(s, pos, var_i32_bytes(v)),
    ensures
        parse_var_i32(s, pos) == Ok::<(i32, nat), Error>((v, pos + var_i32_bytes(v).len())),
{
    lemma_var_u32_round_trip(s, pos, v as u32);
    assert(((v as u32) as i32) == v) by (bit_vector);
}

pub proof fn lemma_var_i64_round_trip(s: Seq<u8>, pos: nat, v: i64)
    requires
        holds_at(s, pos, var_i64_bytes(v)),
    ensures
        parse_var_i64(s, pos) == Ok::<(i64, nat), Error>((v, pos + var_i64_bytes(v).len())),
{
    lemma_var_u64_round_trip(s, pos, v as u64);
    assert(((v as u64) as i64) == v) by (bit_vector);
}

// ---------------------------------------------------------------------------
// Raw bytes and text
// ---------------------------------------------------------------------------

/// Relies on `String::from_utf8`: it accepts exactly the well-formed UTF-8 byte
/// sequences, and the string it returns spells the characters they encode.
#[verifier::external_body]
fn utf8_to_string(b: Vec<u8>) -> (r: Option<String>)
    ensures
        r is Some <==> valid_utf8(b@),
        r matches Some(s) ==> s@ == decode_utf8(b@),
{
    String::from_utf8(b).ok()
}

/// The UTF-8 bytes of a string.
pub open spec fn utf8(s: Seq<char>) -> Seq<u8> {
    encode_utf8(s)
}

/// Appends `b` unchanged.
pub fn write_bytes(out: &mut Vec<u8>, b: &[u8])
    ensures
        final(out)@ == old(out)@ + b@,
{
    let ghost start = out@;
    let mut i: usize = 0;
    while i < b.len()
        invariant
            i <= b@.len(),
            out@ == start + b@.subrange(0, i as int),
        decreases b@.len() - i,
    {
        out.push(b[i]);
        assert(b@.subrange(0, i + 1) =~= b@.subrange(0, i as int).push(b@[i as int]));
        i = i + 1;
    }
    assert(b@.subrange(0, b@.len() as int) =~= b@);
}

/// Copies `n` bytes starting at `pos`.
pub fn read_bytes(buf: &[u8], pos: usize, n: usize) -> (r: Result<(Vec<u8>, usize), Error>)
    ensures
        match r {
            Ok((v, p)) => pos + n <= buf@.len() && v@ == buf@.subrange(pos as int, pos + n as int) && p
                == pos + n,
            Err(e) => pos + n > buf@.len() && e == Error::UnexpectedEnd,
        },
{
    if pos > buf.len() || n > buf.len() - pos {
        return Err(Error::UnexpectedEnd);
    }
    let mut v: Vec<u8> = Vec::new();
    let mut i: usize = 0;
    while i < n
        invariant
            i <= n,
            pos + n <= buf.len(),
            v@ == buf@.subrange(pos as int, pos + i as int),
        decreases n - i,
    {
        v.push(buf[pos + i]);
        assert(buf@.subrange(pos as int, pos + i + 1) =~= buf@.subrange(pos as int, pos + i).push(
            buf@[pos + i],
        ));
        i = i + 1;
    }
    Ok((v, pos + n))
}

/// A byte string with a variable-length count prefix.
pub open spec fn var_bytes_field(b: Seq<u8>) -> Seq<u8> {
    var_bytes((b.len() as u32) as nat) + b
}

pub open spec fn parse_var_bytes_field(s: Seq<u8>, pos: nat) -> Result<(Seq<u8>, nat), Error> {
    match parse_var_u32(s, pos) {
        Ok((n, p)) => if p + (n as nat) <= s.len() {
            Ok((s.subrange(p as int, p + n as int), p + (n as nat)))
        } else {
            Err(Error::UnexpectedEnd)
        },
        Err(e) => Err(e),
    }
}

pub fn write_var_bytes_field(out: &mut Vec<u8>, b: &[u8])
    ensures
        final(out)@ == old(out)@ + var_bytes_field(b@),
{
    write_var_u32(out, b.len() as u32);
    write_bytes(out, b);
    assert(final(out)@ =~= old(out)@ + var_bytes_field(b@));
}

pub fn read_var_bytes_field(buf: &[u8], pos: usize) -> (r: Result<(Vec<u8>, usize), Error>)
    ensures
        r is Ok ==> r->Ok_0.1 <= buf@.len(),
        match r {
            Ok((v, p)) => parse_var_bytes_field(buf@, pos as nat) == Ok::<(Seq<u8>, nat), Error>(
                (v@, p as nat),
            ),
            Err(e) => parse_var_bytes_field(buf@, pos as nat) == Err::<(Seq<u8>, nat), Error>(e),
        },
{
    let (n, p) = match read_var_u32(buf, pos) {
        Ok(x) => x,
        Err(e) => return Err(e),
    };
    assert((n as usize) as nat == n as nat);
    read_bytes(buf, p, n as usize)
}

pub proof fn lemma_var_bytes_field_round_trip(s: Seq<u8>, pos: nat, b: Seq<u8>)
    requires
        b.len() <= u32::MAX,
        holds_at(s, pos, var_bytes_field(b)),
    ensures
        parse_var_bytes_field(s, pos) == Ok::<(Seq<u8>, nat), Error>(
            (b, pos + var_bytes_field(b).len()),
        ),
{
    lemma_holds_at_concat(s, pos, var_bytes((b.len() as u32) as nat), b);
    lemma_var_u32_round_trip(s, pos, b.len() as u32);
}

/// Text with a variable-length prefix giving its UTF-8 byte count.
pub open spec fn var_text(t: Seq<char>) -> Seq<u8> {
    var_bytes_field(utf8(t))
}

pub open spec fn parse_var_text(s: Seq<u8>, pos: nat) -> Result<(Seq<char>, nat), Error> {
    match parse_var_bytes_field(s, pos) {
        Ok((b, p)) => if valid_utf8(b) {
            Ok((decode_utf8(b), p))
        } else {
            Err(Error::InvalidText)
        },
        Err(e) => Err(e),
    }
}

pub fn write_var_text(out: &mut Vec<u8>, t: &String)
    ensures
        final(out)@ == old(out)@ + var_text(t@),
{
    write_var_bytes_field(out, t.as_str().as_bytes());
}

pub fn read_var_text(buf: &[u8], pos: usize) -> (r: Result<(String, usize), Error>)
    ensures
        r is Ok ==> r->Ok_0.1 <= buf@.len(),
        match r {
            Ok((t, p)) => parse_var_text(buf@, pos as nat) == Ok::<(Seq<char>, nat), Error>(
                (t@, p as nat),
            ),
            Err(e) => parse_var_text(buf@, pos as nat) == Err::<(Seq<char>, nat), Error>(e),
        },
{
    let (b, p) = match read_var_bytes_field(buf, pos) {
        Ok(x) => x,
        Err(e) => return Err(e),
    };
    match utf8_to_string(b) {
        Some(t) => Ok((t, p)),
        None => Err(Error::InvalidText),
    }
}

/// A text whose UTF-8 byte count fits the count prefix.
pub open spec fn text_fits(t: Seq<char>) -> bool {
    utf8(t).len() <= u32::MAX
}

pub proof fn lemma_var_text_round_trip(s: Seq<u8>, pos: nat, t: Seq<char>)
    requires
        text_fits(t),
        holds_at(s, pos, var_text(t)),
    ensures
        parse_var_text(s, pos) == Ok::<(Seq<char>, nat), Error>((t, pos + var_text(t).len())),
{
    lemma_var_bytes_field_round_trip(s, pos, utf8(t));
}

/// Text with a signed 16-bit little-endian prefix giving its UTF-8 byte count.
pub open spec fn short_text(t: Seq<char>) -> Seq<u8> {
    le_bytes((utf8(t).len() as u16) as nat, 2) + utf8(t)
}

pub fn write_short_text(out: &mut Vec<u8>, t: &String)
    ensures
        final(out)@ == old(out)@ + short_text(t@),
{
    let b = t.as_str().as_bytes();
    write_le(out, (b.len() as u16) as u64, 2);
    write_bytes(out, b);
    assert(final(out)@ =~= old(out)@ + short_text(t@));
}

// ---------------------------------------------------------------------------
// Sequences of text
// ---------------------------------------------------------------------------

/// The views of a vector of strings.
pub open spec fn texts_view(v: Seq<String>) -> Seq<Seq<char>> {
    v.map_values(|x: String| x@)
}

/// Each text in turn, each with its variable-length prefix.
pub open spec fn var_texts(items: Seq<Seq<char>>) -> Seq<u8>
    decreases items.len(),
{
    if items.len() == 0 {
        Seq::empty()
    } else {
        var_texts(items.drop_last()) + var_text(items.last())
    }
}

/// Each text in turn, each with its signed 16-bit prefix.
pub open spec fn short_texts(items: Seq<Seq<char>>) -> Seq<u8>
    decreases items.len(),
{
    if items.len() == 0 {
        Seq::empty()
    } else {
        short_texts(items.drop_last()) + short_text(items.last())
    }
}

/// Reads `count` texts, each with its variable-length prefix.
pub open spec fn parse_var_texts(s: Seq<u8>, pos: nat, count: nat) -> Result<
    (Seq<Seq<char>>, nat),
    Error,
>
    decreases count,
{
    if count == 0 {
        Ok((Seq::empty(), pos))
    } else {
        match parse_var_texts(s, pos, (count - 1) as nat) {
            Ok((items, p)) => match parse_var_text(s, p) {
                Ok((t, q)) => Ok((items.push(t), q)),
                Err(e) => Err(e),
            },
            Err(e) => Err(e),
        }
    }
}

pub proof fn lemma_parse_var_texts_err(s: Seq<u8>, pos: nat, k: nat, m: nat, e: Error)
    requires
        k <= m,
        parse_var_texts(s, pos, k) == Err::<(Seq<Seq<char>>, nat), Error>(e),
    ensures
        parse_var_texts(s, pos, m) == Err::<(Seq<Seq<char>>, nat), Error>(e),
    decreases m - k,
{
    if k < m {
        lemma_parse_var_texts_err(s, pos, k, (m - 1) as nat, e);
    }
}

/// Appends each text with its variable-length prefix.
pub fn write_var_texts(out: &mut Vec<u8>, items: &Vec<String>)
    ensures
        final(out)@ == old(out)@ + var_texts(texts_view(items@)),
{
    let ghost start = out@;
    let mut i: usize = 0;
    while i < items.len()
        invariant
            i <= items@.len(),
            out@ == start + var_texts(texts_view(items@).subrange(0, i as int)),
        decreases items@.len() - i,
    {
        write_var_text(out, &items[i]);
        assert(texts_view(items@).subrange(0, i + 1).drop_last() =~= texts_view(items@).subrange(
            0,
            i as int,
        ));
        assert(out@ =~= start + var_texts(texts_view(items@).subrange(0, i + 1)));
        i = i + 1;
    }
    assert(texts_view(items@).subrange(0, items@.len() as int) =~= texts_view(items@));
}

/// Appends each text with its signed 16-bit prefix.
pub fn write_short_texts(out: &mut Vec<u8>, items: &Vec<String>)
    ensures
        final(out)@ == old(out)@ + short_texts(texts_view(items@)),
{
    let ghost start = out@;
    let mut i: usize = 0;
    while i < items.len()
        invariant
            i <= items@.len(),
            out@ == start + short_texts(texts_view(items@).subrange(0, i as int)),
        decreases items@.len() - i,
    {
        write_short_text(out, &items[i]);
        assert(texts_view(items@).subrange(0, i + 1).drop_last() =~= texts_view(items@).subrange(
            0,
            i as int,
        ));
        assert(out@ =~= start + short_texts(texts_view(items@).subrange(0, i + 1)));
        i = i + 1;
    }
    assert(texts_view(items@).subrange(0, items@.len() as int) =~= texts_view(items@));
}

/// Reads `count` texts, each with its variable-length prefix.
pub fn read_var_texts(buf: &[u8], pos: usize, count: usize) -> (r: Result<(Vec<String>, usize), Error>)
    requires
        pos <= buf@.len(),
    ensures
        r is Ok ==> r->Ok_0.1 <= buf@.len(),
        match r {
            Ok((v, p)) => parse_var_texts(buf@, pos as nat, count as nat) == Ok::<
                (Seq<Seq<char>>, nat),
                Error,
            >((texts_view(v@), p as nat)),
            Err(e) => parse_var_texts(buf@, pos as nat, count as nat) == Err::<
                (Seq<Seq<char>>, nat),
                Error,
            >(e),
        },
{
    let mut items: Vec<String> = Vec::new();
    let mut p: usize = pos;
    let mut i: usize = 0;
    assert(texts_view(items@) =~= Seq::<Seq<char>>::empty());
    while i < count
        invariant
            i <= count,
            p <= buf@.len(),
            parse_var_texts(buf@, pos as nat, i as nat) == Ok::<(Seq<Seq<char>>, nat), Error>(
                (texts_view(items@), p as nat),
            ),
        decreases count - i,
    {
        match read_var_text(buf, p) {
            Ok((t, q)) => {
                let ghost before = items@;
                items.push(t);
                assert(texts_view(items@) =~= texts_view(before).push(t@));
                p = q;
                i = i + 1;
            },
            Err(e) => {
                proof {
                    lemma_parse_var_texts_err(buf@, pos as nat, (i + 1) as nat, count as nat, e);
                }
                return Err(e);
            },
        }
    }
    Ok((items, p))
}

pub proof fn lemma_var_texts_round_trip(s: Seq<u8>, pos: nat, items: Seq<Seq<char>>)
    requires
        forall|i: int| 0 <= i < items.len() ==> text_fits(#[trigger] items[i]),
        holds_at(s, pos, var_texts(items)),
    ensures
        parse_var_texts(s, pos, items.len()) == Ok::<(Seq<Seq<char>>, nat), Error>(
            (items, pos + var_texts(items).len()),
        ),
    decreases items.len(),
{
    if items.len() > 0 {
        let init = items.drop_last();
        lemma_holds_at_concat(s, pos, var_texts(init), var_text(items.last()));
        assert forall|i: int| 0 <= i < init.len() implies text_fits(#[trigger] init[i]) by {
            assert(init[i] == items[i]);
        }
        lemma_var_texts_round_trip(s, pos, init);
        assert(text_fits(items[items.len() - 1]));
        lemma_var_text_round_trip(s, pos + var_texts(init).len(), items.last());
        assert(init.push(items.last()) =~= items);
    } else {
        assert(items =~= Seq::<Seq<char>>::empty());
    }
}

// ---------------------------------------------------------------------------
// Integer widths of tagged-variant discriminants
// ---------------------------------------------------------------------------

/// How the discriminant of a tagged-variant type goes on the wire. A tag is
/// held as the 32 bits of the wire integer (two's complement where signed).
#[derive(Debug, Clone, Copy, PartialEq, Eq, Structural)]
pub enum Width {
    /// One byte.
    Byte,
    /// Two bytes, little-endian.
    Le16,
    /// Four bytes, little-endian.
    Le32,
    /// Four bytes, big-endian.
    Be32,
    /// A variable-length integer of at most five bytes.
    Var,
}

/// The tags that fit a width.
pub open spec fn fits_width(w: Width, v: u32) -> bool {
    match w {
        Width::Byte => v < 0x100,
        Width::Le16 => v < 0x1_0000,
        _ => true,
    }
}

pub open spec fn width_bytes(w: Width, v: u32) -> Seq<u8> {
    match w {
        Width::Byte => seq![v as u8],
        Width::Le16 => le_bytes(v as nat, 2),
        Width::Le32 => le_bytes(v as nat, 4),
        Width::Be32 => be_bytes(v as nat, 4),
        Width::Var => var_bytes(v as nat),
    }
}

pub open spec fn parse_width(w: Width, s: Seq<u8>, pos: nat) -> Result<(u32, nat), Error> {
    match w {
        Width::Byte => match parse_u8(s, pos) {
            Ok((b, p)) => Ok((b as u32, p)),
            Err(e) => Err(e),
        },
        Width::Le16 => match parse_le(s, pos, 2) {
            Ok((v, p)) => Ok((v as u32, p)),
            Err(e) => Err(e),
        },
        Width::Le32 => match parse_le(s, pos, 4) {
            Ok((v, p)) => Ok((v as u32, p)),
            Err(e) => Err(e),
        },
        Width::Be32 => match parse_be(s, pos, 4) {
            Ok((v, p)) => Ok((v as u32, p)),
            Err(e) => Err(e),
        },
        Width::Var => parse_var_u32(s, pos),
    }
}

pub fn write_width(out: &mut Vec<u8>, w: Width, v: u32)
    requires
        fits_width(w, v),
    ensures
        final(out)@ == old(out)@ + width_bytes(w, v),
{
    match w {
        Width::Byte => write_u8(out, v as u8),
        Width::Le16 => write_le(out, v as u64, 2),
        Width::Le32 => write_le(out, v as u64, 4),
        Width::Be32 => write_be(out, v as u64, 4),
        Width::Var => write_var_u32(out, v),
    }
}

pub fn read_width(buf: &[u8], pos: usize, w: Width) -> (r: Result<(u32, usize), Error>)
    ensures
        agrees(r, parse_width(w, buf@, pos as nat), buf@.len()),
{
    match w {
        Width::Byte => match read_u8(buf, pos) {
            Ok((b, p)) => Ok((b as u32, p)),
            Err(e) => Err(e),
        },
        Width::Le16 => match read_le(buf, pos, 2) {
            Ok((v, p)) => {
                proof {
                    lemma_le_value_bound(buf@.subrange(pos as int, pos + 2));
                    reveal_with_fuel(pow256, 3);
                }
                Ok((v as u32, p))
            },
            Err(e) => Err(e),
        },
        Width::Le32 => match read_le(buf, pos, 4) {
            Ok((v, p)) => {
                proof {
                    lemma_le_value_bound(buf@.subrange(pos as int, pos + 4));
                    reveal_with_fuel(pow256, 5);
                }
                Ok((v as u32, p))
            },
            Err(e) => Err(e),
        },
        Width::Be32 => match read_be(buf, pos, 4) {
            Ok((v, p)) => {
                proof {
                    lemma_be_value_bound(buf@.subrange(pos as int, pos + 4));
                    reveal_with_fuel(pow256, 5);
                }
                Ok((v as u32, p))
            },
            Err(e) => Err(e),
        },
        Width::Var => read_var_u32(buf, pos),
    }
}

pub proof fn lemma_width_round_trip(w: Width, v: u32, s: Seq<u8>, pos: nat)
    requires
        fits_width(w, v),
        holds_at(s, pos, width_bytes(w, v)),
    ensures
        parse_width(w, s, pos) == Ok::<(u32, nat), Error>((v, pos + width_bytes(w, v).len())),
{
    reveal_with_fuel(pow256, 5);
    match w {
        Width::Byte => {
            assert(width_bytes(w, v).len() == 1);
            assert(s[pos as int] == s.subrange(pos as int, pos + 1 as int)[0]);
            assert((v as u8) as u32 == v) by (bit_vector)
                requires
                    v < 0x100,
            ;
        },
        Width::Le16 => lemma_parse_le_round_trip(s, pos, v as nat, 2),
        Width::Le32 => lemma_parse_le_round_trip(s, pos, v as nat, 4),
        Width::Be32 => lemma_parse_be_round_trip(s, pos, v as nat, 4),
        Width::Var => lemma_var_u32_round_trip(s, pos, v),
    }
}

// ---------------------------------------------------------------------------
// Typed fixed-width fields
// ---------------------------------------------------------------------------

/// Two bytes, little-endian.
pub open spec fn u16_le_bytes(v: u16) -> Seq<u8> {
    le_bytes(v as nat, 2)
}

pub open spec fn parse_u16_le(s: Seq<u8>, pos: nat) -> Result<(u16, nat), Error> {
    match parse_le(s, pos, 2) {
        Ok((x, p)) => Ok((x as u16, p)),
        Err(e) => Err(e),
    }
}

pub fn write_u16_le(out: &mut Vec<u8>, v: u16)
    ensures
        final(out)@ == old(out)@ + u16_le_bytes(v),
{
    write_le(out, v as u64, 2);
}

pub fn read_u16_le(buf: &[u8], pos: usize) -> (r: Result<(u16, usize), Error>)
    ensures
        agrees(r, parse_u16_le(buf@, pos as nat), buf@.len()),
{
    match read_le(buf, pos, 2) {
        Ok((x, p)) => {
            proof {
                lemma_le_value_bound(buf@.subrange(pos as int, pos + 2 as int));
                reveal_with_fuel(pow256, 3);
            }
            Ok((x as u16, p))
        },
        Err(e) => Err(e),
    }
}

pub proof fn lemma_u16_le_round_trip(s: Seq<u8>, pos: nat, v: u16)
    requires
        holds_at(s, pos, u16_le_bytes(v)),
    ensures
        parse_u16_le(s, pos) == Ok::<(u16, nat), Error>((v, pos + 2)),
        u16_le_bytes(v).len() == 2,
{
    reveal_with_fuel(pow256, 3);
    lemma_parse_le_round_trip(s, pos, v as nat, 2);
}

/// A signed value's two two's-complement bytes, little-endian.
pub open spec fn i16_le_bytes(v: i16) -> Seq<u8> {
    le_bytes((v as u16) as nat, 2)
}

pub open spec fn parse_i16_le(s: Seq<u8>, pos: nat) -> Result<(i16, nat), Error> {
    match parse_le(s, pos, 2) {
        Ok((x, p)) => Ok(((x as u16) as i16, p)),
        Err(e) => Err(e),
    }
}

pub fn write_i16_le(out: &mut Vec<u8>, v: i16)
    ensures
        final(out)@ == old(out)@ + i16_le_bytes(v),
{
    write_le(out, (v as u16) as u64, 2);
}

pub fn read_i16_le(buf: &[u8], pos: usize) -> (r: Result<(i16, usize), Error>)
    ensures
        agrees(r, parse_i16_le(buf@, pos as nat), buf@.len()),
{
    match read_le(buf, pos, 2) {
        Ok((x, p)) => {
            proof {
                lemma_le_value_bound(buf@.subrange(pos as int, pos + 2 as int));
                reveal_with_fuel(pow256, 3);
            }
            Ok(((x as u16) as i16, p))
        },
        Err(e) => Err(e),
    }
}

pub proof fn lemma_i16_le_round_trip(s: Seq<u8>, pos: nat, v: i16)
    requires
        holds_at(s, pos, i16_le_bytes(v)),
    ensures
        parse_i16_le(s, pos) == Ok::<(i16, nat), Error>((v, pos + 2)),
        i16_le_bytes(v).len() == 2,
{
    reveal_with_fuel(pow256, 3);
    lemma_parse_le_round_trip(s, pos, (v as u16) as nat, 2);
    assert(((v as u16) as i16) == v) by (bit_vector);
}

/// Four bytes, little-endian.
pub open spec fn u32_le_bytes(v: u32) -> Seq<u8> {
    le_bytes(v as nat, 4)
}

pub open spec fn parse_u32_le(s: Seq<u8>, pos: nat) -> Result<(u32, nat), Error> {
    match parse_le(s, pos, 4) {
        Ok((x, p)) => Ok((x as u32, p)),
        Err(e) => Err(e),
    }
}

pub fn write_u32_le(out: &mut Vec<u8>, v: u32)
    ensures
        final(out)@ == old(out)@ + u32_le_bytes(v),
{
    write_le(out, v as u64, 4);
}

pub fn read_u32_le(buf: &[u8], pos: usize) -> (r: Result<(u32, usize), Error>)
    ensures
        agrees(r, parse_u32_le(buf@, pos as nat), buf@.len()),
{
    match read_le(buf, pos, 4) {
        Ok((x, p)) => {
            proof {
                lemma_le_value_bound(buf@.subrange(pos as int, pos + 4 as int));
                reveal_with_fuel(pow256, 5);
            }
            Ok((x as u32, p))
        },
        Err(e) => Err(e),
    }
}

pub proof fn lemma_u32_le_round_trip(s: Seq<u8>, pos: nat, v: u32)
    requires
        holds_at(s, pos, u32_le_bytes(v)),
    ensures
        parse_u32_le(s, pos) == Ok::<(u32, nat), Error>((v, pos + 4)),
        u32_le_bytes(v).len() == 4,
{
    reveal_with_fuel(pow256, 5);
    lemma_parse_le_round_trip(s, pos, v as nat, 4);
}

/// A signed value's four two's-complement bytes, little-endian.
pub open spec fn i32_le_bytes(v: i32) -> Seq<u8> {
    le_bytes((v as u32) as nat, 4)
}

pub open spec fn parse_i32_le(s: Seq<u8>, pos: nat) -> Result<(i32, nat), Error> {
    match parse_le(s, pos, 4) {
        Ok((x, p)) => Ok(((x as u32) as i32, p)),
        Err(e) => Err(e),
    }
}

pub fn write_i32_le(out: &mut Vec<u8>, v: i32)
    ensures
        final(out)@ == old(out)@ + i32_le_bytes(v),
{
    write_le(out, (v as u32) as u64, 4);
}

pub fn read_i32_le(buf: &[u8], pos: usize) -> (r: Result<(i32, usize), Error>)
    ensures
        agrees(r, parse_i32_le(buf@, pos as nat), buf@.len()),
{
    match read_le(buf, pos, 4) {
        Ok((x, p)) => {
            proof {
                lemma_le_value_bound(buf@.subrange(pos as int, pos + 4 as int));
                reveal_with_fuel(pow256, 5);
            }
            Ok(((x as u32) as i32, p))
        },
        Err(e) => Err(e),
    }
}

pub proof fn lemma_i32_le_round_trip(s: Seq<u8>, pos: nat, v: i32)
    requires
        holds_at(s, pos, i32_le_bytes(v)),
    ensures
        parse_i32_le(s, pos) == Ok::<(i32, nat), Error>((v, pos + 4)),
        i32_le_bytes(v).len() == 4,
{
    reveal_with_fuel(pow256, 5);
    lemma_parse_le_round_trip(s, pos, (v as u32) as nat, 4);
    assert(((v as u32) as i32) == v) by (bit_vector);
}

/// A signed value's eight two's-complement bytes, little-endian.
pub open spec fn i64_le_bytes(v: i64) -> Seq<u8> {
    le_bytes((v as u64) as nat, 8)
}

pub open spec fn parse_i64_le(s: Seq<u8>, pos: nat) -> Result<(i64, nat), Error> {
    match parse_le(s, pos, 8) {
        Ok((x, p)) => Ok(((x as u64) as i64, p)),
        Err(e) => Err(e),
    }
}

pub fn write_i64_le(out: &mut Vec<u8>, v: i64)
    ensures
        final(out)@ == old(out)@ + i64_le_bytes(v),
{
    write_le(out, (v as u64) as u64, 8);
}

pub fn read_i64_le(buf: &[u8], pos: usize) -> (r: Result<(i64, usize), Error>)
    ensures
        agrees(r, parse_i64_le(buf@, pos as nat), buf@.len()),
{
    match read_le(buf, pos, 8) {
        Ok((x, p)) => {
            proof {
                lemma_le_value_bound(buf@.subrange(pos as int, pos + 8 as int));
                reveal_with_fuel(pow256, 9);
            }
            Ok(((x as u64) as i64, p))
        },
        Err(e) => Err(e),
    }
}

pub proof fn lemma_i64_le_round_trip(s: Seq<u8>, pos: nat, v: i64)
    requires
        holds_at(s, pos, i64_le_bytes(v)),
    ensures
        parse_i64_le(s, pos) == Ok::<(i64, nat), Error>((v, pos + 8)),
        i64_le_bytes(v).len() == 8,
{
    reveal_with_fuel(pow256, 9);
    lemma_parse_le_round_trip(s, pos, (v as u64) as nat, 8);
    assert(((v as u64) as i64) == v) by (bit_vector);
}

/// Eight bytes, little-endian.
pub open spec fn u64_le_bytes(v: u64) -> Seq<u8> {
    le_bytes(v as nat, 8)
}

pub open spec fn parse_u64_le(s: Seq<u8>, pos: nat) -> Result<(u64, nat), Error> {
    match parse_le(s, pos, 8) {
        Ok((x, p)) => Ok((x as u64, p)),
        Err(e) => Err(e),
    }
}

pub fn write_u64_le(out: &mut Vec<u8>, v: u64)
    ensures
        final(out)@ == old(out)@ + u64_le_bytes(v),
{
    write_le(out, v as u64, 8);
}

pub fn read_u64_le(buf: &[u8], pos: usize) -> (r: Result<(u64, usize), Error>)
    ensures
        agrees(r, parse_u64_le(buf@, pos as nat), buf@.len()),
{
    match read_le(buf, pos, 8) {
        Ok((x, p)) => {
            proof {
                lemma_le_value_bound(buf@.subrange(pos as int, pos + 8 as int));
                reveal_with_fuel(pow256, 9);
            }
            Ok((x as u64, p))
        },
        Err(e) => Err(e),
    }
}

pub proof fn lemma_u64_le_round_trip(s: Seq<u8>, pos: nat, v: u64)
    requires
        holds_at(s, pos, u64_le_bytes(v)),
    ensures
        parse_u64_le(s, pos) == Ok::<(u64, nat), Error>((v, pos + 8)),
        u64_le_bytes(v).len() == 8,
{
    reveal_with_fuel(pow256, 9);
    lemma_parse_le_round_trip(s, pos, v as nat, 8);
}

/// A signed value's four two's-complement bytes, big-endian.
pub open spec fn i32_be_bytes(v: i32) -> Seq<u8> {
    be_bytes((v as u32) as nat, 4)
}

pub open spec fn parse_i32_be(s: Seq<u8>, pos: nat) -> Result<(i32, nat), Error> {
    match parse_be(s, pos, 4) {
        Ok((x, p)) => Ok(((x as u32) as i32, p)),
        Err(e) => Err(e),
    }
}

pub fn write_i32_be(out: &mut Vec<u8>, v: i32)
    ensures
        final(out)@ == old(out)@ + i32_be_bytes(v),
{
    write_be(out, (v as u32) as u64, 4);
}

pub fn read_i32_be(buf: &[u8], pos: usize) -> (r: Result<(i32, usize), Error>)
    ensures
        agrees(r, parse_i32_be(buf@, pos as nat), buf@.len()),
{
    match read_be(buf, pos, 4) {
        Ok((x, p)) => {
            proof {
                lemma_be_value_bound(buf@.subrange(pos as int, pos + 4 as int));
                reveal_with_fuel(pow256, 5);
            }
            Ok(((x as u32) as i32, p))
        },
        Err(e) => Err(e),
    }
}

pub proof fn lemma_i32_be_round_trip(s: Seq<u8>, pos: nat, v: i32)
    requires
        holds_at(s, pos, i32_be_bytes(v)),
    ensures
        parse_i32_be(s, pos) == Ok::<(i32, nat), Error>((v, pos + 4)),
        i32_be_bytes(v).len() == 4,
{
    reveal_with_fuel(pow256, 5);
    lemma_parse_be_round_trip(s, pos, (v as u32) as nat, 4);
    assert(((v as u32) as i32) == v) by (bit_vector);
}

pub proof fn lemma_u8_round_trip(s: Seq<u8>, pos: nat, v: u8)
    requires
        holds_at(s, pos, seq![v]),
    ensures
        parse_u8(s, pos) == Ok::<(u8, nat), Error>((v, pos + 1)),
{
    assert(s[pos as int] == s.subrange(pos as int, pos + 1 as int)[0]);
}

/// A decoder's result, viewed, is what its spec parser gives, and stays within
/// the input.
pub open spec fn agrees_view<T: View>(r: Result<(T, usize), Error>, p: Result<(T::V, nat), Error>, len: nat) -> bool {
    match r {
        Ok((v, q)) => p == Ok::<(T::V, nat), Error>((v@, q as nat)) && q <= len,
        Err(e) => p == Err::<(T::V, nat), Error>(e),
    }
}

// ---------------------------------------------------------------------------
// Counted sequences of text
// ---------------------------------------------------------------------------

/// Texts behind a 16-bit little-endian count.
pub open spec fn u16_texts(items: Seq<Seq<char>>) -> Seq<u8> {
    le_bytes((items.len() as u16) as nat, 2) + var_texts(items)
}

/// Texts behind a variable-length count.
pub open spec fn var_count_texts(items: Seq<Seq<char>>) -> Seq<u8> {
    var_bytes((items.len() as u32) as nat) + var_texts(items)
}

pub open spec fn u16_texts_fit(items: Seq<Seq<char>>) -> bool {
    &&& items.len() <= u16::MAX
    &&& forall|i: int| 0 <= i < items.len() ==> text_fits(#[trigger] items[i])
}

pub open spec fn var_count_texts_fit(items: Seq<Seq<char>>) -> bool {
    &&& items.len() <= u32::MAX
    &&& forall|i: int| 0 <= i < items.len() ==> text_fits(#[trigger] items[i])
}

pub open spec fn parse_u16_texts(s: Seq<u8>, pos: nat) -> Result<(Seq<Seq<char>>, nat), Error> {
    match parse_u16_le(s, pos) {
        Ok((n, p)) => parse_var_texts(s, p, n as nat),
        Err(e) => Err(e),
    }
}

pub open spec fn parse_var_count_texts(s: Seq<u8>, pos: nat) -> Result<(Seq<Seq<char>>, nat), Error> {
    match parse_var_u32(s, pos) {
        Ok((n, p)) => parse_var_texts(s, p, n as nat),
        Err(e) => Err(e),
    }
}

pub fn write_u16_texts(out: &mut Vec<u8>, items: &Vec<String>)
    ensures
        final(out)@ == old(out)@ + u16_texts(texts_view(items@)),
{
    write_u16_le(out, items.len() as u16);
    write_var_texts(out, items);
    assert(final(out)@ =~= old(out)@ + u16_texts(texts_view(items@)));
}

pub fn write_var_count_texts(out: &mut Vec<u8>, items: &Vec<String>)
    ensures
        final(out)@ == old(out)@ + var_count_texts(texts_view(items@)),
{
    write_var_u32(out, items.len() as u32);
    write_var_texts(out, items);
    assert(final(out)@ =~= old(out)@ + var_count_texts(texts_view(items@)));
}

pub fn read_u16_texts(buf: &[u8], pos: usize) -> (r: Result<(Vec<String>, usize), Error>)
    ensures
        match r {
            Ok((v, q)) => parse_u16_texts(buf@, pos as nat) == Ok::<(Seq<Seq<char>>, nat), Error>(
                (texts_view(v@), q as nat),
            ) && q <= buf@.len(),
            Err(e) => parse_u16_texts(buf@, pos as nat) == Err::<(Seq<Seq<char>>, nat), Error>(e),
        },
{
    match read_u16_le(buf, pos) {
        Ok((n, p)) => read_var_texts(buf, p, n as usize),
        Err(e) => Err(e),
    }
}

pub fn read_var_count_texts(buf: &[u8], pos: usize) -> (r: Result<(Vec<String>, usize), Error>)
    ensures
        match r {
            Ok((v, q)) => parse_var_count_texts(buf@, pos as nat) == Ok::<
                (Seq<Seq<char>>, nat),
                Error,
            >((texts_view(v@), q as nat)) && q <= buf@.len(),
            Err(e) => parse_var_count_texts(buf@, pos as nat) == Err::<(Seq<Seq<char>>, nat), Error>(
                e,
            ),
        },
{
    match read_var_u32(buf, pos) {
        Ok((n, p)) => read_var_texts(buf, p, n as usize),
        Err(e) => Err(e),
    }
}

pub proof fn lemma_u16_texts_round_trip(s: Seq<u8>, pos: nat, items: Seq<Seq<char>>)
    requires
        u16_texts_fit(items),
        holds_at(s, pos, u16_texts(items)),
    ensures
        parse_u16_texts(s, pos) == Ok::<(Seq<Seq<char>>, nat), Error>(
            (items, pos + u16_texts(items).len()),
        ),
{
    lemma_holds_at_concat(s, pos, le_bytes((items.len() as u16) as nat, 2), var_texts(items));
    lemma_u16_le_round_trip(s, pos, items.len() as u16);
    lemma_var_texts_round_trip(s, pos + 2, items);
}

pub proof fn lemma_var_count_texts_round_trip(s: Seq<u8>, pos: nat, items: Seq<Seq<char>>)
    requires
        var_count_texts_fit(items),
        holds_at(s, pos, var_count_texts(items)),
    ensures
        parse_var_count_texts(s, pos) == Ok::<(Seq<Seq<char>>, nat), Error>(
            (items, pos + var_count_texts(items).len()),
        ),
{
    let head = var_bytes((items.len() as u32) as nat);
    lemma_holds_at_concat(s, pos, head, var_texts(items));
    lemma_var_u32_round_trip(s, pos, items.len() as u32);
    lemma_var_texts_round_trip(s, pos + head.len(), items);
}

// ---------------------------------------------------------------------------
// Sequences of records
// ---------------------------------------------------------------------------

/// A value with an exact byte encoding.
pub trait Encode: Sized {
    spec fn encoding(&self) -> Seq<u8>;

    fn encode_into(&self, out: &mut Vec<u8>)
        ensures
            final(out)@ == old(out)@ + self.encoding(),
    ;
}

/// A value with an exact byte encoding, a decoder that reads it back, and a
/// proof that decoding the encoding of a well-formed value reproduces it.
pub trait Codec: Encode + View {
    spec fn decoding(s: Seq<u8>, pos: nat) -> Result<(Self::V, nat), Error>;

    spec fn well_formed(&self) -> bool;

    fn decode_at(buf: &[u8], pos: usize) -> (r: Result<(Self, usize), Error>)
        ensures
            agrees_view(r, Self::decoding(buf@, pos as nat), buf@.len()),
    ;

    proof fn lemma_codec_round_trip(&self, s: Seq<u8>, pos: nat)
        requires
            self.well_formed(),
            holds_at(s, pos, self.encoding()),
        ensures
            Self::decoding(s, pos) == Ok::<(Self::V, nat), Error>((self@, pos + self.encoding().len())),
    ;
}

/// The views of a vector of records.
pub open spec fn items_view<T: View>(v: Seq<T>) -> Seq<T::V> {
    v.map_values(|x: T| x@)
}

/// Each record in turn.
pub open spec fn items_bytes<T: Encode>(items: Seq<T>) -> Seq<u8>
    decreases items.len(),
{
    if items.len() == 0 {
        Seq::empty()
    } else {
        items_bytes(items.drop_last()) + items.last().encoding()
    }
}

pub open spec fn items_well_formed<T: Codec>(items: Seq<T>) -> bool {
    forall|i: int| 0 <= i < items.len() ==> #[trigger] items[i].well_formed()
}

/// Reads `count` records.
pub open spec fn parse_items<T: Codec>(s: Seq<u8>, pos: nat, count: nat) -> Result<
    (Seq<T::V>, nat),
    Error,
>
    decreases count,
{
    if count == 0 {
        Ok((Seq::empty(), pos))
    } else {
        match parse_items::<T>(s, pos, (count - 1) as nat) {
            Ok((items, p)) => match T::decoding(s, p) {
                Ok((t, q)) => Ok((items.push(t), q)),
                Err(e) => Err(e),
            },
            Err(e) => Err(e),
        }
    }
}

pub proof fn lemma_parse_items_err<T: Codec>(s: Seq<u8>, pos: nat, k: nat, m: nat, e: Error)
    requires
        k <= m,
        parse_items::<T>(s, pos, k) == Err::<(Seq<T::V>, nat), Error>(e),
    ensures
        parse_items::<T>(s, pos, m) == Err::<(Seq<T::V>, nat), Error>(e),
    decreases m - k,
{
    if k < m {
        lemma_parse_items_err::<T>(s, pos, k, (m - 1) as nat, e);
    }
}

pub fn write_items<T: Encode>(out: &mut Vec<u8>, items: &Vec<T>)
    ensures
        final(out)@ == old(out)@ + items_bytes(items@),
{
    let ghost start = out@;
    let mut i: usize = 0;
    while i < items.len()
        invariant
            i <= items@.len(),
            out@ == start + items_bytes(items@.subrange(0, i as int)),
        decreases items@.len() - i,
    {
        items[i].encode_into(out);
        assert(items@.subrange(0, i + 1).drop_last() =~= items@.subrange(0, i as int));
        assert(out@ =~= start + items_bytes(items@.subrange(0, i + 1)));
        i = i + 1;
    }
    assert(items@.subrange(0, items@.len() as int) =~= items@);
}

pub fn read_items<T: Codec>(buf: &[u8], pos: usize, count: usize) -> (r: Result<(Vec<T>, usize), Error>)
    requires
        pos <= buf@.len(),
    ensures
        match r {
            Ok((v, q)) => parse_items::<T>(buf@, pos as nat, count as nat) == Ok::<
                (Seq<T::V>, nat),
                Error,
            >((items_view(v@), q as nat)) && q <= buf@.len(),
            Err(e) => parse_items::<T>(buf@, pos as nat, count as nat) == Err::<
                (Seq<T::V>, nat),
                Error,
            >(e),
        },
{
    let mut items: Vec<T> = Vec::new();
    let mut p: usize = pos;
    let mut i: usize = 0;
    assert(items_view(items@) =~= Seq::<T::V>::empty());
    while i < count
        invariant
            i <= count,
            p <= buf@.len(),
            parse_items::<T>(buf@, pos as nat, i as nat) == Ok::<(Seq<T::V>, nat), Error>(
                (items_view(items@), p as nat),
            ),
        decreases count - i,
    {
        match T::decode_at(buf, p) {
            Ok((t, q)) => {
                let ghost before = items@;
                let ghost tv = t@;
                items.push(t);
                assert(items_view(items@) =~= items_view(before).push(tv));
                p = q;
                i = i + 1;
            },
            Err(e) => {
                proof {
                    lemma_parse_items_err::<T>(buf@, pos as nat, (i + 1) as nat, count as nat, e);
                }
                return Err(e);
            },
        }
    }
    Ok((items, p))
}

pub proof fn lemma_items_round_trip<T: Codec>(s: Seq<u8>, pos: nat, items: Seq<T>)
    requires
        items_well_formed(items),
        holds_at(s, pos, items_bytes(items)),
    ensures
        parse_items::<T>(s, pos, items.len()) == Ok::<(Seq<T::V>, nat), Error>(
            (items_view(items), pos + items_bytes(items).len()),
        ),
    decreases items.len(),
{
    if items.len() > 0 {
        let init = items.drop_last();
        lemma_holds_at_concat(s, pos, items_bytes(init), items.last().encoding());
        assert forall|i: int| 0 <= i < init.len() implies #[trigger] init[i].well_formed() by {
            assert(init[i] == items[i]);
        }
        lemma_items_round_trip(s, pos, init);
        assert(items[items.len() - 1].well_formed());
        items.last().lemma_codec_round_trip(s, pos + items_bytes(init).len());
        assert(items_view(init).push(items.last()@) =~= items_view(items));
    } else {
        assert(items_view(items) =~= Seq::<T::V>::empty());
    }
}

/// Records behind a count prefix of the given width; a count the width cannot
/// hold is truncated to its low bits.
pub open spec fn counted_items<T: Encode>(w: Width, items: Seq<T>) -> Seq<u8> {
    width_bytes(w, truncate_to_width(w, items.len() as u32)) + items_bytes(items)
}

pub open spec fn counted_items_fit<T: Codec>(w: Width, items: Seq<T>) -> bool {
    &&& items.len() <= u32::MAX
    &&& fits_width(w, items.len() as u32)
    &&& items_well_formed(items)
}

pub open spec fn parse_counted_items<T: Codec>(w: Width, s: Seq<u8>, pos: nat) -> Result<
    (Seq<T::V>, nat),
    Error,
> {
    match parse_width(w, s, pos) {
        Ok((n, p)) => parse_items::<T>(s, p, n as nat),
        Err(e) => Err(e),
    }
}

/// Appends the count in width `w`, then each record; the count is truncated to
/// the width where it does not fit.
pub fn write_counted_items<T: Encode>(out: &mut Vec<u8>, w: Width, items: &Vec<T>)
    ensures
        final(out)@ == old(out)@ + counted_items(w, items@),
{
    let n = truncate_width(w, items.len() as u32);
    write_width(out, w, n);
    write_items(out, items);
    assert(final(out)@ =~= old(out)@ + width_bytes(w, n) + items_bytes(items@));
}

pub fn read_counted_items<T: Codec>(buf: &[u8], pos: usize, w: Width) -> (r: Result<(Vec<T>, usize), Error>)
    ensures
        match r {
            Ok((v, q)) => parse_counted_items::<T>(w, buf@, pos as nat) == Ok::<
                (Seq<T::V>, nat),
                Error,
            >((items_view(v@), q as nat)) && q <= buf@.len(),
            Err(e) => parse_counted_items::<T>(w, buf@, pos as nat) == Err::<
                (Seq<T::V>, nat),
                Error,
            >(e),
        },
{
    match read_width(buf, pos, w) {
        Ok((n, p)) => read_items(buf, p, n as usize),
        Err(e) => Err(e),
    }
}

/// The low bits of `v` that width `w` holds.
pub open spec fn truncate_to_width(w: Width, v: u32) -> u32 {
    match w {
        Width::Byte => v % 0x100,
        Width::Le16 => v % 0x1_0000,
        _ => v,
    }
}

pub fn truncate_width(w: Width, v: u32) -> (r: u32)
    ensures
        r == truncate_to_width(w, v),
        fits_width(w, r),
{
    match w {
        Width::Byte => v % 0x100,
        Width::Le16 => v % 0x1_0000,
        _ => v,
    }
}

pub proof fn lemma_counted_items_round_trip<T: Codec>(w: Width, s: Seq<u8>, pos: nat, items: Seq<T>)
    requires
        counted_items_fit(w, items),
        holds_at(s, pos, counted_items(w, items)),
    ensures
        parse_counted_items::<T>(w, s, pos) == Ok::<(Seq<T::V>, nat), Error>(
            (items_view(items), pos + counted_items(w, items).len()),
        ),
{
    assert(truncate_to_width(w, items.len() as u32) == items.len() as u32);
    let head = width_bytes(w, items.len() as u32);
    lemma_holds_at_concat(s, pos, head, items_bytes(items));
    lemma_width_round_trip(w, items.len() as u32, s, pos);
    lemma_items_round_trip(s, pos + head.len(), items);
}

} // verus!

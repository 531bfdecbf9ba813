//! Integers and byte strings as they stand on the wire.
//!
//! The envelope of a control frame and the datagram formats carry lengths as
//! eight bytes, most significant first. Inside a control payload a length is a
//! variable-width integer: one byte up to 250, else a marker byte (251, 252 or
//! 253) followed by two, four or eight bytes, least significant first.

use vstd::prelude::*;

verus! {

/// Width of a length field of the envelope and of the datagram formats.
pub const USIZE_LENGTH: usize = 8;

/// The value of a byte string read most significant first.
pub open spec fn be_value(s: Seq<u8>) -> nat
    decreases s.len(),
{
    if s.len() == 0 {
        0
    } else {
        256 * be_value(s.drop_last()) + s.last() as nat
    }
}

/// The low `width` bytes of `n`, most significant first.
pub open spec fn be_bytes(n: nat, width: nat) -> Seq<u8>
    decreases width,
{
    if width == 0 {
        Seq::empty()
    } else {
        be_bytes(n / 256, (width - 1) as nat).push((n % 256) as u8)
    }
}

/// The eight bytes of `n`, most significant first.
pub open spec fn be_u64(n: u64) -> Seq<u8> {
    be_bytes(n as nat, 8)
}

/// The value of `width` bytes of `s` from `at` on, least significant first.
pub open spec fn le_value(s: Seq<u8>, at: int, width: nat) -> nat
    decreases width,
{
    if width == 0 {
        0
    } else {
        (s[at] as nat) + 256 * le_value(s, at + 1, (width - 1) as nat)
    }
}

/// The `width` bytes of `n`, least significant first.
pub open spec fn le_bytes(n: nat, width: nat) -> Seq<u8>
    decreases width,
{
    if width == 0 {
        Seq::empty()
    } else {
        seq![(n % 256) as u8] + le_bytes(n / 256, (width - 1) as nat)
    }
}

/// A length as a variable-width integer.
pub open spec fn varint(n: u64) -> Seq<u8> {
    if n <= 250 {
        seq![n as u8]
    } else if n <= 0xFFFF {
        seq![251u8] + le_bytes(n as nat, 2)
    } else if n <= 0xFFFF_FFFF {
        seq![252u8] + le_bytes(n as nat, 4)
    } else {
        seq![253u8] + le_bytes(n as nat, 8)
    }
}

/// Number of bytes that follow a marker byte, or `None` for a byte that
/// starts no integer of at most 64 bits.
pub open spec fn varint_tail(first: u8) -> Option<nat> {
    if first <= 250 {
        Some(0nat)
    } else if first == 251 {
        Some(2nat)
    } else if first == 252 {
        Some(4nat)
    } else if first == 253 {
        Some(8nat)
    } else {
        None
    }
}

/// Reads a variable-width integer at the start of `s`: its value and the
/// number of bytes it takes. A wider form than the value needs is accepted.
pub open spec fn parse_varint(s: Seq<u8>) -> Option<(nat, int)> {
    if s.len() == 0 {
        None
    } else {
        match varint_tail(s[0]) {
            None => None,
            Some(tail) => if tail == 0 {
                Some((s[0] as nat, 1int))
            } else if s.len() < 1 + tail {
                None
            } else {
                Some((le_value(s, 1, tail), 1 + tail as int))
            },
        }
    }
}

/// A byte string behind its length.
pub open spec fn len_prefixed(data: Seq<u8>) -> Seq<u8>
    recommends
        data.len() <= u64::MAX,
{
    varint(data.len() as u64) + data
}

/// Reads a byte string behind its length at the start of `s`: the string and
/// the number of bytes that length and string take together.
pub open spec fn parse_len_prefixed(s: Seq<u8>) -> Option<(Seq<u8>, int)> {
    match parse_varint(s) {
        None => None,
        Some((n, used)) => if s.len() - used < n {
            None
        } else {
            Some((s.subrange(used, used + n), used + n))
        },
    }
}

/// `le_value` reads back what `le_bytes` wrote, wherever it stands.
pub proof fn lemma_le_round_trip(n: nat, width: nat, before: Seq<u8>, after: Seq<u8>)
    ensures
        le_bytes(n, width).len() == width,
        le_value(before + le_bytes(n, width) + after, before.len() as int, width) == n % pow256(
            width,
        ),
    decreases width,
{
    let whole = before + le_bytes(n, width) + after;
    if width == 0 {
    } else {
        let head = seq![(n % 256) as u8];
        let rest = le_bytes(n / 256, (width - 1) as nat);
        lemma_le_round_trip(n / 256, (width - 1) as nat, before + head, after);
        assert((before + head) + rest + after =~= whole);
        assert(whole[before.len() as int] == (n % 256) as u8);
        lemma_pow256_step(n, width);
    }
}

/// 256 to the power of `width`.
pub open spec fn pow256(width: nat) -> nat
    decreases width,
{
    if width == 0 {
        1
    } else {
        256 * pow256((width - 1) as nat)
    }
}

proof fn lemma_pow256_positive(width: nat)
    ensures
        pow256(width) > 0,
    decreases width,
{
    if width > 0 {
        lemma_pow256_positive((width - 1) as nat);
    }
}

proof fn lemma_pow256_step(n: nat, width: nat)
    requires
        width > 0,
    ensures
        n % 256 + 256 * ((n / 256) % pow256((width - 1) as nat)) == n % pow256(width),
{
    let p = pow256((width - 1) as nat);
    lemma_pow256_positive((width - 1) as nat);
    vstd::arithmetic::div_mod::lemma_breakdown(n as int, 256, p as int);
    assert(256 * p == pow256(width));
    assert((256 * p) as int == 256 * (p as int));
}

/// The values of 256 to the powers that the formats use.
pub proof fn lemma_pow256_values()
    ensures
        pow256(2) == 0x1_0000,
        pow256(4) == 0x1_0000_0000,
        pow256(8) == 0x1_0000_0000_0000_0000,
{
    reveal_with_fuel(pow256, 9);
}

/// A length is read back from its variable-width form, whatever follows it.
pub proof fn lemma_varint_round_trip(n: u64, after: Seq<u8>)
    ensures
        parse_varint(varint(n) + after) == Some((n as nat, varint(n).len() as int)),
{
    let s = varint(n) + after;
    lemma_pow256_values();
    if n <= 250 {
        assert(s[0] == n as u8);
    } else if n <= 0xFFFF {
        lemma_le_round_trip(n as nat, 2, seq![251u8], after);
        assert(s[0] == 251u8);
    } else if n <= 0xFFFF_FFFF {
        lemma_le_round_trip(n as nat, 4, seq![252u8], after);
        assert(s[0] == 252u8);
    } else {
        lemma_le_round_trip(n as nat, 8, seq![253u8], after);
        assert(s[0] == 253u8);
    }
}

/// A byte string is read back from behind its length, whatever follows it.
pub proof fn lemma_len_prefixed_round_trip(data: Seq<u8>, after: Seq<u8>)
    requires
        data.len() <= u64::MAX,
    ensures
        parse_len_prefixed(len_prefixed(data) + after) == Some(
            (data, len_prefixed(data).len() as int),
        ),
{
    let n = data.len() as u64;
    let s = len_prefixed(data) + after;
    assert(s =~= varint(n) + (data + after));
    lemma_varint_round_trip(n, data + after);
    let used = varint(n).len() as int;
    assert(s.subrange(used, used + data.len()) =~= data);
}

/// `be_value` reads back what `be_bytes` wrote.
pub proof fn lemma_be_bytes_round_trip(n: nat, width: nat)
    ensures
        be_bytes(n, width).len() == width,
        be_value(be_bytes(n, width)) == n % pow256(width),
    decreases width,
{
    if width > 0 {
        let front = be_bytes(n / 256, (width - 1) as nat);
        lemma_be_bytes_round_trip(n / 256, (width - 1) as nat);
        assert(be_bytes(n, width).drop_last() =~= front);
        lemma_pow256_step(n, width);
    }
}

/// Eight bytes written most significant first are read back as the same
/// number.
pub proof fn lemma_be_round_trip(n: u64)
    ensures
        be_u64(n).len() == 8,
        be_value(be_u64(n)) == n,
{
    lemma_be_bytes_round_trip(n as nat, 8);
    lemma_pow256_values();
}

/// Bytes read least significant first stay below 256 to the power of their
/// number.
pub proof fn lemma_le_value_bound(s: Seq<u8>, at: int, width: nat)
    ensures
        le_value(s, at, width) < pow256(width),
    decreases width,
{
    if width > 0 {
        lemma_le_value_bound(s, at + 1, (width - 1) as nat);
    }
}

/// Two byte strings of one length that read as the same number, most
/// significant byte first, are the same byte string.
pub proof fn lemma_be_value_injective(a: Seq<u8>, b: Seq<u8>)
    requires
        a.len() == b.len(),
        be_value(a) == be_value(b),
    ensures
        a == b,
    decreases a.len(),
{
    if a.len() > 0 {
        lemma_be_value_injective(a.drop_last(), b.drop_last());
        assert(a =~= a.drop_last().push(a.last()));
        assert(b =~= b.drop_last().push(b.last()));
    }
    assert(a =~= b);
}

/// The value of 256 to the power of 15: a number of sixteen bytes stays
/// below 256 times it.
pub proof fn lemma_pow256_fifteen()
    ensures
        pow256(15) == 0x0100_0000_0000_0000_0000_0000_0000_0000,
{
    reveal_with_fuel(pow256, 16);
}

/// Reads eight bytes of `s` from `at` on, most significant first.
pub fn read_be_u64(s: &[u8], at: usize) -> (n: u64)
    requires
        at + 8 <= s@.len(),
    ensures
        n == be_value(s@.subrange(at as int, at + 8)),
{
    let total: usize = s.len();
    let mut acc: u64 = 0;
    let mut i: usize = 0;
    while i < 8
        invariant
            i <= 8,
            at + 8 <= total,
            total == s@.len(),
            acc == be_value(s@.subrange(at as int, at + i)),
            acc < pow256(i as nat),
        decreases 8 - i,
    {
        proof {
            let next = s@.subrange(at as int, at + i + 1);
            assert(next.drop_last() =~= s@.subrange(at as int, at + i));
            lemma_pow256_values();
            lemma_pow256_monotonic(i as nat, 7);
            reveal_with_fuel(pow256, 8);
        }
        acc = acc * 256 + s[at + i] as u64;
        i = i + 1;
    }
    acc
}

/// Appends the eight bytes of `n` to `out`, most significant first.
pub fn push_be_u64(out: &mut Vec<u8>, n: u64)
    ensures
        final(out)@ == old(out)@ + be_u64(n),
{
    let mut i: usize = 0;
    let mut div: u64 = 0x0100_0000_0000_0000;
    proof {
        reveal_with_fuel(pow256, 9);
        assert(out@ =~= old(out)@ + be_bytes(n as nat / pow256(8), 0));
    }
    while i < 8
        invariant
            i <= 8,
            div as nat == pow256((7 - i) as nat) || (i == 8 && div == 0),
            out@ =~= old(out)@ + be_bytes(n as nat / pow256((8 - i) as nat), i as nat),
        decreases 8 - i,
    {
        proof {
            lemma_pow256_values();
            reveal_with_fuel(pow256, 9);
            let hi = n as nat / pow256((8 - i) as nat);
            let cur = n as nat / pow256((7 - i) as nat);
            lemma_pow256_positive((7 - i) as nat);
            vstd::arithmetic::div_mod::lemma_div_denominator(
                n as int,
                pow256((7 - i) as nat) as int,
                256,
            );
            assert(pow256((8 - i) as nat) == 256 * pow256((7 - i) as nat));
            assert(pow256((7 - i) as nat) * 256 == pow256((8 - i) as nat)) by (nonlinear_arith)
                requires
                    pow256((8 - i) as nat) == 256 * pow256((7 - i) as nat),
            ;
            assert(cur / 256 == hi);
            assert(be_bytes(cur, (i + 1) as nat) == be_bytes(hi, i as nat).push((cur % 256) as u8));
        }
        let byte: u8 = ((n / div) % 256) as u8;
        out.push(byte);
        div = div / 256;
        i = i + 1;
    }
    proof {
        assert(pow256(0) == 1);
        assert(n as nat / 1 == n as nat);
        assert(out@ == old(out)@ + be_u64(n));
    }
}

pub proof fn lemma_pow256_monotonic(a: nat, b: nat)
    requires
        a <= b,
    ensures
        pow256(a) <= pow256(b),
    decreases b,
{
    if a < b {
        lemma_pow256_monotonic(a, (b - 1) as nat);
    }
}

/// Reads the variable-width integer that starts at `at`: its value and the
/// number of bytes it takes.
pub fn read_varint(s: &[u8], at: usize) -> (r: Option<(u64, usize)>)
    requires
        at <= s@.len(),
    ensures
        match parse_varint(s@.skip(at as int)) {
            None => r is None,
            Some((value, used)) => r == Some((value as u64, used as usize)) && value <= u64::MAX
                && at + used <= s@.len(),
        },
{
    let total: usize = s.len();
    let ghost rest = s@.skip(at as int);
    if at == total {
        return None;
    }
    let first: u8 = s[at];
    assert(rest[0] == first);
    let tail: usize = if first <= 250 {
        return Some((first as u64, 1));
    } else if first == 251 {
        2
    } else if first == 252 {
        4
    } else if first == 253 {
        8
    } else {
        return None;
    };
    if total - at < 1 + tail {
        return None;
    }
    let mut acc: u64 = 0;
    let mut k: usize = tail;
    while k > 0
        invariant
            k <= tail <= 8,
            at + 1 + tail <= total,
            total == s@.len(),
            rest == s@.skip(at as int),
            acc == le_value(rest, 1 + k, (tail - k) as nat),
        decreases k,
    {
        proof {
            lemma_le_value_bound(rest, 1 + k, (tail - k) as nat);
            lemma_pow256_monotonic((tail - k) as nat, 7);
            reveal_with_fuel(pow256, 8);
            assert(rest[k as int] == s@[at + k]);
        }
        acc = acc * 256 + s[at + k] as u64;
        k = k - 1;
    }
    proof {
        lemma_le_value_bound(rest, 1, tail as nat);
        lemma_pow256_values();
    }
    Some((acc, 1 + tail))
}

/// Copies `s` from `from` up to `to` into a new vector.
pub fn copy_range(s: &[u8], from: usize, to: usize) -> (out: Vec<u8>)
    requires
        from <= to <= s@.len(),
    ensures
        out@ == s@.subrange(from as int, to as int),
{
    let mut out: Vec<u8> = Vec::with_capacity(to - from);
    let mut i: usize = from;
    while i < to
        invariant
            from <= i <= to <= s@.len(),
            out@ == s@.subrange(from as int, i as int),
        decreases to - i,
    {
        out.push(s[i]);
        proof {
            assert(out@ =~= s@.subrange(from as int, i + 1));
        }
        i = i + 1;
    }
    out
}

/// Copies `N` bytes of `s` from `at` on into an array.
pub fn copy_array<const N: usize>(s: &[u8], at: usize) -> (out: [u8; N])
    requires
        at + N <= s@.len(),
    ensures
        out@ == s@.subrange(at as int, at + N),
{
    let total: usize = s.len();
    let mut out: [u8; N] = [0u8; N];
    let mut i: usize = 0;
    while i < N
        invariant
            i <= N,
            at + N <= total,
            total == s@.len(),
            forall|j: int| 0 <= j < i ==> out@[j] == s@[at + j],
        decreases N - i,
    {
        out[i] = s[at + i];
        i = i + 1;
    }
    proof {
        assert(out@ =~= s@.subrange(at as int, at + N));
    }
    out
}

/// Copies all of `s` into a new vector.
pub fn copy_all(s: &[u8]) -> (out: Vec<u8>)
    ensures
        out@ == s@,
{
    let out = copy_range(s, 0, s.len());
    proof {
        assert(out@ =~= s@);
    }
    out
}

/// Reads the byte string behind its length that starts at `at`: the string
/// and the number of bytes that length and string take together. A length
/// that runs past the end of `s` gives `None` before anything is allocated.
pub fn read_len_prefixed(s: &[u8], at: usize) -> (r: Option<(Vec<u8>, usize)>)
    requires
        at <= s@.len(),
    ensures
        match parse_len_prefixed(s@.skip(at as int)) {
            None => r is None,
            Some((data, used)) => r matches Some((v, n)) && v@ == data && n == used && at + used
                <= s@.len(),
        },
{
    let total: usize = s.len();
    match read_varint(s, at) {
        None => None,
        Some((length, used)) => {
            if ((total - at - used) as u64) < length {
                None
            } else {
                let start: usize = at + used;
                let end: usize = start + length as usize;
                let data = copy_range(s, start, end);
                proof {
                    assert(s@.skip(at as int).subrange(used as int, used + length) =~= s@.subrange(
                        start as int,
                        end as int,
                    ));
                }
                Some((data, used + length as usize))
            }
        },
    }
}

#[verifier::external_type_specification]
#[verifier::external_body]
pub struct ExEncodeError(bincode::error::EncodeError);

/// `bincode::encode_to_vec` on a byte slice, with `bincode::config::standard()`.
///
/// Believed of it, not proved: it succeeds (writing bytes into a vector has
/// no way to fail), and what it hands back is the slice's length as a
/// variable-width integer, least significant byte first after the marker,
/// followed by the bytes of the slice unchanged.
#[verifier::external_body]
pub(crate) fn encode_len_prefixed(data: &[u8]) -> (r: Result<
    Vec<u8>,
    bincode::error::EncodeError,
>)
    ensures
        r is Ok,
        r matches Ok(v) ==> v@ == len_prefixed(data@),
{
    bincode::encode_to_vec(data, bincode::config::standard())
}

} // verus!

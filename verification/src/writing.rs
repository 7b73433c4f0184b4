//! What may be written into a document: whoever writes one looks for signatures at every position
//! of it and adds their lengths, so no value may hold what looks like a signature of a length that
//! does not fit.
use crate::framing::{is_signature_letter, read_number};
use crate::pipe::eagle_time;
use vstd::prelude::*;

verus! {

/// How many bytes of values a document may hold. With words of 64 bits this is more than there is
/// memory for; with words of 32 bits it is what can still be counted in bits.
pub open spec fn longest() -> nat {
    if usize::MAX > u32::MAX { 0x100_0000_0000 } else { 0x1FFF_FFFF }
}

/// How long a document with so many bytes of values is at most.
pub open spec fn room(total: nat) -> nat {
    total + 8192
}

/// A number as it is written in front of the bytes that it counts.
pub open spec fn number_bytes(n: nat) -> Seq<u8> {
    if n < 0x100 {
        seq![0x33u8, n as u8]
    } else if n < 0x1_0000 {
        seq![0x34u8, (n / 0x100) as u8, (n % 256) as u8]
    } else if n < 0x1_0000_0000 {
        seq![
            0x35u8,
            (n / 0x100_0000) as u8,
            (n / 0x1_0000 % 256) as u8,
            (n / 0x100 % 256) as u8,
            (n % 256) as u8,
        ]
    } else {
        seq![0x36u8] + time_bytes(n as u64)
    }
}

/// The bytes of a number of 64 bits, high byte first.
pub open spec fn time_bytes(t: u64) -> Seq<u8> {
    seq![
        (t / 0x100_0000_0000_0000) as u8,
        (t / 0x1_0000_0000_0000 % 256) as u8,
        (t / 0x100_0000_0000 % 256) as u8,
        (t / 0x1_0000_0000 % 256) as u8,
        (t / 0x100_0000 % 256) as u8,
        (t / 0x1_0000 % 256) as u8,
        (t / 0x100 % 256) as u8,
        (t % 256) as u8,
    ]
}

/// The bytes at `i` look like a signature whose length does not fit in a machine word beside a
/// document of `size` bytes.
pub open spec fn lure(w: Seq<u8>, i: int, size: nat) -> bool {
    &&& i + 1 < w.len()
    &&& w[i] == 0x67
    &&& crate::framing::signature_letter(w[i + 1])
    &&& crate::framing::number(w, i + 2) matches Some((n, _)) && n + 1 + size > usize::MAX
}

/// None of the bytes from which a signature could start in front of `end` do look like one whose
/// length does not fit.
pub open spec fn no_lure(w: Seq<u8>, end: int, size: nat) -> bool {
    forall|i: int| 0 <= i < end ==> !#[trigger] lure(w, i, size)
}

/// A value as it stands in a document: the two letters of its type, its count, its bytes, and the
/// byte that follows. Of what comes then nothing is known, and the largest bytes stand for it.
pub open spec fn as_written(letters: (u8, u8), count: nat, v: Seq<u8>, next: u8) -> Seq<u8> {
    seq![letters.0, letters.1] + number_bytes(count) + v + seq![
        next,
        0xFFu8,
        0xFFu8,
        0xFFu8,
        0xFFu8,
        0xFFu8,
        0xFFu8,
        0xFFu8,
    ]
}

/// A value that can be written into a document of `size` bytes: nothing that starts in it looks
/// like a signature whose length does not fit in a machine word.
pub open spec fn tame(letters: (u8, u8), count: nat, v: Seq<u8>, next: u8, size: nat) -> bool {
    let w = as_written(letters, count, v, next);
    no_lure(w, w.len() - 8, size)
}

/// A time as it stands in a document: behind the last byte of the document's length, which could be
/// a `g`, and in front of a hash that is not known yet.
pub open spec fn time_as_written(t: u64) -> Seq<u8> {
    seq![0x67u8, 0x65u8, 0x36u8] + time_bytes(t) + seq![0x68u8, 0x70u8, 0x33u8, 0x1Fu8, 0u8, 0u8, 0u8, 0u8]
}

/// A time that can be written into a document.
pub open spec fn tame_time(t: i64) -> bool {
    no_lure(time_as_written(t as u64), 11, room(longest()))
}

/// The longest count of bytes that a document may hold.
pub fn longest_total() -> (r: u64)
    ensures
        r == longest(),
{
    if usize::MAX > 0xFFFF_FFFF { 0x100_0000_0000 } else { 0x1FFF_FFFF }
}

fn push_number(out: &mut Vec<u8>, n: u64)
    ensures
        final(out)@ == old(out)@ + number_bytes(n as nat),
{
    if n < 0x100 {
        out.push(0x33);
        out.push(n as u8);
    } else if n < 0x1_0000 {
        out.push(0x34);
        out.push((n / 0x100) as u8);
        out.push((n % 256) as u8);
    } else if n < 0x1_0000_0000 {
        out.push(0x35);
        out.push((n / 0x100_0000) as u8);
        out.push((n / 0x1_0000 % 256) as u8);
        out.push((n / 0x100 % 256) as u8);
        out.push((n % 256) as u8);
    } else {
        out.push(0x36);
        push_long(out, n);
    }
    assert(out@ == old(out)@ + number_bytes(n as nat));
}

fn push_long(out: &mut Vec<u8>, n: u64)
    ensures
        final(out)@ == old(out)@ + time_bytes(n),
{
    out.push((n / 0x100_0000_0000_0000) as u8);
    out.push((n / 0x1_0000_0000_0000 % 256) as u8);
    out.push((n / 0x100_0000_0000 % 256) as u8);
    out.push((n / 0x1_0000_0000 % 256) as u8);
    out.push((n / 0x100_0000 % 256) as u8);
    out.push((n / 0x1_0000 % 256) as u8);
    out.push((n / 0x100 % 256) as u8);
    out.push((n % 256) as u8);
    assert(out@ == old(out)@ + time_bytes(n));
}

fn has_no_lure(w: &[u8], end: usize, size: u64) -> (r: bool)
    requires
        end <= w@.len(),
    ensures
        r == no_lure(w@, end as int, size as nat),
{
    let mut i: usize = 0;
    let len: usize = w.len();
    while i < end
        invariant
            i <= end <= len,
            len == w@.len(),
            forall|k: int| 0 <= k < i ==> !#[trigger] lure(w@, k, size as nat),
        decreases end - i,
    {
        if w[i] == 0x67 && len - i > 2 && is_signature_letter(w[i + 1]) {
            if let Some((n, _)) = read_number(w, i + 2) {
                if n as u128 + 1 + size as u128 > usize::MAX as u128 {
                    assert(lure(w@, i as int, size as nat));
                    return false;
                }
            }
        }
        assert(!lure(w@, i as int, size as nat));
        i = i + 1;
    }
    true
}

/// Whether the value can be written into a document of `size` bytes.
pub fn is_tame(letters: (u8, u8), count: u64, v: &[u8], next: u8, size: u64) -> (r: bool)
    requires
        v@.len() <= longest(),
    ensures
        r == tame(letters, count as nat, v@, next, size as nat),
{
    let mut w: Vec<u8> = Vec::new();
    w.push(letters.0);
    w.push(letters.1);
    push_number(&mut w, count);
    w.extend_from_slice(v);
    let end: usize = w.len();
    w.push(next);
    let mut i: usize = 0;
    let ghost front = w@;
    while i < 7
        invariant
            i <= 7,
            w@ == front + Seq::new(i as nat, |k: int| 0xFFu8),
        decreases 7 - i,
    {
        w.push(0xFF);
        i = i + 1;
    }
    assert(w@ == as_written(letters, count as nat, v@, next));
    has_no_lure(w.as_slice(), end, size)
}

/// Whether the time can be written into a document.
pub fn is_tame_time(t: i64) -> (r: bool)
    ensures
        r == tame_time(t),
{
    let mut w: Vec<u8> = Vec::new();
    w.push(0x67);
    w.push(0x65);
    w.push(0x36);
    push_long(&mut w, #[verifier::truncate] (t as u64));
    let end: usize = w.len();
    w.push(0x68);
    w.push(0x70);
    w.push(0x33);
    w.push(0x1F);
    w.push(0);
    w.push(0);
    w.push(0);
    w.push(0);
    assert(w@ == time_as_written(t as u64));
    has_no_lure(w.as_slice(), end, longest_total() + 8192)
}

proof fn lemma_zero_is_tame()
    ensures
        tame_time(0),
{
    let w = time_as_written(0);
    reveal_with_fuel(crate::framing::big_endian, 9);
    assert forall|i: int| 0 <= i < 11 implies !#[trigger] lure(w, i, room(longest())) by {
        assert(w[0] == 0x67 && w[1] == 0x65 && w[2] == 0x36);
        assert(forall|k: int| 3 <= k < 11 ==> w[k] == 0);
        if i == 0 {
            assert(crate::framing::big_endian(w, 3, 8) == 0);
        }
    }
}

/// The time to stamp a document with at `now`: `now` itself, or zero where it cannot be written.
pub fn stamp_at(now: i64) -> (r: i64)
    ensures
        r == (if tame_time(now) { now } else { 0 }),
        tame_time(r),
{
    proof {
        lemma_zero_is_tame();
    }
    if is_tame_time(now) {
        now
    } else {
        0
    }
}

/// The time to stamp a document with now.
pub(crate) fn stamp() -> (r: i64)
    ensures
        tame_time(r),
{
    let now: i64 = eagle_time();
    stamp_at(now)
}

// ── what is not refused ──

/// How much a document may hold: a tebibyte with words of 64 bits, and half a gibibyte with words of 32. The
/// document itself is at most eight kibibytes longer.
pub proof fn law_longest()
    ensures
        forall|total: nat| #[trigger] room(total) == total + 8 * 1024,
        usize::MAX > u32::MAX ==> longest() == 1024 * 1024 * 1024 * 1024,
        usize::MAX <= u32::MAX ==> longest() == 512 * 1024 * 1024 - 1,
{
}

/// A value without a `g` among its bytes can be written, where its count takes one byte that is no `g`:
/// nothing that starts in it is a signature.
pub proof fn law_value_without_g_is_tame(letters: (u8, u8), count: nat, v: Seq<u8>, next: u8, size: nat)
    requires
        count < 256,
        count != 0x67,
        letters.1 != 0x67,
        size + 257 <= usize::MAX,
        forall|i: int| 0 <= i < v.len() ==> #[trigger] v[i] != 0x67,
    ensures
        tame(letters, count, v, next, size),
{
    let w = as_written(letters, count, v, next);
    assert forall|i: int| 0 <= i < w.len() - 8 implies !#[trigger] lure(w, i, size) by {
        assert(w[0] == letters.0 && w[1] == letters.1 && w[2] == 0x33 && w[3] == count);
        if i == 0 {
            reveal_with_fuel(crate::framing::big_endian, 2);
            assert(crate::framing::number(w, 2) == Some((count, 4int)));
        } else if i >= 4 {
            assert(w[i] == v[i - 4]);
        }
    }
}

/// A value that can be written holds no `g`, signature letter and number of eight bytes that overflows
/// beside the document; one that holds it cannot be.
pub proof fn law_outsize_signature_is_not_written(letters: (u8, u8), count: nat, v: Seq<u8>, next: u8, size: nat, at: int)
    requires
        count < 256,
        0 <= at,
        at + 11 <= v.len(),
        v[at] == 'g' as u8,
        v[at + 1] == 'e' as u8 || v[at + 1] == 'p' as u8 || v[at + 1] == 'r' as u8 || v[at + 1] == 'm' as u8 || v[at + 1]
            == 'f' as u8 || v[at + 1] == 's' as u8 || v[at + 1] == 'd' as u8,
        v[at + 2] == '6' as u8,
        crate::framing::big_endian(v, at + 3, 8) <= usize::MAX,
        crate::framing::big_endian(v, at + 3, 8) + 1 + size > usize::MAX,
    ensures
        !tame(letters, count, v, next, size),
{
    let w = as_written(letters, count, v, next);
    assert forall|k: int| 0 <= k < v.len() implies w[4 + k] == #[trigger] v[k] by {}
    reveal_with_fuel(crate::framing::big_endian, 9);
    assert(crate::framing::big_endian(w, at + 7, 8) == crate::framing::big_endian(v, at + 3, 8));
    assert(lure(w, at + 4, size));
}

proof fn lemma_digit(t: int, d: int, e: int)
    requires
        t >= 0,
        d > 0,
        e == d * 256,
    ensures
        t / d == (t / e) * 256 + (t / d) % 256,
{
    vstd::arithmetic::div_mod::lemma_div_denominator(t, d, 256);
    vstd::arithmetic::div_mod::lemma_fundamental_div_mod(t / d, 256);
}

proof fn lemma_spelled(w: Seq<u8>, at: int, n: nat, t: int, d: int)
    requires
        t >= 0,
        d > 0,
        crate::framing::big_endian(w, at, n) == t / (d * 256),
        w[at + n] == (t / d) % 256,
    ensures
        crate::framing::big_endian(w, at, n + 1) == t / d,
{
    lemma_digit(t, d, d * 256);
}

/// The eight bytes of a number spell it.
proof fn lemma_time_bytes_spell(w: Seq<u8>, at: int, t: u64)
    requires
        forall|k: int| 0 <= k < 8 ==> w[at + k] == #[trigger] time_bytes(t)[k],
    ensures
        crate::framing::big_endian(w, at, 8) == t,
{
    let b = time_bytes(t);
    assert(w[at + 0] == b[0] && w[at + 1] == b[1] && w[at + 2] == b[2] && w[at + 3] == b[3]);
    assert(w[at + 4] == b[4] && w[at + 5] == b[5] && w[at + 6] == b[6] && w[at + 7] == b[7]);
    reveal_with_fuel(crate::framing::big_endian, 2);
    let n = t as int;
    assert(crate::framing::big_endian(w, at, 1) == n / 0x100_0000_0000_0000);
    lemma_spelled(w, at, 1, n, 0x1_0000_0000_0000);
    lemma_spelled(w, at, 2, n, 0x100_0000_0000);
    lemma_spelled(w, at, 3, n, 0x1_0000_0000);
    lemma_spelled(w, at, 4, n, 0x100_0000);
    lemma_spelled(w, at, 5, n, 0x1_0000);
    lemma_spelled(w, at, 6, n, 0x100);
    lemma_spelled(w, at, 7, n, 1);
}

/// A time of whose bytes none is a `g` can be written, unless it is itself a number that overflows beside
/// the largest document.
pub proof fn law_ordinary_times_are_tame(t: i64)
    requires
        forall|i: int| 0 <= i < 8 ==> #[trigger] time_bytes(t as u64)[i] != 0x67,
        t as u64 > usize::MAX || (t as u64) + 1 + room(longest()) <= usize::MAX,
    ensures
        tame_time(t),
{
    let w = time_as_written(t as u64);
    assert forall|k: int| 0 <= k < 8 implies w[3 + k] == #[trigger] time_bytes(t as u64)[k] by {}
    lemma_time_bytes_spell(w, 3, t as u64);
    assert forall|i: int| 0 <= i < 11 implies !#[trigger] lure(w, i, room(longest())) by {
        assert(w[0] == 0x67 && w[1] == 0x65 && w[2] == 0x36);
        if i >= 3 {
            assert(w[i] == time_bytes(t as u64)[i - 3]);
        }
    }
}

/// What is written of a count reads back as that count.
pub proof fn law_counts_read_back(n: u64, before: Seq<u8>, after: Seq<u8>)
    requires
        n <= usize::MAX,
    ensures
        crate::framing::number(before + number_bytes(n as nat) + after, before.len() as int) == Some(
            (n as nat, (before.len() + number_bytes(n as nat).len()) as int),
        ),
{
    let w = before + number_bytes(n as nat) + after;
    let at = before.len() as int;
    let t = n as int;
    reveal_with_fuel(crate::framing::big_endian, 2);
    assert(forall|k: int| 0 <= k < number_bytes(n as nat).len() ==> w[at + k] == #[trigger] number_bytes(n as nat)[k]);
    assert(w[at] == number_bytes(n as nat)[0]);
    assert(w[at + 1] == number_bytes(n as nat)[1]);
    if n < 0x100 {
    } else if n < 0x1_0000 {
        assert(w[at + 2] == number_bytes(n as nat)[2]);
        lemma_spelled(w, at + 1, 1, t, 1);
    } else if n < 0x1_0000_0000 {
        assert(w[at + 2] == number_bytes(n as nat)[2]);
        assert(w[at + 3] == number_bytes(n as nat)[3]);
        assert(w[at + 4] == number_bytes(n as nat)[4]);
        lemma_spelled(w, at + 1, 1, t, 0x1_0000);
        lemma_spelled(w, at + 1, 2, t, 0x100);
        lemma_spelled(w, at + 1, 3, t, 1);
    } else {
        assert forall|k: int| 0 <= k < 8 implies w[at + 1 + k] == #[trigger] time_bytes(n)[k] by {
            assert(number_bytes(n as nat)[k + 1] == time_bytes(n)[k]);
        }
        lemma_time_bytes_spell(w, at + 1, n);
    }
}

/// How a value stands in a document: the two letters, the count, the bytes, and what comes behind.
pub proof fn law_written_form(letters: (u8, u8), count: u8, v: Seq<u8>, next: u8, k: int)
    requires
        0 <= k < v.len(),
    ensures
        ({
            let w = as_written(letters, count as nat, v, next);
            &&& w.len() == v.len() + 12
            &&& w[0] == letters.0 && w[1] == letters.1 && w[2] == 0x33 && w[3] == count
            &&& w[4 + k] == v[k]
            &&& w[v.len() as int + 4] == next
        }),
{
}

/// With words of 64 bits nothing is refused but what holds a `g`, another byte, a `6` and a byte of ones,
/// one behind the other: only there the length of a signature could be too large.
pub proof fn law_what_cannot_be_written(letters: (u8, u8), count: nat, v: Seq<u8>, next: u8, size: nat)
    requires
        usize::MAX == u64::MAX,
        size <= 0x200_0000_0000,
        !tame(letters, count, v, next, size),
    ensures
        ({
            let w = as_written(letters, count, v, next);
            exists|i: int| 0 <= i < w.len() - 8 && #[trigger] w[i] == 0x67 && w[i + 2] == 0x36 && w[i + 3] == 0xFF
        }),
{
    let w = as_written(letters, count, v, next);
    let i = choose|i: int| 0 <= i < w.len() - 8 && #[trigger] lure(w, i, size);
    lemma_lure(w, i, size);
    assert(w[i] == 0x67);
}

proof fn lemma_lure(w: Seq<u8>, i: int, size: nat)
    requires
        usize::MAX == u64::MAX,
        size <= 0x200_0000_0000,
        lure(w, i, size),
    ensures
        w[i] == 0x67 && w[i + 2] == 0x36 && w[i + 3] == 0xFF,
{
    let at = i + 3;
    crate::framing::lemma_big_endian_bound(w, at, 1);
    crate::framing::lemma_big_endian_bound(w, at, 2);
    crate::framing::lemma_big_endian_bound(w, at, 4);
    reveal_with_fuel(crate::framing::pow256, 9);
    reveal_with_fuel(crate::framing::big_endian, 9);
}

/// With words of 64 bits a moment is written as it is, unless its first byte, or one behind a `g` and two
/// more, is one of ones.
pub proof fn law_moments_are_written(t: i64)
    requires
        usize::MAX == u64::MAX,
        0 <= t,
        forall|i: int| 0 <= i < 8 ==> #[trigger] time_bytes(t as u64)[i] != 0xFF,
    ensures
        tame_time(t),
{
    let w = time_as_written(t as u64);
    assert forall|i: int| 0 <= i < 11 implies !#[trigger] lure(w, i, room(longest())) by {
        if lure(w, i, room(longest())) {
            lemma_lure(w, i, room(longest()));
            assert(w[i + 3] == 0xFF);
            assert(w[2] == 0x36 && w[11] == 0x68 && w[12] == 0x70 && w[13] == 0x33 && w[14] == 0x1F);
            if i < 8 {
                assert(w[i + 3] == time_bytes(t as u64)[i]);
            }
        }
    }
}

} // verus!

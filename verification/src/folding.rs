//! What the readers of a chain and of a fan-out ask of a document besides that it can be read.
use crate::framing::{
    is_readable, marker_width, read_big, take_field, take_header, take_value, Step,
};
use vstd::prelude::*;

verus! {

// ── the times that a chain records ──

/// A number of `w` bytes as one with a sign.
pub open spec fn signed(n: nat, w: nat) -> int {
    if 2 * n >= crate::framing::pow256(w) { n - crate::framing::pow256(w) } else { n as int }
}

/// The time at `at`, in 64 bits; zero for one that is no whole number.
pub open spec fn time_value(b: Seq<u8>, at: int) -> int {
    if b[at + 1] == 0x35 {
        signed(crate::framing::big_endian(b, at + 2, 4), 4)
    } else if b[at + 1] == 0x36 {
        signed(crate::framing::big_endian(b, at + 2, 8), 8)
    } else if b[at + 1] == 0x37 {
        signed(crate::framing::big_endian(b, at + 10, 8), 8)
    } else if b[at + 1] == 0x75 {
        signed(crate::framing::big_endian(b, at + 3, crate::framing::width(b[at + 2])), 8)
    } else if b[at + 1] == 0x69 {
        signed(crate::framing::big_endian(b, at + 3, crate::framing::width(b[at + 2])), crate::framing::width(b[at + 2]))
    } else {
        0
    }
}

/// The earliest and the latest of some times and one more.
pub open spec fn stretched(seen: Option<(int, int)>, t: int) -> (int, int) {
    match seen {
        Some((lo, hi)) => (if t < lo { t } else { lo }, if t > hi { t } else { hi }),
        None => (t, t),
    }
}

/// The times among the values from `at` on, and those seen before, are no further apart than 63
/// bits can say.
pub open spec fn close_times(b: Seq<u8>, at: int, seen: Option<(int, int)>) -> bool
    decreases b.len() - at,
{
    if at >= b.len() || b[at] == 0x29 {
        true
    } else {
        let p = if b[at] == 0x2C { at + 1 } else { at };
        match crate::framing::value(b, p) {
            Step::To(end) => if at < end <= b.len() {
                if b[p] == 0x65 {
                    let (lo, hi) = stretched(seen, time_value(b, p));
                    hi - lo <= i64::MAX && close_times(b, end as int, Some((lo, hi)))
                } else {
                    close_times(b, end as int, seen)
                }
            } else {
                true
            },
            _ => true,
        }
    }
}

/// The times in the field at `at` are close.
pub open spec fn close_field(b: Seq<u8>, at: int) -> bool {
    match crate::framing::value(b, at + 1) {
        Step::To(p) => p < b.len() && b[p as int] == 0x3A ==> close_times(b, p + 1, None),
        _ => true,
    }
}

/// The times in each field from `at` on are close.
pub open spec fn close_fields(b: Seq<u8>, at: int) -> bool
    decreases b.len() - at,
{
    if at >= b.len() || b[at] == 0x5D {
        true
    } else if b[at] == 0x28 {
        close_field(b, at) && match crate::framing::field(b, at) {
            Step::To(end) => at < end <= b.len() ==> close_fields(b, end as int),
            _ => true,
        }
    } else {
        close_fields(b, at + 1)
    }
}

/// The times in each field of the body at `at` are close.
pub open spec fn close_body(b: Seq<u8>, at: int) -> bool {
    if at >= b.len() || b[at] != 0x5B {
        true
    } else if at + 1 < b.len() && b[at + 1] == 0x28 {
        close_fields(b, at + 1)
    } else {
        match crate::framing::value(b, at + 1) {
            Step::To(count) => match crate::framing::value(b, count as int) {
                Step::To(length) => match crate::framing::value(b, length as int) {
                    Step::To(fields) => close_fields(b, fields as int),
                    _ => true,
                },
                _ => true,
            },
            _ => true,
        }
    }
}

/// A chain can be read from these bytes, and folded: the decoder can read them, and the times that
/// one entry records are no further apart than 63 bits can say.
pub open spec fn foldable(b: Seq<u8>) -> bool {
    crate::framing::readable(b) && (crate::framing::header(b, 4) matches Step::To(end) ==> close_body(b, end as int))
}

fn to_signed(n: u64, w: usize) -> (r: i128)
    requires
        w == 1 || w == 2 || w == 4 || w == 8,
        n < crate::framing::pow256(w as nat),
    ensures
        r == signed(n as nat, w as nat),
        i64::MIN <= r <= i64::MAX,
{
    proof {
        reveal_with_fuel(crate::framing::pow256, 9);
    }
    let full: i128 = if w == 1 {
        0x100
    } else if w == 2 {
        0x1_0000
    } else if w == 4 {
        0x1_0000_0000
    } else {
        0x1_0000_0000_0000_0000
    };
    let v: i128 = n as i128;
    if 2 * v >= full { v - full } else { v }
}

fn read_time(b: &[u8], at: usize) -> (r: i128)
    requires
        at < b@.len(),
        b@[at as int] == 0x65,
        crate::framing::value(b@, at as int) is To,
    ensures
        r == time_value(b@, at as int),
        i64::MIN <= r <= i64::MAX,
{
    proof {
        reveal(crate::framing::value);
        crate::framing::lemma_big_endian_bound(b@, at + 2, 4);
        crate::framing::lemma_big_endian_bound(b@, at + 2, 8);
        crate::framing::lemma_big_endian_bound(b@, at + 10, 8);
        crate::framing::lemma_big_endian_bound(b@, at + 3, crate::framing::width(b@[at + 2]));
        crate::framing::lemma_pow256(crate::framing::width(b@[at + 2]));
        reveal_with_fuel(crate::framing::pow256, 9);
    }
    let len: usize = b.len();
    match b[at + 1] {
        0x35 => to_signed(read_big(b, at + 2, 4), 4),
        0x36 => to_signed(read_big(b, at + 2, 8), 8),
        0x37 => to_signed(read_big(b, at + 10, 8), 8),
        0x75 => {
            let w: usize = marker_width(b[at + 2]);
            to_signed(read_big(b, at + 3, w), 8)
        },
        0x69 => {
            let w: usize = marker_width(b[at + 2]);
            to_signed(read_big(b, at + 3, w), w)
        },
        _ => 0,
    }
}

fn has_close_times(b: &[u8], from: usize) -> (r: bool)
    ensures
        r == close_times(b@, from as int, None),
{
    let mut at: usize = from;
    let mut any: bool = false;
    let mut lo: i128 = 0;
    let mut hi: i128 = 0;
    while at < b.len()
        invariant
            i64::MIN <= lo <= i64::MAX,
            i64::MIN <= hi <= i64::MAX,
            close_times(b@, at as int, if any { Some((lo as int, hi as int)) } else { None }) == close_times(
                b@,
                from as int,
                None,
            ),
        decreases b@.len() - at,
    {
        if b[at] == 0x29 {
            return true;
        }
        let p: usize = if b[at] == 0x2C { at + 1 } else { at };
        match take_value(b, p) {
            Step::To(end) => {
                if b[p] == 0x65 {
                    let t: i128 = read_time(b, p);
                    lo = if any && lo <= t { lo } else { t };
                    hi = if any && hi >= t { hi } else { t };
                    any = true;
                    if hi - lo > i64::MAX as i128 {
                        return false;
                    }
                }
                at = end;
            },
            _ => {
                return true;
            },
        }
    }
    true
}

fn has_close_field(b: &[u8], at: usize) -> (r: bool)
    requires
        at < b@.len(),
    ensures
        r == close_field(b@, at as int),
{
    let len: usize = b.len();
    match take_value(b, at + 1) {
        Step::To(p) => {
            if p < len && b[p] == 0x3A { has_close_times(b, p + 1) } else { true }
        },
        _ => true,
    }
}

fn has_close_fields(b: &[u8], from: usize) -> (r: bool)
    ensures
        r == close_fields(b@, from as int),
{
    let mut at: usize = from;
    while at < b.len()
        invariant
            close_fields(b@, at as int) == close_fields(b@, from as int),
        decreases b@.len() - at,
    {
        if b[at] == 0x5D {
            return true;
        }
        if b[at] == 0x28 {
            if !has_close_field(b, at) {
                return false;
            }
            match take_field(b, at) {
                Step::To(end) => {
                    at = end;
                },
                _ => {
                    return true;
                },
            }
        } else {
            at = at + 1;
        }
    }
    true
}

fn has_close_body(b: &[u8], at: usize) -> (r: bool)
    ensures
        r == close_body(b@, at as int),
{
    if at >= b.len() || b[at] != 0x5B {
        return true;
    }
    if b.len() - at > 1 && b[at + 1] == 0x28 {
        return has_close_fields(b, at + 1);
    }
    match take_value(b, at + 1) {
        Step::To(count) => match take_value(b, count) {
            Step::To(length) => match take_value(b, length) {
                Step::To(fields) => has_close_fields(b, fields),
                _ => true,
            },
            _ => true,
        },
        _ => true,
    }
}

/// Whether a chain can be read from these bytes, and folded.
pub fn is_foldable(b: &[u8]) -> (r: bool)
    ensures
        r == foldable(b@),
{
    if !is_readable(b) {
        return false;
    }
    match take_header(b, 4) {
        Step::To(end) => has_close_body(b, end),
        _ => true,
    }
}

// ── the wraps of a fan-out ──

/// The lengths of the `k` wraps from `at` on fit in a machine word. A wrap is two keys, the length
/// of a ciphertext in four bytes, and the ciphertext.
pub open spec fn wraps_fit(b: Seq<u8>, at: int, k: nat) -> bool
    decreases k,
{
    if k == 0 || at + 68 > b.len() {
        true
    } else {
        let end = at + 68 + crate::framing::big_endian(b, at + 64, 4);
        end <= usize::MAX && wraps_fit(b, end, (k - 1) as nat)
    }
}

/// A fan-out that starts at `at` has lengths that fit in a machine word: `PFO` and its version, 72
/// bytes, the epoch's keys behind their length in two bytes, and at most 1024 wraps behind their
/// count.
pub open spec fn fan_out_fits(b: Seq<u8>, at: int) -> bool {
    at + 78 <= b.len() && b[at] == 0x50 && b[at + 1] == 0x46 && b[at + 2] == 0x4F && b[at + 3] == 0x03 ==> {
        let wraps = at + 78 + crate::framing::big_endian(b, at + 76, 2);
        wraps + 4 <= b.len() && crate::framing::big_endian(b, wraps, 4) <= 1024 ==> wraps_fit(b, wraps + 4, crate::framing::big_endian(b, wraps, 4))
    }
}

/// A fan-out can be read from these bytes, wherever in them it starts.
pub open spec fn fan_out_readable(b: Seq<u8>) -> bool {
    crate::framing::readable(b) && forall|i: int| 0 <= i < b.len() ==> #[trigger] fan_out_fits(b, i)
}

fn has_fitting_wraps(b: &[u8], from: usize, count: u64) -> (r: bool)
    ensures
        r == wraps_fit(b@, from as int, count as nat),
{
    let len: usize = b.len();
    let mut at: usize = from;
    let mut left: u64 = count;
    while left > 0 && at <= len && len - at >= 68
        invariant
            len == b@.len(),
            wraps_fit(b@, at as int, left as nat) == wraps_fit(b@, from as int, count as nat),
        decreases left,
    {
        proof {
            crate::framing::lemma_big_endian_bound(b@, at + 64, 4);
            reveal_with_fuel(crate::framing::pow256, 9);
        }
        let end: u128 = at as u128 + 68 + read_big(b, at + 64, 4) as u128;
        if end > usize::MAX as u128 {
            return false;
        }
        at = end as usize;
        left = left - 1;
    }
    true
}

fn has_fitting_fan_out(b: &[u8], at: usize) -> (r: bool)
    requires
        at < b@.len(),
    ensures
        r == fan_out_fits(b@, at as int),
{
    let len: usize = b.len();
    if len - at < 78 || b[at] != 0x50 || b[at + 1] != 0x46 || b[at + 2] != 0x4F || b[at + 3] != 0x03 {
        return true;
    }
    proof {
        crate::framing::lemma_big_endian_bound(b@, at + 76, 2);
        reveal_with_fuel(crate::framing::pow256, 9);
    }
    let keys: usize = read_big(b, at + 76, 2) as usize;
    if len - at - 78 < keys || len - at - 78 - keys < 4 {
        return true;
    }
    let wraps: usize = at + 78 + keys;
    let count: u64 = read_big(b, wraps, 4);
    if count > 1024 {
        return true;
    }
    has_fitting_wraps(b, wraps + 4, count)
}

/// Whether a fan-out can be read from these bytes.
pub fn is_fan_out_readable(b: &[u8]) -> (r: bool)
    ensures
        r == fan_out_readable(b@),
{
    if !is_readable(b) {
        return false;
    }
    let mut i: usize = 0;
    while i < b.len()
        invariant
            i <= b@.len(),
            forall|k: int| 0 <= k < i ==> #[trigger] fan_out_fits(b@, k),
        decreases b@.len() - i,
    {
        if !has_fitting_fan_out(b, i) {
            return false;
        }
        i = i + 1;
    }
    true
}

// ── what is not refused ──

/// A time is a whole number with a sign of four or eight bytes behind `5` or `6`, the lower eight of sixteen
/// behind `7`, or an integer behind its own marker, without a sign behind `u` and with one behind `i`.
pub proof fn law_times(b: Seq<u8>, at: int)
    ensures
        ({
            let four = crate::framing::big_endian(b, at + 2, 4);
            b[at + 1] == 0x35 ==> time_value(b, at) == (if four >= 0x8000_0000 { four - 0x1_0000_0000 } else { four as int })
        }),
        ({
            let eight = crate::framing::big_endian(b, at + 2, 8);
            b[at + 1] == 0x36 ==> time_value(b, at) == (if eight >= 0x8000_0000_0000_0000 {
                eight - 0x1_0000_0000_0000_0000
            } else {
                eight as int
            })
        }),
        ({
            let lower = crate::framing::big_endian(b, at + 10, 8);
            b[at + 1] == 0x37 ==> time_value(b, at) == (if lower >= 0x8000_0000_0000_0000 {
                lower - 0x1_0000_0000_0000_0000
            } else {
                lower as int
            })
        }),
        b[at + 1] == 0x75 && b[at + 2] == 0x35 ==> time_value(b, at) == crate::framing::big_endian(b, at + 3, 4),
        b[at + 1] == 0x69 && b[at + 2] == 0x33 ==> time_value(b, at) == (if b[at + 3] >= 128 {
            b[at + 3] - 256
        } else {
            b[at + 3] as int
        }),
        b[at + 1] == 0x66 ==> time_value(b, at) == 0,
{
    reveal_with_fuel(crate::framing::pow256, 9);
    reveal_with_fuel(crate::framing::big_endian, 2);
    crate::framing::lemma_big_endian_bound(b, at + 3, 4);
}

/// There is a time where one ends.
proof fn lemma_time_inside(b: Seq<u8>, p: int)
    requires
        crate::framing::value(b, p) is To,
    ensures
        p < b.len(),
{
    reveal(crate::framing::value);
}

proof fn lemma_times_close(b: Seq<u8>, at: int, seen: Option<(int, int)>)
    requires
        forall|p: int|
            0 <= p < b.len() && b[p] == 0x65 && crate::framing::value(b, p) is To ==> 0 <= #[trigger] time_value(b, p)
                <= i64::MAX,
        0 <= at,
        b.len() <= usize::MAX,
        seen matches Some((lo, hi)) ==> 0 <= lo && hi <= i64::MAX,
    ensures
        close_times(b, at, seen),
    decreases b.len() - at,
{
    if at < b.len() && b[at] != 0x29 {
        let p = if b[at] == 0x2C { at + 1 } else { at };
        if let Step::To(end) = crate::framing::value(b, p) {
            if at < end <= b.len() {
                if b[p] == 0x65 {
                    lemma_time_inside(b, p);
                    assert(0 <= time_value(b, p) <= i64::MAX);
                    lemma_times_close(b, end as int, Some(stretched(seen, time_value(b, p))));
                } else {
                    lemma_times_close(b, end as int, seen);
                }
            }
        }
    }
}

proof fn lemma_fields_close(b: Seq<u8>, at: int)
    requires
        forall|p: int|
            0 <= p < b.len() && b[p] == 0x65 && crate::framing::value(b, p) is To ==> 0 <= #[trigger] time_value(b, p)
                <= i64::MAX,
        0 <= at,
        b.len() <= usize::MAX,
    ensures
        close_fields(b, at),
    decreases b.len() - at,
{
    if at < b.len() && b[at] != 0x5D {
        if b[at] == 0x28 {
            if let Step::To(p) = crate::framing::value(b, at + 1) {
                lemma_times_close(b, p + 1, None);
            }
            if let Step::To(end) = crate::framing::field(b, at) {
                if at < end <= b.len() {
                    lemma_fields_close(b, end as int);
                }
            }
        } else {
            lemma_fields_close(b, at + 1);
        }
    }
}

/// A chain whose times are none before the epoch can be folded as soon as it can be read.
pub proof fn law_ordinary_chains_fold(b: Seq<u8>)
    requires
        forall|p: int|
            0 <= p < b.len() && b[p] == 0x65 && crate::framing::value(b, p) is To ==> 0 <= #[trigger] time_value(b, p)
                <= i64::MAX,
        b.len() <= usize::MAX,
    ensures
        foldable(b) <==> crate::framing::readable(b),
{
    if let Step::To(end) = crate::framing::header(b, 4) {
        let at = end as int;
        if at < b.len() && b[at] == 0x5B {
            lemma_fields_close(b, at + 1);
            if let Step::To(count) = crate::framing::value(b, at + 1) {
                if let Step::To(length) = crate::framing::value(b, count as int) {
                    if let Step::To(fields) = crate::framing::value(b, length as int) {
                        lemma_fields_close(b, fields as int);
                    }
                }
            }
        }
    }
}

/// Two times in one row, one behind the other, that 63 bits cannot part are turned away.
pub proof fn law_distant_times(b: Seq<u8>, at: int, next: usize, end: usize)
    requires
        0 <= at < next < end <= b.len(),
        b[at] == 0x65,
        b[next as int] == 0x65,
        crate::framing::value(b, at) == Step::To(next),
        crate::framing::value(b, next as int) == Step::To(end),
        time_value(b, next as int) - time_value(b, at) > i64::MAX || time_value(b, at) - time_value(b, next as int) > i64::MAX,
    ensures
        !close_times(b, at, None),
{
    reveal_with_fuel(close_times, 3);
}

proof fn lemma_wraps_fit(b: Seq<u8>, at: int, k: nat)
    requires
        usize::MAX == u64::MAX,
        b.len() <= 0x100_0000_0000,
        0 <= at,
        at <= usize::MAX,
    ensures
        wraps_fit(b, at, k),
    decreases k,
{
    if k > 0 && at + 68 <= b.len() {
        crate::framing::lemma_big_endian_bound(b, at + 64, 4);
        reveal_with_fuel(crate::framing::pow256, 5);
        lemma_wraps_fit(b, at + 68 + crate::framing::big_endian(b, at + 64, 4), (k - 1) as nat);
    }
}

/// With words of 64 bits a fan-out of less than a tebibyte can be read as soon as its document can be.
pub proof fn law_ordinary_fan_outs_are_read(b: Seq<u8>)
    requires
        usize::MAX == u64::MAX,
        b.len() <= 1024 * 1024 * 1024 * 1024,
    ensures
        fan_out_readable(b) <==> crate::framing::readable(b),
{
    assert forall|i: int| 0 <= i < b.len() implies #[trigger] fan_out_fits(b, i) by {
        let wraps = i + 78 + crate::framing::big_endian(b, i + 76, 2);
        if wraps + 4 <= b.len() {
            lemma_wraps_fit(b, wraps + 4, crate::framing::big_endian(b, wraps, 4));
        }
    }
}

/// Bytes in which no fan-out starts, with `PFO` and the byte three, can be read as a document can be.
pub proof fn law_no_fan_out_inside(b: Seq<u8>)
    requires
        forall|i: int| 0 <= i < b.len() - 3 ==> !(#[trigger] b[i] == 80 && b[i + 1] == 70 && b[i + 2] == 79 && b[i + 3] == 3),
    ensures
        fan_out_readable(b) <==> crate::framing::readable(b),
{
    assert forall|i: int| 0 <= i < b.len() implies #[trigger] fan_out_fits(b, i) by {
        if i < b.len() - 3 {
            assert(!(b[i] == 80 && b[i + 1] == 70 && b[i + 2] == 79 && b[i + 3] == 3));
        }
    }
}

/// A wrap whose ciphertext leads beyond the largest number is turned away.
pub proof fn law_outsize_wrap(b: Seq<u8>, at: int, k: nat)
    requires
        k > 0,
        at + 68 <= b.len(),
        at + 68 + crate::framing::big_endian(b, at + 64, 4) > usize::MAX,
    ensures
        !wraps_fit(b, at, k),
{
}

/// A chain whose first field records two such times, behind its name and a colon, is not folded.
pub proof fn law_distant_times_are_refused(b: Seq<u8>, end: usize, p: usize, next: usize, last: usize)
    requires
        crate::framing::header(b, 4) == Step::To(end),
        end + 1 < b.len(),
        b[end as int] == 0x5B && b[end + 1] == 0x28,
        crate::framing::value(b, end + 2) == Step::To(p),
        p + 1 < next < last <= b.len(),
        b[p as int] == 0x3A,
        b[p + 1] == 0x65 && b[next as int] == 0x65,
        crate::framing::value(b, p + 1) == Step::To(next),
        crate::framing::value(b, next as int) == Step::To(last),
        time_value(b, next as int) - time_value(b, p + 1) > i64::MAX || time_value(b, p + 1) - time_value(b, next as int)
            > i64::MAX,
    ensures
        !foldable(b),
{
    law_distant_times(b, p + 1, next, last);
    assert(!close_field(b, end + 1));
    assert(!close_fields(b, end + 1));
}

/// The times of every field are looked at, one field behind the other.
pub proof fn law_every_field_is_looked_at(b: Seq<u8>, at: int, p: usize, next: usize)
    requires
        0 <= at < b.len(),
    ensures
        b[at] == 0x28 && crate::framing::value(b, at + 1) == Step::To(p) && p < b.len() && b[p as int] == 0x3A && !close_times(
            b,
            p + 1,
            None,
        ) ==> !close_fields(b, at),
        b[at] == 0x28 && crate::framing::field(b, at) == Step::To(next) && at < next <= b.len() && !close_fields(b, next as int)
            ==> !close_fields(b, at),
        b[at] != 0x28 && b[at] != 0x5D ==> close_fields(b, at) == close_fields(b, at + 1),
        !crate::framing::readable(b) ==> !foldable(b) && !fan_out_readable(b),
{
}

/// A fan-out with a wrap that leads beyond the largest number is turned away, wherever in the bytes it is.
pub proof fn law_outsize_fan_out(b: Seq<u8>, at: int, wraps: int)
    requires
        0 <= at,
        at + 78 <= b.len(),
        b[at] == 80 && b[at + 1] == 70 && b[at + 2] == 79 && b[at + 3] == 3,
        wraps == at + 78 + crate::framing::big_endian(b, at + 76, 2),
        wraps + 4 + 68 <= b.len(),
        0 < crate::framing::big_endian(b, wraps, 4) <= 1024,
        wraps + 4 + 68 + crate::framing::big_endian(b, wraps + 4 + 64, 4) > usize::MAX,
    ensures
        !fan_out_readable(b),
{
    law_outsize_wrap(b, wraps + 4, crate::framing::big_endian(b, wraps, 4));
    assert(!fan_out_fits(b, at));
}

} // verus!

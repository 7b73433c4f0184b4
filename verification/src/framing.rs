//! The framing of documents and envelopes: where the decoder would add two lengths that do not fit
//! in a machine word, or meet a value that it cannot size, the bytes are turned away before they
//! reach it.
//!
//! A document is `RÅ<`, header values and header fields up to `>`, and a body between `[` and `]`.
//! A field is `(`, a name, and after a colon its values, up to `)`. A value starts with the letter
//! of its type; a length or a count is a marker `3` to `6` and that many bytes, high byte first.
use vstd::prelude::*;

verus! {

/// What reading one piece of a document comes to.
#[derive(Clone, Copy, PartialEq, Eq, Structural)]
pub enum Step {
    /// The piece ends here.
    To(usize),
    /// The decoder gives up with an error.
    Stop,
    /// The decoder must not be let near it.
    Refuse,
}

// ── numbers ──

/// How many bytes follow a number's marker.
pub open spec fn width(marker: u8) -> nat {
    if marker == 0x33 {
        1
    } else if marker == 0x34 {
        2
    } else if marker == 0x35 {
        4
    } else if marker == 0x36 {
        8
    } else {
        0
    }
}

/// The number in `n` bytes from `at`, high byte first.
pub open spec fn big_endian(b: Seq<u8>, at: int, n: nat) -> nat
    decreases n,
{
    if n == 0 {
        0
    } else {
        big_endian(b, at, (n - 1) as nat) * 256 + b[at + n - 1] as nat
    }
}

/// The number at `at` and where it ends; a number that does not fit in a machine word is none.
pub open spec fn number(b: Seq<u8>, at: int) -> Option<(nat, int)> {
    if at < b.len() && width(b[at]) > 0 && at + 1 + width(b[at]) <= b.len() && big_endian(b, at + 1, width(b[at]))
        <= usize::MAX {
        Some((big_endian(b, at + 1, width(b[at])), at + 1 + width(b[at])))
    } else {
        None
    }
}

/// How many numbers `n` bytes hold.
pub open spec fn pow256(n: nat) -> nat
    decreases n,
{
    if n == 0 {
        1
    } else {
        pow256((n - 1) as nat) * 256
    }
}

pub(crate) proof fn lemma_big_endian_bound(b: Seq<u8>, at: int, n: nat)
    ensures
        big_endian(b, at, n) < pow256(n),
    decreases n,
{
    if n > 0 {
        lemma_big_endian_bound(b, at, (n - 1) as nat);
    }
}

pub(crate) proof fn lemma_pow256(n: nat)
    requires
        n <= 8,
    ensures
        pow256(n) <= 0x1_0000_0000_0000_0000,
{
    reveal_with_fuel(pow256, 9);
}

pub(crate) fn read_big(b: &[u8], at: usize, w: usize) -> (r: u64)
    requires
        w <= 8,
        at + w <= b@.len(),
    ensures
        r == big_endian(b@, at as int, w as nat),
{
    let len: usize = b.len();
    let mut v: u64 = 0;
    let mut i: usize = 0;
    while i < w
        invariant
            i <= w <= 8,
            at + w <= b@.len() <= usize::MAX,
            v == big_endian(b@, at as int, i as nat),
        decreases w - i,
    {
        proof {
            lemma_big_endian_bound(b@, at as int, (i + 1) as nat);
            lemma_pow256((i + 1) as nat);
        }
        v = v * 256 + b[at + i] as u64;
        i = i + 1;
    }
    v
}

pub(crate) fn marker_width(marker: u8) -> (r: usize)
    ensures
        r == width(marker),
        r <= 8,
{
    match marker {
        0x33 => 1,
        0x34 => 2,
        0x35 => 4,
        0x36 => 8,
        _ => 0,
    }
}

pub(crate) fn read_number(b: &[u8], at: usize) -> (r: Option<(usize, usize)>)
    ensures
        match r {
            Some((v, end)) => number(b@, at as int) == Some((v as nat, end as int)) && at < end <= b@.len(),
            None => number(b@, at as int) is None,
        },
{
    let len: usize = b.len();
    if at >= len {
        return None;
    }
    let w: usize = marker_width(b[at]);
    if w == 0 || len - at <= w {
        return None;
    }
    let v: u64 = read_big(b, at + 1, w);
    if v > usize::MAX as u64 {
        return None;
    }
    Some((v as usize, at + 1 + w))
}

// ── values ──

/// `n` bytes from `at` on.
pub open spec fn span(b: Seq<u8>, at: int, n: int) -> Step {
    if at + n > usize::MAX {
        Step::Refuse
    } else if at + n > b.len() {
        Step::Stop
    } else {
        Step::To((at + n) as usize)
    }
}

/// A number at `at` and then as many bytes as it says and `more`.
pub open spec fn counted(b: Seq<u8>, at: int, more: int) -> Step {
    match number(b, at) {
        Some((n, end)) => span(b, end, n + more),
        None => Step::Stop,
    }
}

/// A number at `at` and nothing more.
pub open spec fn plain(b: Seq<u8>, at: int) -> Step {
    match number(b, at) {
        Some((_, end)) => Step::To(end as usize),
        None => Step::Stop,
    }
}

/// A number at `at` and then as many bits as it says, in whole bytes.
pub open spec fn bits(b: Seq<u8>, at: int) -> Step {
    match number(b, at) {
        Some((n, end)) => if end + (n + 7) / 8 > b.len() {
            Step::Stop
        } else {
            Step::To((end + (n + 7) / 8) as usize)
        },
        None => Step::Stop,
    }
}

/// `n` bytes from `at` on, where `n` is small; no bytes are none at all.
pub open spec fn fixed(b: Seq<u8>, at: int, n: int) -> Step {
    if n == 0 || at + n > b.len() {
        Step::Stop
    } else {
        Step::To((at + n) as usize)
    }
}

/// The size of an integer, with its letter and the byte behind it.
pub open spec fn integer_size(letter: u8, m: u8) -> int {
    if letter == 0x75 && (m == 0 || m == 255) {
        2
    } else if letter == 0x75 && m == 0x30 {
        3
    } else if m == 0x37 {
        18
    } else if width(m) > 0 {
        2 + width(m) as int
    } else {
        0
    }
}

/// The size of a float (`f`), of a pair of floats (`j`) or of a colour (`r`), with its letter and
/// the byte behind it.
pub open spec fn small_size(letter: u8, m: u8) -> int {
    if letter == 0x66 && m == 0x35 {
        6
    } else if letter == 0x66 && m == 0x36 {
        10
    } else if letter == 0x6A && m == 0x35 {
        10
    } else if letter == 0x6A && m == 0x36 {
        18
    } else if letter == 0x72 && m == 0x63 {
        3
    } else if letter == 0x72 && m == 0x61 {
        6
    } else if letter == 0x72 && m == 0x74 {
        10
    } else if letter == 0x72 && m == 0x70 {
        4
    } else {
        0
    }
}

/// A time at `at`.
pub open spec fn time(b: Seq<u8>, at: int) -> Step {
    if at + 2 >= b.len() {
        Step::Stop
    } else if b[at + 1] == 0x35 {
        fixed(b, at, 6)
    } else if b[at + 1] == 0x36 {
        fixed(b, at, 10)
    } else if b[at + 1] == 0x37 {
        fixed(b, at, 18)
    } else if b[at + 1] == 0x66 {
        fixed(b, at, if b[at + 2] == 0x35 { 7 } else if b[at + 2] == 0x36 { 11 } else { 0 })
    } else if b[at + 1] == 0x75 || b[at + 1] == 0x69 {
        fixed(b, at, if width(b[at + 2]) > 0 { 3 + width(b[at + 2]) as int } else { 0 })
    } else {
        Step::Stop
    }
}

/// World coordinates at `at`. Those of one, two or four bytes count the cells of twenty faces: a
/// number that counts none is turned away.
pub open spec fn world(b: Seq<u8>, at: int) -> Step {
    if at + 1 >= b.len() {
        Step::Stop
    } else if b[at + 1] == 0x61 {
        parsed(b, at)
    } else if b[at + 1] == 0x6D {
        // a cell: another byte for its size
        if at + 2 >= b.len() {
            Step::Stop
        } else {
            fixed(b, at, if b[at + 2] == 0x37 { 19 } else if width(b[at + 2]) > 0 { 3 + width(b[at + 2]) as int } else { 0 })
        }
    } else if b[at + 1] == 0x37 {
        fixed(b, at, 18)
    } else if width(b[at + 1]) == 0 {
        Step::Stop
    } else if at + 2 + width(b[at + 1]) <= b.len() && outside_the_faces(b[at + 1], big_endian(b, at + 2, width(b[at + 1]))) {
        Step::Refuse
    } else {
        fixed(b, at, 2 + width(b[at + 1]) as int)
    }
}

/// The number counts none of the cells that twenty faces have at this size.
pub open spec fn outside_the_faces(size: u8, code: nat) -> bool {
    ||| size == 0x33 && code >= 20 * 3 * 3
    ||| size == 0x34 && code >= 20 * 57 * 57
    ||| size == 0x35 && code >= 20 * 14654 * 14654
}

/// The product of the `k` numbers from `at` on, times `so_far`, fits in a machine word at every
/// step, and in the end so does the size of as many elements of sixteen bytes.
pub open spec fn shape_fits(b: Seq<u8>, at: int, k: nat, so_far: nat) -> bool
    decreases k,
{
    if k == 0 {
        so_far * 16 + b.len() <= usize::MAX
    } else {
        match number(b, at) {
            Some((n, end)) => so_far * n <= usize::MAX && shape_fits(b, end, (k - 1) as nat, so_far * n),
            None => true,
        }
    }
}

/// So many things can be made room for: there are no more of them than `most`, and the size of as
/// many of sixteen bytes fits in a machine word.
pub open spec fn roomy(n: nat, most: nat) -> bool {
    n <= most && n * 16 <= usize::MAX
}

/// There is a tensor at `at` that can be sized: one of packed bits (`p`) with no more dimensions
/// than there are bytes, a row (`tn`) of elements that fit in a machine word, or one (`t`, `q`)
/// whose shape does.
pub open spec fn fitting_tensor(b: Seq<u8>, at: int) -> bool {
    &&& at < b.len()
    &&& if b[at] == 0x70 {
        number(b, at + 1) matches Some((n, _)) ==> roomy(n, b.len())
    } else if b[at] == 0x74 && at + 1 < b.len() && b[at + 1] == 0x6E {
        number(b, at + 2) matches Some((n, _)) ==> n * 16 + b.len() <= usize::MAX
    } else {
        &&& b[at] == 0x74 || b[at] == 0x71
        &&& number(b, at + 1) matches Some((n, end)) ==> roomy(n, b.len()) && shape_fits(b, end + 2, n, 1)
    }
}

/// There is an address on the globe at `at`.
pub open spec fn globe_address(b: Seq<u8>, at: int) -> bool {
    at + 1 < b.len() && b[at] == 0x77 && b[at + 1] == 0x61
}

/// Where `vsf::parse` comes to with the text, the address or the tensor at `at`; `None` where it
/// gives up.
pub uninterp spec fn parsed_end(bytes: Seq<u8>, at: usize) -> Option<usize>;

/// There is a text at `at`, and it claims no more characters than there are bits and than can be made
/// room for.
pub open spec fn short_text(b: Seq<u8>, at: int) -> bool {
    &&& at < b.len()
    &&& b[at] == 0x78
    &&& number(b, at + 1) matches Some((n, _)) ==> roomy(n, 8 * b.len())
}

/// There is a network address at `at`.
pub open spec fn network_address(b: Seq<u8>, at: int) -> bool {
    at + 1 < b.len() && b[at] == 0x6E && 0x61 <= b[at + 1] <= 0x7A
}

/// `vsf::parse` on a text, an address or a tensor: where it ends, inside the bytes. The decoder
/// makes room for as many characters or dimensions as are claimed, and multiplies the dimensions
/// without a check.
#[verifier::external_body]
fn parse_end(bytes: &[u8], at: usize) -> (r: Option<usize>)
    requires
        short_text(bytes@, at as int) || network_address(bytes@, at as int) || globe_address(bytes@, at as int)
            || fitting_tensor(bytes@, at as int),
    ensures
        r == parsed_end(bytes@, at),
        r matches Some(end) ==> at < end <= bytes@.len(),
{
    let mut end = at;
    vsf::parse(bytes, &mut end).ok().map(|_| end)
}

/// A text, an address or a tensor at `at`.
pub open spec fn parsed(b: Seq<u8>, at: int) -> Step {
    match parsed_end(b, at as usize) {
        Some(end) => if at < end <= b.len() { Step::To(end) } else { Step::Stop },
        None => Step::Stop,
    }
}

/// The value at `at`: the letters name its type.
#[verifier::opaque]
pub open spec fn value(b: Seq<u8>, at: int) -> Step {
    if at >= b.len() {
        Step::Stop
    } else if b[at] == 0x64 || b[at] == 0x61 {
        // d, a: a name or plain text
        counted(b, at + 1, 0)
    } else if b[at] == 0x68 || b[at] == 0x6D || b[at] == 0x67 {
        // h, m, g: a hash, a tag or a signature, with the letter of its algorithm
        counted(b, at + 2, 1)
    } else if b[at] == 0x6B {
        // k: a key; a shared secret (ks) and a verification key (kv) have a letter more
        if at + 1 < b.len() && (b[at + 1] == 0x73 || b[at + 1] == 0x76) {
            counted(b, at + 3, 1)
        } else {
            counted(b, at + 2, 1)
        }
    } else if b[at] == 0x76 {
        // v: wrapped bytes
        bits(b, at + 2)
    } else if b[at] == 0x6F || b[at] == 0x62 || b[at] == 0x6C || b[at] == 0x7A || b[at] == 0x79 {
        // o, b, l, z, y: a position, two lengths and two versions
        plain(b, at + 1)
    } else if b[at] == 0x6E {
        // n: a count, or a network address
        if network_address(b, at) { parsed(b, at) } else { plain(b, at + 1) }
    } else if b[at] == 0x75 || b[at] == 0x69 {
        // u, i: an integer
        if at + 1 < b.len() { fixed(b, at, integer_size(b[at], b[at + 1])) } else { Step::Stop }
    } else if b[at] == 0x66 || b[at] == 0x6A || b[at] == 0x72 {
        // f, j, r: a float, two, or a colour
        if at + 1 < b.len() { fixed(b, at, small_size(b[at], b[at + 1])) } else { Step::Stop }
    } else if b[at] == 0x65 {
        time(b, at)
    } else if b[at] == 0x7B {
        // {: an opcode
        fixed(b, at, 4)
    } else if b[at] == 0x78 {
        // x: text
        if short_text(b, at) { parsed(b, at) } else { Step::Refuse }
    } else if b[at] == 0x70 || b[at] == 0x74 || b[at] == 0x71 {
        // p, t, q: tensors
        if fitting_tensor(b, at) { parsed(b, at) } else { Step::Refuse }
    } else if b[at] == 0x77 {
        // w: world coordinates
        world(b, at)
    } else {
        Step::Stop
    }
}

proof fn lemma_value(b: Seq<u8>, at: int)
    requires
        0 <= at,
        b.len() <= usize::MAX,
    ensures
        value(b, at) matches Step::To(end) ==> at < end <= b.len(),
{
    reveal(value);
}

fn take(b: &[u8], at: usize, n: usize) -> (r: Step)
    requires
        n <= 19,
    ensures
        r == fixed(b@, at as int, n as int),
{
    if n == 0 || at > b.len() || b.len() - at < n {
        Step::Stop
    } else {
        Step::To(at + n)
    }
}

fn take_counted(b: &[u8], at: usize, more: usize) -> (r: Step)
    requires
        more <= 1,
    ensures
        r == counted(b@, at as int, more as int),
{
    match read_number(b, at) {
        Some((n, end)) => {
            if n > usize::MAX - end || more > usize::MAX - end - n {
                Step::Refuse
            } else if end + n + more > b.len() {
                Step::Stop
            } else {
                Step::To(end + n + more)
            }
        },
        None => Step::Stop,
    }
}

fn take_number(b: &[u8], at: usize) -> (r: Step)
    ensures
        r == plain(b@, at as int),
{
    match read_number(b, at) {
        Some((_, end)) => Step::To(end),
        None => Step::Stop,
    }
}

fn take_bits(b: &[u8], at: usize) -> (r: Step)
    ensures
        r == bits(b@, at as int),
{
    match read_number(b, at) {
        Some((n, end)) => {
            let whole: usize = n / 8;
            let bytes: usize = if n % 8 == 0 { whole } else { whole + 1 };
            if bytes > b.len() - end {
                Step::Stop
            } else {
                Step::To(end + bytes)
            }
        },
        None => Step::Stop,
    }
}

fn take_time(b: &[u8], at: usize) -> (r: Step)
    requires
        at < b@.len(),
    ensures
        r == time(b@, at as int),
{
    if b.len() - at <= 2 {
        return Step::Stop;
    }
    let kind: u8 = b[at + 1];
    let first: u8 = b[at + 2];
    match kind {
        0x35 => take(b, at, 6),
        0x36 => take(b, at, 10),
        0x37 => take(b, at, 18),
        0x66 => take(b, at, if first == 0x35 { 7 } else if first == 0x36 { 11 } else { 0 }),
        0x75 | 0x69 => {
            let w: usize = marker_width(first);
            take(b, at, if w > 0 { 3 + w } else { 0 })
        },
        _ => Step::Stop,
    }
}

fn take_world(b: &[u8], at: usize) -> (r: Step)
    requires
        at < b@.len(),
        b@[at as int] == 0x77,
    ensures
        r == world(b@, at as int),
{
    let len: usize = b.len();
    if len - at <= 1 {
        return Step::Stop;
    }
    let kind: u8 = b[at + 1];
    if kind == 0x61 {
        return take_parsed(b, at);
    }
    if kind == 0x6D {
        if len - at <= 2 {
            return Step::Stop;
        }
        let w: usize = marker_width(b[at + 2]);
        return take(b, at, if b[at + 2] == 0x37 { 19 } else if w > 0 { 3 + w } else { 0 });
    }
    if kind == 0x37 {
        return take(b, at, 18);
    }
    let w: usize = marker_width(kind);
    if w == 0 {
        return Step::Stop;
    }
    if len - at >= 2 + w {
        let code: u64 = read_big(b, at + 2, w);
        if kind == 0x33 && code >= 180 || kind == 0x34 && code >= 64980 || kind == 0x35 && code >= 4294794320 {
            return Step::Refuse;
        }
    }
    take(b, at, 2 + w)
}

fn has_fitting_shape(b: &[u8], from: usize, dimensions: usize) -> (r: bool)
    ensures
        r == shape_fits(b@, from as int, dimensions as nat, 1),
{
    let len: usize = b.len();
    let mut at: usize = from;
    let mut left: usize = dimensions;
    let mut product: usize = 1;
    while left > 0
        invariant
            len == b@.len(),
            shape_fits(b@, at as int, left as nat, product as nat) == shape_fits(b@, from as int, dimensions as nat, 1),
        decreases left,
    {
        match read_number(b, at) {
            Some((n, end)) => {
                assert(product * n <= u64::MAX * u64::MAX) by (nonlinear_arith)
                    requires
                        product <= u64::MAX,
                        n <= u64::MAX,
                ;
                let wide: u128 = product as u128 * n as u128;
                if wide > usize::MAX as u128 {
                    return false;
                }
                product = wide as usize;
                at = end;
                left = left - 1;
            },
            None => {
                return true;
            },
        }
    }
    product as u128 * 16 + len as u128 <= usize::MAX as u128
}

fn has_fitting_tensor(b: &[u8], at: usize) -> (r: bool)
    requires
        at < b@.len(),
        b@[at as int] == 0x70 || b@[at as int] == 0x74 || b@[at as int] == 0x71,
    ensures
        r == fitting_tensor(b@, at as int),
{
    let len: usize = b.len();
    if b[at] == 0x74 && len - at > 1 && b[at + 1] == 0x6E {
        return match read_number(b, at + 2) {
            Some((n, _)) => n as u128 * 16 + len as u128 <= usize::MAX as u128,
            None => true,
        };
    }
    match read_number(b, at + 1) {
        Some((n, end)) => {
            if n > len || n > usize::MAX / 16 {
                false
            } else if b[at] == 0x70 {
                true
            } else if end > usize::MAX - 2 {
                n > 0
            } else {
                has_fitting_shape(b, end + 2, n)
            }
        },
        None => true,
    }
}

fn take_parsed(b: &[u8], at: usize) -> (r: Step)
    requires
        short_text(b@, at as int) || network_address(b@, at as int) || globe_address(b@, at as int) || fitting_tensor(
            b@,
            at as int,
        ),
    ensures
        r == parsed(b@, at as int),
{
    match parse_end(b, at) {
        Some(end) => Step::To(end),
        None => Step::Stop,
    }
}

fn take_text(b: &[u8], at: usize) -> (r: Step)
    requires
        at < b@.len(),
        b@[at as int] == 0x78,
    ensures
        r == (if short_text(b@, at as int) { parsed(b@, at as int) } else { Step::Refuse }),
{
    let len: usize = b.len();
    if let Some((n, _)) = read_number(b, at + 1) {
        if n as u128 > 8 * len as u128 || n > usize::MAX / 16 {
            return Step::Refuse;
        }
    }
    take_parsed(b, at)
}

fn integer_bytes(letter: u8, m: u8) -> (r: usize)
    ensures
        r == integer_size(letter, m),
        r <= 18,
{
    if letter == 0x75 && (m == 0 || m == 255) {
        return 2;
    }
    if letter == 0x75 && m == 0x30 {
        return 3;
    }
    match m {
        0x33 => 3,
        0x34 => 4,
        0x35 => 6,
        0x36 => 10,
        0x37 => 18,
        _ => 0,
    }
}

fn small_bytes(letter: u8, m: u8) -> (r: usize)
    ensures
        r == small_size(letter, m),
        r <= 18,
{
    match (letter, m) {
        (0x66, 0x35) => 6,
        (0x66, 0x36) => 10,
        (0x6A, 0x35) => 10,
        (0x6A, 0x36) => 18,
        (0x72, 0x63) => 3,
        (0x72, 0x61) => 6,
        (0x72, 0x74) => 10,
        (0x72, 0x70) => 4,
        _ => 0,
    }
}

pub(crate) fn take_value(b: &[u8], at: usize) -> (r: Step)
    ensures
        r == value(b@, at as int),
        r matches Step::To(end) ==> at < end <= b@.len(),
{
    let len: usize = b.len();
    proof {
        reveal(value);
        lemma_value(b@, at as int);
    }
    if at >= len {
        return Step::Stop;
    }
    let last: bool = b.len() - at == 1;
    match b[at] {
        0x64 | 0x61 => take_counted(b, at + 1, 0),
        0x68 | 0x6D | 0x67 => if last { Step::Stop } else { take_counted(b, at + 2, 1) },
        0x6B => {
            if last {
                Step::Stop
            } else if b[at + 1] == 0x73 || b[at + 1] == 0x76 {
                if b.len() - at == 2 { Step::Stop } else { take_counted(b, at + 3, 1) }
            } else {
                take_counted(b, at + 2, 1)
            }
        },
        0x76 => if last { Step::Stop } else { take_bits(b, at + 2) },
        0x6F | 0x62 | 0x6C | 0x7A | 0x79 => take_number(b, at + 1),
        0x6E => if !last && 0x61 <= b[at + 1] && b[at + 1] <= 0x7A { take_parsed(b, at) } else { take_number(b, at + 1) },
        0x75 | 0x69 => if last { Step::Stop } else { take(b, at, integer_bytes(b[at], b[at + 1])) },
        0x66 | 0x6A | 0x72 => if last { Step::Stop } else { take(b, at, small_bytes(b[at], b[at + 1])) },
        0x65 => take_time(b, at),
        0x7B => take(b, at, 4),
        0x78 => take_text(b, at),
        0x70 | 0x74 | 0x71 => if has_fitting_tensor(b, at) { take_parsed(b, at) } else { Step::Refuse },
        0x77 => take_world(b, at),
        _ => Step::Stop,
    }
}

// ── fields, header and body ──

/// The values of a field from `at` on, up to its end.
pub open spec fn field_values(b: Seq<u8>, at: int) -> Step
    decreases b.len() - at,
{
    if at >= b.len() {
        Step::Stop
    } else if b[at] == 0x29 {
        Step::To((at + 1) as usize)
    } else {
        match value(b, if b[at] == 0x2C { at + 1 } else { at }) {
            Step::To(end) => if at < end <= b.len() { field_values(b, end as int) } else { Step::Stop },
            other => other,
        }
    }
}

/// The field that starts at `at`.
pub open spec fn field(b: Seq<u8>, at: int) -> Step {
    match value(b, at + 1) {
        Step::To(p) => if p < b.len() && b[p as int] == 0x3A {
            field_values(b, p + 1)
        } else if p < b.len() && b[p as int] == 0x29 {
            Step::To((p + 1) as usize)
        } else {
            Step::Stop
        },
        other => other,
    }
}

/// A field at `at`, or a value.
pub open spec fn piece(b: Seq<u8>, at: int) -> Step {
    if at < b.len() && b[at] == 0x28 { field(b, at) } else { value(b, at) }
}

/// The header from `at` on; it ends behind `>`, or with the bytes.
pub open spec fn header(b: Seq<u8>, at: int) -> Step
    decreases b.len() - at,
{
    if at >= b.len() {
        Step::To(at as usize)
    } else if b[at] == 0x3E {
        Step::To((at + 1) as usize)
    } else {
        match piece(b, at) {
            Step::To(end) => if at < end <= b.len() { header(b, end as int) } else { Step::Stop },
            other => other,
        }
    }
}

/// Where the first field of the header from `at` on starts.
pub open spec fn first_field(b: Seq<u8>, at: int) -> Option<int>
    decreases b.len() - at,
{
    if at >= b.len() || b[at] == 0x3E {
        None
    } else if b[at] == 0x28 {
        Some(at)
    } else {
        match value(b, at) {
            Step::To(end) => if at < end <= b.len() { first_field(b, end as int) } else { None },
            _ => None,
        }
    }
}

/// The fields of a body from `at` on, up to `]`; other bytes between them are passed over.
pub open spec fn body_fields(b: Seq<u8>, at: int) -> Step
    decreases b.len() - at,
{
    if at >= b.len() {
        Step::Stop
    } else if b[at] == 0x5D {
        Step::To((at + 1) as usize)
    } else if b[at] == 0x28 {
        match field(b, at) {
            Step::To(end) => if at < end <= b.len() { body_fields(b, end as int) } else { Step::Stop },
            other => other,
        }
    } else {
        body_fields(b, at + 1)
    }
}

/// The body that starts at `at`: its fields, or its name, count and length and then its fields.
pub open spec fn body(b: Seq<u8>, at: int) -> Step {
    if at >= b.len() || b[at] != 0x5B {
        Step::Stop
    } else if at + 1 < b.len() && b[at + 1] == 0x28 {
        body_fields(b, at + 1)
    } else {
        match value(b, at + 1) {
            Step::To(count) => match value(b, count as int) {
                Step::To(length) => match value(b, length as int) {
                    Step::To(fields) => body_fields(b, fields as int),
                    other => other,
                },
                other => other,
            },
            other => other,
        }
    }
}

/// A section's name: words of lower-case letters, digits and single underscores, joined by single
/// dots; a word starts with a letter, and no underscore ends the name.
pub open spec fn is_section_name(n: Seq<u8>) -> bool {
    n.len() > 0 && forall|i: int| 0 <= i < n.len() ==> #[trigger] fits_name(n, i)
}

/// The byte at `i` may stand there in a section's name.
pub open spec fn fits_name(n: Seq<u8>, i: int) -> bool {
    ||| 0x61 <= n[i] <= 0x7A
    ||| 0x30 <= n[i] <= 0x39 && i > 0 && n[i - 1] != 0x2E
    ||| n[i] == 0x5F && 0 < i < n.len() - 1 && n[i - 1] != 0x2E && n[i - 1] != 0x5F
    ||| n[i] == 0x2E && 0 < i < n.len() - 1 && n[i - 1] != 0x2E
}

/// The field at `at` has the name of a section, if it has a name.
pub open spec fn names_section(b: Seq<u8>, at: int) -> bool {
    at + 1 < b.len() && b[at + 1] == 0x64 ==> (number(b, at + 2) matches Some((n, p)) ==> p + n <= b.len()
        ==> is_section_name(b.subrange(p, p + n)))
}

/// A body follows the header that ends at `end`, or the header's first field names a section.
pub open spec fn named(b: Seq<u8>, end: int) -> bool {
    ||| end < b.len() && b[end] == 0x5B
    ||| (first_field(b, 4) matches Some(at) ==> names_section(b, at))
}

/// The decoder can walk the header and the body of these bytes.
pub open spec fn walkable(b: Seq<u8>) -> bool {
    match header(b, 4) {
        Step::To(end) => body(b, end as int) != Step::Refuse && named(b, end as int),
        Step::Stop => true,
        Step::Refuse => false,
    }
}

fn take_field_values(b: &[u8], from: usize) -> (r: Step)
    ensures
        r == field_values(b@, from as int),
        r matches Step::To(end) ==> from < end <= b@.len(),
{
    let mut at: usize = from;
    while at < b.len()
        invariant
            from <= at,
            field_values(b@, at as int) == field_values(b@, from as int),
        decreases b@.len() - at,
    {
        if b[at] == 0x29 {
            return Step::To(at + 1);
        }
        let p: usize = if b[at] == 0x2C { at + 1 } else { at };
        match take_value(b, p) {
            Step::To(end) => {
                at = end;
            },
            other => {
                return other;
            },
        }
    }
    Step::Stop
}

pub(crate) fn take_field(b: &[u8], at: usize) -> (r: Step)
    requires
        at < b@.len(),
    ensures
        r == field(b@, at as int),
        r matches Step::To(end) ==> at < end <= b@.len(),
{
    let len: usize = b.len();
    match take_value(b, at + 1) {
        Step::To(p) => {
            if p < len && b[p] == 0x3A {
                take_field_values(b, p + 1)
            } else if p < len && b[p] == 0x29 {
                Step::To(p + 1)
            } else {
                Step::Stop
            }
        },
        other => other,
    }
}

pub(crate) fn take_header(b: &[u8], from: usize) -> (r: Step)
    ensures
        r == header(b@, from as int),
{
    let mut at: usize = from;
    while at < b.len()
        invariant
            from <= at,
            header(b@, at as int) == header(b@, from as int),
        decreases b@.len() - at,
    {
        if b[at] == 0x3E {
            return Step::To(at + 1);
        }
        let step = if b[at] == 0x28 { take_field(b, at) } else { take_value(b, at) };
        match step {
            Step::To(end) => {
                at = end;
            },
            other => {
                return other;
            },
        }
    }
    Step::To(at)
}

fn find_first_field(b: &[u8], from: usize) -> (r: Option<usize>)
    ensures
        match r {
            Some(at) => first_field(b@, from as int) == Some(at as int) && at < b@.len(),
            None => first_field(b@, from as int) is None,
        },
{
    let mut at: usize = from;
    while at < b.len()
        invariant
            from <= at,
            first_field(b@, at as int) == first_field(b@, from as int),
        decreases b@.len() - at,
    {
        if b[at] == 0x3E {
            return None;
        }
        if b[at] == 0x28 {
            return Some(at);
        }
        match take_value(b, at) {
            Step::To(end) => {
                at = end;
            },
            _ => {
                return None;
            },
        }
    }
    None
}

fn take_body_fields(b: &[u8], from: usize) -> (r: Step)
    ensures
        r == body_fields(b@, from as int),
{
    let mut at: usize = from;
    while at < b.len()
        invariant
            from <= at,
            body_fields(b@, at as int) == body_fields(b@, from as int),
        decreases b@.len() - at,
    {
        if b[at] == 0x5D {
            return Step::To(at + 1);
        }
        if b[at] == 0x28 {
            match take_field(b, at) {
                Step::To(end) => {
                    at = end;
                },
                other => {
                    return other;
                },
            }
        } else {
            at = at + 1;
        }
    }
    Step::Stop
}

fn take_body(b: &[u8], at: usize) -> (r: Step)
    ensures
        r == body(b@, at as int),
{
    if at >= b.len() || b[at] != 0x5B {
        return Step::Stop;
    }
    if b.len() - at > 1 && b[at + 1] == 0x28 {
        return take_body_fields(b, at + 1);
    }
    match take_value(b, at + 1) {
        Step::To(count) => match take_value(b, count) {
            Step::To(length) => match take_value(b, length) {
                Step::To(fields) => take_body_fields(b, fields),
                other => other,
            },
            other => other,
        },
        other => other,
    }
}

/// Whether the decoder can walk the body at `at`.
pub fn body_is_walkable(b: &[u8], at: usize) -> (r: bool)
    ensures
        r == (body(b@, at as int) != Step::Refuse),
{
    match take_body(b, at) {
        Step::Refuse => false,
        _ => true,
    }
}

/// Whether the decoder can walk the header.
pub fn header_is_walkable(b: &[u8]) -> (r: bool)
    ensures
        r == (header(b@, 4) != Step::Refuse),
{
    match take_header(b, 4) {
        Step::Refuse => false,
        _ => true,
    }
}

fn has_section_name(n: &[u8]) -> (r: bool)
    ensures
        r == is_section_name(n@),
{
    if n.len() == 0 {
        return false;
    }
    let mut i: usize = 0;
    while i < n.len()
        invariant
            i <= n@.len(),
            forall|k: int| 0 <= k < i ==> #[trigger] fits_name(n@, k),
        decreases n@.len() - i,
    {
        let c: u8 = n[i];
        let inside: bool = 0 < i && i < n.len() - 1;
        let fits: bool = if 0x61 <= c && c <= 0x7A {
            true
        } else if 0x30 <= c && c <= 0x39 {
            i > 0 && n[i - 1] != 0x2E
        } else if c == 0x5F {
            inside && n[i - 1] != 0x2E && n[i - 1] != 0x5F
        } else {
            c == 0x2E && inside && n[i - 1] != 0x2E
        };
        assert(fits == fits_name(n@, i as int));
        if !fits {
            return false;
        }
        i = i + 1;
    }
    true
}

fn field_names_section(b: &[u8], at: usize) -> (r: bool)
    requires
        at < b@.len(),
    ensures
        r == names_section(b@, at as int),
{
    if b.len() - at < 2 || b[at + 1] != 0x64 {
        return true;
    }
    match read_number(b, at + 2) {
        Some((n, p)) => {
            if n > b.len() - p {
                true
            } else {
                has_section_name(vstd::slice::slice_subrange(b, p, p + n))
            }
        },
        None => true,
    }
}

/// Whether the decoder can walk the header and the body of these bytes.
pub fn is_walkable(b: &[u8]) -> (r: bool)
    ensures
        r == walkable(b@),
{
    match take_header(b, 4) {
        Step::To(end) => {
            if !body_is_walkable(b, end) {
                false
            } else if end < b.len() && b[end] == 0x5B {
                true
            } else {
                match find_first_field(b, 4) {
                    Some(at) => field_names_section(b, at),
                    None => true,
                }
            }
        },
        Step::Stop => true,
        Step::Refuse => false,
    }
}

// ── what looks like a signature ──

/// A letter that names a signature's algorithm behind `g`: d, e, f, m, p, r or s.
pub open spec fn signature_letter(c: u8) -> bool {
    c == 0x64 || c == 0x65 || c == 0x66 || c == 0x6D || c == 0x70 || c == 0x72 || c == 0x73
}

/// The bytes at `i` look like a signature of a length that does not fit in a machine word.
pub open spec fn false_signature(b: Seq<u8>, i: int) -> bool {
    &&& i + 1 < b.len()
    &&& b[i] == 0x67
    &&& signature_letter(b[i + 1])
    &&& counted(b, i + 2, 1) == Step::Refuse
}

/// No bytes anywhere look like a signature that does not fit in a machine word. Whoever takes the
/// provenance hash of a document looks for signatures at every position.
pub open spec fn no_false_signature(b: Seq<u8>) -> bool {
    forall|i: int| 0 <= i < b.len() ==> !#[trigger] false_signature(b, i)
}

pub(crate) fn is_signature_letter(c: u8) -> (r: bool)
    ensures
        r == signature_letter(c),
{
    c == 0x64 || c == 0x65 || c == 0x66 || c == 0x6D || c == 0x70 || c == 0x72 || c == 0x73
}

/// Whether no bytes look like a signature that does not fit in a machine word.
pub fn has_no_false_signature(b: &[u8]) -> (r: bool)
    ensures
        r == no_false_signature(b@),
{
    let mut i: usize = 0;
    while i < b.len()
        invariant
            i <= b@.len(),
            forall|k: int| 0 <= k < i ==> !#[trigger] false_signature(b@, k),
        decreases b@.len() - i,
    {
        if b[i] == 0x67 && b.len() - i > 2 && is_signature_letter(b[i + 1]) {
            match take_counted(b, i + 2, 1) {
                Step::Refuse => {
                    assert(false_signature(b@, i as int));
                    return false;
                },
                _ => {},
            }
        }
        assert(!false_signature(b@, i as int));
        i = i + 1;
    }
    true
}

/// The decoder can read a document of these bytes: check its hashes or its signature, and walk
/// its header and its body.
pub open spec fn readable(b: Seq<u8>) -> bool {
    no_false_signature(b) && walkable(b)
}

/// Whether the decoder can read a document of these bytes.
pub fn is_readable(b: &[u8]) -> (r: bool)
    ensures
        r == readable(b@),
{
    has_no_false_signature(b) && is_walkable(b)
}

// ── every type of value by its letter ──

/// A number's marker is `3` to `6`, and one, two, four or eight bytes follow it, high byte first. A number
/// without its bytes is none, nor is one behind any other marker.
pub proof fn law_numbers(b: Seq<u8>, at: int)
    requires
        0 <= at,
    ensures
        at + 1 < b.len() && b[at] == 0x33 ==> number(b, at) == Some((b[at + 1] as nat, at + 2)),
        at + 2 < b.len() && b[at] == 0x34 ==> number(b, at) == Some(((256 * b[at + 1] + b[at + 2]) as nat, at + 3)),
        at + 4 < b.len() && b[at] == 0x35 ==> number(b, at) == Some(
            ((16777216 * b[at + 1] + 65536 * b[at + 2] + 256 * b[at + 3] + b[at + 4]) as nat, at + 5),
        ),
        at + 8 < b.len() && b[at] == 0x36 && b[at + 1] == 0 && b[at + 2] == 0 && b[at + 3] == 0 && b[at + 4] == 0 ==> number(
            b,
            at,
        ) == Some(((16777216 * b[at + 5] + 65536 * b[at + 6] + 256 * b[at + 7] + b[at + 8]) as nat, at + 9)),
        number(b, at) matches Some((n, end)) ==> n <= usize::MAX && (end == at + 2 || end == at + 3 || end == at + 5 || end
            == at + 9) && end <= b.len(),
        at >= b.len() || b[at] < 0x33 || b[at] > 0x36 ==> number(b, at) is None,
{
    reveal_with_fuel(big_endian, 9);
}

/// What a value with a length ends with: a name or plain text (`d`, `a`) behind its bytes; a hash, a tag or
/// a signature (`h`, `m`, `g`), which has a letter more, behind them and one byte; a key (`k`) likewise,
/// with one more letter where that is `s` or `v`. A length that leads beyond the largest number is turned
/// away, and one that leads beyond the bytes is an error.
pub proof fn law_values_with_a_length(b: Seq<u8>, at: int, n: nat, p: int)
    requires
        0 <= at < b.len(),
    ensures
        b[at] == 0x64 || b[at] == 0x61 ==> number(b, at + 1) == Some((n, p)) ==> value(b, at) == (if p + n > usize::MAX {
            Step::Refuse
        } else if p + n > b.len() {
            Step::Stop
        } else {
            Step::To((p + n) as usize)
        }),
        b[at] == 0x68 || b[at] == 0x6D || b[at] == 0x67 || (b[at] == 0x6B && at + 1 < b.len() && b[at + 1] != 0x73 && b[at
            + 1] != 0x76) ==> number(b, at + 2) == Some((n, p)) ==> value(b, at) == (if p + n + 1 > usize::MAX {
            Step::Refuse
        } else if p + n + 1 > b.len() {
            Step::Stop
        } else {
            Step::To((p + n + 1) as usize)
        }),
        b[at] == 0x6B && at + 1 < b.len() && (b[at + 1] == 0x73 || b[at + 1] == 0x76) ==> number(b, at + 3) == Some((n, p))
            ==> value(b, at) == (if p + n + 1 > usize::MAX {
            Step::Refuse
        } else if p + n + 1 > b.len() {
            Step::Stop
        } else {
            Step::To((p + n + 1) as usize)
        }),
        b[at] == 0x76 ==> number(b, at + 2) == Some((n, p)) ==> value(b, at) == (if p + (n + 7) / 8 > b.len() {
            Step::Stop
        } else {
            Step::To((p + (n + 7) / 8) as usize)
        }),
        b[at] == 0x6F || b[at] == 0x62 || b[at] == 0x6C || b[at] == 0x7A || b[at] == 0x79 ==> number(b, at + 1) == Some(
            (n, p),
        ) ==> value(b, at) == Step::To(p as usize),
{
    reveal(value);
}

/// The size of every value that has one by its type, letters included, where the bytes suffice: integers
/// (`u`, `i`), floats (`f`), pairs of them (`j`), colours (`r`), times (`e`) and opcodes.
pub proof fn law_values_of_one_size(b: Seq<u8>, at: int)
    requires
        0 <= at,
        at + 19 <= b.len() <= usize::MAX,
    ensures
        b[at] == 0x75 || b[at] == 0x69 ==> {
            &&& b[at + 1] == 0x33 ==> value(b, at) == Step::To((at + 3) as usize)
            &&& b[at + 1] == 0x34 ==> value(b, at) == Step::To((at + 4) as usize)
            &&& b[at + 1] == 0x35 ==> value(b, at) == Step::To((at + 6) as usize)
            &&& b[at + 1] == 0x36 ==> value(b, at) == Step::To((at + 10) as usize)
            &&& b[at + 1] == 0x37 ==> value(b, at) == Step::To((at + 18) as usize)
        },
        b[at] == 0x75 && (b[at + 1] == 0 || b[at + 1] == 255) ==> value(b, at) == Step::To((at + 2) as usize),
        b[at] == 0x75 && b[at + 1] == 0x30 ==> value(b, at) == Step::To((at + 3) as usize),
        b[at] == 0x66 && b[at + 1] == 0x35 ==> value(b, at) == Step::To((at + 6) as usize),
        b[at] == 0x66 && b[at + 1] == 0x36 ==> value(b, at) == Step::To((at + 10) as usize),
        b[at] == 0x6A && b[at + 1] == 0x35 ==> value(b, at) == Step::To((at + 10) as usize),
        b[at] == 0x6A && b[at + 1] == 0x36 ==> value(b, at) == Step::To((at + 18) as usize),
        b[at] == 0x72 && b[at + 1] == 0x63 ==> value(b, at) == Step::To((at + 3) as usize),
        b[at] == 0x72 && b[at + 1] == 0x61 ==> value(b, at) == Step::To((at + 6) as usize),
        b[at] == 0x72 && b[at + 1] == 0x74 ==> value(b, at) == Step::To((at + 10) as usize),
        b[at] == 0x72 && b[at + 1] == 0x70 ==> value(b, at) == Step::To((at + 4) as usize),
        b[at] == 0x65 && b[at + 1] == 0x35 ==> value(b, at) == Step::To((at + 6) as usize),
        b[at] == 0x65 && b[at + 1] == 0x36 ==> value(b, at) == Step::To((at + 10) as usize),
        b[at] == 0x65 && b[at + 1] == 0x37 ==> value(b, at) == Step::To((at + 18) as usize),
        b[at] == 0x65 && b[at + 1] == 0x66 && b[at + 2] == 0x35 ==> value(b, at) == Step::To((at + 7) as usize),
        b[at] == 0x65 && b[at + 1] == 0x66 && b[at + 2] == 0x36 ==> value(b, at) == Step::To((at + 11) as usize),
        b[at] == 0x65 && (b[at + 1] == 0x75 || b[at + 1] == 0x69) ==> {
            &&& b[at + 2] == 0x33 ==> value(b, at) == Step::To((at + 4) as usize)
            &&& b[at + 2] == 0x34 ==> value(b, at) == Step::To((at + 5) as usize)
            &&& b[at + 2] == 0x35 ==> value(b, at) == Step::To((at + 7) as usize)
            &&& b[at + 2] == 0x36 ==> value(b, at) == Step::To((at + 11) as usize)
        },
        b[at] == 0x7B ==> value(b, at) == Step::To((at + 4) as usize),
        b[at] == 0x77 && b[at + 1] == 0x36 ==> value(b, at) == Step::To((at + 10) as usize),
        b[at] == 0x77 && b[at + 1] == 0x37 ==> value(b, at) == Step::To((at + 18) as usize),
        b[at] == 0x77 && b[at + 1] == 0x6D && b[at + 2] == 0x33 ==> value(b, at) == Step::To((at + 4) as usize),
        b[at] == 0x77 && b[at + 1] == 0x6D && b[at + 2] == 0x37 ==> value(b, at) == Step::To((at + 19) as usize),
        b[at] == 0x77 && b[at + 1] == 0x33 ==> value(b, at) == (if b[at + 2] < 180 {
            Step::To((at + 3) as usize)
        } else {
            Step::Refuse
        }),
        b[at] == 0x77 && b[at + 1] == 0x34 ==> value(b, at) == (if 256 * b[at + 2] + b[at + 3] < 64980 {
            Step::To((at + 4) as usize)
        } else {
            Step::Refuse
        }),
{
    reveal(value);
    reveal_with_fuel(big_endian, 3);
}

/// Where a value is turned away there is a reason in its bytes. A value with a length has one that leads
/// beyond the largest number, a text claims more characters than there are bits or than sixteen bytes each
/// can be had for, and world coordinates are off the globe. Else it is a tensor.
pub proof fn law_what_is_turned_away(b: Seq<u8>, at: int)
    requires
        0 <= at,
        b.len() <= usize::MAX,
        value(b, at) == Step::Refuse,
    ensures
        at < b.len(),
        ({
            ||| ({
                &&& b[at] == 0x64 || b[at] == 0x61 || b[at] == 0x68 || b[at] == 0x6D || b[at] == 0x67 || b[at] == 0x6B
                &&& exists|p: int|
                    at < p <= at + 3 && (#[trigger] number(b, p) matches Some((n, end)) && end + n + 1 > usize::MAX)
            })
            ||| b[at] == 0x78 && (number(b, at + 1) matches Some((n, _)) && (n > 8 * b.len() || 16 * n > usize::MAX))
            ||| b[at] == 0x77 && at + 1 < b.len() && 0x33 <= b[at + 1] <= 0x35
            ||| b[at] == 0x70 || b[at] == 0x74 || b[at] == 0x71
        }),
{
    reveal(value);
    if b[at] == 0x64 || b[at] == 0x61 {
        assert(number(b, at + 1) is Some);
    } else if b[at] == 0x68 || b[at] == 0x6D || b[at] == 0x67 {
        assert(number(b, at + 2) is Some);
    } else if b[at] == 0x6B {
        assert(number(b, at + 2) is Some || number(b, at + 3) is Some);
    }
}

/// Somewhere from `at` on there is a value that is turned away.
pub open spec fn turned_away_from(b: Seq<u8>, at: int) -> bool {
    exists|p: int| at <= p < b.len() && #[trigger] value(b, p) == Step::Refuse
}

proof fn lemma_values_turned_away(b: Seq<u8>, at: int)
    requires
        0 <= at,
        b.len() <= usize::MAX,
        field_values(b, at) == Step::Refuse,
    ensures
        turned_away_from(b, at),
    decreases b.len() - at,
{
    let p = if b[at] == 0x2C { at + 1 } else { at };
    match value(b, p) {
        Step::To(end) => {
            lemma_values_turned_away(b, end as int);
        },
        _ => {
            law_what_is_turned_away(b, p);
        },
    }
}

proof fn lemma_field_turned_away(b: Seq<u8>, at: int)
    requires
        0 <= at,
        b.len() <= usize::MAX,
        field(b, at) == Step::Refuse,
    ensures
        turned_away_from(b, at),
{
    match value(b, at + 1) {
        Step::To(p) => {
            lemma_value(b, at + 1);
            lemma_values_turned_away(b, p + 1);
        },
        _ => {
            law_what_is_turned_away(b, at + 1);
        },
    }
}

proof fn lemma_header_turned_away(b: Seq<u8>, at: int)
    requires
        0 <= at,
        b.len() <= usize::MAX,
        header(b, at) == Step::Refuse,
    ensures
        turned_away_from(b, at),
    decreases b.len() - at,
{
    match piece(b, at) {
        Step::To(end) => {
            lemma_header_turned_away(b, end as int);
        },
        _ => {
            if b[at] == 0x28 {
                lemma_field_turned_away(b, at);
            } else {
                law_what_is_turned_away(b, at);
            }
        },
    }
}

proof fn lemma_fields_turned_away(b: Seq<u8>, at: int)
    requires
        0 <= at,
        b.len() <= usize::MAX,
        body_fields(b, at) == Step::Refuse,
    ensures
        turned_away_from(b, at),
    decreases b.len() - at,
{
    if b[at] == 0x28 {
        match field(b, at) {
            Step::To(end) => {
                lemma_fields_turned_away(b, end as int);
            },
            _ => {
                lemma_field_turned_away(b, at);
            },
        }
    } else {
        lemma_fields_turned_away(b, at + 1);
    }
}

proof fn lemma_body_turned_away(b: Seq<u8>, at: int)
    requires
        0 <= at,
        b.len() <= usize::MAX,
        body(b, at) == Step::Refuse,
    ensures
        turned_away_from(b, at),
{
    if at + 1 < b.len() && b[at + 1] == 0x28 {
        lemma_fields_turned_away(b, at + 1);
    } else {
        lemma_value(b, at + 1);
        match value(b, at + 1) {
            Step::To(count) => {
                lemma_value(b, count as int);
                match value(b, count as int) {
                    Step::To(length) => {
                        lemma_value(b, length as int);
                        match value(b, length as int) {
                            Step::To(fields) => {
                                lemma_fields_turned_away(b, fields as int);
                            },
                            _ => {
                                law_what_is_turned_away(b, length as int);
                            },
                        }
                    },
                    _ => {
                        law_what_is_turned_away(b, count as int);
                    },
                }
            },
            _ => {
                law_what_is_turned_away(b, at + 1);
            },
        }
    }
}

/// Bytes are let through to the decoder unless some value in them is turned away, or they have no body and
/// the first field of their header has a name that no section has.
pub proof fn law_what_is_let_through(b: Seq<u8>)
    requires
        b.len() <= usize::MAX,
        forall|p: int| 0 <= p < b.len() ==> #[trigger] value(b, p) != Step::Refuse,
    ensures
        header(b, 4) matches Step::To(end) ==> end < b.len() && b[end as int] == 0x5B ==> walkable(b),
        header(b, 4) matches Step::To(end) ==> end >= b.len() || b[end as int] != 0x5B ==> (walkable(b) <==> (first_field(
            b,
            4,
        ) matches Some(at) ==> names_section(b, at))),
        header(b, 4) is Stop ==> walkable(b),
        header(b, 4) != Step::Refuse,
{
    if header(b, 4) == Step::Refuse {
        lemma_header_turned_away(b, 4);
    }
    if header(b, 4) is To && body(b, header(b, 4)->To_0 as int) == Step::Refuse {
        lemma_body_turned_away(b, header(b, 4)->To_0 as int);
    }
}

/// Bytes with a value that is turned away do not get to the decoder when it is the first one of the header,
/// or the first one behind the bracket that opens the body.
pub proof fn law_what_is_held_back(b: Seq<u8>)
    requires
        4 < b.len() <= usize::MAX,
    ensures
        b[4] != 0x3E && b[4] != 0x28 && value(b, 4) == Step::Refuse ==> !walkable(b),
        b[4] == 0x28 && value(b, 5) == Step::Refuse ==> !walkable(b),
        header(b, 4) matches Step::To(end) ==> end + 1 < b.len() && b[end as int] == 0x5B && b[end + 1] != 0x28 && value(
            b,
            end + 1,
        ) == Step::Refuse ==> !walkable(b),
{
}

/// The letters of a section's name: `a` to `z` anywhere; digits behind any of its characters but a dot;
/// underscores and dots only within it, and never behind a dot, nor an underscore behind another.
pub proof fn law_section_names(n: Seq<u8>, i: int)
    requires
        is_section_name(n),
        0 <= i < n.len(),
    ensures
        97 <= n[i] <= 122 || 48 <= n[i] <= 57 || n[i] == 95 || n[i] == 46,
        !(97 <= n[i] <= 122) ==> i > 0 && n[i - 1] != 46,
        n[i] == 95 || n[i] == 46 ==> i + 1 < n.len(),
        n[i] == 95 ==> n[i - 1] != 95,
{
    assert(fits_name(n, i));
}

/// A name of lower-case letters alone is a section's name, and no empty one is.
pub proof fn law_plain_names(n: Seq<u8>)
    ensures
        n.len() == 0 ==> !is_section_name(n),
        n.len() > 0 && (forall|i: int| 0 <= i < n.len() ==> 97 <= #[trigger] n[i] <= 122) ==> is_section_name(n),
{
    if n.len() > 0 && forall|i: int| 0 <= i < n.len() ==> 97 <= #[trigger] n[i] <= 122 {
        assert forall|i: int| 0 <= i < n.len() implies #[trigger] fits_name(n, i) by {
            assert(97 <= n[i] <= 122);
        }
    }
}

/// What looks like a signature that does not fit: a `g`, one of the letters `d`, `e`, `f`, `m`, `p`, `r` and
/// `s`, and a length that leads, with one byte more, beyond the largest number.
pub proof fn law_false_signatures(b: Seq<u8>, i: int)
    requires
        0 <= i,
        b.len() <= usize::MAX,
    ensures
        false_signature(b, i) <==> {
            &&& i + 1 < b.len()
            &&& b[i] == 103
            &&& b[i + 1] == 100 || b[i + 1] == 101 || b[i + 1] == 102 || b[i + 1] == 109 || b[i + 1] == 112 || b[i + 1]
                == 114 || b[i + 1] == 115
            &&& number(b, i + 2) matches Some((n, end)) && end + n + 1 > usize::MAX
        },
{
}

/// Bytes are readable when they get to the decoder and hold nothing that looks like a signature that does
/// not fit; without a `g` there is no such thing in them.
pub proof fn law_readable(b: Seq<u8>)
    ensures
        readable(b) ==> walkable(b),
        walkable(b) && (forall|i: int| 0 <= i < b.len() ==> #[trigger] b[i] != 103) ==> readable(b),
        walkable(b) && !readable(b) ==> exists|i: int| 0 <= i < b.len() && #[trigger] false_signature(b, i),
{
}

// ── how values make up a document ──

/// A text is left to the decoder unless it claims more characters than there are bits, or than sixteen bytes
/// each can be had for; an address on the network or on the globe always is; a count without letters is a
/// number.
pub proof fn law_values_for_the_decoder(b: Seq<u8>, at: int, n: nat, p: int)
    requires
        0 <= at,
        at + 1 < b.len(),
    ensures
        b[at] == 0x78 && number(b, at + 1) == Some((n, p)) ==> value(b, at) == (if n <= 8 * b.len() && 16 * n <= usize::MAX {
            parsed(b, at)
        } else {
            Step::Refuse
        }),
        b[at] == 0x78 && number(b, at + 1) is None ==> value(b, at) == parsed(b, at),
        b[at] == 0x77 && b[at + 1] == 0x61 ==> value(b, at) == parsed(b, at),
        b[at] == 0x6E && 97 <= b[at + 1] <= 122 ==> value(b, at) == parsed(b, at),
        b[at] == 0x6E && !(97 <= b[at + 1] <= 122) && number(b, at + 1) == Some((n, p)) ==> value(b, at) == Step::To(p as usize),
        b[at] == 0x70 && number(b, at + 1) == Some((n, p)) ==> value(b, at) == (if n <= b.len() && 16 * n <= usize::MAX {
            parsed(b, at)
        } else {
            Step::Refuse
        }),
        b[at] == 0x74 && b[at + 1] == 0x6E && number(b, at + 2) == Some((n, p)) ==> value(b, at) == (if 16 * n + b.len()
            <= usize::MAX {
            parsed(b, at)
        } else {
            Step::Refuse
        }),
{
    reveal(value);
}

/// A tensor of one or two dimensions is left to the decoder when the product of its dimensions is a number
/// of elements that sixteen bytes each can be had for, and turned away when it is not.
pub proof fn law_tensors(b: Seq<u8>, at: int, p: int, x: nat, q: int, y: nat, r: int)
    requires
        0 <= at,
        at + 1 < b.len(),
        b.len() <= usize::MAX,
        b[at] == 0x71 || (b[at] == 0x74 && b[at + 1] != 0x6E),
    ensures
        number(b, at + 1) == Some((1nat, p)) && number(b, p + 2) == Some((x, q)) ==> value(b, at) == (if 16 * x + b.len()
            <= usize::MAX {
            parsed(b, at)
        } else {
            Step::Refuse
        }),
        number(b, at + 1) == Some((2nat, p)) && number(b, p + 2) == Some((x, q)) && number(b, q) == Some((y, r)) ==> value(b, at)
            == (if 2 <= b.len() && x * y <= usize::MAX && 16 * (x * y) + b.len() <= usize::MAX {
            parsed(b, at)
        } else {
            Step::Refuse
        }),
{
    reveal(value);
    reveal_with_fuel(shape_fits, 3);
    assert(1 * x == x);
    assert(1nat * x == x);
}

/// A field is `(`, its name, and `)`; or a colon behind the name and values with or without commas between
/// them, up to `)`.
pub proof fn law_fields(b: Seq<u8>, at: int, p: usize, q: usize)
    requires
        0 <= at,
        b.len() <= usize::MAX,
        value(b, at + 1) == Step::To(p),
        p < b.len(),
    ensures
        b[p as int] == 0x29 ==> field(b, at) == Step::To((p + 1) as usize),
        b[p as int] == 0x3A && p + 1 < b.len() && b[p + 1] == 0x29 ==> field(b, at) == Step::To((p + 2) as usize),
        b[p as int] == 0x3A && p + 1 < b.len() && b[p + 1] != 0x29 && b[p + 1] != 0x2C && value(b, p + 1) == Step::To(q) && q
            < b.len() && b[q as int] == 0x29 ==> field(b, at) == Step::To((q + 1) as usize),
        b[p as int] != 0x29 && b[p as int] != 0x3A ==> field(b, at) == Step::Stop,
{
    reveal_with_fuel(field_values, 3);
    if b[p as int] == 0x3A && p + 1 < b.len() {
        lemma_value(b, p + 1);
    }
}

/// The values of a field follow one another, each with or without a comma in front.
pub proof fn law_values_in_a_row(b: Seq<u8>, at: int, q: usize)
    requires
        0 <= at < b.len(),
        b.len() <= usize::MAX,
    ensures
        b[at] == 0x29 ==> field_values(b, at) == Step::To((at + 1) as usize),
        b[at] != 0x29 && b[at] != 0x2C && value(b, at) == Step::To(q) ==> field_values(b, at) == field_values(b, q as int),
        b[at] == 0x2C && value(b, at + 1) == Step::To(q) ==> field_values(b, at) == field_values(b, q as int),
        b[at] != 0x29 && b[at] != 0x2C && value(b, at) == Step::Refuse ==> field_values(b, at) == Step::Refuse,
        b[at] == 0x2C && value(b, at + 1) == Step::Refuse ==> field_values(b, at) == Step::Refuse,
{
    lemma_value(b, at);
    lemma_value(b, at + 1);
}

/// A header is fields and values up to `>`; a body is `[`, fields and other bytes between them, and `]`, with
/// a name, a count and a length in front of the fields or not.
pub proof fn law_headers_and_bodies(b: Seq<u8>, at: int, q: usize, count: usize, length: usize)
    requires
        0 <= at < b.len(),
        b.len() <= usize::MAX,
    ensures
        b[at] == 0x3E ==> header(b, at) == Step::To((at + 1) as usize),
        b[at] == 0x28 && field(b, at) == Step::To(q) && at < q <= b.len() ==> header(b, at) == header(b, q as int),
        b[at] != 0x3E && b[at] != 0x28 && value(b, at) == Step::To(q) ==> header(b, at) == header(b, q as int),
        b[at] == 0x5D ==> body_fields(b, at) == Step::To((at + 1) as usize),
        b[at] == 0x28 && field(b, at) == Step::To(q) && at < q <= b.len() ==> body_fields(b, at) == body_fields(b, q as int),
        b[at] == 0x28 && field(b, at) == Step::Refuse ==> body_fields(b, at) == Step::Refuse,
        b[at] != 0x5D && b[at] != 0x28 ==> body_fields(b, at) == body_fields(b, at + 1),
        b[at] == 0x5B && at + 1 < b.len() && b[at + 1] == 0x28 ==> body(b, at) == body_fields(b, at + 1),
        b[at] == 0x5B && at + 1 < b.len() && b[at + 1] != 0x28 && value(b, at + 1) == Step::To(count) && value(b, count as int)
            == Step::To(length) && value(b, length as int) == Step::To(q) ==> body(b, at) == body_fields(b, q as int),
        b[at] != 0x5B ==> body(b, at) == Step::Stop,
{
    lemma_value(b, at);
}

/// The first field of a header is the first `(` where a field or a value may start in it. It names a section
/// unless it has a name, which is a `d` and its letters, that no section has.
pub proof fn law_first_fields(b: Seq<u8>, at: int, q: usize, n: nat, p: int)
    requires
        0 <= at < b.len(),
        b.len() <= usize::MAX,
    ensures
        b[at] == 0x28 ==> first_field(b, at) == Some(at),
        b[at] == 0x3E ==> first_field(b, at) is None,
        b[at] != 0x28 && b[at] != 0x3E && value(b, at) == Step::To(q) ==> first_field(b, at) == first_field(b, q as int),
        at + 1 < b.len() && b[at + 1] == 0x64 && number(b, at + 2) == Some((n, p)) && p + n <= b.len() ==> (names_section(b, at)
            <==> is_section_name(b.subrange(p, p + n))),
        at + 1 >= b.len() || b[at + 1] != 0x64 ==> names_section(b, at),
{
    lemma_value(b, at);
}

} // verus!

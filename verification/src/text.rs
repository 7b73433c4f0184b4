//! Text helpers: decimal and hexadecimal numbers, searching, trimming, splitting.
use vstd::prelude::*;

verus! {

/// `String::push` appends the given character and nothing else.
pub assume_specification[ String::push ](s: &mut String, c: char)
    ensures
        final(s)@ == old(s)@.push(c),
;

/// The characters of `s`, in order.
pub fn chars_of(s: &str) -> (r: Vec<char>)
    ensures
        r@ == s@,
{
    let mut out: Vec<char> = Vec::new();
    for c in it: s.chars()
        invariant
            out@ == s@.take(it.index()),
            it.seq() == s@,
    {
        out.push(c);
        assert(out@ == s@.take(it.index() + 1));
    }
    assert(s@.take(s@.len() as int) == s@);
    out
}

/// The text made of `chars[from..to]`.
pub fn string_of(chars: &Vec<char>, from: usize, to: usize) -> (r: String)
    requires
        from <= to <= chars@.len(),
    ensures
        r@ == chars@.subrange(from as int, to as int),
{
    let mut out = String::new();
    let mut i: usize = from;
    while i < to
        invariant
            from <= i <= to <= chars@.len(),
            out@ == chars@.subrange(from as int, i as int),
        decreases to - i,
    {
        out.push(chars[i]);
        i = i + 1;
        assert(out@ == chars@.subrange(from as int, i as int));
    }
    out
}

/// Whether two texts are the same characters.
pub fn same_text(a: &str, b: &str) -> (r: bool)
    ensures
        r == (a@ == b@),
{
    a.to_owned() == b.to_owned()
}

/// Whether two byte strings are equal.
pub fn same_bytes(a: &[u8], b: &[u8]) -> (r: bool)
    ensures
        r == (a@ == b@),
{
    if a.len() != b.len() {
        return false;
    }
    let mut i: usize = 0;
    while i < a.len()
        invariant
            a@.len() == b@.len(),
            i <= a@.len(),
            forall|j: int| 0 <= j < i ==> a@[j] == b@[j],
        decreases a@.len() - i,
    {
        if a[i] != b[i] {
            return false;
        }
        i = i + 1;
    }
    assert(a@ == b@);
    true
}

/// A copy of a byte string.
pub fn copy_bytes(bytes: &Vec<u8>) -> (r: Vec<u8>)
    ensures
        r@ == bytes@,
{
    let mut out: Vec<u8> = Vec::new();
    out.extend_from_slice(bytes.as_slice());
    assert(out@ == bytes@);
    out
}

// ── decimal numbers ──

pub open spec fn digit_char(d: nat) -> char {
    ('0' as u8 + d) as char
}

/// The decimal digits of `n`, most significant first, without leading zeros.
pub open spec fn decimal(n: nat) -> Seq<char>
    decreases n,
{
    if n < 10 {
        seq![digit_char(n)]
    } else {
        decimal(n / 10).push(digit_char(n % 10))
    }
}

/// `n` in decimal.
pub fn decimal_text(n: u64) -> (r: String)
    ensures
        r@ == decimal(n as nat),
    decreases n,
{
    let d: u8 = (n % 10) as u8;
    let c: char = (48u8 + d) as char;
    if n < 10 {
        let mut out = String::new();
        out.push(c);
        assert(out@ == seq![digit_char(n as nat)]);
        out
    } else {
        let mut out = decimal_text(n / 10);
        out.push(c);
        out
    }
}

pub open spec fn is_digit(c: char) -> bool {
    '0' <= c <= '9'
}

pub open spec fn digit_value(c: char) -> nat {
    (c as u32 - '0' as u32) as nat
}

/// The number that a row of digits writes down.
pub open spec fn digits_value(s: Seq<char>) -> nat
    decreases s.len(),
{
    if s.len() == 0 {
        0
    } else {
        digits_value(s.drop_last()) * 10 + digit_value(s.last())
    }
}

pub open spec fn all_digits(s: Seq<char>) -> bool {
    forall|i: int| 0 <= i < s.len() ==> is_digit(#[trigger] s[i])
}

/// A number's text without its optional leading `+`.
pub open spec fn unsigned_part(s: Seq<char>) -> Seq<char> {
    if s.len() > 0 && s[0] == '+' {
        s.skip(1)
    } else {
        s
    }
}

/// What a text says as an unsigned 64-bit number: at least one digit, nothing but digits, an
/// optional leading `+`, and a value that fits. Anything else says nothing.
pub open spec fn parsed_u64(s: Seq<char>) -> Option<u64> {
    let digits = unsigned_part(s);
    if digits.len() > 0 && all_digits(digits) && digits_value(digits) <= u64::MAX {
        Some(digits_value(digits) as u64)
    } else {
        None
    }
}

proof fn lemma_digits_value_grows(s: Seq<char>, k: int)
    requires
        0 <= k <= s.len(),
    ensures
        digits_value(s.take(k)) <= digits_value(s),
    decreases s.len() - k,
{
    if k == s.len() {
        assert(s.take(k) == s);
    } else {
        lemma_digits_value_grows(s, k + 1);
        assert(s.take(k + 1).drop_last() == s.take(k));
    }
}

/// Read an unsigned 64-bit number.
pub fn parse_u64(text: &str) -> (r: Option<u64>)
    ensures
        r == parsed_u64(text@),
{
    let chars = chars_of(text);
    let ghost s = text@;
    let plus: bool = chars.len() > 0 && chars[0] == '+';
    let start: usize = if plus { 1 } else { 0 };
    let ghost digits = unsigned_part(s);
    assert(digits == s.skip(start as int));
    if start == chars.len() {
        return None;
    }
    let mut value: u64 = 0;
    let mut i: usize = start;
    while i < chars.len()
        invariant
            start <= i <= chars@.len(),
            chars@ == s,
            text@ == s,
            start <= 1,
            digits == s.skip(start as int),
            digits == unsigned_part(s),
            digits.len() > 0,
            forall|j: int| 0 <= j < i - start ==> is_digit(#[trigger] digits[j]),
            value == digits_value(digits.take(i - start)),
        decreases chars@.len() - i,
    {
        let c: char = chars[i];
        assert(digits[i - start] == c);
        if !(c >= '0' && c <= '9') {
            assert(!is_digit(digits[i - start]));
            assert(!all_digits(digits));
            return None;
        }
        let d: u64 = (c as u32 - 48) as u64;
        proof {
            assert(digits.take(i - start + 1).drop_last() == digits.take(i - start));
            lemma_digits_value_grows(digits, i - start + 1);
        }
        if value > (u64::MAX - d) / 10 {
            return None;
        }
        value = value * 10 + d;
        i = i + 1;
    }
    assert(digits.take(digits.len() as int) == digits);
    Some(value)
}

// ── hexadecimal ──

pub open spec fn nibble_char(n: nat) -> char {
    if n < 10 {
        ('0' as u8 + n) as char
    } else {
        ('a' as u8 + (n - 10)) as char
    }
}

/// Two lower-case hexadecimal characters per byte.
pub open spec fn hex(bytes: Seq<u8>) -> Seq<char> {
    Seq::new(
        2 * bytes.len(),
        |i: int| nibble_char(if i % 2 == 0 { bytes[i / 2] as nat / 16 } else { bytes[i / 2] as nat % 16 }),
    )
}

fn nibble(n: u8) -> (c: char)
    requires
        n < 16,
    ensures
        c == nibble_char(n as nat),
{
    if n < 10 {
        (48u8 + n) as char
    } else {
        (97u8 + (n - 10)) as char
    }
}

/// `bytes` as lower-case hexadecimal.
pub fn hex_text(bytes: &[u8]) -> (r: String)
    ensures
        r@ == hex(bytes@),
{
    let mut out = String::new();
    let mut i: usize = 0;
    assert(out@ == hex(bytes@.take(0)));
    while i < bytes.len()
        invariant
            i <= bytes@.len(),
            out@ == hex(bytes@.take(i as int)),
        decreases bytes@.len() - i,
    {
        let b: u8 = bytes[i];
        out.push(nibble(b / 16));
        out.push(nibble(b % 16));
        proof {
            let longer = bytes@.take(i + 1);
            assert(out@.len() == hex(longer).len());
            assert forall|k: int| 0 <= k < out@.len() implies out@[k] == hex(longer)[k] by {
                if k < 2 * i {
                    assert(out@[k] == hex(bytes@.take(i as int))[k]);
                }
            }
            assert(out@ == hex(longer));
        }
        i = i + 1;
    }
    assert(bytes@.take(bytes@.len() as int) == bytes@);
    out
}

/// The value of one hexadecimal digit of either case.
pub open spec fn nibble_value(c: char) -> Option<u8> {
    if '0' <= c <= '9' {
        Some((c as u32 - '0' as u32) as u8)
    } else if 'a' <= c <= 'f' {
        Some((c as u32 - 'a' as u32 + 10) as u8)
    } else if 'A' <= c <= 'F' {
        Some((c as u32 - 'A' as u32 + 10) as u8)
    } else {
        None
    }
}

fn read_nibble(c: char) -> (r: Option<u8>)
    ensures
        r == nibble_value(c),
        r matches Some(n) ==> n < 16,
{
    if c >= '0' && c <= '9' {
        Some((c as u32 - 48) as u8)
    } else if c >= 'a' && c <= 'f' {
        Some((c as u32 - 97 + 10) as u8)
    } else if c >= 'A' && c <= 'F' {
        Some((c as u32 - 65 + 10) as u8)
    } else {
        None
    }
}

/// The text is 64 hexadecimal digits.
pub open spec fn is_pubkey_hex(s: Seq<char>) -> bool {
    s.len() == 64 && forall|i: int| 0 <= i < 64 ==> nibble_value(#[trigger] s[i]) is Some
}

/// The bytes that a row of hexadecimal digit pairs stands for.
pub open spec fn hex_bytes(s: Seq<char>) -> Seq<u8> {
    Seq::new(
        s.len() / 2,
        |i: int| (nibble_value(s[2 * i])->0 * 16 + nibble_value(s[2 * i + 1])->0) as u8,
    )
}

/// 64 hexadecimal digits back to a device public key; `None` for anything malformed.
pub fn decode_pubkey_hex(text: &str) -> (r: Option<[u8; 32]>)
    ensures
        r is Some <==> is_pubkey_hex(text@),
        r matches Some(key) ==> key@ == hex_bytes(text@),
{
    let chars = chars_of(text);
    if chars.len() != 64 {
        return None;
    }
    let mut out: [u8; 32] = [0u8; 32];
    let mut i: usize = 0;
    while i < 32
        invariant
            i <= 32,
            chars@ == text@,
            chars@.len() == 64,
            forall|j: int| 0 <= j < 2 * i ==> nibble_value(#[trigger] chars@[j]) is Some,
            forall|j: int| 0 <= j < i ==> #[trigger] out@[j] == hex_bytes(text@)[j],
        decreases 32 - i,
    {
        let hi = read_nibble(chars[2 * i]);
        let lo = read_nibble(chars[2 * i + 1]);
        match (hi, lo) {
            (Some(h), Some(l)) => {
                out[i] = h * 16 + l;
                assert(out@[i as int] == hex_bytes(text@)[i as int]);
            },
            _ => {
                assert(nibble_value(chars@[2 * i as int]) is None || nibble_value(chars@[2 * i + 1]) is None);
                return None;
            },
        }
        i = i + 1;
    }
    assert(out@ == hex_bytes(text@));
    Some(out)
}

/// Writing a key as hexadecimal and reading it back gives the key.
pub proof fn law_hex_round_trip(key: Seq<u8>)
    requires
        key.len() == 32,
    ensures
        is_pubkey_hex(hex(key)),
        hex_bytes(hex(key)) == key,
{
    assert forall|i: int| 0 <= i < 64 implies nibble_value(#[trigger] hex(key)[i]) is Some by {}
    assert forall|i: int| 0 <= i < 32 implies hex_bytes(hex(key))[i] == key[i] by {
        let b = key[i];
        assert(hex(key)[2 * i] == nibble_char(b as nat / 16));
        assert(hex(key)[2 * i + 1] == nibble_char(b as nat % 16));
    }
    assert(hex_bytes(hex(key)) == key);
}

// ── searching ──

/// `needle` stands in `hay` from position `at` on.
pub open spec fn occurs_at(hay: Seq<char>, needle: Seq<char>, at: int) -> bool {
    0 <= at && at + needle.len() <= hay.len() && hay.subrange(at, at + needle.len()) == needle
}

/// `needle` stands somewhere in `hay`.
pub open spec fn occurs(hay: Seq<char>, needle: Seq<char>) -> bool {
    exists|at: int| occurs_at(hay, needle, at)
}

fn matches_at(hay: &Vec<char>, needle: &Vec<char>, at: usize) -> (r: bool)
    requires
        at <= hay@.len(),
    ensures
        r == occurs_at(hay@, needle@, at as int),
{
    if needle.len() > hay.len() - at {
        return false;
    }
    let mut i: usize = 0;
    while i < needle.len()
        invariant
            i <= needle@.len(),
            at + needle@.len() <= hay@.len() <= usize::MAX,
            forall|j: int| 0 <= j < i ==> hay@[at + j] == needle@[j],
        decreases needle@.len() - i,
    {
        if hay[at + i] != needle[i] {
            assert(hay@.subrange(at as int, at + needle@.len())[i as int] != needle@[i as int]);
            return false;
        }
        i = i + 1;
    }
    assert(hay@.subrange(at as int, at + needle@.len()) == needle@);
    true
}

/// Whether `needle` occurs in `hay`.
pub fn contains_text(hay: &str, needle: &str) -> (r: bool)
    ensures
        r == occurs(hay@, needle@),
{
    let h = chars_of(hay);
    let n = chars_of(needle);
    let mut at: usize = 0;
    while at < h.len()
        invariant
            at <= h@.len(),
            h@ == hay@,
            n@ == needle@,
            forall|k: int| 0 <= k < at ==> !occurs_at(h@, n@, k),
        decreases h@.len() - at,
    {
        if matches_at(&h, &n, at) {
            return true;
        }
        at = at + 1;
    }
    let last = matches_at(&h, &n, at);
    proof {
        if !last {
            assert forall|k: int| !occurs_at(h@, n@, k) by {}
        }
    }
    last
}

/// What follows `prefix` at the start of `text`, when it stands there.
pub open spec fn stripped_prefix(text: Seq<char>, prefix: Seq<char>) -> Option<Seq<char>> {
    if occurs_at(text, prefix, 0) {
        Some(text.skip(prefix.len() as int))
    } else {
        None
    }
}

/// `text` without `prefix`, or `None` when it does not begin with it.
pub fn strip_prefix_text(text: &str, prefix: &str) -> (r: Option<String>)
    ensures
        match r {
            Some(rest) => stripped_prefix(text@, prefix@) == Some(rest@),
            None => stripped_prefix(text@, prefix@) is None,
        },
{
    let t = chars_of(text);
    let p = chars_of(prefix);
    if matches_at(&t, &p, 0) {
        let rest = string_of(&t, p.len(), t.len());
        assert(rest@ == text@.skip(prefix@.len() as int));
        Some(rest)
    } else {
        None
    }
}

/// `text` with every leading repetition of `prefix` taken off.
pub open spec fn without_leading(text: Seq<char>, prefix: Seq<char>) -> Seq<char>
    decreases text.len(),
{
    if prefix.len() > 0 && occurs_at(text, prefix, 0) {
        without_leading(text.skip(prefix.len() as int), prefix)
    } else {
        text
    }
}

/// Take every leading repetition of `prefix` off `text`.
pub fn trim_leading(text: &str, prefix: &str) -> (r: String)
    requires
        prefix@.len() > 0,
    ensures
        r@ == without_leading(text@, prefix@),
{
    let t = chars_of(text);
    let p = chars_of(prefix);
    let mut at: usize = 0;
    let size: usize = t.len();
    assert(t@.skip(0) == t@);
    while matches_at(&t, &p, at)
        invariant
            at <= t@.len() <= usize::MAX,
            t@ == text@,
            p@ == prefix@,
            p@.len() > 0,
            size == t@.len(),
            without_leading(text@, prefix@) == without_leading(t@.skip(at as int), p@),
        ensures
            !occurs_at(t@, p@, at as int),
            at <= t@.len(),
            size == t@.len(),
            without_leading(text@, prefix@) == without_leading(t@.skip(at as int), p@),
        decreases t@.len() - at,
    {
        proof {
            let here = t@.skip(at as int);
            assert(here.subrange(0, p@.len() as int) == t@.subrange(at as int, at + p@.len()));
            assert(occurs_at(here, p@, 0));
            assert(here.skip(p@.len() as int) == t@.skip(at + p@.len()));
        }
        at = at + p.len();
    }
    proof {
        let here = t@.skip(at as int);
        if occurs_at(here, p@, 0) {
            assert(here.subrange(0, p@.len() as int) == t@.subrange(at as int, at + p@.len()));
            assert(occurs_at(t@, p@, at as int));
        }
        assert(t@.subrange(at as int, t@.len() as int) == here);
    }
    string_of(&t, at, size)
}

/// `text` with every trailing `c` taken off.
pub open spec fn without_trailing(text: Seq<char>, c: char) -> Seq<char>
    decreases text.len(),
{
    if text.len() > 0 && text.last() == c {
        without_trailing(text.drop_last(), c)
    } else {
        text
    }
}

/// Take every trailing `c` off `text`.
pub fn trim_trailing(text: &str, c: char) -> (r: String)
    ensures
        r@ == without_trailing(text@, c),
{
    let t = chars_of(text);
    let mut end: usize = t.len();
    assert(t@.take(t@.len() as int) == t@);
    while end > 0 && t[end - 1] == c
        invariant
            end <= t@.len(),
            t@ == text@,
            without_trailing(text@, c) == without_trailing(t@.take(end as int), c),
        decreases end,
    {
        assert(t@.take(end as int).drop_last() == t@.take(end - 1));
        end = end - 1;
    }
    assert(t@.subrange(0, end as int) == t@.take(end as int));
    string_of(&t, 0, end)
}

// ── white space ──

/// The characters with Unicode's `White_Space` property.
pub open spec fn is_blank(c: char) -> bool {
    let u = c as u32;
    0x9 <= u <= 0xD || u == 0x20 || u == 0x85 || u == 0xA0 || u == 0x1680 || 0x2000 <= u <= 0x200A || u == 0x2028
        || u == 0x2029 || u == 0x202F || u == 0x205F || u == 0x3000
}

fn blank(c: char) -> (r: bool)
    ensures
        r == is_blank(c),
{
    let u: u32 = c as u32;
    (0x9 <= u && u <= 0xD) || u == 0x20 || u == 0x85 || u == 0xA0 || u == 0x1680 || (0x2000 <= u && u <= 0x200A) || u
        == 0x2028 || u == 0x2029 || u == 0x202F || u == 0x205F || u == 0x3000
}

/// `r` is `text` without its leading and trailing white space: the white space on either side
/// is all that is missing, and `r` neither begins nor ends with any.
pub open spec fn is_trimmed(text: Seq<char>, r: Seq<char>) -> bool {
    exists|from: int, to: int|
        {
            &&& 0 <= from <= to <= text.len()
            &&& r == #[trigger] text.subrange(from, to)
            &&& forall|i: int| 0 <= i < from || to <= i < text.len() ==> is_blank(#[trigger] text[i])
            &&& r.len() > 0 ==> !is_blank(r[0]) && !is_blank(r.last())
        }
}

/// Where the first character that is not white space stands, or the length.
pub open spec fn first_solid(text: Seq<char>) -> int
    decreases text.len(),
{
    if text.len() == 0 || !is_blank(text[0]) {
        0
    } else {
        1 + first_solid(text.skip(1))
    }
}

/// One past the last character that is not white space, or zero.
pub open spec fn last_solid(text: Seq<char>) -> int
    decreases text.len(),
{
    if text.len() == 0 || !is_blank(text.last()) {
        text.len() as int
    } else {
        last_solid(text.drop_last())
    }
}

/// `text` without its leading and trailing white space.
pub open spec fn trimmed(text: Seq<char>) -> Seq<char> {
    if first_solid(text) <= last_solid(text) {
        text.subrange(first_solid(text), last_solid(text))
    } else {
        Seq::empty()
    }
}

proof fn lemma_first_solid(text: Seq<char>)
    ensures
        0 <= first_solid(text) <= text.len(),
        forall|i: int| 0 <= i < first_solid(text) ==> is_blank(#[trigger] text[i]),
        first_solid(text) < text.len() ==> !is_blank(text[first_solid(text)]),
    decreases text.len(),
{
    if text.len() > 0 && is_blank(text[0]) {
        let rest = text.skip(1);
        lemma_first_solid(rest);
        assert forall|i: int| 0 <= i < first_solid(text) implies is_blank(#[trigger] text[i]) by {
            if i > 0 {
                assert(rest[i - 1] == text[i]);
            }
        }
    }
}

proof fn lemma_last_solid(text: Seq<char>)
    ensures
        0 <= last_solid(text) <= text.len(),
        forall|i: int| last_solid(text) <= i < text.len() ==> is_blank(#[trigger] text[i]),
        last_solid(text) > 0 ==> !is_blank(text[last_solid(text) - 1]),
    decreases text.len(),
{
    if text.len() > 0 && is_blank(text.last()) {
        let rest = text.drop_last();
        lemma_last_solid(rest);
        assert forall|i: int| last_solid(text) <= i < text.len() implies is_blank(#[trigger] text[i]) by {
            if i < text.len() - 1 {
                assert(rest[i] == text[i]);
            }
        }
    }
}

/// What `trimmed` gives has no white space at either end, and nothing but white space is gone.
pub proof fn law_trimmed(text: Seq<char>)
    ensures
        is_trimmed(text, trimmed(text)),
{
    lemma_first_solid(text);
    lemma_last_solid(text);
    let from = first_solid(text);
    let to = last_solid(text);
    if from <= to {
        assert(trimmed(text) == text.subrange(from, to));
    } else {
        assert(trimmed(text) == text.subrange(text.len() as int, text.len() as int));
        assert forall|i: int| 0 <= i < text.len() implies is_blank(#[trigger] text[i]) by {}
    }
}

/// Take the white space off both ends.
pub fn trim_text(text: &str) -> (r: String)
    ensures
        r@ == trimmed(text@),
{
    let t = chars_of(text);
    let mut from: usize = 0;
    proof {
        lemma_first_solid(t@);
        lemma_last_solid(t@);
    }
    while from < t.len() && blank(t[from])
        invariant
            from <= first_solid(t@) <= t@.len(),
            first_solid(t@) < t@.len() ==> !is_blank(t@[first_solid(t@)]),
        decreases t@.len() - from,
    {
        from = from + 1;
    }
    let mut to: usize = t.len();
    while to > 0 && blank(t[to - 1])
        invariant
            0 <= last_solid(t@) <= to <= t@.len(),
            last_solid(t@) > 0 ==> !is_blank(t@[last_solid(t@) - 1]),
        decreases to,
    {
        to = to - 1;
    }
    if from <= to {
        string_of(&t, from, to)
    } else {
        String::new()
    }
}

// ── numbers, digits and white space by their codes ──

/// A number is read digit by digit: `0` to `9` stand for their values, every digit behind a number is
/// worth one and the number ten times as much, one `+` may stand in front, and a text with any other
/// character, without a digit, or of a number beyond the largest says nothing.
pub proof fn law_numbers_are_read(s: Seq<char>, c: char)
    ensures
        parsed_u64(Seq::empty()) is None,
        48 <= c as u32 <= 57 ==> parsed_u64(seq![c]) == Some((c as u32 - 48) as u64),
        !(48 <= c as u32 <= 57) ==> parsed_u64(seq![c]) is None,
        match parsed_u64(s) {
            Some(v) => parsed_u64(s.push(c)) == (if 48 <= c as u32 <= 57 && v * 10 + (c as u32 - 48) <= 0xFFFF_FFFF_FFFF_FFFF {
                Some((v * 10 + (c as u32 - 48)) as u64)
            } else {
                None
            }),
            None => s.len() > 0 && s != seq!['+'] ==> parsed_u64(s.push(c)) is None,
        },
        s.len() > 0 && s[0] != '+' ==> parsed_u64(seq!['+'] + s) == parsed_u64(s),
        s.len() > 0 && s[0] == '+' ==> parsed_u64(seq!['+'] + s) is None,
{
    reveal_with_fuel(digits_value, 2);
    let one = seq![c];
    assert(one.drop_last() == Seq::<char>::empty());
    assert(one[0] == c);
    if c == '+' {
        assert(one.skip(1).len() == 0);
    }
    let longer = s.push(c);
    let digits = unsigned_part(s);
    if s.len() > 0 {
        assert(unsigned_part(longer) == digits.push(c));
        assert(longer.last() == c);
        let more = digits.push(c);
        assert(more.drop_last() == digits);
        assert(more[digits.len() as int] == c);
        if parsed_u64(s) is Some {
            assert(48 <= c as u32 <= 57 ==> all_digits(more)) by {
                assert forall|i: int| 48 <= c as u32 <= 57 && 0 <= i < more.len() implies is_digit(#[trigger] more[i]) by {
                    if i < digits.len() {
                        assert(more[i] == digits[i]);
                    }
                }
            }
        } else if s != seq!['+'] {
            if digits.len() == 0 {
                assert(s == seq!['+']);
            }
            if !all_digits(digits) {
                let i = choose|i: int| 0 <= i < digits.len() && !is_digit(#[trigger] digits[i]);
                assert(more[i] == digits[i]);
            }
        }
        let signed = seq!['+'] + s;
        assert(signed[0] == '+');
        assert(signed.skip(1) == s);
        if s[0] == '+' {
            assert(!is_digit(s[0]));
        }
    }
}

/// A number is written in the digits `0` to `9` without a leading zero, and reading the text back gives
/// the number.
pub proof fn law_numbers_read_back(n: u64)
    ensures
        parsed_u64(decimal(n as nat)) == Some(n),
        decimal(n as nat).len() > 0,
        n > 0 ==> decimal(n as nat)[0] != '0',
        n < 10 ==> decimal(n as nat).len() == 1,
        forall|i: int| 0 <= i < decimal(n as nat).len() ==> 48 <= (#[trigger] decimal(n as nat)[i]) as u32 <= 57,
        decimal(n as nat).last() as u32 == 48 + n % 10,
    decreases n,
{
    if n < 10 {
        law_numbers_are_read(Seq::empty(), decimal(n as nat)[0]);
        assert(decimal(n as nat) == seq![decimal(n as nat)[0]]);
    } else {
        law_numbers_read_back(n / 10);
        let before = decimal((n / 10) as nat);
        law_numbers_are_read(before, digit_char((n % 10) as nat));
        assert(decimal(n as nat) == before.push(digit_char((n % 10) as nat)));
        assert(decimal(n as nat)[0] == before[0]);
    }
}

/// A byte is written as two characters: its upper half and its lower half, each as `0` to `9` or as
/// `a` to `f`.
pub proof fn law_hex_characters(bytes: Seq<u8>, i: int)
    requires
        0 <= i < bytes.len(),
    ensures
        hex(bytes).len() == 2 * bytes.len(),
        ({
            let upper = bytes[i] as int / 16;
            let lower = bytes[i] as int % 16;
            &&& hex(bytes)[2 * i] as u32 == (if upper < 10 { 48 + upper } else { 87 + upper })
            &&& hex(bytes)[2 * i + 1] as u32 == (if lower < 10 { 48 + lower } else { 87 + lower })
        }),
{
}

/// The character stands for the half byte: a digit for itself, a letter of either case for ten and more.
pub open spec fn half_byte(c: char, value: int) -> bool {
    ||| 0 <= value <= 9 && c as u32 == 48 + value
    ||| 10 <= value <= 15 && (c as u32 == 55 + value || c as u32 == 87 + value)
}

proof fn lemma_half_byte(c: char, value: int)
    ensures
        half_byte(c, value) ==> nibble_value(c) == Some(value as u8),
        nibble_value(c) matches Some(v) ==> half_byte(c, v as int),
{
}

/// A key is read from exactly 64 characters, each of which stands for a half byte. Each two of them make
/// a byte, the first one its upper half.
pub proof fn law_hex_is_read(s: Seq<char>, values: Seq<int>)
    requires
        values.len() == s.len(),
        forall|i: int| 0 <= i < s.len() ==> #[trigger] half_byte(s[i], values[i]),
    ensures
        is_pubkey_hex(s) <==> s.len() == 64,
        hex_bytes(s).len() == s.len() as int / 2,
        forall|i: int| 0 <= i < s.len() as int / 2 ==> #[trigger] hex_bytes(s)[i] == 16 * values[2 * i] + values[2 * i + 1],
{
    assert forall|i: int| 0 <= i < s.len() implies nibble_value(#[trigger] s[i]) == Some(values[i] as u8) by {
        assert(half_byte(s[i], values[i]));
        lemma_half_byte(s[i], values[i]);
    }
    assert forall|i: int| 0 <= i < s.len() as int / 2 implies #[trigger] hex_bytes(s)[i] == 16 * values[2 * i] + values[2 * i
        + 1] by {
        assert(half_byte(s[2 * i], values[2 * i]));
        assert(half_byte(s[2 * i + 1], values[2 * i + 1]));
        assert(nibble_value(s[2 * i]) == Some(values[2 * i] as u8));
        assert(nibble_value(s[2 * i + 1]) == Some(values[2 * i + 1] as u8));
    }
}

/// No key is read from a text with a character that stands for no half byte.
pub proof fn law_other_texts_are_no_keys(s: Seq<char>, i: int)
    requires
        0 <= i < s.len(),
        forall|value: int| !#[trigger] half_byte(s[i], value),
    ensures
        !is_pubkey_hex(s),
{
    if is_pubkey_hex(s) {
        assert(nibble_value(s[i]) is Some);
        let v = nibble_value(s[i])->0;
        lemma_half_byte(s[i], v as int);
        assert(half_byte(s[i], v as int));
    }
}

/// The characters that count as white space, by their codes.
pub proof fn law_white_space(c: char)
    ensures
        is_blank(c) <==> 9 <= c as u32 <= 13 || c as u32 == 32 || c as u32 == 133 || c as u32 == 160 || c as u32 == 5760
            || 8192 <= c as u32 <= 8202 || c as u32 == 8232 || c as u32 == 8233 || c as u32 == 8239 || c as u32 == 8287
            || c as u32 == 12288,
{
}

/// White space around a text is taken off, as much as there is, and nothing else: what stands between
/// is left as it is, white space within it included. Of white space alone nothing is left.
pub proof fn law_trimming(left: Seq<char>, text: Seq<char>, right: Seq<char>)
    requires
        forall|i: int| 0 <= i < left.len() ==> is_blank(#[trigger] left[i]),
        forall|i: int| 0 <= i < right.len() ==> is_blank(#[trigger] right[i]),
        text.len() > 0 ==> !is_blank(text[0]) && !is_blank(text[text.len() - 1]),
    ensures
        trimmed(left + text + right) == text,
{
    let all = left + text + right;
    lemma_first_solid(all);
    lemma_last_solid(all);
    let from = first_solid(all);
    let to = last_solid(all);
    if text.len() > 0 {
        assert(all[left.len() as int] == text[0]);
        assert(all[left.len() + text.len() - 1] == text[text.len() - 1]);
        if from < left.len() {
            assert(all[from] == left[from]);
        }
        if to > left.len() + text.len() {
            assert(all[to - 1] == right[to - 1 - left.len() - text.len()]);
        }
        assert(from == left.len());
        assert(to == left.len() + text.len());
        assert(trimmed(all) == text);
    } else {
        assert forall|i: int| 0 <= i < all.len() implies is_blank(#[trigger] all[i]) by {
            if i < left.len() {
                assert(all[i] == left[i]);
            } else {
                assert(all[i] == right[i - left.len()]);
            }
        }
        assert(from == all.len());
        assert(to == 0);
        assert(trimmed(all) == text);
    }
}

/// A text occurs in every text that it is put into, and occurs in no other.
pub proof fn law_searching(before: Seq<char>, needle: Seq<char>, after: Seq<char>, hay: Seq<char>)
    ensures
        occurs(before + needle + after, needle),
        occurs(hay, needle) ==> exists|a: Seq<char>, b: Seq<char>| hay == #[trigger] (a + needle + b),
{
    let all = before + needle + after;
    assert(all.subrange(before.len() as int, (before.len() + needle.len()) as int) == needle);
    assert(occurs_at(all, needle, before.len() as int));
    if occurs(hay, needle) {
        let at = choose|at: int| occurs_at(hay, needle, at);
        let (a, b) = (hay.take(at), hay.skip(at + needle.len()));
        assert(hay == a + needle + b) by {
            let made = a + needle + b;
            assert(made.len() == hay.len());
            assert forall|i: int| 0 <= i < hay.len() implies made[i] == hay[i] by {
                if at <= i < at + needle.len() {
                    assert(hay.subrange(at, at + needle.len())[i - at] == needle[i - at]);
                }
            }
        }
    }
}

/// A prefix is taken off once, where the text begins with it, and what follows is left as it is.
pub proof fn law_prefix_is_taken_off(prefix: Seq<char>, rest: Seq<char>, text: Seq<char>)
    ensures
        stripped_prefix(prefix + rest, prefix) == Some(rest),
        match stripped_prefix(text, prefix) {
            Some(after) => text == prefix + after,
            None => text != prefix + rest,
        },
{
    let all = prefix + rest;
    assert(all.subrange(0, prefix.len() as int) == prefix);
    assert(all.skip(prefix.len() as int) == rest);
    if occurs_at(text, prefix, 0) {
        let made = prefix + text.skip(prefix.len() as int);
        assert forall|i: int| 0 <= i < text.len() implies made[i] == text[i] by {
            if i < prefix.len() {
                assert(text.subrange(0, prefix.len() as int)[i] == prefix[i]);
            }
        }
        assert(made == text);
    }
}

/// A leading prefix is taken off however often it is repeated; a text that does not begin with it is
/// left alone.
pub proof fn law_leading_is_taken_off(prefix: Seq<char>, text: Seq<char>)
    requires
        prefix.len() > 0,
    ensures
        without_leading(prefix + text, prefix) == without_leading(text, prefix),
        text.len() < prefix.len() || text.subrange(0, prefix.len() as int) != prefix ==> without_leading(text, prefix) == text,
{
    let all = prefix + text;
    assert(all.subrange(0, prefix.len() as int) == prefix);
    assert(all.skip(prefix.len() as int) == text);
}

/// A trailing character is taken off however often it is repeated; a text that does not end with it is
/// left alone.
pub proof fn law_trailing_is_taken_off(text: Seq<char>, c: char)
    ensures
        without_trailing(text.push(c), c) == without_trailing(text, c),
        text.len() == 0 || text[text.len() - 1] != c ==> without_trailing(text, c) == text,
{
    assert(text.push(c).drop_last() == text);
}

} // verus!

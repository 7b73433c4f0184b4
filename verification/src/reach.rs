//! Reachability: the addresses a device publishes, and the best path by which a peer answers.
use crate::chain::joined;
use crate::envelope::SVC_RUSTDESK;
use crate::text::{chars_of, decimal_text, hex_text, same_text, string_of, trim_text};
use vstd::prelude::*;

verus! {

// ── this device's addresses ──

/// An address that a peer on the same network could dial: not loopback, not unspecified, not one
/// that a machine gives itself when nobody else did.
pub open spec fn dialable(ip: Seq<u8>) -> bool {
    &&& ip[0] != 127
    &&& !(ip[0] == 0 && ip[1] == 0 && ip[2] == 0 && ip[3] == 0)
    &&& !(ip[0] == 169 && ip[1] == 254)
}

/// An address and a port in the usual notation.
pub open spec fn address_text(ip: Seq<u8>, port: u32) -> Seq<char> {
    crate::text::decimal(ip[0] as nat) + "."@ + crate::text::decimal(ip[1] as nat) + "."@ + crate::text::decimal(
        ip[2] as nat,
    ) + "."@ + crate::text::decimal(ip[3] as nat) + ":"@ + crate::text::decimal(port as nat)
}

/// The addresses to publish: each dialable one, once, in the order in which they first appear.
pub open spec fn published(ips: Seq<[u8; 4]>, port: u32) -> Seq<Seq<char>>
    decreases ips.len(),
{
    if ips.len() == 0 {
        Seq::empty()
    } else {
        let before = published(ips.drop_last(), port);
        let text = address_text(ips.last()@, port);
        if dialable(ips.last()@) && !before.contains(text) {
            before.push(text)
        } else {
            before
        }
    }
}

/// What a row of texts says.
pub open spec fn texts_view(texts: Seq<String>) -> Seq<Seq<char>> {
    Seq::new(texts.len(), |i: int| texts[i]@)
}

fn format_address(ip: &[u8; 4], port: u32) -> (r: String)
    ensures
        r@ == address_text(ip@, port),
{
    let mut out = decimal_text(ip[0] as u64);
    out.append(".");
    out.append(decimal_text(ip[1] as u64).as_str());
    out.append(".");
    out.append(decimal_text(ip[2] as u64).as_str());
    out.append(".");
    out.append(decimal_text(ip[3] as u64).as_str());
    out.append(":");
    out.append(decimal_text(port as u64).as_str());
    out
}

/// Whether `text` is one of `texts`.
pub fn has_text(texts: &Vec<String>, text: &str) -> (r: bool)
    ensures
        r == texts_view(texts@).contains(text@),
{
    let mut i: usize = 0;
    while i < texts.len()
        invariant
            i <= texts@.len(),
            forall|j: int| 0 <= j < i ==> (#[trigger] texts@[j])@ != text@,
        decreases texts@.len() - i,
    {
        if same_text(texts[i].as_str(), text) {
            assert(texts_view(texts@)[i as int] == text@);
            return true;
        }
        i = i + 1;
    }
    false
}

/// Every address at which a peer on this network could dial this device, from the addresses of its
/// interfaces.
pub fn own_lan_addrs(ips: &Vec<[u8; 4]>, port: u32) -> (r: Vec<String>)
    ensures
        texts_view(r@) == published(ips@, port),
{
    let mut out: Vec<String> = Vec::new();
    let mut i: usize = 0;
    assert(texts_view(out@) == published(ips@.take(0), port));
    while i < ips.len()
        invariant
            i <= ips@.len(),
            texts_view(out@) == published(ips@.take(i as int), port),
        decreases ips@.len() - i,
    {
        let ip = ips[i];
        assert(ips@.take(i + 1).drop_last() == ips@.take(i as int));
        assert(ips@.take(i + 1).last() == ip);
        let local: bool = ip[0] == 127 || (ip[0] == 0 && ip[1] == 0 && ip[2] == 0 && ip[3] == 0) || (ip[0] == 169 && ip[1]
            == 254);
        if !local {
            let text = format_address(&ip, port);
            if !has_text(&out, text.as_str()) {
                let ghost before = texts_view(out@);
                let ghost said = text@;
                out.push(text);
                assert(texts_view(out@) == before.push(said));
            }
        }
        i = i + 1;
    }
    assert(ips@.take(ips@.len() as int) == ips@);
    out
}

/// No address is published twice, every dialable one is published, and nothing else is.
pub proof fn law_published(ips: Seq<[u8; 4]>, port: u32)
    ensures
        published(ips, port).no_duplicates(),
        forall|i: int|
            0 <= i < ips.len() && dialable((#[trigger] ips[i])@) ==> published(ips, port).contains(
                address_text(ips[i]@, port),
            ),
        forall|k: int|
            0 <= k < published(ips, port).len() ==> exists|i: int|
                0 <= i < ips.len() && dialable((#[trigger] ips[i])@) && address_text(ips[i]@, port) == (#[trigger] published(
                    ips,
                    port,
                )[k]),
    decreases ips.len(),
{
    if ips.len() > 0 {
        let shorter = ips.drop_last();
        law_published(shorter, port);
        let before = published(shorter, port);
        let text = address_text(ips.last()@, port);
        let now = published(ips, port);
        assert forall|i: int| 0 <= i < ips.len() && dialable((#[trigger] ips[i])@) implies now.contains(
            address_text(ips[i]@, port),
        ) by {
            if i < ips.len() - 1 {
                assert(shorter[i] == ips[i]);
                assert(before.contains(address_text(ips[i]@, port)));
                let k = choose|k: int| 0 <= k < before.len() && before[k] == address_text(ips[i]@, port);
                assert(now[k] == before[k]);
            } else if dialable(ips.last()@) && !before.contains(text) {
                assert(now[before.len() as int] == text);
            }
        }
        assert forall|k: int| 0 <= k < now.len() implies exists|i: int|
            0 <= i < ips.len() && dialable((#[trigger] ips[i])@) && address_text(ips[i]@, port) == (#[trigger] now[k]) by {
            if k < before.len() {
                assert(before[k] == now[k]);
                let i = choose|i: int|
                    0 <= i < shorter.len() && dialable((#[trigger] shorter[i])@) && address_text(shorter[i]@, port)
                        == before[k];
                assert(ips[i] == shorter[i]);
            } else {
                assert(ips[ips.len() - 1] == ips.last());
            }
        }
    }
}

/// The texts with a comma between each two.
pub open spec fn comma_joined(texts: Seq<Seq<char>>) -> Seq<char>
    decreases texts.len(),
{
    if texts.len() == 0 {
        Seq::empty()
    } else if texts.len() == 1 {
        texts[0]
    } else {
        comma_joined(texts.drop_last()) + ","@ + texts.last()
    }
}

/// Join texts with commas.
pub fn join_commas(texts: &Vec<String>) -> (r: String)
    ensures
        r@ == comma_joined(texts_view(texts@)),
{
    let mut out = String::new();
    let mut i: usize = 0;
    while i < texts.len()
        invariant
            i <= texts@.len(),
            out@ == comma_joined(texts_view(texts@).take(i as int)),
        decreases texts@.len() - i,
    {
        let ghost all = texts_view(texts@);
        assert(all.take(i + 1).drop_last() == all.take(i as int));
        assert(all.take(i + 1).last() == texts@[i as int]@);
        if i > 0 {
            out.append(",");
        }
        out.append(texts[i].as_str());
        assert(out@ == comma_joined(all.take(i + 1)));
        i = i + 1;
    }
    assert(texts_view(texts@).take(texts@.len() as int) == texts_view(texts@));
    out
}

// ── a peer's addresses ──

/// The pieces between the commas.
pub open spec fn split_commas(s: Seq<char>) -> Seq<Seq<char>>
    decreases s.len(),
{
    if s.len() == 0 {
        seq![Seq::empty()]
    } else {
        let before = split_commas(s.drop_last());
        if s.last() == ',' {
            before.push(Seq::empty())
        } else {
            before.drop_last().push(before.last().push(s.last()))
        }
    }
}

/// The pieces without the white space around them, as far as anything is left.
pub open spec fn solid_pieces(pieces: Seq<Seq<char>>) -> Seq<Seq<char>>
    decreases pieces.len(),
{
    if pieces.len() == 0 {
        Seq::empty()
    } else {
        let before = solid_pieces(pieces.drop_last());
        let piece = crate::text::trimmed(pieces.last());
        if piece.len() > 0 {
            before.push(piece)
        } else {
            before
        }
    }
}

fn pieces_of(text: &str) -> (r: Vec<String>)
    ensures
        texts_view(r@) == split_commas(text@),
{
    let chars = chars_of(text);
    let mut done: Vec<String> = Vec::new();
    let mut start: usize = 0;
    let mut i: usize = 0;
    assert(split_commas(chars@.take(0)) == seq![Seq::<char>::empty()]);
    assert(chars@.subrange(0, 0) == Seq::<char>::empty());
    assert(texts_view(done@).push(chars@.subrange(0, 0)) == seq![Seq::<char>::empty()]);
    while i < chars.len()
        invariant
            start <= i <= chars@.len(),
            split_commas(chars@.take(i as int)) == texts_view(done@).push(chars@.subrange(start as int, i as int)),
        decreases chars@.len() - i,
    {
        let ghost shorter = chars@.take(i as int);
        let ghost longer = chars@.take(i + 1);
        assert(longer.drop_last() == shorter);
        assert(longer.last() == chars@[i as int]);
        let ghost before = texts_view(done@);
        if chars[i] == ',' {
            let piece = string_of(&chars, start, i);
            let ghost said = piece@;
            done.push(piece);
            start = i + 1;
            assert(texts_view(done@) == before.push(said));
            assert(chars@.subrange(start as int, i + 1) == Seq::<char>::empty());
        } else {
            assert(chars@.subrange(start as int, i as int).push(chars@[i as int]) == chars@.subrange(start as int, i + 1));
            assert(before.push(chars@.subrange(start as int, i as int)).drop_last() == before);
        }
        i = i + 1;
    }
    assert(chars@.take(chars@.len() as int) == chars@);
    let ghost before = texts_view(done@);
    let piece = string_of(&chars, start, i);
    let ghost said = piece@;
    done.push(piece);
    assert(texts_view(done@) == before.push(said));
    done
}

/// The addresses to try, from the list that a device published.
pub fn lan_candidates(list: &str) -> (r: Vec<String>)
    ensures
        texts_view(r@) == solid_pieces(split_commas(list@)),
{
    let pieces = pieces_of(list);
    let mut out: Vec<String> = Vec::new();
    let mut i: usize = 0;
    assert(texts_view(out@) == solid_pieces(texts_view(pieces@).take(0)));
    while i < pieces.len()
        invariant
            i <= pieces@.len(),
            texts_view(out@) == solid_pieces(texts_view(pieces@).take(i as int)),
        decreases pieces@.len() - i,
    {
        let ghost all = texts_view(pieces@);
        assert(all.take(i + 1).drop_last() == all.take(i as int));
        assert(all.take(i + 1).last() == pieces@[i as int]@);
        let piece = trim_text(pieces[i].as_str());
        if !piece.as_str().is_empty() {
            let ghost before = texts_view(out@);
            let ghost said = piece@;
            out.push(piece);
            assert(texts_view(out@) == before.push(said));
        }
        i = i + 1;
    }
    assert(texts_view(pieces@).take(pieces@.len() as int) == texts_view(pieces@));
    out
}

// ── publishing and trying together ──

/// A text that stays whole in a list: it is not empty, and holds neither a comma nor white space.
pub open spec fn stands_alone(s: Seq<char>) -> bool {
    s.len() > 0 && forall|i: int| 0 <= i < s.len() ==> #[trigger] s[i] != ',' && !crate::text::is_blank(s[i])
}

proof fn lemma_split_grows(s: Seq<char>, t: Seq<char>)
    requires
        forall|i: int| 0 <= i < t.len() ==> #[trigger] t[i] != ',',
    ensures
        split_commas(s).len() > 0,
        split_commas(s + t) == split_commas(s).drop_last().push(split_commas(s).last() + t),
    decreases t.len(), s.len(),
{
    if t.len() == 0 {
        assert(s + t == s);
        if s.len() > 0 {
            lemma_split_grows(s.drop_last(), t);
        }
        let pieces = split_commas(s);
        assert(pieces.last() + t == pieces.last());
        assert(pieces.drop_last().push(pieces.last()) == pieces);
    } else {
        let shorter = t.drop_last();
        lemma_split_grows(s, shorter);
        assert((s + t).drop_last() == s + shorter);
        assert((s + t).last() == t.last());
        assert(t.last() == t[t.len() - 1]);
        let before = split_commas(s + shorter);
        assert(before.drop_last() == split_commas(s).drop_last());
        assert(before.last() == split_commas(s).last() + shorter);
        assert((split_commas(s).last() + shorter).push(t.last()) == split_commas(s).last() + t);
    }
}

proof fn lemma_split_joined(texts: Seq<Seq<char>>)
    requires
        texts.len() > 0,
        forall|i: int| 0 <= i < texts.len() ==> stands_alone(#[trigger] texts[i]),
    ensures
        split_commas(comma_joined(texts)) == texts,
    decreases texts.len(),
{
    assert(texts.last() == texts[texts.len() - 1]);
    assert(stands_alone(texts.last()));
    if texts.len() == 1 {
        lemma_split_grows(Seq::empty(), texts[0]);
        assert(Seq::<char>::empty() + texts[0] == texts[0]);
        assert(split_commas(texts[0]) == texts);
    } else {
        let shorter = texts.drop_last();
        assert forall|i: int| 0 <= i < shorter.len() implies stands_alone(#[trigger] shorter[i]) by {
            assert(shorter[i] == texts[i]);
        }
        lemma_split_joined(shorter);
        reveal_strlit(",");
        let head = comma_joined(shorter) + ","@;
        assert(head.drop_last() == comma_joined(shorter));
        assert(head.last() == ',');
        assert(split_commas(head) == shorter.push(Seq::empty()));
        lemma_split_grows(head, texts.last());
        assert(Seq::<char>::empty() + texts.last() == texts.last());
        assert(shorter.push(Seq::empty()).drop_last() == shorter);
        assert(shorter.push(texts.last()) == texts);
    }
}

proof fn lemma_solid(texts: Seq<Seq<char>>)
    requires
        forall|i: int| 0 <= i < texts.len() ==> stands_alone(#[trigger] texts[i]),
    ensures
        solid_pieces(texts) == texts,
    decreases texts.len(),
{
    if texts.len() > 0 {
        let shorter = texts.drop_last();
        assert forall|i: int| 0 <= i < shorter.len() implies stands_alone(#[trigger] shorter[i]) by {
            assert(shorter[i] == texts[i]);
        }
        lemma_solid(shorter);
        let text = texts.last();
        assert(texts[texts.len() - 1] == text);
        assert(!crate::text::is_blank(text[0]));
        assert(!crate::text::is_blank(text[text.len() - 1]));
        assert(crate::text::trimmed(text) == text);
        assert(shorter.push(text) == texts);
    }
}

proof fn lemma_decimal_stands_alone(n: nat)
    ensures
        stands_alone(crate::text::decimal(n)),
    decreases n,
{
    if n >= 10 {
        lemma_decimal_stands_alone(n / 10);
    }
}

proof fn lemma_address_stands_alone(ip: Seq<u8>, port: u32)
    ensures
        stands_alone(address_text(ip, port)),
{
    reveal_strlit(".");
    reveal_strlit(":");
    lemma_decimal_stands_alone(ip[0] as nat);
    lemma_decimal_stands_alone(ip[1] as nat);
    lemma_decimal_stands_alone(ip[2] as nat);
    lemma_decimal_stands_alone(ip[3] as nat);
    lemma_decimal_stands_alone(port as nat);
}

/// The addresses that a device publishes as one text are the addresses that a peer tries.
pub proof fn law_published_addresses_are_tried(ips: Seq<[u8; 4]>, port: u32)
    ensures
        solid_pieces(split_commas(comma_joined(published(ips, port)))) == published(ips, port),
{
    let texts = published(ips, port);
    law_published(ips, port);
    assert forall|k: int| 0 <= k < texts.len() implies stands_alone(#[trigger] texts[k]) by {
        let i = choose|i: int| 0 <= i < ips.len() && dialable((#[trigger] ips[i])@) && address_text(ips[i]@, port) == texts[k];
        lemma_address_stands_alone(ips[i]@, port);
    }
    if texts.len() > 0 {
        lemma_split_joined(texts);
        lemma_solid(texts);
    } else {
        let none = seq![Seq::<char>::empty()];
        assert(split_commas(comma_joined(texts)) == none);
        assert(none.drop_last() == Seq::<Seq<char>>::empty());
        assert(crate::text::trimmed(none.last()).len() == 0);
        reveal_with_fuel(solid_pieces, 2);
        assert(solid_pieces(none) == texts);
    }
}

// ── paths ──

/// How a path reaches a peer, best first.
#[derive(Debug, Clone, Copy, PartialEq, Eq, Structural)]
pub enum PathTier {
    /// Nothing in the middle: a Wi-Fi Direct group or a link-local pair.
    NoRouter,
    /// A local network.
    Lan,
    /// Across the internet.
    Wan,
    /// Through the fleet server's pipe.
    Relay,
}

/// An address: the bytes of a version 4 address, the segments of a version 6 address.
#[derive(Debug, Clone, Copy, PartialEq, Eq)]
pub enum PeerIp {
    V4([u8; 4]),
    V6([u16; 8]),
}

impl PathTier {
    /// The place in the order: the smaller the better.
    pub open spec fn spec_rank(&self) -> int {
        match self {
            PathTier::NoRouter => 0,
            PathTier::Lan => 1,
            PathTier::Wan => 2,
            PathTier::Relay => 3,
        }
    }

    /// The place in the order: the smaller the better.
    pub fn rank(&self) -> (r: u8)
        ensures
            r == self.spec_rank(),
    {
        match self {
            PathTier::NoRouter => 0,
            PathTier::Lan => 1,
            PathTier::Wan => 2,
            PathTier::Relay => 3,
        }
    }
}

/// An address of a range that is only reachable within one network.
pub open spec fn is_private(ip: Seq<u8>) -> bool {
    ||| ip[0] == 10
    ||| ip[0] == 172 && 16 <= ip[1] <= 31
    ||| ip[0] == 192 && ip[1] == 168
    ||| ip[0] == 100 && 64 <= ip[1] <= 127
}

/// The tier of a direct path to `peer`, given this device's own address: a Wi-Fi Direct or
/// link-local address needs no router; a private address is local only when it shares this
/// device's first three bytes; a unique local version 6 address is local; anything else is the
/// internet.
pub open spec fn tier_of(peer: PeerIp, ours: Option<[u8; 4]>) -> PathTier {
    match peer {
        PeerIp::V4(ip) => if (ip@[0] == 192 && ip@[1] == 168 && ip@[2] == 49) || (ip@[0] == 169 && ip@[1] == 254) {
            PathTier::NoRouter
        } else if is_private(ip@) && (ours matches Some(o) && o@[0] == ip@[0] && o@[1] == ip@[1] && o@[2] == ip@[2]) {
            PathTier::Lan
        } else {
            PathTier::Wan
        },
        PeerIp::V6(ip) => if ip@[0] & 0xffc0 == 0xfe80 {
            PathTier::NoRouter
        } else if ip@[0] & 0xfe00 == 0xfc00 {
            PathTier::Lan
        } else {
            PathTier::Wan
        },
    }
}

/// `fgtw::traverse::gather::classify_path`: the tier of a direct path, as [`tier_of`] says. The
/// port plays no part in it.
#[verifier::external_body]
fn classify_path(peer: &PeerIp, ours: Option<[u8; 4]>) -> (r: PathTier)
    ensures
        r == tier_of(*peer, ours),
{
    let addr = match peer {
        PeerIp::V4(ip) => (*ip, 0u16).into(),
        PeerIp::V6(ip) => (*ip, 0u16).into(),
    };
    match fgtw::traverse::gather::classify_path(&addr, ours.map(|ip| ip.into())) {
        fgtw::traverse::gather::PathTier::NoRouter => PathTier::NoRouter,
        fgtw::traverse::gather::PathTier::Lan => PathTier::Lan,
        fgtw::traverse::gather::PathTier::Wan => PathTier::Wan,
        fgtw::traverse::gather::PathTier::Relay => PathTier::Relay,
    }
}

/// `tier` is the best among the paths that answered.
pub open spec fn is_best(tier: PathTier, answered: Seq<PeerIp>, ours: Option<[u8; 4]>) -> bool {
    &&& exists|i: int| 0 <= i < answered.len() && tier_of(#[trigger] answered[i], ours) == tier
    &&& forall|i: int| 0 <= i < answered.len() ==> tier.spec_rank() <= tier_of(#[trigger] answered[i], ours).spec_rank()
}

/// The best tier among the addresses of a device that answered, or `None` when none did.
pub fn probe_lan_tier(answered: &Vec<PeerIp>, ours: Option<[u8; 4]>) -> (r: Option<PathTier>)
    ensures
        match r {
            Some(tier) => is_best(tier, answered@, ours),
            None => answered@.len() == 0,
        },
{
    let mut best: Option<PathTier> = None;
    let mut i: usize = 0;
    while i < answered.len()
        invariant
            i <= answered@.len(),
            match best {
                Some(tier) => is_best(tier, answered@.take(i as int), ours),
                None => i == 0,
            },
        decreases answered@.len() - i,
    {
        let tier = classify_path(&answered[i], ours);
        let better: bool = match best {
            Some(b) => tier.rank() < b.rank(),
            None => true,
        };
        let ghost longer = answered@.take(i + 1);
        proof {
            assert(longer[i as int] == answered@[i as int]);
            assert forall|j: int| 0 <= j < i implies longer[j] == #[trigger] answered@.take(i as int)[j] by {}
            if best is Some {
                let b = best->0;
                let j = choose|j: int|
                    0 <= j < i && tier_of(#[trigger] answered@.take(i as int)[j], ours) == b;
                assert(longer[j] == answered@.take(i as int)[j]);
                assert forall|k: int| 0 <= k < i implies b.spec_rank() <= tier_of(#[trigger] longer[k], ours).spec_rank() by {
                    assert(longer[k] == answered@.take(i as int)[k]);
                }
            }
        }
        if better {
            best = Some(tier);
        }
        proof {
            assert(is_best(best->0, longer, ours));
        }
        i = i + 1;
    }
    assert(answered@.take(answered@.len() as int) == answered@);
    best
}

/// The best way to reach a device: a direct path where one answered, else the relay where its pipe
/// is open, else none.
pub fn probe_best_tier(direct: Option<PathTier>, pipe: Option<bool>) -> (r: Option<PathTier>)
    ensures
        r == (match (direct, pipe) {
            (Some(tier), _) => Some(tier),
            (None, Some(true)) => Some(PathTier::Relay),
            _ => None,
        }),
{
    match direct {
        Some(tier) => Some(tier),
        None => match pipe {
            Some(true) => Some(PathTier::Relay),
            _ => None,
        },
    }
}

// ── is the pipe open? ──

/// Where to ask whether a device's pipe is open.
pub fn pipe_alive_url(server: &str, device: &[u8; 32]) -> (r: String)
    ensures
        r@ == server@ + "/pipe-alive?dev="@ + crate::text::hex(device@) + "&svc="@ + SVC_RUSTDESK@,
{
    let mut out = joined(server, "/pipe-alive?dev=");
    out.append(hex_text(device.as_slice()).as_str());
    out.append("&svc=");
    out.append(SVC_RUSTDESK);
    out
}

/// What the server's answer says: open or not, or `None` where it did not answer or refused to.
pub fn pipe_alive(success: bool, body: Option<&str>) -> (r: Option<bool>)
    ensures
        r == (match body {
            Some(text) => if success {
                Some(crate::text::trimmed(text@) == "1"@)
            } else {
                None
            },
            None => None,
        }),
{
    match body {
        Some(text) => if success {
            Some(same_text(trim_text(text).as_str(), "1"))
        } else {
            None
        },
        None => None,
    }
}

// ── addresses and lists, in numbers and characters ──

/// Of the version 4 addresses, taken as numbers, these are not published: zero, those from 127.0.0.0 to
/// 127.255.255.255, and those from 169.254.0.0 to 169.254.255.255.
pub proof fn law_unpublished_addresses(ip: Seq<u8>)
    requires
        ip.len() == 4,
    ensures
        ({
            let n = 16777216 * ip[0] + 65536 * ip[1] + 256 * ip[2] + ip[3];
            !dialable(ip) <==> n == 0 || 0x7F00_0000 <= n <= 0x7FFF_FFFF || 0xA9FE_0000 <= n <= 0xA9FE_FFFF
        }),
{
}

/// An address's text is its four numbers with a dot between each two, a colon, and the port.
pub proof fn law_address_text(ip: Seq<u8>, port: u32)
    ensures
        address_text(ip, port) == crate::text::decimal(ip[0] as nat).push('.') + crate::text::decimal(ip[1] as nat).push('.')
            + crate::text::decimal(ip[2] as nat).push('.') + crate::text::decimal(ip[3] as nat).push(':')
            + crate::text::decimal(port as nat),
{
    reveal_strlit(".");
    reveal_strlit(":");
    assert("."@ == seq!['.']);
    assert(":"@ == seq![':']);
}

/// What is published of some addresses stays at the front when more come behind them, in its order.
pub proof fn law_published_in_order(ips: Seq<[u8; 4]>, more: Seq<[u8; 4]>, port: u32)
    ensures
        published(ips, port).len() <= published(ips + more, port).len(),
        published(ips + more, port).take(published(ips, port).len() as int) == published(ips, port),
    decreases more.len(),
{
    if more.len() == 0 {
        assert(ips + more == ips);
        assert(published(ips, port).take(published(ips, port).len() as int) == published(ips, port));
    } else {
        law_published_in_order(ips, more.drop_last(), port);
        assert((ips + more).drop_last() == ips + more.drop_last());
        assert(published(ips + more, port).take(published(ips, port).len() as int) == published(
            ips + more.drop_last(),
            port,
        ).take(published(ips, port).len() as int));
    }
}

/// Texts are joined by one comma between each two, and nothing before the first or behind the last.
pub proof fn law_joining(texts: Seq<Seq<char>>, text: Seq<char>)
    ensures
        comma_joined(Seq::empty()).len() == 0,
        comma_joined(seq![text]) == text,
        texts.len() > 0 ==> comma_joined(texts.push(text)) == comma_joined(texts).push(',') + text,
{
    reveal_strlit(",");
    assert(","@ == seq![',']);
    assert(texts.push(text).drop_last() == texts);
    if texts.len() > 0 {
        assert(comma_joined(texts) + ","@ + text == comma_joined(texts).push(',') + text);
    }
}

/// A list is taken apart at every comma and nowhere else: no piece holds one, and the pieces joined are
/// the list.
pub proof fn law_splitting(list: Seq<char>)
    ensures
        split_commas(list).len() > 0,
        comma_joined(split_commas(list)) == list,
        forall|k: int, i: int|
            0 <= k < split_commas(list).len() && 0 <= i < split_commas(list)[k].len() ==> (#[trigger] split_commas(list)[k][i])
                != ',',
    decreases list.len(),
{
    reveal_strlit(",");
    assert(","@ == seq![',']);
    let pieces = split_commas(list);
    if list.len() == 0 {
        assert(comma_joined(pieces) == list);
    } else {
        let before = split_commas(list.drop_last());
        law_splitting(list.drop_last());
        let c = list.last();
        assert(list == list.drop_last().push(c));
        if c == ',' {
            assert(pieces.drop_last() == before);
            assert(comma_joined(pieces) == comma_joined(before) + ","@ + Seq::<char>::empty());
            assert(comma_joined(pieces) == list);
            assert forall|k: int, i: int| 0 <= k < pieces.len() && 0 <= i < pieces[k].len() implies (#[trigger] pieces[k][i])
                != ',' by {
                assert(k < before.len());
                assert(pieces[k] == before[k]);
                assert(before[k][i] != ',');
            }
        } else {
            assert(pieces.drop_last() == before.drop_last());
            assert(pieces.last() == before.last().push(c));
            if before.len() == 1 {
                assert(pieces[0] == before[0].push(c));
                assert(comma_joined(pieces) == list);
            } else {
                assert(comma_joined(pieces) == comma_joined(before.drop_last()) + ","@ + before.last().push(c));
                assert(comma_joined(before) == comma_joined(before.drop_last()) + ","@ + before.last());
                assert(comma_joined(pieces) == comma_joined(before).push(c));
            }
            assert forall|k: int, i: int| 0 <= k < pieces.len() && 0 <= i < pieces[k].len() implies (#[trigger] pieces[k][i])
                != ',' by {
                if k < before.len() - 1 {
                    assert(pieces[k] == before[k]);
                    assert(before[k][i] != ',');
                } else {
                    assert(pieces[k] == before[k].push(c));
                    if i < before[k].len() {
                        assert(before[k][i] != ',');
                    }
                }
            }
        }
    }
}

/// Every piece of a list is tried without the white space around it, unless nothing else is in it, and
/// the pieces of one list come before those of a list behind it.
pub proof fn law_pieces_to_try(pieces: Seq<Seq<char>>, more: Seq<Seq<char>>, piece: Seq<char>)
    ensures
        solid_pieces(Seq::empty()).len() == 0,
        crate::text::trimmed(piece).len() > 0 ==> solid_pieces(seq![piece]) == seq![crate::text::trimmed(piece)],
        crate::text::trimmed(piece).len() == 0 ==> solid_pieces(seq![piece]).len() == 0,
        solid_pieces(pieces + more) == solid_pieces(pieces) + solid_pieces(more),
    decreases more.len(),
{
    reveal_with_fuel(solid_pieces, 2);
    assert(seq![piece].drop_last() == Seq::<Seq<char>>::empty());
    assert(Seq::<Seq<char>>::empty().push(crate::text::trimmed(piece)) == seq![crate::text::trimmed(piece)]);
    if more.len() == 0 {
        assert(pieces + more == pieces);
        assert(solid_pieces(pieces) + solid_pieces(more) == solid_pieces(pieces));
    } else {
        law_pieces_to_try(pieces, more.drop_last(), piece);
        assert((pieces + more).drop_last() == pieces + more.drop_last());
        assert((pieces + more).last() == more.last());
        assert(solid_pieces(pieces + more) == solid_pieces(pieces) + solid_pieces(more));
    }
}

/// The best path that answered: without a router where any such answered, else local where any local one
/// did, else across the internet. A direct path is never the relay.
pub proof fn law_best_path(tier: PathTier, answered: Seq<PeerIp>, ours: Option<[u8; 4]>, i: int)
    requires
        is_best(tier, answered, ours),
        0 <= i < answered.len(),
    ensures
        tier_of(answered[i], ours) == PathTier::NoRouter ==> tier == PathTier::NoRouter,
        tier_of(answered[i], ours) == PathTier::Lan ==> tier == PathTier::NoRouter || tier == PathTier::Lan,
        tier == PathTier::Wan ==> tier_of(answered[i], ours) == PathTier::Wan,
        tier != PathTier::Relay,
        answered.len() == 1 ==> tier == tier_of(answered[0], ours),
{
}

/// The order of the paths, best first.
pub proof fn law_path_order()
    ensures
        PathTier::NoRouter.spec_rank() == 0,
        PathTier::Lan.spec_rank() == 1,
        PathTier::Wan.spec_rank() == 2,
        PathTier::Relay.spec_rank() == 3,
{
}

/// What a row of texts says is each of them, in order.
pub proof fn law_what_texts_say(texts: Seq<String>, i: int)
    requires
        0 <= i < texts.len(),
    ensures
        texts_view(texts).len() == texts.len(),
        texts_view(texts)[i] == texts[i]@,
{
}

} // verus!

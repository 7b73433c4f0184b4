//! Membership: what a fleet's chain says, and which chain and fan-out to go by when the fleet
//! server may be out of reach.
use crate::cache::ChainCache;
use crate::document::BAD_FRAMING;
use crate::eggs::{KeyBundle, Mask};
use crate::folding::{is_fan_out_readable, is_foldable};
use crate::framing::is_readable;
use crate::text::{copy_bytes, decimal_text, same_bytes};
use vstd::prelude::*;

verus! {

/// What a row of keys says.
pub open spec fn keys_view(keys: Seq<[u8; 32]>) -> Seq<Seq<u8>> {
    Seq::new(keys.len(), |i: int| keys[i]@)
}

/// `key` is one of `keys`.
pub open spec fn has_key(keys: Seq<[u8; 32]>, key: Seq<u8>) -> bool {
    exists|i: int| 0 <= i < keys.len() && (#[trigger] keys[i])@ == key
}

/// Whether `key` is one of `keys`.
pub fn contains_key(keys: &Vec<[u8; 32]>, key: &[u8; 32]) -> (r: bool)
    ensures
        r == has_key(keys@, key@),
{
    let mut i: usize = 0;
    while i < keys.len()
        invariant
            i <= keys@.len(),
            forall|j: int| 0 <= j < i ==> (#[trigger] keys@[j])@ != key@,
        decreases keys@.len() - i,
    {
        if same_bytes(keys[i].as_slice(), key.as_slice()) {
            assert(keys@[i as int]@ == key@);
            return true;
        }
        i = i + 1;
    }
    false
}

// ── what a chain says ──

/// What `MembershipBlob::from_vsf_bytes` and then `genesis_handle_proof` give: the fleet that the
/// chain in these bytes belongs to, or why they hold no chain.
pub uninterp spec fn chain_genesis(bytes: Seq<u8>) -> Result<Option<Seq<u8>>, Seq<char>>;

/// What `MembershipBlob::fold_full` gives for the chain in these bytes: its current members and
/// the schemes that every one of them has, or why it does not fold.
pub uninterp spec fn chain_fold(bytes: Seq<u8>) -> Result<(Seq<Seq<u8>>, Mask), Seq<char>>;

/// The time of the last entry of the chain in these bytes.
pub uninterp spec fn chain_tip(bytes: Seq<u8>) -> i64;

/// What `MembershipBlob::declared_bundle` gives: the keys that the chain in these bytes records
/// for a device, in their wire form.
pub uninterp spec fn chain_bundle(bytes: Seq<u8>, device: Seq<u8>) -> Option<Seq<u8>>;

/// What `MembershipBlob::declared_mask` gives: the schemes that the chain in these bytes knows a
/// device to have.
pub uninterp spec fn chain_mask(bytes: Seq<u8>, device: Seq<u8>) -> Mask;

/// `fgtw::fleet::MembershipBlob::from_vsf_bytes` and `genesis_handle_proof`: checks and reads a
/// chain, and says which fleet it belongs to. The decoder adds the lengths that it reads without a
/// check, and takes the name of a section without a body as it comes, so the bytes are ones that it
/// can read.
#[verifier::external_body]
fn read_genesis(bytes: &[u8]) -> (r: Result<Option<[u8; 32]>, String>)
    requires
        crate::framing::readable(bytes@),
    ensures
        match r {
            Ok(Some(hp)) => chain_genesis(bytes@) matches Ok(Some(g)) && g == hp@,
            Ok(None) => chain_genesis(bytes@) matches Ok(None),
            Err(text) => chain_genesis(bytes@) matches Err(e) && e == text@,
        },
{
    fgtw::fleet::MembershipBlob::from_vsf_bytes(bytes).map(|chain| chain.genesis_handle_proof())
}

/// `fgtw::fleet::MembershipBlob::fold_full`: walks the chain and checks every entry. The error is
/// the fold's, as text; bytes that hold no chain do not fold either. The fold takes the distance
/// between two times that an entry records, so none of those are too far apart; so it is for the
/// readers below, which fold the chain too.
#[verifier::external_body]
fn fold_members(bytes: &[u8]) -> (r: Result<(Vec<[u8; 32]>, Mask), String>)
    requires
        crate::folding::foldable(bytes@),
    ensures
        match r {
            Ok((members, floor)) => chain_fold(bytes@) matches Ok((m, f)) && m == keys_view(members@) && f == floor,
            Err(text) => chain_fold(bytes@) matches Err(e) && e == text@,
        },
{
    fgtw::fleet::MembershipBlob::from_vsf_bytes(bytes)?.fold_full().map_err(|e| format!("{e:?}"))
}

/// `fgtw::fleet::MembershipBlob::fold_with_ts`: the time of the chain's last entry, where the
/// chain folds.
#[verifier::external_body]
fn read_tip(bytes: &[u8]) -> (r: Option<i64>)
    requires
        crate::folding::foldable(bytes@),
    ensures
        r is Some <==> chain_fold(bytes@) is Ok,
        r matches Some(tip) ==> tip == chain_tip(bytes@),
{
    fgtw::fleet::MembershipBlob::from_vsf_bytes(bytes).ok()?.fold_with_ts().ok().map(|(_, tip)| tip)
}

/// `fgtw::fleet::MembershipBlob::declared_bundle`: the keys that the chain records for a device.
/// `None` where it records none, does not fold, or the bytes hold no chain.
#[verifier::external_body]
fn read_bundle(bytes: &[u8], device: &[u8; 32]) -> (r: Option<KeyBundle>)
    requires
        crate::folding::foldable(bytes@),
    ensures
        match r {
            Some(bundle) => chain_bundle(bytes@, device@) == Some(bundle.bytes@),
            None => chain_bundle(bytes@, device@) is None,
        },
{
    let chain = fgtw::fleet::MembershipBlob::from_vsf_bytes(bytes).ok()?;
    chain.declared_bundle(device).map(|keys| KeyBundle { bytes: keys.to_bytes() })
}

/// `fgtw::fleet::MembershipBlob::declared_mask`: the schemes that the chain knows a device to
/// have; `None` where the bytes hold no chain.
#[verifier::external_body]
fn read_mask(bytes: &[u8], device: &[u8; 32]) -> (r: Option<Mask>)
    requires
        crate::folding::foldable(bytes@),
    ensures
        r is Some <==> chain_genesis(bytes@) is Ok,
        r matches Some(mask) ==> mask == chain_mask(bytes@, device@),
{
    fgtw::fleet::MembershipBlob::from_vsf_bytes(bytes).ok().map(|chain| chain.declared_mask(device))
}

/// The fleet that the chain in these bytes belongs to, or why they hold no chain.
pub open spec fn genesis_of(bytes: Seq<u8>) -> Result<Option<Seq<u8>>, Seq<char>> {
    if crate::framing::readable(bytes) { chain_genesis(bytes) } else { Err(BAD_FRAMING@) }
}

/// What the chain in these bytes folds to: its current members and the schemes that every one of
/// them has, or why it does not fold.
pub open spec fn fold_of(bytes: Seq<u8>) -> Result<(Seq<Seq<u8>>, Mask), Seq<char>> {
    if crate::folding::foldable(bytes) { chain_fold(bytes) } else { Err(BAD_FRAMING@) }
}

/// The keys that the chain in these bytes records for a device, in their wire form.
pub open spec fn bundle_of(bytes: Seq<u8>, device: Seq<u8>) -> Option<Seq<u8>> {
    if crate::folding::foldable(bytes) { chain_bundle(bytes, device) } else { None }
}

/// The schemes that the chain in these bytes knows a device to have; Ed25519 alone where they hold
/// no chain, or one that cannot be folded.
pub open spec fn mask_of(bytes: Seq<u8>, device: Seq<u8>) -> Mask {
    if crate::folding::foldable(bytes) && genesis_of(bytes) is Ok { chain_mask(bytes, device) } else { crate::eggs::MASK_BASE }
}

/// What a chain folds to: the current members, the schemes that all of them have, and the time of
/// the last entry.
pub struct Fold {
    pub members: Vec<[u8; 32]>,
    pub floor: Mask,
    pub tip: i64,
}

/// A membership chain: its bytes, the fleet that it belongs to, and what it folds to.
pub struct Chain {
    pub bytes: Vec<u8>,
    pub genesis: Option<[u8; 32]>,
    pub fold: Result<Fold, String>,
}

impl Chain {
    /// The chain says what its bytes say.
    pub open spec fn wf(&self) -> bool {
        &&& match self.genesis {
            Some(hp) => genesis_of(self.bytes@) matches Ok(Some(g)) && g == hp@,
            None => genesis_of(self.bytes@) matches Ok(None),
        }
        &&& match self.fold {
            Ok(fold) => {
                &&& fold_of(self.bytes@) matches Ok((m, f))
                &&& m == keys_view(fold.members@)
                &&& f == fold.floor
                &&& fold.tip == chain_tip(self.bytes@)
            },
            Err(text) => fold_of(self.bytes@) matches Err(e) && e == text@,
        }
    }

    /// The chain belongs to the fleet of `handle_proof`.
    pub open spec fn is_of(&self, handle_proof: Seq<u8>) -> bool {
        self.genesis matches Some(hp) && hp@ == handle_proof
    }

    /// The time of the last entry, or the earliest time where the chain does not fold.
    pub open spec fn spec_tip(&self) -> i64 {
        match self.fold {
            Ok(fold) => fold.tip,
            Err(_) => i64::MIN,
        }
    }

    /// The chain in these bytes.
    pub fn from_bytes(bytes: &Vec<u8>) -> (r: Result<Chain, String>)
        ensures
            match r {
                Ok(chain) => chain.wf() && chain.bytes@ == bytes@,
                Err(text) => genesis_of(bytes@) matches Err(e) && e == text@,
            },
    {
        if !is_readable(bytes.as_slice()) {
            return Err(BAD_FRAMING.to_owned());
        }
        match read_genesis(bytes.as_slice()) {
            Ok(genesis) => {
                let fold: Result<Fold, String> = if !is_foldable(bytes.as_slice()) {
                    Err(BAD_FRAMING.to_owned())
                } else {
                    match fold_members(bytes.as_slice()) {
                        Ok((members, floor)) => {
                            let tip: i64 = match read_tip(bytes.as_slice()) {
                                Some(tip) => tip,
                                None => i64::MIN,
                            };
                            Ok(Fold { members, floor, tip })
                        },
                        Err(text) => Err(text),
                    }
                };
                Ok(Chain { bytes: copy_bytes(bytes), genesis, fold })
            },
            Err(text) => Err(text),
        }
    }

    /// The time of the last entry, or the earliest time where the chain does not fold.
    pub fn tip(&self) -> (r: i64)
        ensures
            r == self.spec_tip(),
    {
        match &self.fold {
            Ok(fold) => fold.tip,
            Err(_) => i64::MIN,
        }
    }

    /// Whether the chain belongs to the fleet of `handle_proof`.
    pub fn belongs_to(&self, handle_proof: &[u8; 32]) -> (r: bool)
        ensures
            r == self.is_of(handle_proof@),
    {
        match &self.genesis {
            Some(hp) => same_bytes(hp.as_slice(), handle_proof.as_slice()),
            None => false,
        }
    }

    /// The keys that the chain records for a device.
    pub fn declared_bundle(&self, device: &[u8; 32]) -> (r: Option<KeyBundle>)
        ensures
            match r {
                Some(bundle) => bundle_of(self.bytes@, device@) == Some(bundle.bytes@),
                None => bundle_of(self.bytes@, device@) is None,
            },
    {
        if !is_foldable(self.bytes.as_slice()) {
            return None;
        }
        read_bundle(self.bytes.as_slice(), device)
    }

    /// The schemes that the chain knows a device to have; Ed25519 alone where the bytes hold no
    /// chain, or one that cannot be folded.
    pub fn declared_mask(&self, device: &[u8; 32]) -> (r: Mask)
        ensures
            r == mask_of(self.bytes@, device@),
    {
        if !is_foldable(self.bytes.as_slice()) {
            return crate::eggs::MASK_BASE;
        }
        match read_mask(self.bytes.as_slice(), device) {
            Some(mask) => mask,
            None => crate::eggs::MASK_BASE,
        }
    }
}

// ── which chain to go by ──

/// What asking the fleet server for a chain came to.
pub enum Fetch {
    /// This chain.
    Found(Chain),
    /// The server has none for that identity.
    Absent,
    /// The server could not be asked, for this reason.
    Failed(String),
    /// This chain, which cannot be written down, for this reason. It has no bytes.
    Unwritten(Chain, String),
}

/// Why there is no chain to go by.
pub enum ChainError {
    /// This device is a member of the fetched chain, which cannot be written down.
    Unwritten(String),
    /// The fetched chain does not fold.
    NoFold(String),
    /// There is no fleet of that identity.
    NoFleet,
    /// The server is out of reach and nothing is cached.
    NoCache(String),
    /// The server is out of reach and the cached chain is of another fleet.
    OtherFleet(String),
    /// The server is out of reach and the cached chain is too old, by seconds.
    Stale(u64, String),
}

impl ChainError {
    pub open spec fn text(&self) -> Seq<char> {
        match self {
            ChainError::Unwritten(e) => e@,
            ChainError::NoFold(e) => "fetched fleet does not fold: "@ + e@,
            ChainError::NoFleet => "no fleet chain exists for that identity"@,
            ChainError::NoCache(e) => "fgtw unreachable and no cached chain: "@ + e@,
            ChainError::OtherFleet(e) => "fgtw unreachable and the cached chain is for a different fleet: "@ + e@,
            ChainError::Stale(age, e) => "fgtw unreachable and cache stale ("@ + crate::text::decimal(*age as nat)
                + "s): "@ + e@,
        }
    }

    /// The error in words.
    pub fn message(&self) -> (r: String)
        ensures
            r@ == self.text(),
    {
        match self {
            ChainError::Unwritten(e) => e.as_str().to_owned(),
            ChainError::NoFold(e) => joined("fetched fleet does not fold: ", e.as_str()),
            ChainError::NoFleet => "no fleet chain exists for that identity".to_owned(),
            ChainError::NoCache(e) => joined("fgtw unreachable and no cached chain: ", e.as_str()),
            ChainError::OtherFleet(e) => joined(
                "fgtw unreachable and the cached chain is for a different fleet: ",
                e.as_str(),
            ),
            ChainError::Stale(age, e) => {
                let mut out = joined("fgtw unreachable and cache stale (", decimal_text(*age).as_str());
                out.append("s): ");
                out.append(e.as_str());
                out
            },
        }
    }
}

/// `a` and then `b`.
pub fn joined(a: &str, b: &str) -> (r: String)
    ensures
        r@ == a@ + b@,
{
    let mut out = a.to_owned();
    out.append(b);
    out
}

/// How old something fetched at `at` is at `now`.
pub open spec fn age_of(at: u64, now: u64) -> u64 {
    if now >= at {
        (now - at) as u64
    } else {
        0
    }
}

/// The cached chain is of this fleet.
pub open spec fn holds_fleet(cached_chain: Option<Chain>, handle_proof: Seq<u8>) -> bool {
    cached_chain matches Some(c) && c.is_of(handle_proof)
}

/// The time of the cached chain's last entry, or the earliest time where there is none.
pub open spec fn cached_tip(cached_chain: Option<Chain>) -> i64 {
    match cached_chain {
        Some(c) => c.spec_tip(),
        None => i64::MIN,
    }
}

/// The fetched chain is older than the cached chain of the same fleet.
pub open spec fn lags(handle_proof: Seq<u8>, cached_chain: Option<Chain>, fold: Fold) -> bool {
    holds_fleet(cached_chain, handle_proof) && fold.tip < cached_tip(cached_chain)
}

/// This device is one of the members.
pub open spec fn is_member(fold: Fold, me: Option<Seq<u8>>) -> bool {
    me matches Some(device) && has_key(fold.members@, device)
}

/// The chain to go by for the fleet of `handle_proof`, given when the cache was fetched, the
/// chain in it, what asking the server came to, and this device.
///
/// A fetched chain is taken unless it is older than the cached chain of the same fleet. One that
/// this device is a member of is kept, so it must be one that can be written down. When the server
/// is out of reach the cached chain is taken, if it is of this fleet and not too old.
pub open spec fn chosen_chain(
    handle_proof: Seq<u8>,
    cached_at: Option<u64>,
    cached_chain: Option<Chain>,
    fetch: Fetch,
    me: Option<Seq<u8>>,
    now: u64,
    max_age: u64,
) -> Result<Chain, ChainError> {
    match fetch {
        Fetch::Found(fresh) => match fresh.fold {
            Err(e) => Err(ChainError::NoFold(e)),
            Ok(fold) => if lags(handle_proof, cached_chain, fold) {
                Ok(cached_chain->0)
            } else {
                Ok(fresh)
            },
        },
        Fetch::Unwritten(fresh, reason) => match fresh.fold {
            Err(e) => Err(ChainError::NoFold(e)),
            Ok(fold) => if lags(handle_proof, cached_chain, fold) {
                Ok(cached_chain->0)
            } else if is_member(fold, me) {
                Err(ChainError::Unwritten(reason))
            } else {
                Ok(fresh)
            },
        },
        Fetch::Absent => Err(ChainError::NoFleet),
        Fetch::Failed(e) => match cached_at {
            None => Err(ChainError::NoCache(e)),
            Some(at) => if !holds_fleet(cached_chain, handle_proof) {
                Err(ChainError::OtherFleet(e))
            } else if age_of(at, now) <= max_age {
                Ok(cached_chain->0)
            } else {
                Err(ChainError::Stale(age_of(at, now), e))
            },
        },
    }
}

/// What to write to the cache: the fetched chain, where it is the one to go by and this device is
/// a member of it, with the fan-out document that the cache had.
pub open spec fn chain_to_save(
    handle_proof: Seq<u8>,
    fanout_doc: Option<Seq<u8>>,
    cached_chain: Option<Chain>,
    fetch: Fetch,
    me: Option<Seq<u8>>,
    now: u64,
) -> Option<crate::cache::CacheView> {
    match fetch {
        Fetch::Found(fresh) => match fresh.fold {
            Ok(fold) => if is_member(fold, me) && !lags(handle_proof, cached_chain, fold) {
                Some((fresh.bytes@, fanout_doc, now))
            } else {
                None
            },
            Err(_) => None,
        },
        _ => None,
    }
}

/// What a cache to be written holds.
pub open spec fn save_view(save: Option<ChainCache>) -> Option<crate::cache::CacheView> {
    match save {
        Some(c) => Some(c@),
        None => None,
    }
}

/// When the cache was fetched.
pub open spec fn cached_time(cached: Option<&ChainCache>) -> Option<u64> {
    match cached {
        Some(c) => Some(c.fetched_at),
        None => None,
    }
}

/// The fan-out document in the cache.
pub open spec fn cached_doc(cached: Option<&ChainCache>) -> Option<Seq<u8>> {
    match cached {
        Some(c) => c@.1,
        None => None,
    }
}

/// The bytes of an optional key.
pub open spec fn opt_key(key: Option<[u8; 32]>) -> Option<Seq<u8>> {
    match key {
        Some(k) => Some(k@),
        None => None,
    }
}

/// Choose the chain to go by, and say what to write to the cache. `cached_chain` is the chain in
/// the cache, where it still reads; `me` is this device.
pub fn choose_chain(
    handle_proof: &[u8; 32],
    cached: Option<&ChainCache>,
    cached_chain: Option<Chain>,
    fetch: Fetch,
    me: Option<[u8; 32]>,
    now: u64,
    max_age: u64,
) -> (r: (Result<Chain, ChainError>, Option<ChainCache>))
    ensures
        r.0 == chosen_chain(handle_proof@, cached_time(cached), cached_chain, fetch, opt_key(me), now, max_age),
        save_view(r.1) == chain_to_save(handle_proof@, cached_doc(cached), cached_chain, fetch, opt_key(me), now),
{
    let ours: bool = match &cached_chain {
        Some(c) => c.belongs_to(handle_proof),
        None => false,
    };
    let (fresh, unwritten) = match fetch {
        Fetch::Found(fresh) => (fresh, None),
        Fetch::Unwritten(fresh, reason) => (fresh, Some(reason)),
        Fetch::Absent => return (Err(ChainError::NoFleet), None),
        Fetch::Failed(e) => return match cached {
            None => (Err(ChainError::NoCache(e)), None),
            Some(c) => {
                if !ours {
                    return (Err(ChainError::OtherFleet(e)), None);
                }
                let age: u64 = c.age(now);
                if age <= max_age {
                    match cached_chain {
                        Some(chain) => (Ok(chain), None),
                        None => (Err(ChainError::OtherFleet(e)), None),
                    }
                } else {
                    (Err(ChainError::Stale(age, e)), None)
                }
            },
        },
    };
    let (tip, member): (i64, bool) = match &fresh.fold {
        Ok(fold) => (fold.tip, match &me {
            Some(device) => contains_key(&fold.members, device),
            None => false,
        }),
        Err(e) => {
            let text = e.clone();
            return (Err(ChainError::NoFold(text)), None);
        },
    };
    let known: i64 = match &cached_chain {
        Some(c) => c.tip(),
        None => i64::MIN,
    };
    if ours && tip < known {
        if let Some(c) = cached_chain {
            return (Ok(c), None);
        }
    }
    if !member {
        return (Ok(fresh), None);
    }
    if let Some(reason) = unwritten {
        return (Err(ChainError::Unwritten(reason)), None);
    }
    let fanout_doc = match cached {
        Some(c) => match &c.fanout_doc {
            Some(doc) => Some(copy_bytes(doc)),
            None => None,
        },
        None => None,
    };
    let save = ChainCache { blob: copy_bytes(&fresh.bytes), fanout_doc, fetched_at: now };
    (Ok(fresh), Some(save))
}

impl ChainCache {
    /// The chain in this cache, where it still reads.
    pub fn chain(&self) -> (r: Option<Chain>)
        ensures
            r is Some <==> genesis_of(self.blob@) is Ok,
            r matches Some(chain) ==> chain.wf() && chain.bytes@ == self.blob@,
    {
        match Chain::from_bytes(&self.blob) {
            Ok(chain) => Some(chain),
            Err(_) => None,
        }
    }
}

/// The membership chain for a fleet, fetched when the server is in reach, else the cached one
/// within the bound; and what to write to the cache.
pub fn current_chain(
    handle_proof: &[u8; 32],
    cached: Option<&ChainCache>,
    fetch: Fetch,
    me: Option<[u8; 32]>,
    now: u64,
    max_age: u64,
) -> (r: (Result<Chain, ChainError>, Option<ChainCache>))
    ensures
        exists|cached_chain: Option<Chain>|
            {
                &&& cached_chain is Some <==> (cached matches Some(c) && genesis_of(c.blob@) is Ok)
                &&& cached_chain matches Some(chain) ==> chain.wf() && chain.bytes@ == cached->0.blob@
                &&& r.0 == #[trigger] chosen_chain(
                    handle_proof@,
                    cached_time(cached),
                    cached_chain,
                    fetch,
                    opt_key(me),
                    now,
                    max_age,
                )
                &&& save_view(r.1) == chain_to_save(
                    handle_proof@,
                    cached_doc(cached),
                    cached_chain,
                    fetch,
                    opt_key(me),
                    now,
                )
            },
{
    let cached_chain = match cached {
        Some(c) => c.chain(),
        None => None,
    };
    choose_chain(handle_proof, cached, cached_chain, fetch, me, now, max_age)
}

/// A read that lags behind never replaces what is known: the chain to go by is never older than
/// the cached chain of the same fleet.
pub proof fn law_chain_never_regresses(
    handle_proof: Seq<u8>,
    cached_at: Option<u64>,
    cached_chain: Option<Chain>,
    fetch: Fetch,
    me: Option<Seq<u8>>,
    now: u64,
    max_age: u64,
)
    requires
        holds_fleet(cached_chain, handle_proof),
    ensures
        chosen_chain(handle_proof, cached_at, cached_chain, fetch, me, now, max_age) matches Ok(chain) ==> chain.spec_tip()
            >= cached_tip(cached_chain),
{
}

/// While the server is out of reach a chain is only ever answered from the cache, for the fleet it
/// belongs to, and within the bound on its age.
pub proof fn law_offline_answer_is_bounded(
    handle_proof: Seq<u8>,
    cached_at: Option<u64>,
    cached_chain: Option<Chain>,
    reason: String,
    me: Option<Seq<u8>>,
    now: u64,
    max_age: u64,
)
    ensures
        chosen_chain(handle_proof, cached_at, cached_chain, Fetch::Failed(reason), me, now, max_age) is Ok <==> (cached_at matches Some(at)
            && holds_fleet(cached_chain, handle_proof) && age_of(at, now) <= max_age),
        chosen_chain(handle_proof, cached_at, cached_chain, Fetch::Failed(reason), me, now, max_age) matches Ok(chain)
            ==> cached_chain == Some(chain),
{
}

/// The cache is only ever written with a chain that this device is a member of, and that chain is
/// the one that is answered.
pub proof fn law_cache_holds_own_fleet(
    handle_proof: Seq<u8>,
    cached_at: Option<u64>,
    fanout_doc: Option<Seq<u8>>,
    cached_chain: Option<Chain>,
    fetch: Fetch,
    me: Option<Seq<u8>>,
    now: u64,
    max_age: u64,
)
    ensures
        chain_to_save(handle_proof, fanout_doc, cached_chain, fetch, me, now) matches Some(saved) ==> {
            &&& chosen_chain(handle_proof, cached_at, cached_chain, fetch, me, now, max_age) matches Ok(chain)
            &&& saved.0 == chain.bytes@
            &&& chain.fold matches Ok(fold)
            &&& me matches Some(device)
            &&& has_key(fold.members@, device)
            &&& saved.1 == fanout_doc
            &&& saved.2 == now
        },
{
}

// ── which fan-out to go by ──

/// What `fgtw::client::verify_fanout_doc` gives for a document and a member set: the public keys
/// of the current epoch in their wire form, or why the document is not to be trusted.
pub uninterp spec fn verified_fanout(doc: Seq<u8>, members: Seq<Seq<u8>>) -> Result<Seq<u8>, Seq<char>>;

/// `fgtw::client::verify_fanout_doc`: checks that the document is signed, that its signer is its
/// rotator, and that the rotator is a member; hands out the epoch's public keys. The bytes are ones
/// that the decoder can read, and the lengths in the fan-out, which are added without a check, fit
/// in a machine word.
#[verifier::external_body]
fn verify_fanout_doc(doc: &[u8], members: &[[u8; 32]]) -> (r: Result<KeyBundle, String>)
    requires
        crate::folding::fan_out_readable(doc@),
    ensures
        match r {
            Ok(keys) => verified_fanout(doc@, keys_view(members@)) matches Ok(k) && k == keys.bytes@,
            Err(text) => verified_fanout(doc@, keys_view(members@)) matches Err(e) && e == text@,
        },
{
    fgtw::client::verify_fanout_doc(doc, members).map(|f| KeyBundle { bytes: f.epoch_pub.to_bytes() })
}

/// The epoch's public keys in a document whose provenance is checked against a member set, or why
/// the document is not to be trusted.
pub open spec fn fanout_of(doc: Seq<u8>, members: Seq<Seq<u8>>) -> Result<Seq<u8>, Seq<char>> {
    if crate::folding::fan_out_readable(doc) { verified_fanout(doc, members) } else { Err(BAD_FRAMING@) }
}

/// Check the provenance of a fan-out document and hand out the epoch's public keys.
pub fn check_fanout(doc: &[u8], members: &[[u8; 32]]) -> (r: Result<KeyBundle, String>)
    ensures
        match r {
            Ok(keys) => fanout_of(doc@, keys_view(members@)) matches Ok(k) && k == keys.bytes@,
            Err(text) => fanout_of(doc@, keys_view(members@)) matches Err(e) && e == text@,
        },
{
    if !is_fan_out_readable(doc) {
        return Err(BAD_FRAMING.to_owned());
    }
    verify_fanout_doc(doc, members)
}

/// What asking the fleet server for the fan-out came to.
pub enum FanoutFetch {
    /// This document.
    Found(Vec<u8>),
    /// The server has none.
    Absent,
    /// The server could not be asked, for this reason.
    Failed(String),
}

/// Why there is no fan-out to go by.
pub enum FanoutError {
    /// None is published.
    Absent,
    /// The server is out of reach and nothing is cached.
    NoCache(String),
    /// The server is out of reach and the cache is too old, by seconds.
    Stale(u64, String),
    /// The cached document is not to be trusted.
    Untrusted(String),
}

impl FanoutError {
    pub open spec fn text(&self) -> Seq<char> {
        match self {
            FanoutError::Absent => "no fan-out published for this fleet"@,
            FanoutError::NoCache(e) => "fgtw unreachable and no cached fan-out: "@ + e@,
            FanoutError::Stale(age, e) => "fgtw unreachable and cache stale ("@ + crate::text::decimal(*age as nat)
                + "s): "@ + e@,
            FanoutError::Untrusted(e) => e@,
        }
    }

    /// The error in words.
    pub fn message(&self) -> (r: String)
        ensures
            r@ == self.text(),
    {
        match self {
            FanoutError::Absent => "no fan-out published for this fleet".to_owned(),
            FanoutError::NoCache(e) => joined("fgtw unreachable and no cached fan-out: ", e.as_str()),
            FanoutError::Stale(age, e) => {
                let mut out = joined("fgtw unreachable and cache stale (", decimal_text(*age).as_str());
                out.append("s): ");
                out.append(e.as_str());
                out
            },
            FanoutError::Untrusted(e) => e.clone(),
        }
    }
}

/// The epoch's keys from the cache, when the server is out of reach.
pub open spec fn offline_fanout(
    cached: Option<crate::cache::CacheView>,
    members: Seq<Seq<u8>>,
    reason: Seq<char>,
    now: u64,
    max_age: u64,
) -> Result<Seq<u8>, Seq<char>> {
    match cached {
        None => Err("fgtw unreachable and no cached fan-out: "@ + reason),
        Some((_, doc, at)) => if age_of(at, now) > max_age {
            Err("fgtw unreachable and cache stale ("@ + crate::text::decimal(age_of(at, now) as nat) + "s): "@ + reason)
        } else {
            match doc {
                None => Err("fgtw unreachable and no cached fan-out: "@ + reason),
                Some(d) => fanout_of(d, members),
            }
        },
    }
}

/// The epoch's keys to go by: from the fetched document where it verifies, else from the cached
/// document within the bound on its age; each checked against the member set.
pub open spec fn chosen_fanout(
    cached: Option<crate::cache::CacheView>,
    members: Seq<Seq<u8>>,
    fetch: FanoutFetch,
    now: u64,
    max_age: u64,
) -> Result<Seq<u8>, Seq<char>> {
    match fetch {
        FanoutFetch::Found(doc) => match fanout_of(doc@, members) {
            Ok(keys) => Ok(keys),
            Err(reason) => offline_fanout(cached, members, reason, now, max_age),
        },
        FanoutFetch::Absent => Err("no fan-out published for this fleet"@),
        FanoutFetch::Failed(reason) => offline_fanout(cached, members, reason@, now, max_age),
    }
}

/// The cached view, where there is a cache.
pub open spec fn cached_view(cached: Option<&ChainCache>) -> Option<crate::cache::CacheView> {
    match cached {
        Some(c) => Some(c@),
        None => None,
    }
}

/// A result's keys or error text.
pub open spec fn keys_or_text(r: Result<KeyBundle, FanoutError>) -> Result<Seq<u8>, Seq<char>> {
    match r {
        Ok(keys) => Ok(keys.bytes@),
        Err(e) => Err(e.text()),
    }
}

fn cached_fanout(
    cached: Option<&ChainCache>,
    members: &Vec<[u8; 32]>,
    reason: String,
    now: u64,
    max_age: u64,
) -> (r: Result<KeyBundle, FanoutError>)
    ensures
        keys_or_text(r) == offline_fanout(cached_view(cached), keys_view(members@), reason@, now, max_age),
{
    match cached {
        None => Err(FanoutError::NoCache(reason)),
        Some(c) => {
            let age: u64 = c.age(now);
            if age > max_age {
                return Err(FanoutError::Stale(age, reason));
            }
            match &c.fanout_doc {
                None => Err(FanoutError::NoCache(reason)),
                Some(doc) => match check_fanout(doc.as_slice(), members.as_slice()) {
                    Ok(keys) => Ok(keys),
                    Err(e) => Err(FanoutError::Untrusted(e)),
                },
            }
        },
    }
}

/// The public keys of the fleet's current epoch, with their provenance checked against `members`;
/// and what to write to the cache: a document that was fetched and verifies, beside the chain
/// that is there.
pub fn current_fanout(
    members: &Vec<[u8; 32]>,
    cached: Option<&ChainCache>,
    fetch: FanoutFetch,
    now: u64,
    max_age: u64,
) -> (r: (Result<KeyBundle, FanoutError>, Option<ChainCache>))
    ensures
        keys_or_text(r.0) == chosen_fanout(cached_view(cached), keys_view(members@), fetch, now, max_age),
        save_view(r.1) == (match (fetch, cached_view(cached)) {
            (FanoutFetch::Found(doc), Some((blob, _, at))) => if fanout_of(doc@, keys_view(members@)) is Ok {
                Some((blob, Some(doc@), at))
            } else {
                None
            },
            _ => None,
        }),
{
    match fetch {
        FanoutFetch::Found(doc) => match check_fanout(doc.as_slice(), members.as_slice()) {
            Ok(keys) => {
                let save = match cached {
                    Some(c) => Some(
                        ChainCache { blob: copy_bytes(&c.blob), fanout_doc: Some(doc), fetched_at: c.fetched_at },
                    ),
                    None => None,
                };
                (Ok(keys), save)
            },
            Err(reason) => (cached_fanout(cached, members, reason, now, max_age), None),
        },
        FanoutFetch::Absent => (Err(FanoutError::Absent), None),
        FanoutFetch::Failed(reason) => (cached_fanout(cached, members, reason, now, max_age), None),
    }
}

/// Every set of epoch keys that is answered comes from a document whose provenance was checked
/// against the member set at hand.
pub proof fn law_fanout_is_checked(
    cached: Option<crate::cache::CacheView>,
    members: Seq<Seq<u8>>,
    fetch: FanoutFetch,
    now: u64,
    max_age: u64,
)
    ensures
        chosen_fanout(cached, members, fetch, now, max_age) matches Ok(keys) ==> exists|doc: Seq<u8>|
            #[trigger] fanout_of(doc, members) == Ok::<Seq<u8>, Seq<char>>(keys),
{
    match fetch {
        FanoutFetch::Found(doc) => {
            assert(fanout_of(doc@, members) == fanout_of(doc@, members));
        },
        _ => {},
    }
    if let Some((_, Some(d), _)) = cached {
        assert(fanout_of(d, members) == fanout_of(d, members));
    }
}

// ── what comes of every answer ──

/// A fetched chain that is not older than the cached chain of the same fleet is the one to go by,
/// whoever its members are: a device that it no longer lists is out. Where this device is a member of
/// it, it is written to the cache, with the fan-out document that was there; where it is not, nothing
/// is written.
pub proof fn law_fresh_chain_is_gone_by(
    handle_proof: Seq<u8>,
    cached_at: Option<u64>,
    fanout_doc: Option<Seq<u8>>,
    cached_chain: Option<Chain>,
    fresh: Chain,
    fold: Fold,
    me: Option<Seq<u8>>,
    now: u64,
    max_age: u64,
)
    requires
        fresh.fold == Ok::<Fold, String>(fold),
        match cached_chain {
            Some(c) => match (c.genesis, c.fold) {
                (Some(fleet), Ok(held)) => fleet@ == handle_proof ==> held.tip <= fold.tip,
                _ => true,
            },
            None => true,
        },
    ensures
        chosen_chain(handle_proof, cached_at, cached_chain, Fetch::Found(fresh), me, now, max_age) == Ok::<
            Chain,
            ChainError,
        >(fresh),
        chain_to_save(handle_proof, fanout_doc, cached_chain, Fetch::Found(fresh), me, now) == (if me is Some && exists|i: int|
            0 <= i < fold.members@.len() && (#[trigger] fold.members@[i])@ == me->0 {
            Some((fresh.bytes@, fanout_doc, now))
        } else {
            None
        }),
{
}

/// A fetched chain that is older than the cached chain of the same fleet is passed over for it, and
/// the cache stays as it is.
pub proof fn law_lagging_chain_is_passed_over(
    handle_proof: Seq<u8>,
    cached_at: Option<u64>,
    fanout_doc: Option<Seq<u8>>,
    known: Chain,
    fresh: Chain,
    reason: String,
    me: Option<Seq<u8>>,
    now: u64,
    max_age: u64,
)
    requires
        known.genesis matches Some(fleet) && fleet@ == handle_proof,
        fresh.fold matches Ok(fold) && (known.fold matches Ok(held) && fold.tip < held.tip),
    ensures
        chosen_chain(handle_proof, cached_at, Some(known), Fetch::Found(fresh), me, now, max_age) == Ok::<Chain, ChainError>(
            known,
        ),
        chosen_chain(handle_proof, cached_at, Some(known), Fetch::Unwritten(fresh, reason), me, now, max_age) == Ok::<
            Chain,
            ChainError,
        >(known),
        chain_to_save(handle_proof, fanout_doc, Some(known), Fetch::Found(fresh), me, now) is None,
{
}

/// A cached chain of another fleet, or one that does not fold, never stands in the way of a fetched
/// one.
pub proof fn law_other_fleet_is_no_rival(
    handle_proof: Seq<u8>,
    cached_at: Option<u64>,
    other: Chain,
    fresh: Chain,
    me: Option<Seq<u8>>,
    now: u64,
    max_age: u64,
)
    requires
        fresh.fold is Ok,
        other.fold is Err || (other.genesis matches Some(fleet) ==> fleet@ != handle_proof),
    ensures
        chosen_chain(handle_proof, cached_at, Some(other), Fetch::Found(fresh), me, now, max_age) == Ok::<Chain, ChainError>(
            fresh,
        ),
{
}

/// A chain that cannot be written down and is not older than the cached one is gone by like any other,
/// unless this device is a member of it and would have to keep it; nothing of it is ever written.
pub proof fn law_unwritten_chain(
    handle_proof: Seq<u8>,
    cached_at: Option<u64>,
    fanout_doc: Option<Seq<u8>>,
    cached_chain: Option<Chain>,
    fresh: Chain,
    fold: Fold,
    reason: String,
    me: Option<Seq<u8>>,
    now: u64,
    max_age: u64,
)
    requires
        fresh.fold == Ok::<Fold, String>(fold),
        match cached_chain {
            Some(c) => match (c.genesis, c.fold) {
                (Some(fleet), Ok(held)) => fleet@ == handle_proof ==> held.tip <= fold.tip,
                _ => true,
            },
            None => true,
        },
    ensures
        chosen_chain(handle_proof, cached_at, cached_chain, Fetch::Unwritten(fresh, reason), me, now, max_age) == (if me is Some
            && exists|i: int| 0 <= i < fold.members@.len() && (#[trigger] fold.members@[i])@ == me->0 {
            Err::<Chain, ChainError>(ChainError::Unwritten(reason))
        } else {
            Ok(fresh)
        }),
        chain_to_save(handle_proof, fanout_doc, cached_chain, Fetch::Unwritten(fresh, reason), me, now) is None,
{
}

/// A fetched chain that does not fold, and a server that has none, leave no chain to go by and nothing
/// to write, whatever is cached.
pub proof fn law_no_chain_to_go_by(
    handle_proof: Seq<u8>,
    cached_at: Option<u64>,
    fanout_doc: Option<Seq<u8>>,
    cached_chain: Option<Chain>,
    fresh: Chain,
    fault: String,
    reason: String,
    me: Option<Seq<u8>>,
    now: u64,
    max_age: u64,
)
    requires
        fresh.fold == Err::<Fold, String>(fault),
    ensures
        chosen_chain(handle_proof, cached_at, cached_chain, Fetch::Found(fresh), me, now, max_age) == Err::<Chain, ChainError>(
            ChainError::NoFold(fault),
        ),
        chosen_chain(handle_proof, cached_at, cached_chain, Fetch::Unwritten(fresh, reason), me, now, max_age) == Err::<
            Chain,
            ChainError,
        >(ChainError::NoFold(fault)),
        chosen_chain(handle_proof, cached_at, cached_chain, Fetch::Absent, me, now, max_age) == Err::<Chain, ChainError>(
            ChainError::NoFleet,
        ),
        chain_to_save(handle_proof, fanout_doc, cached_chain, Fetch::Found(fresh), me, now) is None,
        chain_to_save(handle_proof, fanout_doc, cached_chain, Fetch::Unwritten(fresh, reason), me, now) is None,
        chain_to_save(handle_proof, fanout_doc, cached_chain, Fetch::Absent, me, now) is None,
{
}

/// While the server is out of reach: nothing cached, a cached chain of another fleet, and one that was
/// fetched more than the bound ago are three errors; anything else is the cached chain. A cache from
/// the future counts as fetched just now. Nothing is written.
pub proof fn law_offline_chain(
    handle_proof: Seq<u8>,
    fanout_doc: Option<Seq<u8>>,
    at: u64,
    known: Chain,
    reason: String,
    me: Option<Seq<u8>>,
    now: u64,
    max_age: u64,
)
    ensures
        chosen_chain(handle_proof, None, None, Fetch::Failed(reason), me, now, max_age) == Err::<Chain, ChainError>(
            ChainError::NoCache(reason),
        ),
        chosen_chain(handle_proof, Some(at), None, Fetch::Failed(reason), me, now, max_age) == Err::<Chain, ChainError>(
            ChainError::OtherFleet(reason),
        ),
        (known.genesis matches Some(fleet) ==> fleet@ != handle_proof) ==> chosen_chain(
            handle_proof,
            Some(at),
            Some(known),
            Fetch::Failed(reason),
            me,
            now,
            max_age,
        ) == Err::<Chain, ChainError>(ChainError::OtherFleet(reason)),
        known.genesis matches Some(fleet) && fleet@ == handle_proof ==> chosen_chain(
            handle_proof,
            Some(at),
            Some(known),
            Fetch::Failed(reason),
            me,
            now,
            max_age,
        ) == (if now <= at || now - at <= max_age {
            Ok::<Chain, ChainError>(known)
        } else {
            Err(ChainError::Stale((now - at) as u64, reason))
        }),
        chain_to_save(handle_proof, fanout_doc, Some(known), Fetch::Failed(reason), me, now) is None,
{
}

/// What each error says.
pub proof fn law_chain_errors_in_words(e: String, age: u64)
    ensures
        ChainError::Unwritten(e).text() == e@,
        ChainError::NoFold(e).text() == "fetched fleet does not fold: "@ + e@,
        ChainError::NoFleet.text() == "no fleet chain exists for that identity"@,
        ChainError::NoCache(e).text() == "fgtw unreachable and no cached chain: "@ + e@,
        ChainError::OtherFleet(e).text() == "fgtw unreachable and the cached chain is for a different fleet: "@ + e@,
        ChainError::Stale(age, e).text() == "fgtw unreachable and cache stale ("@ + crate::text::decimal(age as nat)
            + "s): "@ + e@,
        FanoutError::Absent.text() == "no fan-out published for this fleet"@,
        FanoutError::NoCache(e).text() == "fgtw unreachable and no cached fan-out: "@ + e@,
        FanoutError::Stale(age, e).text() == "fgtw unreachable and cache stale ("@ + crate::text::decimal(age as nat)
            + "s): "@ + e@,
        FanoutError::Untrusted(e).text() == e@,
{
}

/// A chain is what the outside readers make of its bytes, wherever they may be let near them; a device
/// of which the chain records no keys has none.
pub proof fn law_chain_says_what_its_bytes_say(chain: Chain, device: Seq<u8>)
    requires
        chain.wf(),
    ensures
        match chain.genesis {
            Some(fleet) => chain_genesis(chain.bytes@) == Ok::<Option<Seq<u8>>, Seq<char>>(Some(fleet@)),
            None => chain_genesis(chain.bytes@) == Ok::<Option<Seq<u8>>, Seq<char>>(None),
        },
        chain.fold matches Ok(fold) ==> {
            &&& chain_fold(chain.bytes@) matches Ok((members, floor))
            &&& members.len() == fold.members@.len()
            &&& forall|i: int| 0 <= i < members.len() ==> #[trigger] members[i] == fold.members@[i]@
            &&& floor == fold.floor
            &&& fold.tip == chain_tip(chain.bytes@)
            &&& bundle_of(chain.bytes@, device) == chain_bundle(chain.bytes@, device)
            &&& mask_of(chain.bytes@, device) == chain_mask(chain.bytes@, device)
        },
        crate::folding::foldable(chain.bytes@) ==> match chain.fold {
            Ok(_) => chain_fold(chain.bytes@) is Ok,
            Err(text) => chain_fold(chain.bytes@) == Err::<(Seq<Seq<u8>>, Mask), Seq<char>>(text@),
        },
{
}

/// A fetched document that verifies against the members is the one whose keys are answered, whatever
/// the cache holds and however old it is.
pub proof fn law_fetched_fanout_is_gone_by(
    cached: Option<crate::cache::CacheView>,
    members: Seq<Seq<u8>>,
    doc: Vec<u8>,
    now: u64,
    max_age: u64,
)
    requires
        crate::folding::fan_out_readable(doc@),
        verified_fanout(doc@, members) is Ok,
    ensures
        chosen_fanout(cached, members, FanoutFetch::Found(doc), now, max_age) == verified_fanout(doc@, members),
{
}

/// A server that has no document is an answer: the cached one is not gone by.
pub proof fn law_absent_fanout_is_an_answer(
    cached: Option<crate::cache::CacheView>,
    members: Seq<Seq<u8>>,
    now: u64,
    max_age: u64,
)
    ensures
        chosen_fanout(cached, members, FanoutFetch::Absent, now, max_age) == Err::<Seq<u8>, Seq<char>>(
            "no fan-out published for this fleet"@,
        ),
{
}

/// While the server is out of reach, or its document does not verify: the cached document is checked
/// against the members at hand, if it was fetched within the bound; without one, and with one that is
/// too old, the error says so and why the server's was not to be had.
pub proof fn law_cached_fanout(
    blob: Seq<u8>,
    doc: Option<Seq<u8>>,
    at: u64,
    members: Seq<Seq<u8>>,
    fetch: FanoutFetch,
    reason: Seq<char>,
    now: u64,
    max_age: u64,
)
    requires
        match fetch {
            FanoutFetch::Found(found) => crate::folding::fan_out_readable(found@) && verified_fanout(found@, members) == Err::<
                Seq<u8>,
                Seq<char>,
            >(reason),
            FanoutFetch::Failed(text) => text@ == reason,
            FanoutFetch::Absent => false,
        },
    ensures
        chosen_fanout(None, members, fetch, now, max_age) == Err::<Seq<u8>, Seq<char>>(
            "fgtw unreachable and no cached fan-out: "@ + reason,
        ),
        now > at && now - at > max_age ==> chosen_fanout(Some((blob, doc, at)), members, fetch, now, max_age) == Err::<
            Seq<u8>,
            Seq<char>,
        >("fgtw unreachable and cache stale ("@ + crate::text::decimal((now - at) as nat) + "s): "@ + reason),
        now <= at || now - at <= max_age ==> match doc {
            None => chosen_fanout(Some((blob, doc, at)), members, fetch, now, max_age) == Err::<Seq<u8>, Seq<char>>(
                "fgtw unreachable and no cached fan-out: "@ + reason,
            ),
            Some(kept) => crate::folding::fan_out_readable(kept) ==> chosen_fanout(
                Some((blob, doc, at)),
                members,
                fetch,
                now,
                max_age,
            ) == verified_fanout(kept, members),
        },
{
}

/// What is known of a cache before it is read: when it was fetched and which fan-out document it holds.
pub proof fn law_what_a_cache_says(cache: &ChainCache)
    ensures
        cached_time(Some(cache)) == Some(cache.fetched_at),
        cached_time(None) is None,
        cache.fanout_doc matches Some(doc) ==> cached_doc(Some(cache)) == Some(doc@),
        cache.fanout_doc is None ==> cached_doc(Some(cache)) is None,
        cached_doc(None) is None,
        cached_view(Some(cache)) matches Some((blob, doc, at)) && blob == cache.blob@ && at == cache.fetched_at && doc
            == cached_doc(Some(cache)),
        cached_view(None) is None,
{
}

/// What is written of a cache is its chain, its fan-out document and its time, all of them.
pub proof fn law_what_is_saved(save: ChainCache)
    ensures
        save_view(None) is None,
        save_view(Some(save)) matches Some((blob, doc, at)) && blob == save.blob@ && at == save.fetched_at && match save.fanout_doc {
            Some(kept) => doc == Some(kept@),
            None => doc is None,
        },
{
}

/// Members are told apart by all of their bytes, and a key is a member where it stands among them.
pub proof fn law_members(keys: Seq<[u8; 32]>, key: [u8; 32], i: int)
    requires
        0 <= i < keys.len(),
    ensures
        keys_view(keys).len() == keys.len(),
        keys_view(keys)[i] == keys[i]@,
        has_key(keys, keys[i]@),
        has_key(keys, key@) <==> exists|k: int| 0 <= k < keys.len() && (#[trigger] keys[k])@ == key@,
        opt_key(Some(key)) == Some(key@),
        opt_key(None) is None,
{
}

/// The epoch's keys, or the error in words.
pub proof fn law_keys_or_words(keys: KeyBundle, e: FanoutError)
    ensures
        keys_or_text(Ok(keys)) == Ok::<Seq<u8>, Seq<char>>(keys.bytes@),
        keys_or_text(Err(e)) == Err::<Seq<u8>, Seq<char>>(e.text()),
{
}

/// A chain belongs to the fleet that its first entry names, and its time is that of its last entry, or the
/// earliest there is where it does not fold.
pub proof fn law_fleet_and_tip(chain: Chain, fleet: [u8; 32], fold: Fold)
    ensures
        chain.genesis is None ==> !chain.is_of(fleet@),
        chain.genesis == Some(fleet) ==> chain.is_of(fleet@),
        chain.genesis matches Some(g) && g@ != fleet@ ==> !chain.is_of(fleet@),
        chain.fold == Ok::<Fold, String>(fold) ==> chain.spec_tip() == fold.tip,
        chain.fold is Err ==> chain.spec_tip() == -0x8000_0000_0000_0000,
{
}

/// Bytes that cannot be let near the outside readers hold no chain, and no fan-out; for the schemes of a
/// device this means Ed25519 alone.
pub proof fn law_bytes_that_hold_nothing(bytes: Seq<u8>, device: Seq<u8>, members: Seq<Seq<u8>>)
    ensures
        !crate::framing::readable(bytes) ==> genesis_of(bytes) == Err::<Option<Seq<u8>>, Seq<char>>("lengths out of range"@),
        crate::framing::readable(bytes) ==> genesis_of(bytes) == chain_genesis(bytes),
        !crate::folding::foldable(bytes) ==> fold_of(bytes) is Err && bundle_of(bytes, device) is None && mask_of(bytes, device)
            == 1,
        crate::folding::foldable(bytes) ==> fold_of(bytes) == chain_fold(bytes) && bundle_of(bytes, device) == chain_bundle(
            bytes,
            device,
        ),
        crate::folding::foldable(bytes) && chain_genesis(bytes) is Err ==> mask_of(bytes, device) == 1,
        crate::folding::foldable(bytes) && chain_genesis(bytes) is Ok ==> mask_of(bytes, device) == chain_mask(bytes, device),
        !crate::folding::fan_out_readable(bytes) ==> fanout_of(bytes, members) == Err::<Seq<u8>, Seq<char>>(
            "lengths out of range"@,
        ),
        crate::folding::fan_out_readable(bytes) ==> fanout_of(bytes, members) == verified_fanout(bytes, members),
{
}

} // verus!

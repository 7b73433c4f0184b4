//! Joining a fleet: adopting the machine's session, founding or joining by handle, and waiting for
//! another device to approve.
use crate::chain::{contains_key, joined, Chain, ChainError};
use crate::keys::{masked_device_words, seed_rustdesk_identity, DeviceKey};
use crate::roster::members_of;
use crate::text::{contains_text, decimal_text, hex_text};
use vstd::prelude::*;

verus! {

// ── the fleet key ──

/// The fleet key, or why this device cannot have it now. `recovered` is what recovering or
/// establishing it came to.
pub fn fleet_key(recovered: Result<Option<[u8; 32]>, String>) -> (r: Result<[u8; 32], String>)
    ensures
        match recovered {
            Ok(Some(key)) => r == Ok::<[u8; 32], String>(key),
            Ok(None) => r matches Err(text) && text@
                == "no fleet-key wrap for this device yet (awaiting sponsor rotation)"@,
            Err(e) => r == Err::<[u8; 32], String>(e),
        },
{
    match recovered {
        Ok(Some(key)) => Ok(key),
        Ok(None) => Err("no fleet-key wrap for this device yet (awaiting sponsor rotation)".to_owned()),
        Err(e) => Err(e),
    }
}

// ── adopting a session ──

/// Why this machine's session cannot be adopted, if it cannot: nobody is logged in, there is no
/// device key, the fleet key could not be asked for, or this device has no share of it.
pub open spec fn adoption_fault(
    session: bool,
    key: Result<DeviceKey, String>,
    wrap: Result<bool, String>,
) -> Option<Seq<char>> {
    if !session {
        Some("no session on this machine — log in (e.g. Photon), or run --fgtw-enroll <handle>"@)
    } else {
        match (key, wrap) {
            (Err(e), _) => Some(e@),
            (_, Err(e)) => Some(e@),
            (_, Ok(false)) => Some("this device has no fleet-key wrap yet (not a member, or awaiting sponsor rotation)"@),
            (_, Ok(true)) => None,
        }
    }
}

/// What stands in the way of adoption, if anything does: only a device that opens a wrap of the fleet key is a current member.
/// `wrap` says whether this device's key opened one.
pub fn adopt_hindrance(session: bool, key: &Result<DeviceKey, String>, wrap: &Result<bool, String>) -> (r: Option<String>)
    ensures
        crate::roster::opt_text(r) == adoption_fault(session, *key, *wrap),
{
    if !session {
        return Some("no session on this machine — log in (e.g. Photon), or run --fgtw-enroll <handle>".to_owned());
    }
    match key {
        Err(e) => Some(e.clone()),
        Ok(_) => match wrap {
            Err(e) => Some(e.clone()),
            Ok(false) => Some(
                "this device has no fleet-key wrap yet (not a member, or awaiting sponsor rotation)".to_owned(),
            ),
            Ok(true) => None,
        },
    }
}

/// What joining leaves to be done and said: the signing identity to install, and the report.
pub struct Joined {
    pub secret: Vec<u8>,
    pub public: Vec<u8>,
    pub report: String,
}

/// Adopt this machine's session: with nothing in the way and the fleet's chain at hand, install the
/// device key as the signing identity and report the size of the fleet.
pub fn adopt_session(
    session: bool,
    key: Result<DeviceKey, String>,
    wrap: Result<bool, String>,
    chain: Result<Chain, ChainError>,
) -> (r: Result<Joined, String>)
    ensures
        match adoption_fault(session, key, wrap) {
            Some(text) => r matches Err(e) && e@ == text,
            None => match chain {
                Err(fault) => r matches Err(e) && e@ == fault.text(),
                Ok(c) => match c.fold {
                    Err(fault) => r matches Err(e) && e@ == "fleet does not fold: "@ + fault@,
                    Ok(fold) => {
                        &&& r matches Ok(done)
                        &&& done.secret@ == key->Ok_0.seed@ + key->Ok_0.public@
                        &&& done.public@ == key->Ok_0.public@
                        &&& done.report@ == "Adopted session: fleet member on this machine ("@ + crate::text::decimal(
                            fold.members@.len(),
                        ) + " member(s))."@
                    },
                },
            },
        },
{
    if let Some(text) = adopt_hindrance(session, &key, &wrap) {
        return Err(text);
    }
    let device = match key {
        Ok(device) => device,
        Err(e) => return Err(e),
    };
    let c = match chain {
        Ok(c) => c,
        Err(fault) => return Err(fault.message()),
    };
    let members = match members_of(c) {
        Ok(members) => members,
        Err(e) => return Err(e),
    };
    let (secret, public) = seed_rustdesk_identity(&device);
    let mut report = joined(
        "Adopted session: fleet member on this machine (",
        decimal_text(members.len() as u64).as_str(),
    );
    report.append(" member(s)).");
    Ok(Joined { secret, public, report })
}

// ── enrolling by handle ──

/// How often founding or joining is attempted.
pub const ENROLL_ATTEMPTS: u32 = 4;

/// Seconds between two attempts.
pub const ENROLL_WAIT_SECS: u64 = 2;

/// What a refusal says when the fleet exists and this device is not in it.
pub const NOT_A_MEMBER: &'static str = "enroll it from an existing device";

/// The attempts that failed so far.
pub struct Enrollment {
    pub failed: u32,
}

/// What to do after an attempt.
pub enum EnrollAction {
    /// This device is a member.
    Established,
    /// Another device must approve it.
    Pair,
    /// Wait and try again; this is the number of the retry.
    Retry(u32),
    /// Give up, with the last error.
    GiveUp(String),
}

/// What follows an attempt, with how many before it failed and its error, if it had one.
pub enum EnrollMove {
    Established,
    Pair,
    Retry(nat),
    GiveUp(Seq<char>),
}

/// The attempt settles the matter: this device is a member, or must be approved by another.
pub open spec fn settles(error: Option<Seq<char>>) -> bool {
    error matches Some(text) ==> crate::text::occurs(text, NOT_A_MEMBER@)
}

/// What follows an attempt: `failed` attempts failed before it, and it gave this error, or none.
pub open spec fn enroll_move(failed: nat, error: Option<Seq<char>>) -> EnrollMove {
    match error {
        None => EnrollMove::Established,
        Some(text) => if settles(error) {
            EnrollMove::Pair
        } else if failed + 1 < ENROLL_ATTEMPTS {
            EnrollMove::Retry(failed + 1)
        } else {
            EnrollMove::GiveUp(text)
        },
    }
}

/// All that follows attempts with these errors, of which `failed` came before, until the matter is
/// settled or given up.
pub open spec fn enroll_run(failed: nat, errors: Seq<Option<Seq<char>>>) -> Seq<EnrollMove>
    decreases errors.len(),
{
    if errors.len() == 0 {
        Seq::empty()
    } else {
        let step = enroll_move(failed, errors[0]);
        if step is Retry {
            seq![step] + enroll_run(failed + 1, errors.skip(1))
        } else {
            seq![step]
        }
    }
}

/// The error of an attempt.
pub open spec fn error_of(outcome: Result<(), String>) -> Option<Seq<char>> {
    match outcome {
        Ok(()) => None,
        Err(e) => Some(e@),
    }
}

/// As long as nothing is settled, attempts that are not the last are each followed by a retry.
proof fn lemma_enroll_retries(failed: nat, errors: Seq<Option<Seq<char>>>, n: int)
    requires
        0 <= n < errors.len(),
        failed + n < ENROLL_ATTEMPTS,
        forall|k: int| 0 <= k < n ==> !settles(#[trigger] errors[k]),
    ensures
        enroll_run(failed, errors).len() == n + enroll_run((failed + n) as nat, errors.skip(n)).len(),
        forall|k: int| 0 <= k < n ==> #[trigger] enroll_run(failed, errors)[k] == EnrollMove::Retry((failed + k + 1) as nat),
        enroll_run(failed, errors).skip(n) == enroll_run((failed + n) as nat, errors.skip(n)),
    decreases n,
{
    let run = enroll_run(failed, errors);
    if n == 0 {
        assert(errors.skip(0) == errors);
        assert(run.skip(0) == run);
    } else {
        let rest = enroll_run(failed + 1, errors.skip(1));
        assert(!settles(errors[0]));
        assert(run == seq![EnrollMove::Retry(failed + 1)] + rest);
        assert forall|k: int| 0 <= k < n - 1 implies !settles(#[trigger] errors.skip(1)[k]) by {
            assert(errors.skip(1)[k] == errors[k + 1]);
        }
        lemma_enroll_retries(failed + 1, errors.skip(1), n - 1);
        assert(errors.skip(1).skip(n - 1) == errors.skip(n));
        assert forall|k: int| 0 <= k < n implies #[trigger] run[k] == EnrollMove::Retry((failed + k + 1) as nat) by {
            if k > 0 {
                assert(run[k] == rest[k - 1]);
            }
        }
        assert(run.skip(n) == rest.skip(n - 1));
    }
}

/// An enrollment ends with the first attempt that settles the matter, with a retry after each of
/// those before it.
pub proof fn law_enrollment_ends_when_settled(errors: Seq<Option<Seq<char>>>, n: int)
    requires
        0 <= n < ENROLL_ATTEMPTS,
        n < errors.len(),
        settles(errors[n]),
        forall|k: int| 0 <= k < n ==> !settles(#[trigger] errors[k]),
    ensures
        enroll_run(0, errors).len() == n + 1,
        forall|k: int| 0 <= k < n ==> #[trigger] enroll_run(0, errors)[k] == EnrollMove::Retry((k + 1) as nat),
        enroll_run(0, errors)[n] == (if errors[n] is None { EnrollMove::Established } else { EnrollMove::Pair }),
{
    lemma_enroll_retries(0, errors, n);
    assert(errors.skip(n)[0] == errors[n]);
    assert(enroll_run(0, errors).skip(n)[0] == enroll_run(0, errors)[n]);
}

/// An enrollment makes four attempts and no more: where none of them settles the matter, it is given
/// up with the error of the last.
pub proof fn law_enrollment_gives_up(errors: Seq<Option<Seq<char>>>)
    requires
        errors.len() >= ENROLL_ATTEMPTS,
        forall|k: int| 0 <= k < ENROLL_ATTEMPTS ==> !settles(#[trigger] errors[k]),
    ensures
        enroll_run(0, errors).len() == ENROLL_ATTEMPTS,
        forall|k: int| 0 <= k < ENROLL_ATTEMPTS - 1 ==> #[trigger] enroll_run(0, errors)[k] == EnrollMove::Retry((k + 1) as nat),
        errors[ENROLL_ATTEMPTS - 1] matches Some(text) && enroll_run(0, errors)[ENROLL_ATTEMPTS - 1] == EnrollMove::GiveUp(text),
{
    let n = ENROLL_ATTEMPTS - 1;
    lemma_enroll_retries(0, errors, n);
    assert(errors.skip(n)[0] == errors[n]);
    assert(enroll_run(0, errors).skip(n)[0] == enroll_run(0, errors)[n]);
}

impl EnrollAction {
    /// The move that this is.
    pub open spec fn spec_move(&self) -> EnrollMove {
        match self {
            EnrollAction::Established => EnrollMove::Established,
            EnrollAction::Pair => EnrollMove::Pair,
            EnrollAction::Retry(n) => EnrollMove::Retry(*n as nat),
            EnrollAction::GiveUp(text) => EnrollMove::GiveUp(text@),
        }
    }
}

impl Enrollment {
    /// At least one attempt is left.
    pub open spec fn wf(&self) -> bool {
        self.failed < ENROLL_ATTEMPTS
    }

    pub fn new() -> (r: Self)
        ensures
            r.wf(),
            r.failed == 0,
    {
        Enrollment { failed: 0 }
    }

    /// What to do, given what an attempt came to.
    pub fn step(&mut self, outcome: Result<(), String>) -> (r: EnrollAction)
        requires
            old(self).wf(),
        ensures
            r.spec_move() == enroll_move(old(self).failed as nat, error_of(outcome)),
            final(self).failed == old(self).failed + (if settles(error_of(outcome)) { 0int } else { 1int }),
            r is Retry ==> final(self).wf(),
    {
        match outcome {
            Ok(()) => EnrollAction::Established,
            Err(e) => {
                if contains_text(e.as_str(), NOT_A_MEMBER) {
                    return EnrollAction::Pair;
                }
                self.failed = self.failed + 1;
                if self.failed < ENROLL_ATTEMPTS {
                    EnrollAction::Retry(self.failed)
                } else {
                    EnrollAction::GiveUp(e)
                }
            },
        }
    }
}

/// What is said before a retry.
pub fn retry_text(retry: u32) -> (r: String)
    ensures
        r@ == "  establishing fleet... (retry "@ + crate::text::decimal(retry as nat) + ")"@,
{
    let mut out = joined("  establishing fleet... (retry ", decimal_text(retry as u64).as_str());
    out.append(")");
    out
}

/// The first four bytes of a key in hexadecimal, as a list.
pub open spec fn key_start(key: Seq<u8>) -> Seq<char> {
    "["@ + crate::text::hex(key.subrange(0, 1)) + ", "@ + crate::text::hex(key.subrange(1, 2)) + ", "@ + crate::text::hex(
        key.subrange(2, 3),
    ) + ", "@ + crate::text::hex(key.subrange(3, 4)) + "]"@
}

fn show_key_start(key: &[u8; 32]) -> (r: String)
    ensures
        r@ == key_start(key@),
{
    let bytes = key.as_slice();
    let mut out = joined("[", hex_text(vstd::slice::slice_subrange(bytes, 0, 1)).as_str());
    out.append(", ");
    out.append(hex_text(vstd::slice::slice_subrange(bytes, 1, 2)).as_str());
    out.append(", ");
    out.append(hex_text(vstd::slice::slice_subrange(bytes, 2, 3)).as_str());
    out.append(", ");
    out.append(hex_text(vstd::slice::slice_subrange(bytes, 3, 4)).as_str());
    out.append("]");
    out
}

/// The report of a device that founded or joined a fleet of `members` members.
pub open spec fn report_text(how: Seq<char>, key: Seq<u8>, middle: Seq<char>, members: nat) -> Seq<char> {
    how + ". This device ("@ + key_start(key) + "…) is "@ + middle + " of "@ + crate::text::decimal(members)
        + " fleet member(s)."@
}

fn report(how: &str, key: &[u8; 32], middle: &str, members: usize) -> (r: String)
    ensures
        r@ == report_text(how@, key@, middle@, members as nat),
{
    let mut out = joined(how, ". This device (");
    out.append(show_key_start(key).as_str());
    out.append("…) is ");
    out.append(middle);
    out.append(" of ");
    out.append(decimal_text(members as u64).as_str());
    out.append(" fleet member(s).");
    out
}

/// Finish an enrollment that was established: with the fleet's chain at hand, install the device
/// key as the signing identity and report.
pub fn finish_enroll(key: &DeviceKey, chain: Result<Chain, ChainError>) -> (r: Result<Joined, String>)
    ensures
        match chain {
            Err(fault) => r matches Err(e) && e@ == fault.text(),
            Ok(c) => match c.fold {
                Err(fault) => r matches Err(e) && e@ == "fleet does not fold: "@ + fault@,
                Ok(fold) => {
                    &&& r matches Ok(done)
                    &&& done.secret@ == key.seed@ + key.public@
                    &&& done.public@ == key.public@
                    &&& done.report@ == report_text("Enrolled"@, key.public@, "one"@, fold.members@.len())
                },
            },
        },
{
    let c = match chain {
        Ok(c) => c,
        Err(fault) => return Err(fault.message()),
    };
    let members = match members_of(c) {
        Ok(members) => members,
        Err(e) => return Err(e),
    };
    let (secret, public) = seed_rustdesk_identity(key);
    Ok(Joined { secret, public, report: report("Enrolled", &key.public, "one", members.len()) })
}

// ── waiting for approval ──

/// How often the member set is looked at while waiting.
pub const PAIR_POLLS: u32 = 150;

/// Seconds between two looks.
pub const PAIR_WAIT_SECS: u64 = 2;

/// The look before which the request is posted again, because the first one lapses.
pub const PAIR_REPOST_AT: u32 = 105;

/// What is shown to whoever is to approve.
pub fn pairing_prompt(device: &[u8; 32], identity_seed: &[u8; 32]) -> (r: String)
    ensures
        r@ == "\nThis device isn't in the fleet yet. On an already-enrolled device (e.g. Photon),\napprove pairing for these words:\n\n    "@
            + crate::keys::pairing_words(device@, identity_seed@)
            + "\n\nWaiting up to 5 minutes for approval..."@,
{
    let words = masked_device_words(device, identity_seed);
    let mut out = joined(
        "\nThis device isn't in the fleet yet. On an already-enrolled device (e.g. Photon),\napprove pairing for these words:\n\n    ",
        words.as_str(),
    );
    out.append("\n\nWaiting up to 5 minutes for approval...");
    out
}

/// The looks taken so far.
pub struct Pairing {
    pub polls: u32,
}

/// What to do while waiting.
pub enum PairAction {
    /// Wait, post the request again where asked to, and look at the member set.
    Poll(bool),
    /// This device is in.
    Bound(Joined),
    /// Nobody approved in time.
    TimedOut(String),
}

/// What follows a look at the member set.
pub enum PairMove {
    /// Another look, with the request posted again before it where so said.
    Look(bool),
    Bound,
    TimedOut,
}

/// What follows a look that `polls` others came before, and that found this device or did not.
pub open spec fn pair_move(polls: nat, found: bool) -> PairMove {
    if found {
        PairMove::Bound
    } else if polls + 1 < PAIR_POLLS {
        PairMove::Look(polls + 1 == PAIR_REPOST_AT)
    } else {
        PairMove::TimedOut
    }
}

/// All that follows looks that found this device or did not, of which `polls` came before, until the
/// wait ends.
pub open spec fn pair_run(polls: nat, looks: Seq<bool>) -> Seq<PairMove>
    decreases looks.len(),
{
    if looks.len() == 0 {
        Seq::empty()
    } else {
        let step = pair_move(polls, looks[0]);
        if step is Look {
            seq![step] + pair_run(polls + 1, looks.skip(1))
        } else {
            seq![step]
        }
    }
}

/// As long as this device is not found, looks that are not the last are each followed by another.
proof fn lemma_pair_looks(polls: nat, looks: Seq<bool>, n: int)
    requires
        0 <= n < looks.len(),
        polls + n < PAIR_POLLS,
        forall|k: int| 0 <= k < n ==> !#[trigger] looks[k],
    ensures
        pair_run(polls, looks).len() == n + pair_run((polls + n) as nat, looks.skip(n)).len(),
        forall|k: int| 0 <= k < n ==> #[trigger] pair_run(polls, looks)[k] == PairMove::Look(polls + k + 1 == PAIR_REPOST_AT),
        pair_run(polls, looks).skip(n) == pair_run((polls + n) as nat, looks.skip(n)),
    decreases n,
{
    let run = pair_run(polls, looks);
    if n == 0 {
        assert(looks.skip(0) == looks);
        assert(run.skip(0) == run);
    } else {
        let rest = pair_run(polls + 1, looks.skip(1));
        assert(!looks[0]);
        assert(run == seq![PairMove::Look(polls + 1 == PAIR_REPOST_AT)] + rest);
        assert forall|k: int| 0 <= k < n - 1 implies !#[trigger] looks.skip(1)[k] by {
            assert(looks.skip(1)[k] == looks[k + 1]);
        }
        lemma_pair_looks(polls + 1, looks.skip(1), n - 1);
        assert(looks.skip(1).skip(n - 1) == looks.skip(n));
        assert forall|k: int| 0 <= k < n implies #[trigger] run[k] == PairMove::Look(polls + k + 1 == PAIR_REPOST_AT) by {
            if k > 0 {
                assert(run[k] == rest[k - 1]);
            }
        }
        assert(run.skip(n) == rest.skip(n - 1));
    }
}

/// The wait ends with the first look that finds this device, within the looks there are. Until then
/// the request is posted again once, after the 105th look, and never otherwise.
pub proof fn law_pairing_ends_when_found(looks: Seq<bool>, n: int)
    requires
        0 <= n < PAIR_POLLS,
        n < looks.len(),
        looks[n],
        forall|k: int| 0 <= k < n ==> !#[trigger] looks[k],
    ensures
        pair_run(0, looks).len() == n + 1,
        forall|k: int| 0 <= k < n ==> #[trigger] pair_run(0, looks)[k] == PairMove::Look(k + 1 == 105),
        pair_run(0, looks)[n] == PairMove::Bound,
{
    lemma_pair_looks(0, looks, n);
    assert(looks.skip(n)[0] == looks[n]);
    assert(pair_run(0, looks).skip(n)[0] == pair_run(0, looks)[n]);
}

/// The wait is over after 150 looks that do not find this device, with the request posted again
/// once.
pub proof fn law_pairing_times_out(looks: Seq<bool>)
    requires
        looks.len() >= PAIR_POLLS,
        forall|k: int| 0 <= k < PAIR_POLLS ==> !#[trigger] looks[k],
    ensures
        pair_run(0, looks).len() == 150,
        forall|k: int| 0 <= k < 149 ==> #[trigger] pair_run(0, looks)[k] == PairMove::Look(k + 1 == 105),
        pair_run(0, looks)[149] == PairMove::TimedOut,
{
    lemma_pair_looks(0, looks, 149);
    assert(looks.skip(149)[0] == looks[149]);
    assert(pair_run(0, looks).skip(149)[0] == pair_run(0, looks)[149]);
}

impl PairAction {
    /// The move that this is.
    pub open spec fn spec_move(&self) -> PairMove {
        match self {
            PairAction::Poll(repost) => PairMove::Look(*repost),
            PairAction::Bound(_) => PairMove::Bound,
            PairAction::TimedOut(_) => PairMove::TimedOut,
        }
    }
}

/// The members that a look came to hold the device.
pub open spec fn finds(members: Option<&Vec<[u8; 32]>>, device: Seq<u8>) -> bool {
    members matches Some(m) && crate::chain::has_key(m@, device)
}

impl Pairing {
    /// A look is due.
    pub open spec fn wf(&self) -> bool {
        self.polls < PAIR_POLLS
    }

    /// Start waiting.
    pub fn new() -> (r: (Self, PairAction))
        ensures
            r.0.wf(),
            r.0.polls == 0,
            r.1 == PairAction::Poll(false),
    {
        (Pairing { polls: 0 }, PairAction::Poll(false))
    }

    /// What to do, given what a look came to: the members, or nothing where they could not be had.
    pub fn step(&mut self, key: &DeviceKey, members: Option<&Vec<[u8; 32]>>) -> (r: PairAction)
        requires
            old(self).wf(),
        ensures
            r.spec_move() == pair_move(old(self).polls as nat, finds(members, key.public@)),
            final(self).polls == old(self).polls + (if finds(members, key.public@) { 0int } else { 1int }),
            r is Poll ==> final(self).wf(),
            r matches PairAction::Bound(done) ==> {
                &&& done.secret@ == key.seed@ + key.public@
                &&& done.public@ == key.public@
                &&& done.report@ == report_text("Paired"@, key.public@, "now one"@, members->0@.len())
            },
            r matches PairAction::TimedOut(text) ==> text@ == "timed out waiting for approval"@,
    {
        if let Some(m) = members {
            if contains_key(m, &key.public) {
                let (secret, public) = seed_rustdesk_identity(key);
                return PairAction::Bound(
                    Joined { secret, public, report: report("Paired", &key.public, "now one", m.len()) },
                );
            }
        }
        self.polls = self.polls + 1;
        if self.polls < PAIR_POLLS {
            PairAction::Poll(self.polls == PAIR_REPOST_AT)
        } else {
            PairAction::TimedOut("timed out waiting for approval".to_owned())
        }
    }
}

// ── what every outcome leads to, in words and numbers ──

/// Four attempts, two seconds apart; 150 looks, two seconds apart.
pub proof fn law_enrollment_numbers()
    ensures
        ENROLL_ATTEMPTS == 4,
        ENROLL_WAIT_SECS == 2,
        PAIR_POLLS == 150,
        PAIR_WAIT_SECS == 2,
        PAIR_REPOST_AT == 105,
        NOT_A_MEMBER@ == "enroll it from an existing device"@,
{
}

/// An attempt without an error makes this device a member. One whose error says to enroll it from an
/// existing device leads to pairing. Any other is tried again up to three times, and given up with the
/// fourth.
pub proof fn law_one_attempt(failed: nat, text: Seq<char>, before: Seq<char>, after: Seq<char>)
    ensures
        enroll_move(failed, None) is Established,
        enroll_move(failed, Some(before + "enroll it from an existing device"@ + after)) is Pair,
        enroll_move(failed, Some(text)) is Pair ==> exists|a: Seq<char>, b: Seq<char>|
            text == #[trigger] (a + "enroll it from an existing device"@ + b),
        !(enroll_move(failed, Some(text)) is Established),
        !(enroll_move(failed, Some(text)) is Pair) && failed < 3 ==> enroll_move(failed, Some(text)) == EnrollMove::Retry(
            failed + 1,
        ),
        !(enroll_move(failed, Some(text)) is Pair) && failed >= 3 ==> enroll_move(failed, Some(text)) == EnrollMove::GiveUp(
            text,
        ),
        settles(None),
        settles(Some(text)) <==> enroll_move(failed, Some(text)) is Pair,
{
    crate::text::law_searching(before, NOT_A_MEMBER@, after, text);
}

/// What stands in the way of adopting a session, the first of these: nobody is logged in, there is no
/// device key, the fleet key could not be asked for, this device has no share of it.
pub proof fn law_what_hinders(session: bool, key: Result<DeviceKey, String>, wrap: Result<bool, String>)
    ensures
        adoption_fault(session, key, wrap) is None <==> session && key is Ok && wrap is Ok && wrap->Ok_0,
        !session ==> adoption_fault(session, key, wrap) == Some(
            "no session on this machine — log in (e.g. Photon), or run --fgtw-enroll <handle>"@,
        ),
        session && key is Err ==> adoption_fault(session, key, wrap) == Some(key->Err_0@),
        session && key is Ok && wrap is Err ==> adoption_fault(session, key, wrap) == Some(wrap->Err_0@),
        session && key is Ok && wrap is Ok && !wrap->Ok_0 ==> adoption_fault(session, key, wrap) == Some(
            "this device has no fleet-key wrap yet (not a member, or awaiting sponsor rotation)"@,
        ),
{
}

/// One look: this device is in as soon as it is found among the members; else it is looked for 149 times
/// more at most, with the request posted again before the 106th look and before no other.
pub proof fn law_one_look(polls: nat)
    ensures
        pair_move(polls, true) is Bound,
        polls < 149 ==> pair_move(polls, false) == PairMove::Look(polls == 104),
        polls >= 149 ==> pair_move(polls, false) is TimedOut,
{
}

/// This device is found where its key is one of the members' keys.
pub proof fn law_who_is_found(members: &Vec<[u8; 32]>, device: Seq<u8>, i: int)
    ensures
        !finds(None, device),
        0 <= i < members@.len() && members@[i]@ == device ==> finds(Some(members), device),
        finds(Some(members), device) ==> exists|k: int| 0 <= k < members@.len() && (#[trigger] members@[k])@ == device,
{
}

/// The report of a device that joined shows the start of its key and the size of the fleet.
pub proof fn law_report(how: Seq<char>, key: Seq<u8>, middle: Seq<char>, members: nat)
    requires
        key.len() == 32,
    ensures
        report_text(how, key, middle, members) == how + ". This device (["@ + crate::text::hex(key.take(1)) + ", "@
            + crate::text::hex(key.subrange(1, 2)) + ", "@ + crate::text::hex(key.subrange(2, 3)) + ", "@ + crate::text::hex(
            key.subrange(3, 4),
        ) + "]…) is "@ + middle + " of "@ + crate::text::decimal(members) + " fleet member(s)."@,
{
    reveal_strlit(". This device ([");
    reveal_strlit(". This device (");
    reveal_strlit("[");
    reveal_strlit("]…) is ");
    reveal_strlit("…) is ");
    reveal_strlit("]");
    assert(key.take(1) == key.subrange(0, 1));
    assert(". This device (["@ == ". This device ("@ + "["@);
    assert("]…) is "@ == "]"@ + "…) is "@);
}

/// What the actions are, move by move.
pub proof fn law_moves(n: u32, text: String, done: Joined, again: bool)
    ensures
        EnrollAction::Established.spec_move() == EnrollMove::Established,
        EnrollAction::Pair.spec_move() == EnrollMove::Pair,
        EnrollAction::Retry(n).spec_move() == EnrollMove::Retry(n as nat),
        EnrollAction::GiveUp(text).spec_move() == EnrollMove::GiveUp(text@),
        error_of(Ok(())) is None,
        error_of(Err(text)) == Some(text@),
        PairAction::Poll(again).spec_move() == PairMove::Look(again),
        PairAction::Bound(done).spec_move() == PairMove::Bound,
        PairAction::TimedOut(text).spec_move() == PairMove::TimedOut,
{
}

} // verus!

//! Fleet handshakes that were accepted and wait for their login, by connection.
use std::collections::HashMap;
use vstd::prelude::*;

verus! {

broadcast use vstd::std_specs::hash::group_hash_axioms;

/// The devices that completed a valid handshake, by the connection they did it on. An entry is
/// made at the handshake and taken at the first login.
pub struct Pending {
    entries: HashMap<i32, [u8; 32]>,
}

impl View for Pending {
    type V = Map<i32, [u8; 32]>;

    closed spec fn view(&self) -> Map<i32, [u8; 32]> {
        self.entries@
    }
}

impl Pending {
    /// Nothing pending.
    pub fn new() -> (r: Self)
        ensures
            r@ == Map::<i32, [u8; 32]>::empty(),
    {
        Pending { entries: HashMap::new() }
    }
}

/// Record that connection `id` completed a valid fleet handshake as `device`.
pub fn remember_authed(pending: &mut Pending, id: i32, device: [u8; 32])
    ensures
        final(pending)@ == old(pending)@.insert(id, device),
{
    let _ = pending.entries.insert(id, device);
}

/// Take, and clear, the device that connection `id` was authenticated as.
pub fn take_authed(pending: &mut Pending, id: i32) -> (r: Option<[u8; 32]>)
    ensures
        final(pending)@ == old(pending)@.remove(id),
        r == (if old(pending)@.contains_key(id) { Some(old(pending)@[id]) } else { None }),
{
    pending.entries.remove(&id)
}

/// Drop what is pending for connection `id`.
pub fn forget_authed(pending: &mut Pending, id: i32)
    ensures
        final(pending)@ == old(pending)@.remove(id),
{
    let _ = pending.entries.remove(&id);
}

/// A login takes what the handshake left, once: the first take gives the device, the next gives
/// nothing, and other connections are not touched by either.
pub proof fn law_taken_once(before: Map<i32, [u8; 32]>, id: i32, device: [u8; 32])
    ensures
        ({
            let remembered = before.insert(id, device);
            let taken = remembered.remove(id);
            &&& remembered.contains_key(id) && remembered[id] == device
            &&& !taken.contains_key(id)
            &&& forall|other: i32|
                other != id ==> (#[trigger] taken.contains_key(other) <==> before.contains_key(other)) && taken[other]
                    == before[other]
        }),
{
}

} // verus!

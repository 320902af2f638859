//! Per-device scratch workspaces, which only ever grow and are kept between calls.

use std::collections::HashMap;
use vstd::prelude::*;

verus! {

/// One device's scratch buffer and its size in bytes.
pub struct WorkspaceSlot<S> {
    pub slice: S,
    pub cap: usize,
}

/// The scratch buffers of all devices, by device id. `S` is the buffer handle.
pub struct Workspaces<S> {
    slots: HashMap<u64, WorkspaceSlot<S>>,
}

impl<S> View for Workspaces<S> {
    type V = Map<u64, WorkspaceSlot<S>>;

    closed spec fn view(&self) -> Map<u64, WorkspaceSlot<S>> {
        self.slots@
    }
}

/// The device has a buffer of at least `bytes` bytes.
pub open spec fn has_room<S>(m: Map<u64, WorkspaceSlot<S>>, device: u64, bytes: nat) -> bool {
    m.contains_key(device) && m[device].cap >= bytes
}

/// The workspaces after `bytes` bytes were asked for on `device`, where `got` is what an
/// allocation of that size gave or would have given.
pub open spec fn after_ensure<S, E>(
    m: Map<u64, WorkspaceSlot<S>>,
    device: u64,
    bytes: usize,
    got: Result<S, E>,
) -> Map<u64, WorkspaceSlot<S>> {
    if has_room(m, device, bytes as nat) {
        m
    } else {
        match got {
            Ok(slice) => m.insert(device, WorkspaceSlot { slice, cap: bytes }),
            Err(_) => m,
        }
    }
}

/// What asking for `bytes` bytes on `device` does, with `alloc` to get a new buffer: `alloc` is
/// called only where there is no room, with `bytes`, and what it gives decides what the workspaces
/// are after and which error, if any, comes back.
pub open spec fn ensured<S, E, A: FnOnce(usize) -> Result<S, E>>(
    before: Map<u64, WorkspaceSlot<S>>,
    after: Map<u64, WorkspaceSlot<S>>,
    device: u64,
    bytes: usize,
    alloc: A,
    failed: Option<E>,
) -> bool {
    if has_room(before, device, bytes as nat) {
        after == before && failed is None
    } else {
        exists|got: Result<S, E>|
            {
                &&& #[trigger] call_ensures(alloc, (bytes,), got)
                &&& after == after_ensure(before, device, bytes, got)
                &&& failed == got.err()
            }
    }
}

impl<S> Workspaces<S> {
    /// No device has a workspace yet.
    pub fn new() -> (r: Self)
        ensures
            r@ == Map::<u64, WorkspaceSlot<S>>::empty(),
    {
        Workspaces { slots: HashMap::new() }
    }

    /// The device's workspace, if it has one.
    pub fn get(&self, device: u64) -> (r: Option<&WorkspaceSlot<S>>)
        ensures
            r is Some <==> self@.contains_key(device),
            r is Some ==> *r->0 == self@[device],
    {
        self.slots.get(&device)
    }
}

/// Whether `bytes` bytes can be had on the device without an allocation.
pub fn workspace_fits<S>(ws: &Workspaces<S>, device: u64, bytes: usize) -> (r: bool)
    ensures
        r == has_room(ws@, device, bytes as nat),
        r <==> ws@.contains_key(device) && ws@[device].cap >= bytes,
{
    match ws.get(device) {
        Some(slot) => slot.cap >= bytes,
        None => false,
    }
}

/// Takes in the outcome of an allocation of `bytes` bytes that the device's workspace was too
/// small for. A new buffer replaces the one that the device had; a failure changes nothing.
pub fn workspace_settle<S, E>(
    ws: &mut Workspaces<S>,
    device: u64,
    bytes: usize,
    got: Result<S, E>,
) -> (r: Result<(), E>)
    requires
        !has_room(old(ws)@, device, bytes as nat),
    ensures
        final(ws)@ == after_ensure(old(ws)@, device, bytes, got),
        r == (match got {
            Ok(_) => Ok::<(), E>(()),
            Err(e) => Err(e),
        }),
        got matches Ok(slice) ==> final(ws)@ == old(ws)@.insert(
            device,
            WorkspaceSlot { slice, cap: bytes },
        ),
        got is Err ==> final(ws)@ == old(ws)@,
{
    match got {
        Ok(slice) => {
            ws.slots.insert(device, WorkspaceSlot { slice, cap: bytes });
            Ok(())
        },
        Err(e) => Err(e),
    }
}

/// The device's workspace, grown to `bytes` bytes if it is smaller. `alloc` is called only where
/// the workspace is missing or too small, with `bytes`; if it fails, nothing changes.
pub fn workspace_ensure<S, E, A: FnOnce(usize) -> Result<S, E>>(
    ws: &mut Workspaces<S>,
    device: u64,
    bytes: usize,
    alloc: A,
) -> (r: Result<&WorkspaceSlot<S>, E>)
    requires
        !has_room(old(ws)@, device, bytes as nat) ==> call_requires(alloc, (bytes,)),
    ensures
        ensured(old(ws)@, final(ws)@, device, bytes, alloc, r.err()),
        r matches Ok(slot) ==> {
            &&& has_room(final(ws)@, device, bytes as nat)
            &&& *slot == final(ws)@[device]
            &&& final(ws)@.contains_key(device)
        },
        old(ws)@.contains_key(device) && old(ws)@[device].cap >= bytes ==> r is Ok && final(ws)@
            == old(ws)@,
        r matches Ok(slot) ==> {
            &&& slot.cap >= bytes
            &&& final(ws)@ == old(ws)@ || {
                &&& slot.cap == bytes
                &&& call_ensures(alloc, (bytes,), Ok(slot.slice))
                &&& final(ws)@ == old(ws)@.insert(
                    device,
                    WorkspaceSlot { slice: slot.slice, cap: bytes },
                )
            }
        },
        r matches Err(e) ==> call_ensures(alloc, (bytes,), Err(e)) && final(ws)@ == old(ws)@,
{
    if !workspace_fits(&*ws, device, bytes) {
        let got = alloc(bytes);
        let settled = workspace_settle(ws, device, bytes, got);
        if let Err(e) = settled {
            return Err(e);
        }
    }
    match ws.get(device) {
        Some(slot) => Ok(slot),
        None => vstd::pervasive::unreached(),
    }
}

/// Grows the device's workspace to at least `min_bytes` bytes ahead of time, so that its buffer
/// stays where it is for every later call that needs no more than that. Returns the workspace's
/// buffer and its size after the call.
pub fn ensure_workspace_capacity<S, E, A: FnOnce(usize) -> Result<S, E>>(
    ws: &mut Workspaces<S>,
    device: u64,
    min_bytes: usize,
    alloc: A,
) -> (r: Result<(&S, usize), E>)
    requires
        !has_room(old(ws)@, device, min_bytes as nat) ==> call_requires(alloc, (min_bytes,)),
    ensures
        ensured(old(ws)@, final(ws)@, device, min_bytes, alloc, r.err()),
        r matches Ok(slot) ==> {
            &&& has_room(final(ws)@, device, min_bytes as nat)
            &&& *slot.0 == final(ws)@[device].slice
            &&& slot.1 == final(ws)@[device].cap
            &&& final(ws)@.contains_key(device)
        },
        old(ws)@.contains_key(device) && old(ws)@[device].cap >= min_bytes ==> r is Ok && final(ws)@
            == old(ws)@,
        r matches Ok(slot) ==> {
            &&& slot.1 >= min_bytes
            &&& final(ws)@ == old(ws)@ || {
                &&& slot.1 == min_bytes
                &&& call_ensures(alloc, (min_bytes,), Ok(*slot.0))
                &&& final(ws)@ == old(ws)@.insert(
                    device,
                    WorkspaceSlot { slice: *slot.0, cap: min_bytes },
                )
            }
        },
        r matches Err(e) ==> call_ensures(alloc, (min_bytes,), Err(e)) && final(ws)@ == old(ws)@,
{
    match workspace_ensure(ws, device, min_bytes, alloc) {
        Ok(slot) => Ok((&slot.slice, slot.cap)),
        Err(e) => Err(e),
    }
}

/// Drops the workspaces of all devices. The next call on a device allocates its workspace anew.
pub fn release_workspaces<S>(ws: &mut Workspaces<S>)
    ensures
        final(ws)@ == Map::<u64, WorkspaceSlot<S>>::empty(),
        forall|device: u64, bytes: nat| !has_room(final(ws)@, device, bytes),
{
    ws.slots.clear();
}

/// A workspace never shrinks or goes away, whatever is asked for and whatever comes of it.
pub proof fn law_workspaces_only_grow<S, E>(
    m: Map<u64, WorkspaceSlot<S>>,
    device: u64,
    bytes: usize,
    got: Result<S, E>,
    other: u64,
)
    requires
        m.contains_key(other),
    ensures
        after_ensure(m, device, bytes, got).contains_key(other),
        after_ensure(m, device, bytes, got)[other].cap >= m[other].cap,
{
}

/// A request on one device leaves the workspaces of the others as they are.
pub proof fn law_other_devices_untouched<S, E>(
    m: Map<u64, WorkspaceSlot<S>>,
    device: u64,
    bytes: usize,
    got: Result<S, E>,
    other: u64,
)
    requires
        other != device,
    ensures
        after_ensure(m, device, bytes, got).contains_key(other) == m.contains_key(other),
        m.contains_key(other) ==> after_ensure(m, device, bytes, got)[other] == m[other],
{
}

/// Once `bytes` bytes were had on a device, a request for no more than that changes nothing on
/// any device: the buffer handed out before is the one handed out again.
pub proof fn law_ensured_workspace_is_stable<S, E>(
    m: Map<u64, WorkspaceSlot<S>>,
    device: u64,
    bytes: usize,
    slice: S,
    later: usize,
    got: Result<S, E>,
)
    requires
        later <= bytes,
    ensures
        after_ensure(
            after_ensure(m, device, bytes, Ok::<S, E>(slice)),
            device,
            later,
            got,
        ) == after_ensure(m, device, bytes, Ok::<S, E>(slice)),
{
}

/// A workspace that has room keeps having it through any further request on any device.
pub proof fn law_room_is_kept<S, E>(
    m: Map<u64, WorkspaceSlot<S>>,
    device: u64,
    bytes: nat,
    next_device: u64,
    next_bytes: usize,
    got: Result<S, E>,
)
    requires
        has_room(m, device, bytes),
    ensures
        has_room(after_ensure(m, next_device, next_bytes, got), device, bytes),
{
}

/// The workspaces after a run of requests, each with its device, its size and what an allocation
/// of that size gave or would have given.
pub open spec fn after_all<S, E>(
    m: Map<u64, WorkspaceSlot<S>>,
    requests: Seq<(u64, usize, Result<S, E>)>,
) -> Map<u64, WorkspaceSlot<S>>
    decreases requests.len(),
{
    if requests.len() == 0 {
        m
    } else {
        let (device, bytes, got) = requests.last();
        after_ensure(after_all(m, requests.drop_last()), device, bytes, got)
    }
}

/// The buffer of a device with room for `bytes` bytes never moves while no request on that
/// device is for more, whatever happens on other devices.
pub proof fn law_pregrown_buffer_never_moves<S, E>(
    m: Map<u64, WorkspaceSlot<S>>,
    device: u64,
    bytes: nat,
    requests: Seq<(u64, usize, Result<S, E>)>,
)
    requires
        has_room(m, device, bytes),
        forall|i: int|
            0 <= i < requests.len() && (#[trigger] requests[i]).0 == device ==> requests[i].1
                <= bytes,
    ensures
        after_all(m, requests).contains_key(device),
        after_all(m, requests)[device] == m[device],
    decreases requests.len(),
{
    if requests.len() > 0 {
        let front = requests.drop_last();
        assert forall|i: int|
            0 <= i < front.len() && (#[trigger] front[i]).0 == device implies front[i].1
            <= bytes by {
            assert(front[i] == requests[i]);
        }
        law_pregrown_buffer_never_moves(m, device, bytes, front);
        assert(requests.last() == requests[requests.len() - 1]);
    }
}


/// What a request does, in full: where the device has enough, nothing; otherwise a new buffer of just
/// the size that was asked for takes the place of the old one, or, where there is none to be had,
/// nothing again and the allocator's error.
pub proof fn law_requests_are_served<S, E, A: FnOnce(usize) -> Result<S, E>>(
    before: Map<u64, WorkspaceSlot<S>>,
    after: Map<u64, WorkspaceSlot<S>>,
    device: u64,
    bytes: usize,
    alloc: A,
    failed: Option<E>,
)
    requires
        ensured(before, after, device, bytes, alloc, failed),
    ensures
        before.contains_key(device) && before[device].cap >= bytes ==> after == before && failed
            is None,
        failed is None ==> after.contains_key(device) && after[device].cap >= bytes,
        failed is None && after != before ==> {
            &&& after[device].cap == bytes
            &&& call_ensures(alloc, (bytes,), Ok(after[device].slice))
            &&& after == before.insert(device, after[device])
        },
        failed matches Some(e) ==> call_ensures(alloc, (bytes,), Err(e)) && after == before,
{
}

/// A device has room for what its buffer holds and no more.
pub proof fn law_room_is_capacity<S>(m: Map<u64, WorkspaceSlot<S>>, device: u64, bytes: nat)
    ensures
        has_room(m, device, bytes) <==> m.contains_key(device) && bytes <= m[device].cap,
{
}

} // verus!

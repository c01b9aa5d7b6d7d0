//! Receiving and sending cluster messages.
//!
//! The host relays opaque typed byte payloads between cluster nodes. A module
//! registers one receiver per message type (a byte), and the host calls the
//! receiver back with only the bare type byte, so the module keeps a table
//! from message type to callback handle to find the receiver again. Sending
//! takes an optional target node id, which must be marshallable as a C
//! string: an embedded NUL byte is rejected.

use vstd::prelude::*;
use vstd::slice::slice_to_vec;

use crate::{Context, RedisError, REDISMODULE_OK};

verus! {

/// Handle naming a registered cluster message receiver. The layer that talks
/// to the host maps each handle to the actual receiver it invokes.
pub type ClusterMessageCallback = u64;

/// Table of registered cluster message receivers, one optional slot per
/// message type byte.
pub struct ClusterMessageCallbacks {
    slots: Vec<Option<ClusterMessageCallback>>,
}

impl View for ClusterMessageCallbacks {
    type V = Map<u8, u64>;

    /// The table as a map from message type to callback handle.
    closed spec fn view(&self) -> Map<u8, u64> {
        Map::new(
            |k: u8| self.slots@[k as int] is Some,
            |k: u8| self.slots@[k as int]->0,
        )
    }
}

impl ClusterMessageCallbacks {
    pub closed spec fn wf(self) -> bool {
        self.slots@.len() == 256
    }

    /// An empty table: no message type has a receiver.
    pub fn new() -> (r: Self)
        ensures
            r.wf(),
            r@ == Map::<u8, u64>::empty(),
    {
        let mut slots: Vec<Option<ClusterMessageCallback>> = Vec::new();
        let mut i: usize = 0;
        while i < 256
            invariant
                i <= 256,
                slots@.len() == i,
                forall|j: int| 0 <= j < i ==> slots@[j] is None,
            decreases 256 - i,
        {
            slots.push(None);
            i += 1;
        }
        let r = ClusterMessageCallbacks { slots };
        proof {
            assert(r@ =~= Map::<u8, u64>::empty());
        }
        r
    }

    /// The receiver registered for a message type, if any. This is the lookup
    /// the dispatch layer makes when the host hands a received message back.
    pub fn get(&self, message_type: u8) -> (r: Option<ClusterMessageCallback>)
        requires
            self.wf(),
        ensures
            r is Some <==> self@.contains_key(message_type),
            r is Some ==> r->0 == self@[message_type],
    {
        self.slots[message_type as usize]
    }
}

/// The cluster message receiver table of a context.
pub fn get_callbacks(ctx: &Context) -> (r: &ClusterMessageCallbacks)
    requires
        ctx.wf(),
    ensures
        r.wf(),
        r@ == ctx.receivers(),
{
    &ctx.cluster_receivers
}

/// Record a receiver for a message type, overwriting any earlier receiver
/// for the same type.
pub fn register_callback(
    callbacks: &mut ClusterMessageCallbacks,
    message_type: u8,
    callback: ClusterMessageCallback,
) -> (r: Result<(), RedisError>)
    requires
        old(callbacks).wf(),
    ensures
        final(callbacks).wf(),
        r == Ok::<(), RedisError>(()),
        final(callbacks)@ == old(callbacks)@.insert(message_type, callback),
{
    callbacks.slots.set(message_type as usize, Some(callback));
    proof {
        assert(callbacks@ =~= old(callbacks)@.insert(message_type, callback));
    }
    Ok(())
}

/// Whether a byte string holds a NUL byte, which a C string cannot carry.
pub open spec fn has_nul_byte(s: Seq<u8>) -> bool {
    exists|i: int| 0 <= i < s.len() && s[i] == 0u8
}

/// The byte strings of an optional node id.
pub open spec fn target_view(target_id: Option<&[u8]>) -> Option<Seq<u8>> {
    match target_id {
        Some(t) => Some(t@),
        None => None,
    }
}

/// Whether an optional node id can be marshalled as a C string: either
/// absent (a broadcast) or free of NUL bytes.
pub open spec fn valid_target(target: Option<Seq<u8>>) -> bool {
    match target {
        Some(t) => !has_nul_byte(t),
        None => true,
    }
}

fn contains_nul(bytes: &[u8]) -> (r: bool)
    ensures
        r == has_nul_byte(bytes@),
{
    let mut i: usize = 0;
    while i < bytes.len()
        invariant
            i <= bytes@.len(),
            forall|j: int| 0 <= j < i ==> bytes@[j] != 0u8,
        decreases bytes@.len() - i,
    {
        if bytes[i] == 0u8 {
            return true;
        }
        i += 1;
    }
    false
}

/// A cluster message marshalled and ready to hand to the host: the target
/// node id (or none, for a broadcast) is NUL-free, and the payload length
/// fits the 32-bit length field of the host entry point.
#[derive(Clone, Debug, PartialEq, Eq)]
pub struct ClusterMessage {
    pub target_id: Option<Vec<u8>>,
    pub message_type: u8,
    pub payload: Vec<u8>,
}

impl ClusterMessage {
    /// The target node id as a byte string, or none for a broadcast.
    pub open spec fn target(self) -> Option<Seq<u8>> {
        match self.target_id {
            Some(t) => Some(t@),
            None => None,
        }
    }

    pub open spec fn wf(self) -> bool {
        valid_target(self.target()) && self.payload@.len() <= u32::MAX
    }

    /// The payload length in the form the host's length field takes.
    pub fn payload_len(&self) -> (n: u32)
        requires
            self.wf(),
        ensures
            n == self.payload@.len(),
    {
        self.payload.len() as u32
    }
}

/// Turn the status the host returned from a send into the result the caller
/// sees: success exactly on the success status.
pub fn send_status_to_result(status: i32) -> (r: Result<(), RedisError>)
    ensures
        r is Ok <==> status == REDISMODULE_OK,
        r is Err ==> r == Err::<(), RedisError>(RedisError::SendFailed),
{
    if status == REDISMODULE_OK {
        Ok(())
    } else {
        Err(RedisError::SendFailed)
    }
}

impl Context {
    /// Record a receiver for cluster messages of one type. The host is then
    /// pointed at the module's single dispatch entry, which finds the
    /// receiver in this table by the message type byte.
    pub fn register_cluster_message_receiver(
        &mut self,
        message_type: u8,
        callback: ClusterMessageCallback,
    ) -> (r: Result<(), RedisError>)
        requires
            old(self).wf(),
        ensures
            final(self).wf(),
            r == Ok::<(), RedisError>(()),
            final(self).receivers() == old(self).receivers().insert(message_type, callback),
            final(self).filters() == old(self).filters(),
            final(self).filter_entries() == old(self).filter_entries(),
    {
        register_callback(&mut self.cluster_receivers, message_type, callback)
    }

    /// Marshal a message for one node or for the whole cluster. Succeeds
    /// exactly when the target node id, if given, is free of NUL bytes; the
    /// marshalled message carries the inputs unchanged.
    pub fn send_cluster_message(
        &self,
        target_id: Option<&[u8]>,
        message_type: u8,
        message: &[u8],
    ) -> (r: Result<ClusterMessage, RedisError>)
        requires
            message@.len() <= u32::MAX,
        ensures
            r is Ok <==> valid_target(target_view(target_id)),
            r is Err ==> r == Err::<ClusterMessage, RedisError>(RedisError::InvalidTargetId),
            r is Ok ==> {
                let m = r->Ok_0;
                &&& m.wf()
                &&& m.target() == target_view(target_id)
                &&& m.message_type == message_type
                &&& m.payload@ == message@
            },
    {
        let target: Option<Vec<u8>> = match target_id {
            Some(t) => {
                if contains_nul(t) {
                    return Err(RedisError::InvalidTargetId);
                }
                Some(slice_to_vec(t))
            },
            None => None,
        };
        Ok(ClusterMessage { target_id: target, message_type, payload: slice_to_vec(message) })
    }
}

} // verus!

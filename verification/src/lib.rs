//! Cluster messaging and command filtering for a host database's module
//! extension interface.
//!
//! The host process loads a module and lets it register receivers for typed
//! cluster messages, send raw payloads to cluster peers, and hook a filter
//! that may inspect and edit the argument list of every client command before
//! it runs. The host hands out only bare callback entry points, so the module
//! must keep its own registries to recover a typed callback from what the
//! host passes back. This crate holds those registries and the marshalling
//! around them; the thin layer that actually crosses into the host process
//! stays outside it.

use vstd::prelude::*;

pub mod cluster_message;
pub mod command_filter;

use cluster_message::ClusterMessageCallbacks;
use command_filter::CommandFilterRegistry;

verus! {

/// Failure reported by a cluster-messaging or command-filter operation.
///
/// Every operation either succeeds or reports one of these: the host
/// refused the call, or a caller-given node id could not be marshalled.
#[derive(Clone, Copy, Debug, PartialEq, Eq, Structural)]
pub enum RedisError {
    /// A target node id held an embedded NUL byte, so it cannot be passed
    /// to the host as a C string.
    InvalidTargetId,
    /// The host returned a non-success status from a send.
    SendFailed,
    /// An argument could not be inserted: the position was past the end of
    /// the argument list.
    ArgInsertFailed,
    /// An argument could not be replaced: the position was out of bounds.
    ArgReplaceFailed,
    /// An argument could not be deleted: the position was out of bounds.
    ArgDeleteFailed,
    /// No command filter with the given handle is registered.
    FilterNotRegistered,
}

impl RedisError {
    /// Short text describing the failure.
    pub fn message(&self) -> (r: &'static str)
        ensures
            *self == RedisError::InvalidTargetId ==> r@ == "Invalid target_id: contains null byte"@,
            *self == RedisError::SendFailed ==> r@ == "Failed to send cluster message"@,
            *self == RedisError::ArgInsertFailed ==> r@ == "Failed to insert argument"@,
            *self == RedisError::ArgReplaceFailed ==> r@ == "Failed to replace argument"@,
            *self == RedisError::ArgDeleteFailed ==> r@ == "Failed to delete argument"@,
            *self == RedisError::FilterNotRegistered ==> r@ == "Failed to unregister command filter, filter may not exist"@,
    {
        match self {
            RedisError::InvalidTargetId => "Invalid target_id: contains null byte",
            RedisError::SendFailed => "Failed to send cluster message",
            RedisError::ArgInsertFailed => "Failed to insert argument",
            RedisError::ArgReplaceFailed => "Failed to replace argument",
            RedisError::ArgDeleteFailed => "Failed to delete argument",
            RedisError::FilterNotRegistered => "Failed to unregister command filter, filter may not exist",
        }
    }
}

/// Status code with which the host reports success from its entry points.
pub const REDISMODULE_OK: i32 = 0;

/// The module-side record of everything registered with the host: which
/// cluster message types have a receiver, and which command filters are
/// active. An entry exists here exactly while the matching host-side
/// registration is active.
pub struct Context {
    pub(crate) cluster_receivers: ClusterMessageCallbacks,
    pub(crate) filters: CommandFilterRegistry,
}

impl Context {
    /// The registered cluster message receivers, as a map from message type
    /// to callback handle.
    pub closed spec fn receivers(self) -> Map<u8, u64> {
        self.cluster_receivers@
    }

    /// The registered command filters, as a map from filter handle to
    /// callback handle.
    pub closed spec fn filters(self) -> Map<u64, u64> {
        self.filters@
    }

    /// The registered command filters in registration order.
    pub closed spec fn filter_entries(self) -> Seq<(u64, u64)> {
        self.filters.entries()
    }

    pub closed spec fn wf(self) -> bool {
        self.cluster_receivers.wf() && self.filters.wf()
    }

    /// A context with nothing registered yet.
    pub fn new() -> (r: Context)
        ensures
            r.wf(),
            r.receivers() == Map::<u8, u64>::empty(),
            r.filters() == Map::<u64, u64>::empty(),
            r.filter_entries() == Seq::<(u64, u64)>::empty(),
    {
        Context {
            cluster_receivers: ClusterMessageCallbacks::new(),
            filters: CommandFilterRegistry::new(),
        }
    }
}

} // verus!

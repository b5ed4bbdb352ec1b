//! The session orchestrator's decisions: what to do with one accepted
//! stream once the policy has spoken, and the close reason for each
//! failure. The surrounding process loops over newly established streams,
//! classifies each, and either opens the target socket and forwards, or
//! closes the stream with the reason decided here.

use vstd::prelude::*;

use crate::config::WispConfig;
use crate::config::spec_default_config;
use crate::ip::IpAddress;
use crate::packet::CloseReason;
use crate::packet::ConnectPayloadView;
use crate::policy::ConnectTarget;
use crate::policy::ResolvedStream;
use crate::policy::spec_classify;

verus! {

/// Application state shared by all sessions.
#[derive(Clone, Debug)]
pub struct WispState {
    pub config: WispConfig,
}

impl Default for WispState {
    /// The default configuration, exactly
    /// [`spec_default_config`](crate::config::spec_default_config).
    fn default() -> (s: WispState)
        ensures
            spec_default_config(s.config),
    {
        WispState { config: WispConfig::default() }
    }
}

/// What to do with one accepted stream.
#[derive(Clone, Copy, Debug, PartialEq, Eq, Structural)]
pub enum StreamDispatch {
    /// Open a socket to this target and forward.
    Connect(ConnectTarget),
    /// Open nothing; close the stream with this reason.
    Reject(CloseReason),
}

/// The orchestrator's decision for each policy answer: only `Valid` connects; a
/// policy block closes with the blocked-address reason, an invalid request
/// with the invalid-info reason, and an empty resolution with the
/// unreachable reason.
pub open spec fn spec_dispatch(r: ResolvedStream) -> StreamDispatch {
    match r {
        ResolvedStream::Valid(t) => StreamDispatch::Connect(t),
        ResolvedStream::Blocked => StreamDispatch::Reject(CloseReason::ServerStreamBlockedAddress),
        ResolvedStream::Invalid => StreamDispatch::Reject(CloseReason::ServerStreamInvalidInfo),
        ResolvedStream::NoResolvedAddrs => StreamDispatch::Reject(
            CloseReason::ServerStreamUnreachable,
        ),
    }
}

/// Decide what to do with one classified stream, exactly
/// [`spec_dispatch`].
pub fn dispatch_connect(r: &ResolvedStream) -> (d: StreamDispatch)
    ensures
        d == spec_dispatch(*r),
        !(r is Valid) ==> d is Reject,
{
    match r {
        ResolvedStream::Valid(t) => StreamDispatch::Connect(*t),
        ResolvedStream::Blocked => StreamDispatch::Reject(CloseReason::ServerStreamBlockedAddress),
        ResolvedStream::Invalid => StreamDispatch::Reject(CloseReason::ServerStreamInvalidInfo),
        ResolvedStream::NoResolvedAddrs => StreamDispatch::Reject(
            CloseReason::ServerStreamUnreachable,
        ),
    }
}

/// The close reason when the target socket cannot be opened or the
/// resolver itself fails.
pub fn connect_failure_reason() -> (r: CloseReason)
    ensures
        r == CloseReason::ServerStreamUnreachable,
{
    CloseReason::ServerStreamUnreachable
}

/// A request the policy classifies as blocked never reaches a socket: its
/// dispatch is a close with the blocked-address reason, whatever the
/// resolver would have answered.
pub proof fn lemma_blocked_never_connects(
    p: ConnectPayloadView,
    cfg: WispConfig,
    addrs: Seq<IpAddress>,
)
    ensures
        spec_classify(p, cfg, addrs) == ResolvedStream::Blocked ==> spec_dispatch(
            spec_classify(p, cfg, addrs),
        ) == StreamDispatch::Reject(CloseReason::ServerStreamBlockedAddress),
        !(spec_classify(p, cfg, addrs) is Valid) ==> !(spec_dispatch(
            spec_classify(p, cfg, addrs),
        ) is Connect),
{
}

} // verus!

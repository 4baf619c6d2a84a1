//! What load-balancing policies and the channels that drive them exchange.
use vstd::prelude::*;

verus! {

/// Where a server can be reached.
#[derive(Debug)]
pub struct Address {
    /// The address, as a transport takes it.
    pub address: String,
    /// The address, as it is shown to people.
    pub label: String,
}

impl Clone for Address {
    fn clone(&self) -> (r: Self)
        ensures
            r == *self,
    {
        Address { address: self.address.clone(), label: self.label.clone() }
    }
}

/// A server, with the addresses at which it can be reached.
#[derive(Debug)]
pub struct Endpoint {
    pub addresses: Vec<Address>,
}

/// What a name resolver found: endpoints, or why there are none.
#[derive(Debug)]
pub struct ResolverUpdate {
    pub endpoints: Result<Vec<Endpoint>, String>,
}

/// The states of a connection.
#[derive(Clone, Copy, Debug, PartialEq, Eq, Hash, Structural)]
pub enum ConnectivityState {
    Idle,
    Connecting,
    Ready,
    TransientFailure,
}

/// The name that gRPC gives a connectivity state.
pub open spec fn state_name(state: ConnectivityState) -> Seq<char> {
    match state {
        ConnectivityState::Idle => "IDLE"@,
        ConnectivityState::Connecting => "CONNECTING"@,
        ConnectivityState::Ready => "READY"@,
        ConnectivityState::TransientFailure => "TRANSIENT_FAILURE"@,
    }
}

impl ConnectivityState {
    /// The name that gRPC gives this state.
    pub fn name(&self) -> (r: &'static str)
        ensures
            r@ == state_name(*self),
    {
        match self {
            ConnectivityState::Idle => "IDLE",
            ConnectivityState::Connecting => "CONNECTING",
            ConnectivityState::Ready => "READY",
            ConnectivityState::TransientFailure => "TRANSIENT_FAILURE",
        }
    }
}

/// The state of a subchannel, with the error that ended its last attempt to connect, if any.
#[derive(Debug)]
pub struct SubchannelState {
    pub connectivity_state: ConnectivityState,
    pub last_connection_error: Option<String>,
}

impl Clone for SubchannelState {
    fn clone(&self) -> (r: Self)
        ensures
            r == *self,
    {
        SubchannelState {
            connectivity_state: self.connectivity_state,
            last_connection_error: match &self.last_connection_error {
                Some(e) => Some(e.clone()),
                None => None,
            },
        }
    }
}

impl SubchannelState {
    /// The state of a subchannel that nobody has asked to connect.
    pub open spec fn is_idle(self) -> bool {
        self.connectivity_state == ConnectivityState::Idle && self.last_connection_error is None
    }

    /// The state of a subchannel that nobody has asked to connect.
    pub fn idle() -> (r: Self)
        ensures
            r.is_idle(),
    {
        SubchannelState { connectivity_state: ConnectivityState::Idle, last_connection_error: None }
    }
}

/// What a policy tells the channel: its state, and a picker `K` for the requests to come.
#[derive(Debug)]
pub struct LbState<K> {
    pub connectivity_state: ConnectivityState,
    pub picker: K,
}

/// A load-balancing policy under a channel controller `C`.
///
/// `Work` is the data of scheduled work and `Config` the policy's configuration. Each method comes
/// with a relation that says which outcomes it can have; a policy that does not define it leaves
/// them open.
pub trait LbPolicy<C, Work, Config>: Sized {
    /// Whether `resolver_update` can turn `pre` and `before` into `post` and `after`, with `r`.
    open spec fn updates(
        pre: Self,
        update: ResolverUpdate,
        config: Option<&Config>,
        before: C,
        post: Self,
        after: C,
        r: Result<(), String>,
    ) -> bool {
        true
    }

    /// Whether `exit_idle` can turn `pre` and `before` into `post` and `after`.
    open spec fn exits_idle(pre: Self, before: C, post: Self, after: C) -> bool {
        true
    }

    /// Whether `work` can turn `pre` and `before` into `post` and `after`.
    open spec fn works(pre: Self, data: Option<Work>, before: C, post: Self, after: C) -> bool {
        true
    }

    /// Takes in what the name resolver found.
    fn resolver_update(
        &mut self,
        update: ResolverUpdate,
        config: Option<&Config>,
        channel_controller: &mut C,
    ) -> (r: Result<(), String>)
        ensures
            Self::updates(
                *old(self),
                update,
                config,
                *old(channel_controller),
                *final(self),
                *final(channel_controller),
                r,
            ),
    ;

    /// Connects, if the policy is idle.
    fn exit_idle(&mut self, channel_controller: &mut C)
        ensures
            Self::exits_idle(
                *old(self),
                *old(channel_controller),
                *final(self),
                *final(channel_controller),
            ),
    ;

    /// Does work that was scheduled, with the data that it was scheduled with.
    fn work(&mut self, data: Option<Work>, channel_controller: &mut C)
        ensures
            Self::works(
                *old(self),
                data,
                *old(channel_controller),
                *final(self),
                *final(channel_controller),
            ),
    ;
}

/// A subchannel is idle where its state says so and no attempt to connect has failed.
pub proof fn idle_is_idle(state: SubchannelState)
    ensures
        state.is_idle() <==> state.connectivity_state == ConnectivityState::Idle
            && state.last_connection_error is None,
{
}

/// Every connectivity state has the name that gRPC gives it.
pub proof fn states_have_their_names(state: ConnectivityState)
    ensures
        state == ConnectivityState::Idle ==> state_name(state) == "IDLE"@,
        state == ConnectivityState::Connecting ==> state_name(state) == "CONNECTING"@,
        state == ConnectivityState::Ready ==> state_name(state) == "READY"@,
        state == ConnectivityState::TransientFailure ==> state_name(state) == "TRANSIENT_FAILURE"@,
{
}

} // verus!

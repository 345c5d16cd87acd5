//! The handshake of a secure channel as a state machine, and the one path on
//! which a channel enters the flow control registry.
//!
//! The machine decides; whoever drives it does the outside work (sends and
//! receives, runs the key exchange, checks signatures) and hands back what
//! happened as an event.

use vstd::prelude::*;
use crate::error::IdentityError;
use crate::flow_control::{
    allowed,
    keeps_registrations,
    spec_check_delivery,
    well_formed,
    Delivery,
    FlowControlId,
    FlowControlPolicy,
    FlowControls,
    FlowControlsModel,
};
use crate::routing::Address;
use crate::trust_context::TrustContext;
use crate::verification::VerifyResponse;

verus! {

/// The side of a handshake.
#[derive(Clone, Copy, Debug, PartialEq, Eq, Structural)]
pub enum Role {
    /// The side that starts the handshake.
    Initiator,
    /// The side that a listener spawns to answer one.
    Responder,
}

/// How far a handshake has come.
#[derive(Clone, Copy, Debug, PartialEq, Eq, Structural)]
pub enum HandshakeState {
    /// Created; nothing was sent or received.
    Initiated,
    /// The key exchange is under way.
    KeyExchangeInProgress,
    /// The peer's identity was received and accepted.
    IdentityExchanged,
    /// The peer's credentials were accepted, or none were asked for.
    CredentialsVerified,
    /// The channel is usable.
    Established,
    /// The attempt is over and the channel is not usable.
    Failed,
}

/// How the change history a peer presents relates to the one known of it.
#[derive(Clone, Copy, Debug, PartialEq, Eq, Structural)]
pub enum ChangeHistoryComparison {
    /// Nothing was known of the peer.
    FirstContact,
    /// The histories are the same.
    Equal,
    /// The presented history continues the known one.
    Newer,
    /// The presented history is a part of the known one.
    Older,
    /// The histories part ways: keys were rotated without authority.
    Conflict,
}

/// What the check of a peer's identity found.
#[derive(Clone, Copy, Debug, PartialEq, Eq, Structural)]
pub struct IdentityCheck {
    /// The change history verifies as a chain of signed events.
    pub history_valid: bool,
    /// How the history relates to what was known of the peer.
    pub comparison: ChangeHistoryComparison,
    /// The local trust policy accepts the peer.
    pub trusted: bool,
}

/// What the exchange of credentials came to.
#[derive(Clone, Copy, Debug, PartialEq, Eq, Structural)]
pub enum CredentialOutcome {
    /// No credential was exchanged.
    NotExchanged,
    /// The peer's credential was issued by an accepted authority, names the
    /// peer and has not expired.
    Verified,
    /// The peer's credential did not verify.
    Rejected,
    /// No accepted authority is known for the credential.
    UnknownAuthority,
}

/// What happened outside since the last step.
#[derive(Clone, Copy, Debug, PartialEq, Eq, Structural)]
pub enum HandshakeEvent {
    /// The first handshake message was sent, or received.
    Started,
    /// The key exchange did not complete.
    KeyExchangeFailed,
    /// The key exchange completed and carried the peer's identity.
    IdentityReceived(IdentityCheck),
    /// The exchange of credentials ended, or was left out.
    CredentialsChecked(CredentialOutcome),
    /// Both sides confirmed the channel.
    Confirmed,
    /// The time allowed for the handshake elapsed.
    TimedOut,
    /// The transport below the channel failed.
    TransportFailed,
}

/// What the driver has to do next.
#[derive(Clone, Copy, Debug, PartialEq, Eq, Structural)]
pub enum HandshakeAction {
    /// Run the key exchange.
    ExchangeKeys,
    /// Exchange credentials and check the peer's.
    ExchangeCredentials,
    /// Confirm the channel with the peer.
    Confirm,
    /// Enter the channel into the flow control registry and start using it.
    Install,
    /// Close the transport; the attempt is over.
    CloseTransport,
    /// Nothing.
    Nothing,
}

/// What a handshake is at one moment.
pub struct HandshakeModel {
    pub role: Role,
    pub state: HandshakeState,
    /// The trust context supplies an authority, so credentials are exchanged.
    pub credentials_required: bool,
    /// Why the handshake failed, once it has.
    pub failure: Option<IdentityError>,
    /// The flow under which the channel was entered into the registry, once it was.
    pub installed: Option<FlowControlId>,
}

/// The error that the check of a peer's identity comes to, if any.
pub open spec fn identity_failure(check: IdentityCheck) -> Option<IdentityError> {
    if !check.history_valid {
        Some(IdentityError::IdentityVerificationFailed)
    } else if check.comparison == ChangeHistoryComparison::Conflict || check.comparison
        == ChangeHistoryComparison::Older {
        Some(IdentityError::IdentityVerificationFailed)
    } else if !check.trusted {
        Some(IdentityError::SecureChannelTrustCheckFailed)
    } else {
        None
    }
}

/// The error that the exchange of credentials comes to, if any.
pub open spec fn credential_failure(
    required: bool,
    outcome: CredentialOutcome,
) -> Option<IdentityError> {
    match outcome {
        CredentialOutcome::Verified => None,
        CredentialOutcome::NotExchanged => if required {
            Some(IdentityError::CredentialVerificationFailed)
        } else {
            None
        },
        CredentialOutcome::Rejected => Some(IdentityError::CredentialVerificationFailed),
        CredentialOutcome::UnknownAuthority => Some(IdentityError::UnknownAuthority),
    }
}

/// The handshake after it failed with `error`.
pub open spec fn failed_with(h: HandshakeModel, error: IdentityError) -> HandshakeModel {
    HandshakeModel { state: HandshakeState::Failed, failure: Some(error), ..h }
}

/// The handshake in the state `state`.
pub open spec fn moved_to(h: HandshakeModel, state: HandshakeState) -> HandshakeModel {
    HandshakeModel { state, ..h }
}

/// The state after `event`, and what to do next.
///
/// A failed handshake stays failed. A time-out or a failure of the transport
/// ends any handshake that has not failed yet. Otherwise each state accepts
/// the one kind of event that leads on, and an event out of turn ends the
/// attempt with the consistency error.
pub open spec fn spec_step(
    h: HandshakeModel,
    event: HandshakeEvent,
) -> (HandshakeModel, HandshakeAction) {
    if h.state == HandshakeState::Failed {
        (h, HandshakeAction::Nothing)
    } else if event == HandshakeEvent::TimedOut || event == HandshakeEvent::TransportFailed {
        (
            failed_with(h, IdentityError::SecureChannelVerificationFailed),
            HandshakeAction::CloseTransport,
        )
    } else {
        match (h.state, event) {
            (HandshakeState::Initiated, HandshakeEvent::Started) => (
                moved_to(h, HandshakeState::KeyExchangeInProgress),
                HandshakeAction::ExchangeKeys,
            ),
            (HandshakeState::KeyExchangeInProgress, HandshakeEvent::KeyExchangeFailed) => (
                failed_with(h, IdentityError::SecureChannelVerificationFailed),
                HandshakeAction::CloseTransport,
            ),
            (HandshakeState::KeyExchangeInProgress, HandshakeEvent::IdentityReceived(check)) => {
                match identity_failure(check) {
                    Some(error) => (failed_with(h, error), HandshakeAction::CloseTransport),
                    None => (
                        moved_to(h, HandshakeState::IdentityExchanged),
                        if h.credentials_required {
                            HandshakeAction::ExchangeCredentials
                        } else {
                            HandshakeAction::Nothing
                        },
                    ),
                }
            },
            (HandshakeState::IdentityExchanged, HandshakeEvent::CredentialsChecked(outcome)) => {
                match credential_failure(h.credentials_required, outcome) {
                    Some(error) => (failed_with(h, error), HandshakeAction::CloseTransport),
                    None => (
                        moved_to(h, HandshakeState::CredentialsVerified),
                        HandshakeAction::Confirm,
                    ),
                }
            },
            (HandshakeState::CredentialsVerified, HandshakeEvent::Confirmed) => (
                moved_to(h, HandshakeState::Established),
                HandshakeAction::Install,
            ),
            _ => (failed_with(h, IdentityError::ConsistencyError), HandshakeAction::CloseTransport),
        }
    }
}

/// The handshake after a run of events.
pub open spec fn spec_run(h: HandshakeModel, events: Seq<HandshakeEvent>) -> HandshakeModel
    decreases events.len(),
{
    if events.len() == 0 {
        h
    } else {
        spec_step(spec_run(h, events.drop_last()), events.last()).0
    }
}

/// Some step of the run asked the driver to install the channel.
pub open spec fn run_asks_to_install(h: HandshakeModel, events: Seq<HandshakeEvent>) -> bool
    decreases events.len(),
{
    if events.len() == 0 {
        false
    } else {
        run_asks_to_install(h, events.drop_last()) || spec_step(
            spec_run(h, events.drop_last()),
            events.last(),
        ).1 == HandshakeAction::Install
    }
}

/// Some state on the run, the first included, is `Established`.
pub open spec fn run_reaches_established(h: HandshakeModel, events: Seq<HandshakeEvent>) -> bool
    decreases events.len(),
{
    if events.len() == 0 {
        h.state == HandshakeState::Established
    } else {
        run_reaches_established(h, events.drop_last()) || spec_run(h, events).state
            == HandshakeState::Established
    }
}

/// The event reports a peer identity that passes every check.
pub open spec fn accepts_identity(event: HandshakeEvent) -> bool {
    match event {
        HandshakeEvent::IdentityReceived(check) => identity_failure(check) is None,
        _ => false,
    }
}

/// The event reports an exchange of credentials that passes.
pub open spec fn accepts_credentials(required: bool, event: HandshakeEvent) -> bool {
    match event {
        HandshakeEvent::CredentialsChecked(outcome) => credential_failure(required, outcome) is None,
        _ => false,
    }
}

/// A handshake as it is created: nothing done, nothing failed, nothing installed.
pub open spec fn spec_new(role: Role, credentials_required: bool) -> HandshakeModel {
    HandshakeModel {
        role,
        state: HandshakeState::Initiated,
        credentials_required,
        failure: None,
        installed: None,
    }
}

/// One attempt to establish a secure channel.
#[derive(Debug)]
pub struct SecureChannelHandshake {
    role: Role,
    state: HandshakeState,
    credentials_required: bool,
    failure: Option<IdentityError>,
    installed: Option<FlowControlId>,
}

impl View for SecureChannelHandshake {
    type V = HandshakeModel;

    closed spec fn view(&self) -> HandshakeModel {
        HandshakeModel {
            role: self.role,
            state: self.state,
            credentials_required: self.credentials_required,
            failure: self.failure,
            installed: self.installed,
        }
    }
}

/// What the verifier's answer means for the handshake.
pub open spec fn spec_credential_outcome(
    answer: Result<VerifyResponse, IdentityError>,
) -> CredentialOutcome {
    match answer {
        Ok(_) => CredentialOutcome::Verified,
        Err(IdentityError::UnknownAuthority) => CredentialOutcome::UnknownAuthority,
        Err(_) => CredentialOutcome::Rejected,
    }
}

/// What the verifier's answer to the peer's credential means for the
/// handshake: verified where it accepted the credential, an unknown
/// authority where the issuer is none of the trusted, rejected otherwise.
pub fn credential_outcome(answer: &Result<VerifyResponse, IdentityError>) -> (outcome: CredentialOutcome)
    ensures
        outcome == spec_credential_outcome(*answer),
{
    match answer {
        Ok(_) => CredentialOutcome::Verified,
        Err(IdentityError::UnknownAuthority) => CredentialOutcome::UnknownAuthority,
        Err(_) => CredentialOutcome::Rejected,
    }
}

/// The error that the check of a peer's identity comes to, if any.
pub fn check_identity(check: &IdentityCheck) -> (failure: Option<IdentityError>)
    ensures
        failure == identity_failure(*check),
{
    if !check.history_valid {
        Some(IdentityError::IdentityVerificationFailed)
    } else if check.comparison == ChangeHistoryComparison::Conflict || check.comparison
        == ChangeHistoryComparison::Older {
        Some(IdentityError::IdentityVerificationFailed)
    } else if !check.trusted {
        Some(IdentityError::SecureChannelTrustCheckFailed)
    } else {
        None
    }
}

/// The error that the exchange of credentials comes to, if any.
pub fn check_credentials(
    required: bool,
    outcome: CredentialOutcome,
) -> (failure: Option<IdentityError>)
    ensures
        failure == credential_failure(required, outcome),
{
    match outcome {
        CredentialOutcome::Verified => None,
        CredentialOutcome::NotExchanged => if required {
            Some(IdentityError::CredentialVerificationFailed)
        } else {
            None
        },
        CredentialOutcome::Rejected => Some(IdentityError::CredentialVerificationFailed),
        CredentialOutcome::UnknownAuthority => Some(IdentityError::UnknownAuthority),
    }
}

impl SecureChannelHandshake {
    /// A new attempt. `credentials_required` says whether the trust context
    /// supplies an authority, so that credentials are exchanged and checked.
    pub fn new(role: Role, credentials_required: bool) -> (handshake: Self)
        ensures
            handshake@ == spec_new(role, credentials_required),
    {
        SecureChannelHandshake {
            role,
            state: HandshakeState::Initiated,
            credentials_required,
            failure: None,
            installed: None,
        }
    }

    /// A new attempt under a trust context, or under none: credentials are
    /// exchanged exactly where there is a context and it supplies an authority.
    pub fn with_trust_context(role: Role, trust_context: Option<&TrustContext>) -> (handshake: Self)
        ensures
            handshake@ == spec_new(
                role,
                match trust_context {
                    Some(context) => context@.authority is Some,
                    None => false,
                },
            ),
    {
        let credentials_required = match trust_context {
            Some(context) => context.authority().is_ok(),
            None => false,
        };
        Self::new(role, credentials_required)
    }

    /// The side of the handshake.
    pub fn role(&self) -> (role: Role)
        ensures
            role == self@.role,
    {
        self.role
    }

    /// How far the handshake has come.
    pub fn state(&self) -> (state: HandshakeState)
        ensures
            state == self@.state,
    {
        self.state
    }

    /// Whether credentials are exchanged in this handshake.
    pub fn credentials_required(&self) -> (required: bool)
        ensures
            required == self@.credentials_required,
    {
        self.credentials_required
    }

    /// Why the handshake failed, once it has.
    pub fn failure(&self) -> (failure: Option<IdentityError>)
        ensures
            failure == self@.failure,
    {
        self.failure
    }

    /// The flow under which the channel was entered into the registry, once it was.
    pub fn installed(&self) -> (flow: Option<FlowControlId>)
        ensures
            flow == self@.installed,
    {
        self.installed
    }

    /// Whether the channel is usable.
    pub fn is_established(&self) -> (yes: bool)
        ensures
            yes == (self@.state == HandshakeState::Established),
    {
        self.state == HandshakeState::Established
    }

    fn fail(&mut self, error: IdentityError) -> (action: HandshakeAction)
        ensures
            final(self)@ == failed_with(old(self)@, error),
            action == HandshakeAction::CloseTransport,
    {
        self.state = HandshakeState::Failed;
        self.failure = Some(error);
        HandshakeAction::CloseTransport
    }

    /// Takes one event and moves on; returns what the driver has to do next.
    pub fn step(&mut self, event: HandshakeEvent) -> (action: HandshakeAction)
        ensures
            (final(self)@, action) == spec_step(old(self)@, event),
    {
        if self.state == HandshakeState::Failed {
            return HandshakeAction::Nothing;
        }
        match event {
            HandshakeEvent::TimedOut | HandshakeEvent::TransportFailed => {
                return self.fail(IdentityError::SecureChannelVerificationFailed);
            },
            _ => {},
        }
        match (self.state, event) {
            (HandshakeState::Initiated, HandshakeEvent::Started) => {
                self.state = HandshakeState::KeyExchangeInProgress;
                HandshakeAction::ExchangeKeys
            },
            (HandshakeState::KeyExchangeInProgress, HandshakeEvent::KeyExchangeFailed) => {
                self.fail(IdentityError::SecureChannelVerificationFailed)
            },
            (HandshakeState::KeyExchangeInProgress, HandshakeEvent::IdentityReceived(check)) => {
                match check_identity(&check) {
                    Some(error) => self.fail(error),
                    None => {
                        self.state = HandshakeState::IdentityExchanged;
                        if self.credentials_required {
                            HandshakeAction::ExchangeCredentials
                        } else {
                            HandshakeAction::Nothing
                        }
                    },
                }
            },
            (HandshakeState::IdentityExchanged, HandshakeEvent::CredentialsChecked(outcome)) => {
                match check_credentials(self.credentials_required, outcome) {
                    Some(error) => self.fail(error),
                    None => {
                        self.state = HandshakeState::CredentialsVerified;
                        HandshakeAction::Confirm
                    },
                }
            },
            (HandshakeState::CredentialsVerified, HandshakeEvent::Confirmed) => {
                self.state = HandshakeState::Established;
                HandshakeAction::Install
            },
            _ => self.fail(IdentityError::ConsistencyError),
        }
    }
}

/// The flows that a listener consumes, and under which policy each.
pub open spec fn spec_with_consumers(
    consumers: Map<(Seq<char>, FlowControlId), FlowControlPolicy>,
    address: Seq<char>,
    flows: Seq<(FlowControlId, FlowControlPolicy)>,
) -> Map<(Seq<char>, FlowControlId), FlowControlPolicy>
    decreases flows.len(),
{
    if flows.len() == 0 {
        consumers
    } else {
        spec_with_consumers(consumers, address, flows.drop_last()).insert(
            (address, flows.last().0),
            flows.last().1,
        )
    }
}

/// The options of a secure channel listener.
#[derive(Debug)]
pub struct SecureChannelListenerOptions {
    flow_control_id: FlowControlId,
    consumers: Vec<(FlowControlId, FlowControlPolicy)>,
    credentials_required: bool,
}

/// The options of a secure channel listener, as plain values.
pub struct SecureChannelListenerOptionsModel {
    /// The flow that stands for the listener: its channels descend from it.
    pub flow_control_id: FlowControlId,
    /// The flows whose messages may reach the listener, and under which policy.
    pub consumers: Seq<(FlowControlId, FlowControlPolicy)>,
    /// Whether the channels of the listener exchange credentials.
    pub credentials_required: bool,
}

impl View for SecureChannelListenerOptions {
    type V = SecureChannelListenerOptionsModel;

    closed spec fn view(&self) -> SecureChannelListenerOptionsModel {
        SecureChannelListenerOptionsModel {
            flow_control_id: self.flow_control_id,
            consumers: self.consumers@,
            credentials_required: self.credentials_required,
        }
    }
}

impl SecureChannelListenerOptions {
    /// The options of a listener that stands under the flow `flow_control_id`,
    /// consumes no flow and asks for no credentials.
    pub fn new(flow_control_id: &FlowControlId) -> (options: Self)
        ensures
            options@.flow_control_id == *flow_control_id,
            options@.consumers == Seq::<(FlowControlId, FlowControlPolicy)>::empty(),
            options@.credentials_required == false,
    {
        Self { flow_control_id: *flow_control_id, consumers: Vec::new(), credentials_required: false }
    }

    /// The same options, with the listener a consumer of the flow `id` under `policy`.
    pub fn as_consumer(self, id: &FlowControlId, policy: FlowControlPolicy) -> (options: Self)
        ensures
            options@.flow_control_id == self@.flow_control_id,
            options@.consumers == self@.consumers.push((*id, policy)),
            options@.credentials_required == self@.credentials_required,
    {
        let mut consumers = self.consumers;
        consumers.push((*id, policy));
        Self {
            flow_control_id: self.flow_control_id,
            consumers,
            credentials_required: self.credentials_required,
        }
    }

    /// The same options under a trust context: the channels of the listener
    /// exchange credentials exactly where the context supplies an authority.
    pub fn with_trust_context(self, trust_context: &TrustContext) -> (options: Self)
        ensures
            options@.flow_control_id == self@.flow_control_id,
            options@.consumers == self@.consumers,
            options@.credentials_required == (trust_context@.authority is Some),
    {
        Self {
            flow_control_id: self.flow_control_id,
            consumers: self.consumers,
            credentials_required: trust_context.authority().is_ok(),
        }
    }
}

/// A listener for secure channels: an address at which handshakes are answered.
#[derive(Debug)]
pub struct SecureChannelListener {
    address: Address,
    flow_control_id: FlowControlId,
    credentials_required: bool,
}

/// A listener, as plain values.
pub struct SecureChannelListenerModel {
    pub address: Seq<char>,
    pub flow_control_id: FlowControlId,
    pub credentials_required: bool,
}

impl View for SecureChannelListener {
    type V = SecureChannelListenerModel;

    closed spec fn view(&self) -> SecureChannelListenerModel {
        SecureChannelListenerModel {
            address: self.address@,
            flow_control_id: self.flow_control_id,
            credentials_required: self.credentials_required,
        }
    }
}

/// Binds `address` as a listener for secure channels. The listener is
/// registered as a consumer of each flow that its options name, so that
/// handshakes which arrive over those flows reach it; nothing is registered
/// for any channel before a handshake is established.
pub fn create_secure_channel_listener(
    registry: &mut FlowControls,
    address: Address,
    options: SecureChannelListenerOptions,
) -> (listener: SecureChannelListener)
    ensures
        listener@.address == address@,
        listener@.flow_control_id == options@.flow_control_id,
        listener@.credentials_required == options@.credentials_required,
        final(registry)@.consumers == spec_with_consumers(
            old(registry)@.consumers,
            address@,
            options@.consumers,
        ),
        final(registry)@.producers == old(registry)@.producers,
        final(registry)@.spawners == old(registry)@.spawners,
        keeps_registrations(old(registry)@, final(registry)@),
{
    let mut i: usize = 0;
    assert(options@.consumers.take(0) =~= Seq::<(FlowControlId, FlowControlPolicy)>::empty());
    while i < options.consumers.len()
        invariant
            i <= options.consumers.len(),
            registry@.consumers == spec_with_consumers(
                old(registry)@.consumers,
                address@,
                options@.consumers.take(i as int),
            ),
            registry@.producers == old(registry)@.producers,
            registry@.spawners == old(registry)@.spawners,
            keeps_registrations(old(registry)@, registry@),
        decreases options.consumers.len() - i,
    {
        let ghost upto = options@.consumers.take(i + 1);
        assert(upto.drop_last() =~= options@.consumers.take(i as int));
        assert(upto.last() == options@.consumers[i as int]);
        let (id, policy) = options.consumers[i];
        registry.add_consumer(address.clone(), &id, policy);
        i = i + 1;
    }
    assert(options@.consumers.take(options@.consumers.len() as int) =~= options@.consumers);
    SecureChannelListener {
        address,
        flow_control_id: options.flow_control_id,
        credentials_required: options.credentials_required,
    }
}

impl SecureChannelListener {
    /// The address at which the listener answers.
    pub fn address(&self) -> (address: &Address)
        ensures
            address@ == self@.address,
    {
        &self.address
    }

    /// The flow that stands for the listener, from which its channels descend.
    pub fn flow_control_id(&self) -> (id: FlowControlId)
        ensures
            id == self@.flow_control_id,
    {
        self.flow_control_id
    }

    /// Answers one handshake initiation: a new attempt on the responding side.
    pub fn accept(&self) -> (handshake: SecureChannelHandshake)
        ensures
            handshake@ == spec_new(Role::Responder, self@.credentials_required),
    {
        SecureChannelHandshake::new(Role::Responder, self.credentials_required)
    }
}

/// Starts a handshake towards the listener at the end of `destination_route`:
/// a new attempt on the initiating side, under the trust context if there is one.
pub fn create_secure_channel(
    destination_route: &crate::routing::Route,
    trust_context: Option<&TrustContext>,
) -> (r: Result<SecureChannelHandshake, IdentityError>)
    ensures
        match r {
            Ok(handshake) => destination_route@.len() > 0 && handshake@ == spec_new(
                Role::Initiator,
                match trust_context {
                    Some(context) => context@.authority is Some,
                    None => false,
                },
            ),
            Err(e) => destination_route@.len() == 0 && e
                == IdentityError::UnknownChannelMsgDestination,
        },
{
    if destination_route.is_empty() {
        Err(IdentityError::UnknownChannelMsgDestination)
    } else {
        Ok(SecureChannelHandshake::with_trust_context(Role::Initiator, trust_context))
    }
}

/// Why a channel cannot be installed, if it cannot: the handshake's own
/// failure where it failed, the consistency error while it is still under
/// way, and the duplicate-channel error where the channel was installed
/// before or its producing endpoint already produces a flow.
pub open spec fn install_refusal(
    h: HandshakeModel,
    m: FlowControlsModel,
    producer: Seq<char>,
) -> Option<IdentityError> {
    if h.state == HandshakeState::Failed {
        Some(
            match h.failure {
                Some(error) => error,
                None => IdentityError::ConsistencyError,
            },
        )
    } else if h.state != HandshakeState::Established {
        Some(IdentityError::ConsistencyError)
    } else if h.installed is Some || m.producers.contains_key(producer) {
        Some(IdentityError::DuplicateSecureChannel)
    } else {
        None
    }
}

/// The rank of the id a channel gets in the registry `m`.
pub open spec fn next_rank(m: FlowControlsModel, spawner: Option<FlowControlId>) -> nat {
    match spawner {
        Some(s) => if m.issued > s.rank() {
            m.issued
        } else {
            s.rank() + 1
        },
        None => m.issued,
    }
}

/// Enters an established channel into the flow control registry: takes a
/// fresh id (one spawned by `spawner` where the channel was spawned by a
/// listener), registers `producer`, the end that hands decrypted messages to
/// the node, as the producer of that flow, and `consumer`, the end that
/// takes messages to encrypt, as its consumer.
///
/// Nothing is entered for a handshake that is not established: the registry
/// is left exactly as it was.
pub fn install_channel(
    handshake: &mut SecureChannelHandshake,
    registry: &mut FlowControls,
    spawner: Option<&FlowControlId>,
    producer: Address,
    consumer: Address,
) -> (r: Result<FlowControlId, IdentityError>)
    requires
        old(registry)@.issued <= u64::MAX,
        spawner is Some ==> spawner.unwrap().rank() < u64::MAX,
    ensures
        match install_refusal(old(handshake)@, old(registry)@, producer@) {
            Some(error) => {
                &&& r == Err::<FlowControlId, IdentityError>(error)
                &&& final(registry)@ == old(registry)@
                &&& final(handshake)@ == old(handshake)@
            },
            None => {
                &&& r is Ok
                &&& r.unwrap().rank() == next_rank(
                    old(registry)@,
                    match spawner {
                        Some(s) => Some(*s),
                        None => None,
                    },
                )
                &&& final(handshake)@ == (HandshakeModel {
                    installed: Some(r.unwrap()),
                    ..old(handshake)@
                })
                &&& final(registry)@.producers == old(registry)@.producers.insert(
                    producer@,
                    r.unwrap(),
                )
                &&& final(registry)@.consumers == old(registry)@.consumers.insert(
                    (consumer@, r.unwrap()),
                    FlowControlPolicy::ProducerAllowMultiple,
                )
                &&& final(registry)@.spawners == match spawner {
                    Some(s) => old(registry)@.spawners.insert(r.unwrap(), *s),
                    None => old(registry)@.spawners,
                }
                &&& final(registry)@.issued == r.unwrap().rank() + 1
                &&& allowed(final(registry)@, r.unwrap(), consumer@)
            },
        },
        well_formed(final(registry)@),
        keeps_registrations(old(registry)@, final(registry)@),
{
    let producing = registry.producer_flow(&producer);
    if handshake.state == HandshakeState::Failed {
        return Err(
            match handshake.failure {
                Some(error) => error,
                None => IdentityError::ConsistencyError,
            },
        );
    }
    if handshake.state != HandshakeState::Established {
        return Err(IdentityError::ConsistencyError);
    }
    if handshake.installed.is_some() || producing.is_some() {
        return Err(IdentityError::DuplicateSecureChannel);
    }
    let id = match spawner {
        Some(s) => registry.spawn_id(s),
        None => registry.generate_id(),
    };
    registry.add_producer(producer, &id);
    registry.add_consumer(consumer, &id, FlowControlPolicy::ProducerAllowMultiple);
    handshake.installed = Some(id);
    Ok(id)
}

/// An installed secure channel: the address at which it takes messages to
/// encrypt, and the flow under which it stands in the registry.
#[derive(Debug)]
pub struct SecureChannel {
    encryptor: Address,
    flow_control_id: FlowControlId,
}

/// An installed secure channel, as plain values.
pub struct SecureChannelModel {
    pub encryptor: Seq<char>,
    pub flow_control_id: FlowControlId,
}

impl View for SecureChannel {
    type V = SecureChannelModel;

    closed spec fn view(&self) -> SecureChannelModel {
        SecureChannelModel { encryptor: self.encryptor@, flow_control_id: self.flow_control_id }
    }
}

impl SecureChannel {
    /// The handle of the channel of `handshake`, which takes messages at
    /// `encryptor`; there is none before the channel was installed.
    pub fn of(handshake: &SecureChannelHandshake, encryptor: Address) -> (channel: Option<Self>)
        ensures
            match channel {
                Some(c) => handshake@.installed == Some(c@.flow_control_id) && c@.encryptor
                    == encryptor@,
                None => handshake@.installed is None,
            },
    {
        match handshake.installed {
            Some(flow_control_id) => Some(SecureChannel { encryptor, flow_control_id }),
            None => None,
        }
    }

    /// The address of the channel, which is a hop like any other.
    pub fn address(&self) -> (address: &Address)
        ensures
            address@ == self@.encryptor,
    {
        &self.encryptor
    }

    /// The flow under which the channel stands in the registry.
    pub fn flow_control_id(&self) -> (id: FlowControlId)
        ensures
            id == self@.flow_control_id,
    {
        self.flow_control_id
    }

    /// The route that leads through the channel and then along `onward`:
    /// what is sent along it travels inside the channel, be it the handshake
    /// of another channel.
    pub fn route_through(&self, onward: &crate::routing::Route) -> (route: crate::routing::Route)
        ensures
            route@ == seq![self@.encryptor] + onward@,
    {
        let first = crate::routing::Route::new().append(self.encryptor.clone());
        assert(first@ =~= seq![self@.encryptor]);
        crate::routing::Route::concat(&first, onward)
    }
}

/// The answer to a delivery by the endpoint `sender`: what it sends is tagged
/// with the flow it produces, and an endpoint that produces no flow sends
/// untagged messages.
pub open spec fn spec_deliver_from(m: FlowControlsModel, sender: Seq<char>, target: Seq<char>) -> Delivery {
    spec_check_delivery(
        m,
        if m.producers.contains_key(sender) {
            Some(m.producers[sender])
        } else {
            None
        },
        target,
    )
}

/// The answer of the registry to the delivery of a message that the
/// endpoint `sender` hands to `target`.
pub fn deliver_from(registry: &FlowControls, sender: &Address, target: &Address) -> (answer: Delivery)
    ensures
        answer == spec_deliver_from(registry@, sender@, target@),
{
    match registry.producer_flow(sender) {
        Some(id) => registry.check_delivery(Some(&id), target),
        None => registry.check_delivery(None, target),
    }
}

/// The flow of the channel whose producing end is `decryptor`, to which a
/// message for the channel is handed; the unknown-destination error where
/// no channel was installed there.
pub fn channel_flow(
    registry: &FlowControls,
    decryptor: &Address,
) -> (r: Result<FlowControlId, IdentityError>)
    ensures
        match r {
            Ok(flow) => registry@.producers.contains_key(decryptor@) && flow
                == registry@.producers[decryptor@],
            Err(e) => !registry@.producers.contains_key(decryptor@) && e
                == IdentityError::UnknownChannelMsgDestination,
        },
{
    match registry.producer_flow(decryptor) {
        Some(flow) => Ok(flow),
        None => Err(IdentityError::UnknownChannelMsgDestination),
    }
}

/// Only the step into `Established` asks the driver to install the channel.
pub proof fn lemma_install_only_on_established(h: HandshakeModel, event: HandshakeEvent)
    ensures
        spec_step(h, event).1 == HandshakeAction::Install <==> (h.state
            == HandshakeState::CredentialsVerified && event == HandshakeEvent::Confirmed),
        spec_step(h, event).1 == HandshakeAction::Install ==> spec_step(h, event).0.state
            == HandshakeState::Established,
        spec_step(h, event).0.installed == h.installed,
{
}

/// A failed handshake stays failed, whatever comes, and keeps its reason.
pub proof fn lemma_failed_is_terminal(h: HandshakeModel, events: Seq<HandshakeEvent>)
    requires
        h.state == HandshakeState::Failed,
    ensures
        spec_run(h, events) == h,
        !run_asks_to_install(h, events),
    decreases events.len(),
{
    if events.len() > 0 {
        lemma_failed_is_terminal(h, events.drop_last());
    }
}

/// From any state that has not failed, a time-out or a failure of the
/// transport leads to `Failed`.
pub proof fn lemma_failed_is_reachable(h: HandshakeModel, event: HandshakeEvent)
    requires
        event == HandshakeEvent::TimedOut || event == HandshakeEvent::TransportFailed,
    ensures
        spec_step(h, event).0.state == HandshakeState::Failed,
{
}

/// A run that never reaches `Established` never asks to install the channel
/// and leaves nothing installed.
pub proof fn lemma_no_install_before_established(h: HandshakeModel, events: Seq<HandshakeEvent>)
    requires
        !run_reaches_established(h, events),
    ensures
        !run_asks_to_install(h, events),
        spec_run(h, events).installed == h.installed,
        spec_run(h, events).state != HandshakeState::Established,
    decreases events.len(),
{
    if events.len() > 0 {
        lemma_no_install_before_established(h, events.drop_last());
        lemma_install_only_on_established(spec_run(h, events.drop_last()), events.last());
    }
}

/// A new handshake reaches `Established` only through every state before
/// it: at the least, its peer's identity was accepted, and its credentials
/// where the trust context asks for them.
pub proof fn lemma_established_needs_every_check(
    role: Role,
    credentials_required: bool,
    events: Seq<HandshakeEvent>,
)
    requires
        spec_run(spec_new(role, credentials_required), events).state == HandshakeState::Established,
    ensures
        exists|i: int|
            0 <= i < events.len() && accepts_identity(#[trigger] events[i]),
        exists|i: int|
            0 <= i < events.len() && accepts_credentials(credentials_required, #[trigger] events[i]),
{
    let h = spec_new(role, credentials_required);
    lemma_progress_needs_checks(h, events);
}

/// The checks that the state of a run bears witness to.
spec fn progress_witnessed(h: HandshakeModel, events: Seq<HandshakeEvent>) -> bool {
    let state = spec_run(h, events).state;
    &&& spec_run(h, events).credentials_required == h.credentials_required
    &&& (state == HandshakeState::IdentityExchanged || state == HandshakeState::CredentialsVerified
        || state == HandshakeState::Established) ==> exists|i: int|
        0 <= i < events.len() && accepts_identity(#[trigger] events[i])
    &&& (state == HandshakeState::CredentialsVerified || state == HandshakeState::Established)
        ==> exists|i: int|
        0 <= i < events.len() && accepts_credentials(h.credentials_required, #[trigger] events[i])
}

proof fn lemma_progress_needs_checks(h: HandshakeModel, events: Seq<HandshakeEvent>)
    requires
        h.state == HandshakeState::Initiated,
    ensures
        progress_witnessed(h, events),
    decreases events.len(),
{
    if events.len() > 0 {
        let init = events.drop_last();
        lemma_progress_needs_checks(h, init);
        let before = spec_run(h, init);
        let after = spec_run(h, events);
        let state = after.state;
        let last = events.len() - 1;
        assert(events[last] == events.last());
        if state == HandshakeState::IdentityExchanged || state == HandshakeState::CredentialsVerified
            || state == HandshakeState::Established {
            if before.state == HandshakeState::KeyExchangeInProgress {
                assert(events[last] is IdentityReceived);
            } else {
                let i = choose|i: int|
                    0 <= i < init.len() && accepts_identity(#[trigger] init[i]);
                assert(events[i] == init[i]);
            }
        }
        if state == HandshakeState::CredentialsVerified || state == HandshakeState::Established {
            if before.state == HandshakeState::IdentityExchanged {
                assert(events[last] is CredentialsChecked);
            } else {
                let i = choose|i: int|
                    0 <= i < init.len() && accepts_credentials(h.credentials_required, #[trigger] init[i]);
                assert(events[i] == init[i]);
            }
        }
    }
}

/// A channel whose handshake is not established is not entered into the
/// registry, and what its would-be producing endpoint sends is denied at
/// every target, as long as that endpoint produces no other flow.
pub proof fn lemma_unestablished_channel_delivers_nothing(
    h: HandshakeModel,
    m: FlowControlsModel,
    producer: Seq<char>,
    target: Seq<char>,
)
    requires
        h.state != HandshakeState::Established,
        !m.producers.contains_key(producer),
    ensures
        install_refusal(h, m, producer) is Some,
        spec_deliver_from(m, producer, target) == Delivery::Denied,
{
}

} // verus!

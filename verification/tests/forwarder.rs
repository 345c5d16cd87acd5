use ockam_trust::error::IdentityError;
use ockam_trust::flow_control::{
    permits, receive, AccessControl, Delivery, FlowControlId, FlowControlPolicy, FlowControls,
    ReceiveError,
};
use ockam_trust::forwarding::{
    forwarding_service_address, registration_route, ForwardingError, ForwardingService,
    RemoteForwarderInfo, RemoteForwarderOptions,
};
use ockam_trust::identity::{Identifier, Identity};
use ockam_trust::routing::{Address, Route};
use ockam_trust::secure_channel::{
    credential_outcome, deliver_from, install_channel, ChangeHistoryComparison, HandshakeAction,
    HandshakeEvent, HandshakeState, IdentityCheck, Role, SecureChannelHandshake,
};
use ockam_trust::trust_context::{AuthorityService, TrustContext};
use ockam_trust::verification::{Attributes, CredentialClaim, Timestamp, VerifyRequest};

fn addr(name: &str) -> Address {
    Address::from_str(name)
}

fn route(hops: &[&str]) -> Route {
    Route::from_hops(hops.iter().map(|h| addr(h)).collect())
}

fn hops(route: &Route) -> Vec<String> {
    (0..route.len()).map(|i| route.hop(i).as_str().to_string()).collect()
}

/// A node registers with the forwarding service of a relay, as a remote forwarder does.
fn create_remote_forwarder(
    service: &mut ForwardingService,
    relay_registry: &FlowControls,
    route_to_relay: &Route,
    tag: Option<&FlowControlId>,
    forwarding_address: &str,
    worker: &str,
) -> Result<RemoteForwarderInfo, ForwardingError> {
    let registration = registration_route(route_to_relay);
    assert_eq!(registration.hop(registration.len() - 1).as_str(), "forwarding_service");
    // the way back to the registrant: the route to the relay in reverse, then its worker
    let mut back: Vec<Address> =
        (0..route_to_relay.len()).rev().map(|i| route_to_relay.hop(i).clone()).collect();
    back.push(addr(worker));
    let asked = RemoteForwarderOptions::new().requested_address(addr(forwarding_address));
    let given = service.register(relay_registry, tag, asked, Route::from_hops(back))?;
    Ok(RemoteForwarderInfo::new(
        Route::concat(route_to_relay, &Route::new().append(given.clone())),
        given,
        addr(worker),
        tag.copied(),
    ))
}

/// An echoer behind an access control: answers with what it was sent where
/// the message is let through, and is silent where it is not.
fn echo(
    access: AccessControl,
    registry: &FlowControls,
    tag: Option<&FlowControlId>,
    body: &str,
) -> Option<String> {
    match permits(access, registry, tag, &addr("echoer")) {
        Delivery::Allowed => Some(body.to_string()),
        Delivery::Denied => None,
    }
}

// Node creates a Forwarding service and a Remote Forwarder, Echoer is reached through the Forwarder. No flow control
#[test]
fn test1() {
    let registry = FlowControls::new();
    let mut service = ForwardingService::create(
        addr("forwarding_service"),
        AccessControl::AllowAll,
        AccessControl::AllowAll,
    );
    let remote_info =
        create_remote_forwarder(&mut service, &registry, &route(&[]), None, "forward_to_1", "worker")
            .unwrap();

    let onward = Route::new().append(remote_info.remote_address().clone()).append(addr("echoer"));
    let forwarded = service.forward(&onward).unwrap();
    assert_eq!(hops(&forwarded), vec!["worker", "echoer"]);
    // the worker of the remote forwarder hands the message on to the next hop
    let at_worker = forwarded.without_first();
    assert_eq!(hops(&at_worker), vec!["echoer"]);

    let resp = echo(AccessControl::AllowAll, &registry, None, "Hello");
    assert_eq!(resp, Some("Hello".to_string()));
}

// Cloud: Hosts a Forwarding service and listens on a tcp port. No flow control
// Server: Connects to a Cloud using tcp and creates a dynamic Forwarder. Using flow control
// Client: Connects to a Cloud using tcp and reaches to the Server's Echoer. Using flow control
#[test]
fn test2() {
    let mut cloud_registry = FlowControls::new();
    let mut service = ForwardingService::create(
        addr("forwarding_service"),
        AccessControl::AllowAll,
        AccessControl::AllowAll,
    );
    let tcp_flow_control_id = cloud_registry.generate_id();

    let mut server_registry = FlowControls::new();
    let server_tcp_flow_control_id = server_registry.generate_id();
    server_registry.add_consumer(
        addr("echoer"),
        &server_tcp_flow_control_id,
        FlowControlPolicy::ProducerAllowMultiple,
    );
    // the server's end of its connection to the cloud produces that flow
    server_registry.add_producer(addr("server_tcp_receiver"), &server_tcp_flow_control_id);

    let remote_info = create_remote_forwarder(
        &mut service,
        &cloud_registry,
        &route(&["cloud_connection"]),
        Some(&tcp_flow_control_id),
        "forward_to_server",
        "worker",
    )
    .unwrap();
    assert_eq!(remote_info.flow_control_id(), Some(tcp_flow_control_id));
    assert_eq!(hops(remote_info.forwarding_route()), vec!["cloud_connection", "forward_to_server"]);

    // the client's message, once it is at the cloud
    let onward = Route::new().append(remote_info.remote_address().clone()).append(addr("echoer"));
    let forwarded = service.forward(&onward).unwrap();
    assert_eq!(hops(&forwarded), vec!["cloud_connection", "worker", "echoer"]);

    // at the server it comes out of the connection and is tagged with its flow
    let tag = server_registry.producer_flow(&addr("server_tcp_receiver"));
    assert_eq!(tag, Some(server_tcp_flow_control_id));
    let resp = echo(AccessControl::FlowControl, &server_registry, tag.as_ref(), "Hello");
    assert_eq!(resp, Some("Hello".to_string()));
}

// Server: Connects to a Cloud using tcp and creates a dynamic Forwarder. Using flow control
// Cloud: Hosts a Forwarding service and sends replies to the Client with and without a flow control
#[test]
fn test3() {
    let mut cloud_registry = FlowControls::new();
    let mut service = ForwardingService::create(
        addr("forwarding_service"),
        AccessControl::AllowAll,
        AccessControl::AllowAll,
    );
    let tcp_flow_control_id = cloud_registry.generate_id();

    let mut server_registry = FlowControls::new();
    let server_tcp_flow_control_id = server_registry.generate_id();
    server_registry.add_producer(addr("server_tcp_receiver"), &server_tcp_flow_control_id);

    let remote_info = create_remote_forwarder(
        &mut service,
        &cloud_registry,
        &route(&["cloud_connection"]),
        Some(&tcp_flow_control_id),
        "forward_to_server",
        "worker",
    )
    .unwrap();

    let onward = Route::new().append(remote_info.remote_address().clone()).append(addr("ctx"));
    let forwarded = service.forward(&onward).unwrap();
    assert_eq!(hops(&forwarded), vec!["cloud_connection", "worker", "ctx"]);

    // sent before the registration: nothing arrives, and the receiver times out
    let res = receive(
        deliver_from(&server_registry, &addr("server_tcp_receiver"), &addr("ctx")),
        "Hello".as_bytes().to_vec(),
    );
    assert!(res.is_err(), "Should not pass outgoing access control");
    assert_eq!(res, Err(ReceiveError::TimedOut));

    server_registry.add_consumer(
        addr("ctx"),
        &server_tcp_flow_control_id,
        FlowControlPolicy::ProducerAllowMultiple,
    );

    // what was sent before is gone: only a message sent again arrives
    let forwarded = service.forward(&onward).unwrap();
    assert_eq!(hops(&forwarded), vec!["cloud_connection", "worker", "ctx"]);
    let res = receive(
        deliver_from(&server_registry, &addr("server_tcp_receiver"), &addr("ctx")),
        "Hello".as_bytes().to_vec(),
    )
    .unwrap();
    assert_eq!(String::from_utf8(res).unwrap(), "Hello");
}

#[test]
fn empty_message_is_not_a_timeout() {
    assert_eq!(receive(Delivery::Allowed, vec![]), Ok(vec![]));
    assert_eq!(receive(Delivery::Allowed, vec![1, 2]), Ok(vec![1, 2]));
    assert_eq!(receive(Delivery::Denied, vec![]), Err(ReceiveError::TimedOut));
    assert_eq!(receive(Delivery::Denied, vec![1, 2]), Err(ReceiveError::TimedOut));
}

fn identity(name: u8) -> Identity {
    Identity::new(Identifier::new(vec![name; 4]), vec![name, 1, 2]).unwrap()
}

/// One side of a handshake: identities are exchanged and checked, and the
/// peer's credential is verified against the authorities of the side's
/// trust context.
fn handshake(
    role: Role,
    trust_context: &TrustContext,
    authority_identity: Identity,
    peer: &Identity,
    credential_issuer: &Identity,
) -> SecureChannelHandshake {
    let mut h = SecureChannelHandshake::with_trust_context(role, Some(trust_context));
    assert!(h.credentials_required());
    assert_eq!(h.step(HandshakeEvent::Started), HandshakeAction::ExchangeKeys);
    let check = IdentityCheck {
        history_valid: true,
        comparison: ChangeHistoryComparison::FirstContact,
        trusted: true,
    };
    let action = h.step(HandshakeEvent::IdentityReceived(check));
    assert_eq!(action, HandshakeAction::ExchangeCredentials);

    let authorities = trust_context.authorities(authority_identity).unwrap();
    let request = VerifyRequest::new(vec![0xc0, 0xde], peer.identifier().clone())
        .with_authorities(&authorities);
    let claim = CredentialClaim::new(
        peer.identifier().clone(),
        credential_issuer.identifier().clone(),
        Attributes::new(),
        Timestamp(2_000),
    );
    let signature_valid = request.issuing_authority(&claim).is_ok();
    let answer = request.verify(&claim, signature_valid, Some(Timestamp(1_000)));
    let action = h.step(HandshakeEvent::CredentialsChecked(credential_outcome(&answer)));
    if action == HandshakeAction::Confirm {
        assert_eq!(h.step(HandshakeEvent::Confirmed), HandshakeAction::Install);
    }
    h
}

/// The four hops of the tunnel; `flipped` names the hop whose trust context
/// believes an unrelated authority. Returns what the client gets back.
fn tunnel(flipped: Option<usize>) -> Option<String> {
    let authority = identity(0xaa);
    let unrelated = identity(0xbb);
    let cloud_identity = identity(1);
    let server_identity = identity(2);
    let client_identity = identity(3);
    let context = |hop: usize| {
        let believed = if flipped == Some(hop) { &unrelated } else { &authority };
        (
            TrustContext::new(
                "project".to_string(),
                Some(AuthorityService::new(believed.identifier().clone())),
                vec![],
            ),
            believed.clone(),
        )
    };

    // Cloud
    let mut cloud_registry = FlowControls::new();
    let mut service = ForwardingService::create(
        addr("forwarding_service"),
        AccessControl::AllowAll,
        AccessControl::AllowAll,
    );
    let sc_flow_control_id = cloud_registry.generate_id();
    let _tcp_flow_control_id = cloud_registry.generate_id();

    // Server
    let mut server_registry = FlowControls::new();
    let _server_channel_flow_control_id = server_registry.generate_id();
    let server_tunnel_flow_control_id = server_registry.generate_id();
    server_registry.add_consumer(
        addr("echoer"),
        &server_tunnel_flow_control_id,
        FlowControlPolicy::SpawnerAllowMultipleMessages,
    );

    // hop 0: the server's channel to the cloud, as the cloud's listener sees it
    let (tc, believed) = context(0);
    let mut cloud_server_channel =
        handshake(Role::Responder, &tc, believed, &server_identity, &authority);
    let installed = install_channel(
        &mut cloud_server_channel,
        &mut cloud_registry,
        Some(&sc_flow_control_id),
        addr("cloud_server_decryptor"),
        addr("cloud_server_encryptor"),
    );
    if installed.is_err() {
        assert_eq!(installed, Err(IdentityError::UnknownAuthority));
        assert_eq!(cloud_server_channel.state(), HandshakeState::Failed);
        return None;
    }

    let remote_info = create_remote_forwarder(
        &mut service,
        &cloud_registry,
        &route(&["cloud_server_encryptor"]),
        installed.as_ref().ok(),
        "forward_to_server",
        "worker",
    )
    .unwrap();

    // hop 1: the client's channel to the cloud
    let mut client_registry = FlowControls::new();
    let (tc, believed) = context(1);
    let mut cloud_client_channel =
        handshake(Role::Initiator, &tc, believed, &cloud_identity, &authority);
    if install_channel(
        &mut cloud_client_channel,
        &mut client_registry,
        None,
        addr("client_cloud_decryptor"),
        addr("client_cloud_encryptor"),
    )
    .is_err()
    {
        return None;
    }

    // hop 2: the relay re-routes what the client addresses to the forwarder
    let onward = Route::new()
        .append(remote_info.remote_address().clone())
        .append(addr("server_listener"));
    let forwarded = service.forward(&onward).unwrap();
    assert_eq!(hops(&forwarded), vec!["cloud_server_encryptor", "worker", "server_listener"]);

    // hop 3: the tunnel from the client to the server's listener
    let (tc, believed) = context(2);
    let mut tunnel_at_server =
        handshake(Role::Responder, &tc, believed, &client_identity, &authority);
    if install_channel(
        &mut tunnel_at_server,
        &mut server_registry,
        Some(&server_tunnel_flow_control_id),
        addr("tunnel_decryptor"),
        addr("tunnel_encryptor"),
    )
    .is_err()
    {
        assert_eq!(
            deliver_from(&server_registry, &addr("tunnel_decryptor"), &addr("echoer")),
            Delivery::Denied
        );
        return None;
    }
    let (tc, believed) = context(3);
    let mut tunnel_at_client =
        handshake(Role::Initiator, &tc, believed, &server_identity, &authority);
    if install_channel(
        &mut tunnel_at_client,
        &mut client_registry,
        None,
        addr("client_tunnel_decryptor"),
        addr("client_tunnel_encryptor"),
    )
    .is_err()
    {
        return None;
    }

    // the message comes out of the tunnel at the server and goes to the echoer
    match deliver_from(&server_registry, &addr("tunnel_decryptor"), &addr("echoer")) {
        Delivery::Allowed => Some("Hello".to_string()),
        Delivery::Denied => None,
    }
}

// Cloud:
//  - Hosts a Forwarding service
//  - Listens on a tcp port without a flow control
//  - Runs a secure channel listener
//
// Server:
//  - Connects to the Cloud using tcp with a flow control
//  - Creates a secure channel to the Cloud with a flow control
//  - Creates a dynamic Forwarder. Using flow control
//  - Runs a Secure Channel listener with a flow control
//  - Runs an Echoer
//
// Client:
//  - Connects to a Cloud using tcp with a flow control
//  - Creates a secure channel to the Cloud with a flow control
//  - Creates a tunneled secure channel to the server using Forwarder's address
//  - Reaches Server's Echoer using a flow control
#[test]
fn test4() {
    let resp = tunnel(None);
    assert_eq!(resp, Some("Hello".to_string()));
}

#[test]
fn tunnel_fails_where_one_hop_trusts_an_unrelated_authority() {
    for hop in 0..4 {
        assert_eq!(tunnel(Some(hop)), None);
    }
}

#[test]
fn forwarding_address_is_given_once() {
    let registry = FlowControls::new();
    let mut service = ForwardingService::create(
        forwarding_service_address(),
        AccessControl::AllowAll,
        AccessControl::AllowAll,
    );
    assert_eq!(service.address().as_str(), "forwarding_service");
    assert_eq!(service.len(), 0);
    let given = service.register(&registry, None, addr("alias"), route(&["a", "b"])).unwrap();
    assert_eq!(given.as_str(), "alias");
    assert_eq!(service.len(), 1);
    assert!(service.is_registered(&addr("alias")));
    assert!(!service.is_registered(&addr("other")));
    let again = service.register(&registry, None, addr("alias"), route(&["c"]));
    assert_eq!(again, Err(ForwardingError::AddressTaken));
    assert_eq!(service.len(), 1);
    assert_eq!(hops(service.route_of(&addr("alias")).unwrap()), vec!["a", "b"]);
    assert!(service.route_of(&addr("other")).is_none());
}

#[test]
fn inbound_access_control_guards_registrations() {
    let mut registry = FlowControls::new();
    let flow = registry.generate_id();

    let mut closed =
        ForwardingService::create(addr("fs"), AccessControl::DenyAll, AccessControl::AllowAll);
    assert_eq!(closed.inbound_access_control(), AccessControl::DenyAll);
    assert_eq!(closed.outbound_access_control(), AccessControl::AllowAll);
    let r = closed.register(&registry, Some(&flow), addr("alias"), route(&["a"]));
    assert_eq!(r, Err(ForwardingError::NotAuthorized));
    assert_eq!(closed.len(), 0);

    let mut guarded =
        ForwardingService::create(addr("fs"), AccessControl::FlowControl, AccessControl::AllowAll);
    let r = guarded.register(&registry, Some(&flow), addr("alias"), route(&["a"]));
    assert_eq!(r, Err(ForwardingError::NotAuthorized));
    let r = guarded.register(&registry, None, addr("alias"), route(&["a"]));
    assert_eq!(r, Err(ForwardingError::NotAuthorized));
    registry.add_consumer(addr("fs"), &flow, FlowControlPolicy::ProducerAllowMultiple);
    let r = guarded.register(&registry, Some(&flow), addr("alias"), route(&["a"]));
    assert_eq!(r.map(|a| a.as_str().to_string()), Ok("alias".to_string()));
    // refusal comes before the question whether the address is free
    let r = guarded.register(&registry, None, addr("alias"), route(&["a"]));
    assert_eq!(r, Err(ForwardingError::NotAuthorized));
}

#[test]
fn forwarding_replaces_the_first_hop_by_the_way_back() {
    let registry = FlowControls::new();
    let mut service =
        ForwardingService::create(addr("fs"), AccessControl::AllowAll, AccessControl::AllowAll);
    service.register(&registry, None, addr("f1"), route(&["tcp", "worker"])).unwrap();
    service.register(&registry, None, addr("f2"), route(&[])).unwrap();

    let out = service.forward(&route(&["f1"])).unwrap();
    assert_eq!(hops(&out), vec!["tcp", "worker"]);
    let out = service.forward(&route(&["f1", "x", "y", "f2"])).unwrap();
    assert_eq!(hops(&out), vec!["tcp", "worker", "x", "y", "f2"]);
    let out = service.forward(&route(&["f2", "x"])).unwrap();
    assert_eq!(hops(&out), vec!["x"]);

    assert_eq!(service.forward(&route(&[])).err(), Some(ForwardingError::UnknownForwarder));
    assert_eq!(service.forward(&route(&["x", "f1"])).err(), Some(ForwardingError::UnknownForwarder));
    assert_eq!(service.forward(&route(&["fs"])).err(), Some(ForwardingError::UnknownForwarder));
}

#[test]
fn forwarders_end_with_the_flow_that_owns_them() {
    let mut registry = FlowControls::new();
    let a = registry.generate_id();
    let b = registry.generate_id();
    let mut service =
        ForwardingService::create(addr("fs"), AccessControl::AllowAll, AccessControl::AllowAll);
    service.register(&registry, Some(&a), addr("a1"), route(&["ra1"])).unwrap();
    service.register(&registry, Some(&b), addr("b1"), route(&["rb1"])).unwrap();
    service.register(&registry, None, addr("local"), route(&["rl"])).unwrap();
    service.register(&registry, Some(&a), addr("a2"), route(&["ra2"])).unwrap();
    assert_eq!(service.len(), 4);

    service.disconnect(&a);
    assert_eq!(service.len(), 2);
    assert!(!service.is_registered(&addr("a1")));
    assert!(!service.is_registered(&addr("a2")));
    assert_eq!(hops(service.route_of(&addr("b1")).unwrap()), vec!["rb1"]);
    assert_eq!(hops(service.route_of(&addr("local")).unwrap()), vec!["rl"]);
    assert_eq!(service.forward(&route(&["a1", "x"])).err(), Some(ForwardingError::UnknownForwarder));

    // the address is free again
    service.register(&registry, Some(&b), addr("a1"), route(&["new"])).unwrap();
    assert_eq!(hops(service.route_of(&addr("a1")).unwrap()), vec!["new"]);
    service.disconnect(&b);
    assert_eq!(service.len(), 1);
    assert!(service.is_registered(&addr("local")));
    service.disconnect(&a);
    assert_eq!(service.len(), 1);
}

#[test]
fn remote_forwarder_info_gives_back_its_parts() {
    let mut registry = FlowControls::new();
    let flow = registry.generate_id();
    let info = RemoteForwarderInfo::new(
        route(&["tcp", "forward_to_x"]),
        addr("forward_to_x"),
        addr("worker"),
        Some(flow),
    );
    assert_eq!(hops(info.forwarding_route()), vec!["tcp", "forward_to_x"]);
    assert_eq!(info.remote_address().as_str(), "forward_to_x");
    assert_eq!(info.worker_address().as_str(), "worker");
    assert_eq!(info.flow_control_id(), Some(flow));
    assert_eq!(hops(&registration_route(&route(&["tcp"]))), vec!["tcp", "forwarding_service"]);
    assert_eq!(hops(&registration_route(&route(&[]))), vec!["forwarding_service"]);
}

#[test]
fn routes_are_ordered_lists_of_hops() {
    let empty = Route::new();
    assert!(empty.is_empty());
    assert_eq!(empty.len(), 0);
    assert!(empty.next().is_none());
    assert!(empty.without_first().is_empty());

    let r = Route::new().append(addr("a")).append(addr("b")).append(addr("c"));
    assert_eq!(hops(&r), vec!["a", "b", "c"]);
    assert!(!r.is_empty());
    assert_eq!(r.next().map(|a| a.as_str()), Some("a"));
    assert_eq!(r.hop(2).as_str(), "c");
    assert_eq!(hops(&r.without_first()), vec!["b", "c"]);
    assert_eq!(hops(&r.clone()), vec!["a", "b", "c"]);
    assert_eq!(hops(&Route::concat(&r, &route(&["d", "e"]))), vec!["a", "b", "c", "d", "e"]);
    assert_eq!(hops(&Route::concat(&empty, &r)), vec!["a", "b", "c"]);
    assert_eq!(hops(&Route::concat(&r, &empty)), vec!["a", "b", "c"]);

    assert!(addr("a") == Address::new("a".to_string()));
    assert!(addr("a") != addr("b"));
    assert_eq!(addr("echoer").as_str(), "echoer");
}

#[test]
fn forwarder_asks_for_a_stable_name_or_a_generated_address() {
    let ephemeral = RemoteForwarderOptions::new();
    assert_eq!(ephemeral.requested_address(addr("forward_to_1a2b")).as_str(), "forward_to_1a2b");
    let stable = RemoteForwarderOptions::with_alias("alice".to_string());
    assert_eq!(stable.requested_address(addr("forward_to_1a2b")).as_str(), "forward_to_alice");
    let empty = RemoteForwarderOptions::with_alias(String::new());
    assert_eq!(empty.requested_address(addr("x")).as_str(), "forward_to_");
}

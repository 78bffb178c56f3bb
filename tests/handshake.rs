use ibc::channel::{
    MsgChannelCloseConfirm, MsgChannelCloseInit, MsgChannelOpenAck, MsgChannelOpenConfirm, MsgChannelOpenInit,
    MsgChannelOpenTry, chan_close_confirm_execute, chan_close_confirm_validate,
};
use ibc::client::{Client, CommitmentProof, ConsensusState};
use ibc::connection::{MsgConnOpenAck, MsgConnOpenConfirm, MsgConnOpenInit, MsgConnOpenTry, negotiate_version};
use ibc::context::{Chain, CloseConfirm, IbcEvent, Module, ModuleEvent, ModuleExtras};
use ibc::dispatch::{MsgEnvelope, dispatch};
use ibc::types::{
    ChanState, ChannelId, ClientId, ConnState, ConnectionId, HandlerError, Height, ModuleError, ModuleId, Ordering, PortId,
    Version,
};

struct App {
    reject: bool,
    fail_execute: bool,
    executed: u64,
}

impl App {
    fn accepting() -> App {
        App { reject: false, fail_execute: false, executed: 0 }
    }

    fn check(&self) -> Result<(), ModuleError> {
        if self.reject { Err(ModuleError { code: 9 }) } else { Ok(()) }
    }

    fn run(&mut self) -> Result<ModuleExtras, ModuleError> {
        self.executed += 1;
        if self.fail_execute {
            return Err(ModuleError { code: 4 });
        }
        Ok(ModuleExtras {
            events: vec![ModuleEvent { kind: "app".to_string() }],
            log: vec!["app ran".to_string()],
        })
    }
}

impl Module for App {
    fn on_chan_open_init_validate(&self, _: PortId, _: ChannelId, _: Version) -> Result<(), ModuleError> {
        self.check()
    }
    fn on_chan_open_init_execute(&mut self, _: PortId, _: ChannelId, _: Version) -> Result<ModuleExtras, ModuleError> {
        self.run()
    }
    fn on_chan_open_try_validate(&self, _: PortId, _: ChannelId, _: Version) -> Result<(), ModuleError> {
        self.check()
    }
    fn on_chan_open_try_execute(&mut self, _: PortId, _: ChannelId, _: Version) -> Result<ModuleExtras, ModuleError> {
        self.run()
    }
    fn on_chan_open_ack_validate(&self, _: PortId, _: ChannelId, _: Version) -> Result<(), ModuleError> {
        self.check()
    }
    fn on_chan_open_ack_execute(&mut self, _: PortId, _: ChannelId, _: Version) -> Result<ModuleExtras, ModuleError> {
        self.run()
    }
    fn on_chan_open_confirm_validate(&self, _: PortId, _: ChannelId) -> Result<(), ModuleError> {
        self.check()
    }
    fn on_chan_open_confirm_execute(&mut self, _: PortId, _: ChannelId) -> Result<ModuleExtras, ModuleError> {
        self.run()
    }
    fn on_chan_close_init_validate(&self, _: PortId, _: ChannelId) -> Result<(), ModuleError> {
        self.check()
    }
    fn on_chan_close_init_execute(&mut self, _: PortId, _: ChannelId) -> Result<ModuleExtras, ModuleError> {
        self.run()
    }
    fn on_chan_close_confirm_validate(&self, _: PortId, _: ChannelId) -> Result<(), ModuleError> {
        self.check()
    }
    fn on_chan_close_confirm_execute(&mut self, _: PortId, _: ChannelId) -> Result<ModuleExtras, ModuleError> {
        self.run()
    }
}

fn h(n: u64) -> Height {
    Height::new(0, n)
}

fn versions(ids: &[u64]) -> Vec<Version> {
    ids.iter().map(|i| Version::new(*i)).collect()
}

const PORT: u64 = 1;
const MODULE: u64 = 7;

/// Two chains, each with client 0 tracking the other from height 1.
fn two_chains() -> (Chain<App>, Chain<App>) {
    let mut a: Chain<App> = Chain::new(versions(&[1, 2]));
    let mut b: Chain<App> = Chain::new(versions(&[2, 3]));
    let root_b = b.commitment_root(100);
    let root_a = a.commitment_root(200);
    a.create_client(Client::new(ConsensusState { height: h(1), root: root_b }));
    b.create_client(Client::new(ConsensusState { height: h(1), root: root_a }));
    a.bind_port(PortId::new(PORT), ModuleId::new(MODULE), App::accepting());
    b.bind_port(PortId::new(PORT), ModuleId::new(MODULE), App::accepting());
    (a, b)
}

/// Records `src`'s current root, signed as `root_id`, in `dst`'s client 0 at `height`.
fn relay(src: &Chain<App>, dst: &mut Chain<App>, height: Height, root_id: u64) {
    let root = src.commitment_root(root_id);
    dst.update_client(ClientId::new(0), ConsensusState { height, root }).unwrap();
}

fn conn_init() -> MsgEnvelope {
    MsgEnvelope::ConnOpenInit(MsgConnOpenInit {
        client_id_on_a: ClientId::new(0),
        counterparty_client_id: ClientId::new(0),
        version: None,
        delay_period: 0,
    })
}

fn conn_try(versions_on_a: Vec<Version>, root_id: u64, height: Height) -> MsgEnvelope {
    MsgEnvelope::ConnOpenTry(MsgConnOpenTry {
        client_id_on_b: ClientId::new(0),
        client_id_on_a: ClientId::new(0),
        conn_id_on_a: ConnectionId::new(0),
        versions_on_a,
        proof_conn_end_on_a: CommitmentProof::new(root_id),
        proof_height_on_a: height,
        delay_period: 0,
    })
}

fn conn_ack(version: u64, root_id: u64, height: Height) -> MsgEnvelope {
    MsgEnvelope::ConnOpenAck(MsgConnOpenAck {
        conn_id_on_a: ConnectionId::new(0),
        conn_id_on_b: ConnectionId::new(0),
        version: Version::new(version),
        proof_conn_end_on_b: CommitmentProof::new(root_id),
        proof_height_on_b: height,
    })
}

fn conn_confirm(root_id: u64, height: Height) -> MsgEnvelope {
    MsgEnvelope::ConnOpenConfirm(MsgConnOpenConfirm {
        conn_id_on_b: ConnectionId::new(0),
        proof_conn_end_on_a: CommitmentProof::new(root_id),
        proof_height_on_a: height,
    })
}

/// Runs the connection handshake to Open on both sides.
fn open_connection(a: &mut Chain<App>, b: &mut Chain<App>) {
    assert_eq!(dispatch(a, &conn_init()), Ok(()));
    relay(a, b, h(2), 201);
    assert_eq!(dispatch(b, &conn_try(versions(&[1, 2]), 201, h(2))), Ok(()));
    relay(b, a, h(2), 101);
    assert_eq!(dispatch(a, &conn_ack(2, 101, h(2))), Ok(()));
    relay(a, b, h(3), 202);
    assert_eq!(dispatch(b, &conn_confirm(202, h(3))), Ok(()));
}

fn chan_init(hops: Vec<ConnectionId>) -> MsgEnvelope {
    MsgEnvelope::ChanOpenInit(MsgChannelOpenInit {
        port_id_on_a: PortId::new(PORT),
        connection_hops_on_a: hops,
        port_id_on_b: PortId::new(PORT),
        ordering: Ordering::Unordered,
        version: Version::new(1),
    })
}

fn chan_try(root_id: u64, height: Height) -> MsgEnvelope {
    MsgEnvelope::ChanOpenTry(MsgChannelOpenTry {
        port_id_on_b: PortId::new(PORT),
        connection_hops_on_b: vec![ConnectionId::new(0)],
        port_id_on_a: PortId::new(PORT),
        chan_id_on_a: ChannelId::new(0),
        ordering: Ordering::Unordered,
        version: Version::new(1),
        proof_chan_end_on_a: CommitmentProof::new(root_id),
        proof_height_on_a: height,
    })
}

fn chan_ack(root_id: u64, height: Height) -> MsgEnvelope {
    MsgEnvelope::ChanOpenAck(MsgChannelOpenAck {
        port_id_on_a: PortId::new(PORT),
        chan_id_on_a: ChannelId::new(0),
        chan_id_on_b: ChannelId::new(0),
        version_on_b: Version::new(1),
        proof_chan_end_on_b: CommitmentProof::new(root_id),
        proof_height_on_b: height,
    })
}

fn close_confirm_msg(root_id: u64, height: Height) -> MsgChannelCloseConfirm {
    MsgChannelCloseConfirm {
        port_id_on_b: PortId::new(PORT),
        chan_id_on_b: ChannelId::new(0),
        proof_chan_end_on_a: CommitmentProof::new(root_id),
        proof_height_on_a: height,
    }
}

fn close_init() -> MsgEnvelope {
    MsgEnvelope::ChanCloseInit(MsgChannelCloseInit { port_id_on_a: PortId::new(PORT), chan_id_on_a: ChannelId::new(0) })
}

/// Connection open on both sides, channel Open on A and TryOpen on B.
fn open_channel(a: &mut Chain<App>, b: &mut Chain<App>) {
    open_connection(a, b);
    assert_eq!(dispatch(a, &chan_init(vec![ConnectionId::new(0)])), Ok(()));
    relay(a, b, h(4), 203);
    assert_eq!(dispatch(b, &chan_try(203, h(4))), Ok(()));
    relay(b, a, h(3), 102);
    assert_eq!(dispatch(a, &chan_ack(102, h(3))), Ok(()));
}

fn close_confirm_events(chain: &Chain<App>) -> Vec<CloseConfirm> {
    chain
        .events
        .iter()
        .filter_map(|e| match e {
            IbcEvent::CloseConfirmChannel(c) => Some(*c),
            _ => None,
        })
        .collect()
}

#[test]
fn end_to_end_handshake_and_close() {
    let (mut a, mut b) = two_chains();
    assert_eq!(dispatch(&mut a, &conn_init()), Ok(()));
    assert_eq!(a.connections.len(), 1);
    assert_eq!(a.connections[0].state, ConnState::Init);
    assert_eq!(a.connections[0].counterparty_connection_id, None);

    relay(&a, &mut b, h(2), 201);
    assert_eq!(dispatch(&mut b, &conn_try(versions(&[1, 2]), 201, h(2))), Ok(()));
    assert_eq!(b.connections[0].state, ConnState::TryOpen);
    assert_eq!(b.connections[0].counterparty_connection_id, Some(ConnectionId::new(0)));

    relay(&b, &mut a, h(2), 101);
    assert_eq!(dispatch(&mut a, &conn_ack(2, 101, h(2))), Ok(()));
    relay(&a, &mut b, h(3), 202);
    assert_eq!(dispatch(&mut b, &conn_confirm(202, h(3))), Ok(()));
    assert_eq!(a.connections[0].state, ConnState::Open);
    assert_eq!(b.connections[0].state, ConnState::Open);

    assert_eq!(dispatch(&mut a, &chan_init(vec![ConnectionId::new(0)])), Ok(()));
    assert_eq!(a.channels[0].1.state, ChanState::Init);
    relay(&a, &mut b, h(4), 203);
    assert_eq!(dispatch(&mut b, &chan_try(203, h(4))), Ok(()));
    relay(&b, &mut a, h(3), 102);
    assert_eq!(dispatch(&mut a, &chan_ack(102, h(3))), Ok(()));
    assert_eq!(dispatch(&mut a, &close_init()), Ok(()));
    assert_eq!(a.channels[0].1.state, ChanState::Closed);

    relay(&a, &mut b, h(5), 204);
    let msg = close_confirm_msg(204, h(5));
    assert_eq!(chan_close_confirm_validate(&b, ModuleId::new(MODULE), msg), Ok(()));
    let before = b.events.len();
    assert_eq!(chan_close_confirm_execute(&mut b, ModuleId::new(MODULE), msg), Ok(()));
    assert_eq!(b.channels[0].1.state, ChanState::Closed);
    let confirms = close_confirm_events(&b);
    assert_eq!(confirms.len(), 1);
    assert_eq!(
        confirms[0],
        CloseConfirm::new(PortId::new(PORT), ChannelId::new(0), PortId::new(PORT), ChannelId::new(0), ConnectionId::new(0))
    );
    assert!(matches!(b.events[before], IbcEvent::CloseConfirmChannel(_)));
    assert!(matches!(b.events[before + 1], IbcEvent::AppModule(_)));
    let n = b.logs.len();
    assert_eq!(b.logs[n - 2], "success: channel close confirm");
    assert_eq!(b.logs[n - 1], "app ran");
    assert_eq!(b.events.len(), before + 2);
}

#[test]
fn negotiated_version_is_common_one() {
    assert_eq!(negotiate_version(&versions(&[1, 2]), &versions(&[2, 3])), Some(Version::new(2)));
    assert_eq!(negotiate_version(&versions(&[1]), &versions(&[2, 3])), None);
    assert_eq!(negotiate_version(&versions(&[3, 2]), &versions(&[2, 3])), Some(Version::new(3)));
}

#[test]
fn connection_try_stores_negotiated_version() {
    let (mut a, mut b) = two_chains();
    assert_eq!(dispatch(&mut a, &conn_init()), Ok(()));
    relay(&a, &mut b, h(2), 201);
    assert_eq!(dispatch(&mut b, &conn_try(versions(&[1, 2]), 201, h(2))), Ok(()));
    assert_eq!(b.connections[0].versions, versions(&[2]));
}

#[test]
fn disjoint_versions_fail_try() {
    let mut a: Chain<App> = Chain::new(versions(&[1]));
    let mut b: Chain<App> = Chain::new(versions(&[2, 3]));
    let root_a = a.commitment_root(200);
    b.create_client(Client::new(ConsensusState { height: h(1), root: root_a }));
    let root_b = b.commitment_root(100);
    a.create_client(Client::new(ConsensusState { height: h(1), root: root_b }));
    assert_eq!(dispatch(&mut a, &conn_init()), Ok(()));
    relay(&a, &mut b, h(2), 201);
    assert_eq!(dispatch(&mut b, &conn_try(versions(&[1]), 201, h(2))), Err(HandlerError::VersionMismatch));
    assert_eq!(b.connections.len(), 0);
}

#[test]
fn unproposed_version_fails_ack() {
    let (mut a, mut b) = two_chains();
    assert_eq!(dispatch(&mut a, &conn_init()), Ok(()));
    relay(&a, &mut b, h(2), 201);
    assert_eq!(dispatch(&mut b, &conn_try(versions(&[1, 2]), 201, h(2))), Ok(()));
    relay(&b, &mut a, h(2), 101);
    assert_eq!(dispatch(&mut a, &conn_ack(3, 101, h(2))), Err(HandlerError::VersionMismatch));
    assert_eq!(a.connections[0].state, ConnState::Init);
}

#[test]
fn replayed_ack_fails_at_validate() {
    let (mut a, mut b) = two_chains();
    open_connection(&mut a, &mut b);
    let events = a.events.len();
    assert_eq!(dispatch(&mut a, &conn_ack(2, 101, h(2))), Err(HandlerError::ConnectionStateMismatch));
    assert_eq!(a.connections[0].state, ConnState::Open);
    assert_eq!(a.events.len(), events);
    assert_eq!(dispatch(&mut b, &conn_confirm(202, h(3))), Err(HandlerError::ConnectionStateMismatch));
}

#[test]
fn replayed_close_confirm_fails_at_validate() {
    let (mut a, mut b) = two_chains();
    open_channel(&mut a, &mut b);
    assert_eq!(dispatch(&mut a, &close_init()), Ok(()));
    assert_eq!(dispatch(&mut a, &close_init()), Err(HandlerError::ChannelClosed));
    relay(&a, &mut b, h(5), 204);
    let msg = MsgEnvelope::ChanCloseConfirm(close_confirm_msg(204, h(5)));
    assert_eq!(dispatch(&mut b, &msg), Ok(()));
    let events = b.events.len();
    assert_eq!(dispatch(&mut b, &msg), Err(HandlerError::ChannelClosed));
    assert_eq!(b.events.len(), events);
    assert_eq!(close_confirm_events(&b).len(), 1);
}

#[test]
fn tampered_proof_fails_and_changes_nothing() {
    let (mut a, mut b) = two_chains();
    assert_eq!(dispatch(&mut a, &conn_init()), Ok(()));
    relay(&a, &mut b, h(2), 201);
    assert_eq!(dispatch(&mut b, &conn_try(versions(&[1, 2]), 999, h(2))), Err(HandlerError::ProofVerificationFailure));
    assert_eq!(dispatch(&mut b, &conn_try(versions(&[1, 2]), 201, h(3))), Err(HandlerError::ProofVerificationFailure));
    assert_eq!(dispatch(&mut b, &conn_try(versions(&[2]), 201, h(2))), Err(HandlerError::ProofVerificationFailure));
    assert_eq!(b.connections.len(), 0);
    assert_eq!(b.events.len(), 0);
}

#[test]
fn close_confirm_before_counterparty_closed_fails() {
    let (mut a, mut b) = two_chains();
    open_channel(&mut a, &mut b);
    relay(&a, &mut b, h(5), 204);
    let msg = close_confirm_msg(204, h(5));
    assert_eq!(chan_close_confirm_validate(&b, ModuleId::new(MODULE), msg), Err(HandlerError::ProofVerificationFailure));
    assert_eq!(b.channels[0].1.state, ChanState::TryOpen);
}

#[test]
fn proofs_accept_committed_values_only() {
    let (mut a, mut b) = two_chains();
    assert_eq!(dispatch(&mut a, &conn_init()), Ok(()));
    relay(&a, &mut b, h(2), 201);
    let client = &b.clients[0];
    let stored = a.connections[0].duplicate();
    assert_eq!(client.verify_connection(h(2), CommitmentProof::new(201), ConnectionId::new(0), &stored), Ok(()));
    let mut changed = stored.duplicate();
    changed.delay_period = 1;
    assert_eq!(
        client.verify_connection(h(2), CommitmentProof::new(201), ConnectionId::new(0), &changed),
        Err(HandlerError::ProofVerificationFailure)
    );
    assert_eq!(
        client.verify_connection(h(2), CommitmentProof::new(201), ConnectionId::new(1), &stored),
        Err(HandlerError::ProofVerificationFailure)
    );
    assert_eq!(
        client.verify_connection(h(1), CommitmentProof::new(201), ConnectionId::new(0), &stored),
        Err(HandlerError::ProofVerificationFailure)
    );
}

#[test]
fn conflicting_update_is_misbehaviour() {
    let (a, mut b) = two_chains();
    relay(&a, &mut b, h(2), 201);
    let root = a.commitment_root(202);
    assert_eq!(
        b.update_client(ClientId::new(0), ConsensusState { height: h(2), root }),
        Err(HandlerError::ClientMisbehaviour)
    );
    let same = a.commitment_root(201);
    assert_eq!(b.update_client(ClientId::new(0), ConsensusState { height: h(2), root: same }), Ok(()));
    assert_eq!(b.clients[0].consensus_states.len(), 2);
    assert_eq!(b.clients[0].latest_height, h(2));
    let root = a.commitment_root(203);
    assert_eq!(
        b.update_client(ClientId::new(5), ConsensusState { height: h(3), root }),
        Err(HandlerError::ClientNotFound)
    );
}

#[test]
fn missing_records_are_reported() {
    let (mut a, _) = two_chains();
    let init = MsgEnvelope::ConnOpenInit(MsgConnOpenInit {
        client_id_on_a: ClientId::new(3),
        counterparty_client_id: ClientId::new(0),
        version: None,
        delay_period: 0,
    });
    assert_eq!(dispatch(&mut a, &init), Err(HandlerError::ClientNotFound));
    assert_eq!(dispatch(&mut a, &conn_ack(2, 101, h(2))), Err(HandlerError::ConnectionNotFound));
    assert_eq!(dispatch(&mut a, &chan_init(vec![ConnectionId::new(0)])), Err(HandlerError::ConnectionNotFound));
    assert_eq!(dispatch(&mut a, &close_init()), Err(HandlerError::ChannelNotFound));
    let unsupported = MsgEnvelope::ConnOpenInit(MsgConnOpenInit {
        client_id_on_a: ClientId::new(0),
        counterparty_client_id: ClientId::new(0),
        version: Some(Version::new(9)),
        delay_period: 0,
    });
    assert_eq!(dispatch(&mut a, &unsupported), Err(HandlerError::VersionMismatch));
}

#[test]
fn channel_needs_one_connection_hop() {
    let (mut a, mut b) = two_chains();
    open_connection(&mut a, &mut b);
    assert_eq!(dispatch(&mut a, &chan_init(vec![])), Err(HandlerError::InvalidConnectionHops));
    assert_eq!(a.channels.len(), 0);
}

#[test]
fn unbound_port_is_route_not_found() {
    let (mut a, mut b) = two_chains();
    open_connection(&mut a, &mut b);
    let msg = MsgEnvelope::ChanOpenInit(MsgChannelOpenInit {
        port_id_on_a: PortId::new(4),
        connection_hops_on_a: vec![ConnectionId::new(0)],
        port_id_on_b: PortId::new(PORT),
        ordering: Ordering::Ordered,
        version: Version::new(1),
    });
    assert_eq!(dispatch(&mut a, &msg), Err(HandlerError::RouteNotFound));
    assert_eq!(a.channels.len(), 0);
}

#[test]
fn module_rejection_is_reported() {
    let (mut a, mut b) = two_chains();
    open_connection(&mut a, &mut b);
    a.bind_port(PortId::new(2), ModuleId::new(8), App { reject: true, fail_execute: false, executed: 0 });
    let msg = MsgEnvelope::ChanOpenInit(MsgChannelOpenInit {
        port_id_on_a: PortId::new(2),
        connection_hops_on_a: vec![ConnectionId::new(0)],
        port_id_on_b: PortId::new(PORT),
        ordering: Ordering::Ordered,
        version: Version::new(1),
    });
    assert_eq!(dispatch(&mut a, &msg), Err(HandlerError::Module(ModuleError { code: 9 })));
    assert_eq!(a.channels.len(), 0);
}

#[test]
fn channel_open_confirm_opens_b() {
    let (mut a, mut b) = two_chains();
    open_channel(&mut a, &mut b);
    relay(&a, &mut b, h(5), 204);
    let msg = MsgEnvelope::ChanOpenConfirm(MsgChannelOpenConfirm {
        port_id_on_b: PortId::new(PORT),
        chan_id_on_b: ChannelId::new(0),
        proof_chan_end_on_a: CommitmentProof::new(204),
        proof_height_on_a: h(5),
    });
    assert_eq!(dispatch(&mut b, &msg), Ok(()));
    assert_eq!(b.channels[0].1.state, ChanState::Open);
    assert_eq!(b.modules[0].1.executed, 2);
    assert_eq!(dispatch(&mut b, &msg), Err(HandlerError::ChannelStateMismatch));
}

#[test]
fn close_init_needs_open_channel() {
    let (mut a, mut b) = two_chains();
    open_connection(&mut a, &mut b);
    assert_eq!(dispatch(&mut a, &chan_init(vec![ConnectionId::new(0)])), Ok(()));
    assert_eq!(dispatch(&mut a, &close_init()), Err(HandlerError::ChannelStateMismatch));
    assert_eq!(a.channels[0].1.state, ChanState::Init);
}

#[test]
fn heights_order_lexicographically() {
    assert!(Height::new(0, 5).lt(&Height::new(1, 0)));
    assert!(Height::new(1, 1).lt(&Height::new(1, 2)));
    assert!(!Height::new(1, 2).lt(&Height::new(1, 2)));
    assert!(!Height::new(2, 0).lt(&Height::new(1, 9)));
}

#[test]
fn absence_proof_accepts_unused_ids_only() {
    let (mut a, mut b) = two_chains();
    assert_eq!(dispatch(&mut a, &conn_init()), Ok(()));
    relay(&a, &mut b, h(2), 201);
    let client = &b.clients[0];
    assert_eq!(client.verify_connection_absence(h(2), CommitmentProof::new(201), ConnectionId::new(1)), Ok(()));
    assert_eq!(
        client.verify_connection_absence(h(2), CommitmentProof::new(201), ConnectionId::new(0)),
        Err(HandlerError::ProofVerificationFailure)
    );
    assert_eq!(
        client.verify_connection_absence(h(2), CommitmentProof::new(7), ConnectionId::new(1)),
        Err(HandlerError::ProofVerificationFailure)
    );
}

#[test]
fn connection_init_emits_event_with_fresh_id() {
    let (mut a, _) = two_chains();
    assert_eq!(dispatch(&mut a, &conn_init()), Ok(()));
    assert_eq!(dispatch(&mut a, &conn_init()), Ok(()));
    assert_eq!(a.connections.len(), 2);
    assert!(matches!(
        a.events[1],
        IbcEvent::OpenInitConnection { connection_id: ConnectionId { index: 1 }, .. }
    ));
    assert_eq!(a.connections[0].versions, versions(&[1, 2]));
}

#[test]
fn module_execute_failure_keeps_core_write() {
    let (mut a, mut b) = two_chains();
    open_connection(&mut a, &mut b);
    a.bind_port(PortId::new(3), ModuleId::new(9), App { reject: false, fail_execute: true, executed: 0 });
    let msg = MsgEnvelope::ChanOpenInit(MsgChannelOpenInit {
        port_id_on_a: PortId::new(3),
        connection_hops_on_a: vec![ConnectionId::new(0)],
        port_id_on_b: PortId::new(PORT),
        ordering: Ordering::Ordered,
        version: Version::new(1),
    });
    let events = a.events.len();
    assert_eq!(dispatch(&mut a, &msg), Err(HandlerError::ModuleExecute(ModuleError { code: 4 })));
    assert_eq!(a.channels.len(), 1);
    assert_eq!(a.channels[0].1.state, ChanState::Init);
    assert_eq!(a.events.len(), events + 1);
    assert!(matches!(a.events[events], IbcEvent::OpenInitChannel { .. }));
    assert_eq!(a.logs.last().map(|l| l.as_str()), Some("success: channel open init"));
}

use vstd::prelude::*;
use crate::client::{CommitmentProof, conn_verified};
use crate::context::{Chain, IbcEvent, Module, conn_views};
use crate::types::{ClientId, ConnState, ConnectionEnd, ConnectionId, ConnectionView, HandlerError, Height, Version};

verus! {

/// The first version of `proposed` that `supported` also holds.
pub open spec fn first_common(proposed: Seq<Version>, supported: Seq<Version>) -> Option<Version>
    decreases proposed.len(),
{
    if proposed.len() == 0 {
        None
    } else if supported.contains(proposed[0]) {
        Some(proposed[0])
    } else {
        first_common(proposed.drop_first(), supported)
    }
}

/// Whether `list` holds `v`.
pub fn contains_version(list: &Vec<Version>, v: Version) -> (r: bool)
    ensures
        r == list@.contains(v),
{
    let mut i: usize = 0;
    while i < list.len()
        invariant
            i <= list@.len(),
            forall|j: int| 0 <= j < i ==> list@[j] != v,
        decreases list@.len() - i,
    {
        if list[i] == v {
            return true;
        }
        i = i + 1;
    }
    false
}

/// Negotiates a version: the first of the proposer's versions that the
/// responder supports; none where the two sets are disjoint.
pub fn negotiate_version(proposed: &Vec<Version>, supported: &Vec<Version>) -> (r: Option<Version>)
    ensures
        r == first_common(proposed@, supported@),
        r is Some ==> proposed@.contains(r->Some_0) && supported@.contains(r->Some_0),
        r is None <==> forall|i: int| 0 <= i < proposed@.len() ==> !supported@.contains(#[trigger] proposed@[i]),
{
    proof {
        assert(proposed@.subrange(0, proposed@.len() as int) =~= proposed@);
    }
    let mut i: usize = 0;
    while i < proposed.len()
        invariant
            i <= proposed@.len(),
            first_common(proposed@, supported@) == first_common(proposed@.subrange(i as int, proposed@.len() as int), supported@),
            forall|j: int| 0 <= j < i ==> !supported@.contains(#[trigger] proposed@[j]),
        decreases proposed@.len() - i,
    {
        let ghost rest = proposed@.subrange(i as int, proposed@.len() as int);
        if contains_version(supported, proposed[i]) {
            proof {
                assert(rest[0] == proposed@[i as int]);
            }
            return Some(proposed[i]);
        }
        proof {
            assert(rest.drop_first() =~= proposed@.subrange(i + 1, proposed@.len() as int));
        }
        i = i + 1;
    }
    proof {
        assert(proposed@.subrange(i as int, proposed@.len() as int).len() == 0);
    }
    None
}

/// Opens a connection on chain A towards client `counterparty_client_id` of
/// chain B, over local client `client_id_on_a`.
#[derive(Clone, Copy, Debug, PartialEq, Eq, Structural)]
pub struct MsgConnOpenInit {
    pub client_id_on_a: ClientId,
    pub counterparty_client_id: ClientId,
    pub version: Option<Version>,
    pub delay_period: u64,
}

/// Answers on chain B an initialised connection of chain A.
#[derive(Debug)]
pub struct MsgConnOpenTry {
    pub client_id_on_b: ClientId,
    pub client_id_on_a: ClientId,
    pub conn_id_on_a: ConnectionId,
    pub versions_on_a: Vec<Version>,
    pub proof_conn_end_on_a: CommitmentProof,
    pub proof_height_on_a: Height,
    pub delay_period: u64,
}

/// Acknowledges on chain A that chain B's connection is in TryOpen.
#[derive(Clone, Copy, Debug, PartialEq, Eq, Structural)]
pub struct MsgConnOpenAck {
    pub conn_id_on_a: ConnectionId,
    pub conn_id_on_b: ConnectionId,
    pub version: Version,
    pub proof_conn_end_on_b: CommitmentProof,
    pub proof_height_on_b: Height,
}

/// Confirms on chain B that chain A's connection is open.
#[derive(Clone, Copy, Debug, PartialEq, Eq, Structural)]
pub struct MsgConnOpenConfirm {
    pub conn_id_on_b: ConnectionId,
    pub proof_conn_end_on_a: CommitmentProof,
    pub proof_height_on_a: Height,
}

/// The next connection id of `ctx` still fits its counter.
pub open spec fn conn_counter_free<M: Module>(ctx: Chain<M>) -> bool {
    ctx.connections@.len() < u64::MAX
}

/// The core conditions of `ConnOpenInit`: the client exists, a requested
/// version is supported, and a fresh id is available.
pub open spec fn conn_open_init_check<M: Module>(ctx: Chain<M>, msg: MsgConnOpenInit) -> Result<(), HandlerError> {
    if msg.client_id_on_a.index >= ctx.clients@.len() {
        Err(HandlerError::ClientNotFound)
    } else if msg.version is Some && !ctx.supported_versions@.contains(msg.version->Some_0) {
        Err(HandlerError::VersionMismatch)
    } else if !conn_counter_free(ctx) {
        Err(HandlerError::IdentifierOverflow)
    } else {
        Ok(())
    }
}

/// The connection end that `ConnOpenInit` creates.
pub open spec fn init_conn_view<M: Module>(ctx: Chain<M>, msg: MsgConnOpenInit) -> ConnectionView {
    ConnectionView {
        state: ConnState::Init,
        client_id: msg.client_id_on_a,
        counterparty_client_id: msg.counterparty_client_id,
        counterparty_connection_id: None,
        versions: match msg.version {
            Some(v) => seq![v],
            None => ctx.supported_versions@,
        },
        delay_period: msg.delay_period,
    }
}

/// Validates `ConnOpenInit` on chain A.
pub fn conn_open_init_validate<M: Module>(ctx_a: &Chain<M>, msg: MsgConnOpenInit) -> (r: Result<(), HandlerError>)
    ensures
        r == conn_open_init_check(*ctx_a, msg),
{
    if msg.client_id_on_a.index >= ctx_a.clients.len() as u64 {
        return Err(HandlerError::ClientNotFound);
    }
    if let Some(v) = msg.version {
        if !contains_version(&ctx_a.supported_versions, v) {
            return Err(HandlerError::VersionMismatch);
        }
    }
    if ctx_a.connections.len() as u64 >= u64::MAX {
        return Err(HandlerError::IdentifierOverflow);
    }
    Ok(())
}

/// Executes a validated `ConnOpenInit`: a new connection end in Init under
/// the next id, and one `OpenInitConnection` event.
pub fn conn_open_init_execute<M: Module>(ctx_a: &mut Chain<M>, msg: MsgConnOpenInit) -> (r: ConnectionId)
    requires
        old(ctx_a).wf(),
        conn_open_init_check(*old(ctx_a), msg) is Ok,
    ensures
        final(ctx_a).wf(),
        r.index == old(ctx_a).connections@.len(),
        conn_views(final(ctx_a).connections@) == conn_views(old(ctx_a).connections@).push(init_conn_view(*old(ctx_a), msg)),
        final(ctx_a).events@ == old(ctx_a).events@.push(
            IbcEvent::OpenInitConnection {
                connection_id: r,
                client_id: msg.client_id_on_a,
                counterparty_client_id: msg.counterparty_client_id,
            },
        ),
        final(ctx_a).clients == old(ctx_a).clients,
        final(ctx_a).channels == old(ctx_a).channels,
        final(ctx_a).modules == old(ctx_a).modules,
        final(ctx_a).port_bindings == old(ctx_a).port_bindings,
        final(ctx_a).supported_versions == old(ctx_a).supported_versions,
        final(ctx_a).logs@ == old(ctx_a).logs@.push(final(ctx_a).logs@[old(ctx_a).logs@.len() as int]),
        final(ctx_a).logs@[old(ctx_a).logs@.len() as int]@ == "success: connection open init"@,
{
    let versions = match msg.version {
        Some(v) => {
            let mut vs = Vec::new();
            vs.push(v);
            proof {
                assert(vs@ =~= seq![v]);
            }
            vs
        },
        None => crate::types::copy_ids(&ctx_a.supported_versions),
    };
    let id = ConnectionId::new(ctx_a.connections.len() as u64);
    let end = ConnectionEnd {
        state: ConnState::Init,
        client_id: msg.client_id_on_a,
        counterparty_client_id: msg.counterparty_client_id,
        counterparty_connection_id: None,
        versions,
        delay_period: msg.delay_period,
    };
    ctx_a.connections.push(end);
    proof {
        assert(conn_views(ctx_a.connections@) =~= conn_views(old(ctx_a).connections@).push(init_conn_view(*old(ctx_a), msg)));
    }
    ctx_a.logs.push("success: connection open init".to_owned());
    ctx_a.events.push(
        IbcEvent::OpenInitConnection {
            connection_id: id,
            client_id: msg.client_id_on_a,
            counterparty_client_id: msg.counterparty_client_id,
        },
    );
    id
}

/// What chain A's connection must hold for `ConnOpenTry` to answer it.
pub open spec fn expected_init_on_a(msg: &MsgConnOpenTry) -> ConnectionView {
    ConnectionView {
        state: ConnState::Init,
        client_id: msg.client_id_on_a,
        counterparty_client_id: msg.client_id_on_b,
        counterparty_connection_id: None,
        versions: msg.versions_on_a@,
        delay_period: msg.delay_period,
    }
}

/// The core conditions of `ConnOpenTry`: the client on B exists, the two
/// version sets meet, a fresh id is available, and the proof shows A's
/// connection in Init naming B's client.
pub open spec fn conn_open_try_check<M: Module>(ctx: Chain<M>, msg: &MsgConnOpenTry) -> Result<(), HandlerError> {
    if msg.client_id_on_b.index >= ctx.clients@.len() {
        Err(HandlerError::ClientNotFound)
    } else if first_common(msg.versions_on_a@, ctx.supported_versions@) is None {
        Err(HandlerError::VersionMismatch)
    } else if !conn_counter_free(ctx) {
        Err(HandlerError::IdentifierOverflow)
    } else if !conn_verified(
        ctx.clients@[msg.client_id_on_b.index as int],
        msg.proof_height_on_a,
        msg.proof_conn_end_on_a,
        msg.conn_id_on_a,
        expected_init_on_a(msg),
    ) {
        Err(HandlerError::ProofVerificationFailure)
    } else {
        Ok(())
    }
}

/// The connection end that `ConnOpenTry` creates.
pub open spec fn try_conn_view<M: Module>(ctx: Chain<M>, msg: &MsgConnOpenTry) -> ConnectionView {
    ConnectionView {
        state: ConnState::TryOpen,
        client_id: msg.client_id_on_b,
        counterparty_client_id: msg.client_id_on_a,
        counterparty_connection_id: Some(msg.conn_id_on_a),
        versions: seq![first_common(msg.versions_on_a@, ctx.supported_versions@)->Some_0],
        delay_period: msg.delay_period,
    }
}

/// Validates `ConnOpenTry` on chain B.
pub fn conn_open_try_validate<M: Module>(ctx_b: &Chain<M>, msg: &MsgConnOpenTry) -> (r: Result<(), HandlerError>)
    ensures
        r == conn_open_try_check(*ctx_b, msg),
{
    if msg.client_id_on_b.index >= ctx_b.clients.len() as u64 {
        return Err(HandlerError::ClientNotFound);
    }
    if negotiate_version(&msg.versions_on_a, &ctx_b.supported_versions).is_none() {
        return Err(HandlerError::VersionMismatch);
    }
    if ctx_b.connections.len() as u64 >= u64::MAX {
        return Err(HandlerError::IdentifierOverflow);
    }
    let expected = ConnectionEnd {
        state: ConnState::Init,
        client_id: msg.client_id_on_a,
        counterparty_client_id: msg.client_id_on_b,
        counterparty_connection_id: None,
        versions: crate::types::copy_ids(&msg.versions_on_a),
        delay_period: msg.delay_period,
    };
    match ctx_b.clients[msg.client_id_on_b.index as usize].verify_connection(
        msg.proof_height_on_a,
        msg.proof_conn_end_on_a,
        msg.conn_id_on_a,
        &expected,
    ) {
        Ok(_) => Ok(()),
        Err(e) => Err(e),
    }
}

/// Executes a validated `ConnOpenTry`: a new connection end in TryOpen under
/// the next id, with A's connection as counterparty and the negotiated
/// version, and one `OpenTryConnection` event.
pub fn conn_open_try_execute<M: Module>(ctx_b: &mut Chain<M>, msg: &MsgConnOpenTry) -> (r: ConnectionId)
    requires
        old(ctx_b).wf(),
        conn_open_try_check(*old(ctx_b), msg) is Ok,
    ensures
        final(ctx_b).wf(),
        r.index == old(ctx_b).connections@.len(),
        conn_views(final(ctx_b).connections@) == conn_views(old(ctx_b).connections@).push(try_conn_view(*old(ctx_b), msg)),
        final(ctx_b).events@ == old(ctx_b).events@.push(
            IbcEvent::OpenTryConnection {
                connection_id: r,
                client_id: msg.client_id_on_b,
                counterparty_connection_id: msg.conn_id_on_a,
                counterparty_client_id: msg.client_id_on_a,
            },
        ),
        final(ctx_b).clients == old(ctx_b).clients,
        final(ctx_b).channels == old(ctx_b).channels,
        final(ctx_b).modules == old(ctx_b).modules,
        final(ctx_b).port_bindings == old(ctx_b).port_bindings,
        final(ctx_b).supported_versions == old(ctx_b).supported_versions,
        final(ctx_b).logs@ == old(ctx_b).logs@.push(final(ctx_b).logs@[old(ctx_b).logs@.len() as int]),
        final(ctx_b).logs@[old(ctx_b).logs@.len() as int]@ == "success: connection open try"@,
{
    let version = match negotiate_version(&msg.versions_on_a, &ctx_b.supported_versions) {
        Some(v) => v,
        None => Version::new(0),
    };
    let mut versions = Vec::new();
    versions.push(version);
    let id = ConnectionId::new(ctx_b.connections.len() as u64);
    let end = ConnectionEnd {
        state: ConnState::TryOpen,
        client_id: msg.client_id_on_b,
        counterparty_client_id: msg.client_id_on_a,
        counterparty_connection_id: Some(msg.conn_id_on_a),
        versions,
        delay_period: msg.delay_period,
    };
    proof {
        assert(end@ == try_conn_view(*old(ctx_b), msg)) by {
            assert(end.versions@ =~= seq![version]);
        }
    }
    ctx_b.connections.push(end);
    proof {
        assert(conn_views(ctx_b.connections@) =~= conn_views(old(ctx_b).connections@).push(try_conn_view(*old(ctx_b), msg)));
    }
    ctx_b.logs.push("success: connection open try".to_owned());
    ctx_b.events.push(
        IbcEvent::OpenTryConnection {
            connection_id: id,
            client_id: msg.client_id_on_b,
            counterparty_connection_id: msg.conn_id_on_a,
            counterparty_client_id: msg.client_id_on_a,
        },
    );
    id
}

/// What chain B's connection must hold for `ConnOpenAck` on A's `conn`.
pub open spec fn expected_try_on_b(conn: ConnectionView, msg: MsgConnOpenAck) -> ConnectionView {
    ConnectionView {
        state: ConnState::TryOpen,
        client_id: conn.counterparty_client_id,
        counterparty_client_id: conn.client_id,
        counterparty_connection_id: Some(msg.conn_id_on_a),
        versions: seq![msg.version],
        delay_period: conn.delay_period,
    }
}

/// The core conditions of `ConnOpenAck`: A's connection exists in Init, the
/// chosen version is one A proposed, its client exists, and the proof shows
/// B's connection in TryOpen with A's connection as counterparty.
pub open spec fn conn_open_ack_check<M: Module>(ctx: Chain<M>, msg: MsgConnOpenAck) -> Result<(), HandlerError> {
    match ctx.conn_at(msg.conn_id_on_a) {
        None => Err(HandlerError::ConnectionNotFound),
        Some(conn) => if conn.state != ConnState::Init {
            Err(HandlerError::ConnectionStateMismatch)
        } else if !conn.versions.contains(msg.version) {
            Err(HandlerError::VersionMismatch)
        } else if conn.client_id.index >= ctx.clients@.len() {
            Err(HandlerError::ClientNotFound)
        } else if !conn_verified(
            ctx.clients@[conn.client_id.index as int],
            msg.proof_height_on_b,
            msg.proof_conn_end_on_b,
            msg.conn_id_on_b,
            expected_try_on_b(conn, msg),
        ) {
            Err(HandlerError::ProofVerificationFailure)
        } else {
            Ok(())
        },
    }
}

/// Validates `ConnOpenAck` on chain A.
pub fn conn_open_ack_validate<M: Module>(ctx_a: &Chain<M>, msg: MsgConnOpenAck) -> (r: Result<(), HandlerError>)
    ensures
        r == conn_open_ack_check(*ctx_a, msg),
{
    let conn = match ctx_a.connection_end(msg.conn_id_on_a) {
        Ok(c) => c,
        Err(e) => {
            return Err(e);
        },
    };
    if conn.state != ConnState::Init {
        return Err(HandlerError::ConnectionStateMismatch);
    }
    if !contains_version(&conn.versions, msg.version) {
        return Err(HandlerError::VersionMismatch);
    }
    if conn.client_id.index >= ctx_a.clients.len() as u64 {
        return Err(HandlerError::ClientNotFound);
    }
    let mut versions = Vec::new();
    versions.push(msg.version);
    let expected = ConnectionEnd {
        state: ConnState::TryOpen,
        client_id: conn.counterparty_client_id,
        counterparty_client_id: conn.client_id,
        counterparty_connection_id: Some(msg.conn_id_on_a),
        versions,
        delay_period: conn.delay_period,
    };
    proof {
        assert(expected@ == expected_try_on_b(conn@, msg)) by {
            assert(expected.versions@ =~= seq![msg.version]);
        }
    }
    match ctx_a.clients[conn.client_id.index as usize].verify_connection(
        msg.proof_height_on_b,
        msg.proof_conn_end_on_b,
        msg.conn_id_on_b,
        &expected,
    ) {
        Ok(_) => Ok(()),
        Err(e) => Err(e),
    }
}

/// `conn` opened by `ConnOpenAck`.
pub open spec fn acked_conn_view(conn: ConnectionView, msg: MsgConnOpenAck) -> ConnectionView {
    ConnectionView {
        state: ConnState::Open,
        counterparty_connection_id: Some(msg.conn_id_on_b),
        versions: seq![msg.version],
        ..conn
    }
}

/// Executes a validated `ConnOpenAck`: A's connection becomes Open with B's
/// connection as counterparty and the chosen version, and one
/// `OpenAckConnection` event.
pub fn conn_open_ack_execute<M: Module>(ctx_a: &mut Chain<M>, msg: MsgConnOpenAck)
    requires
        old(ctx_a).wf(),
        conn_open_ack_check(*old(ctx_a), msg) is Ok,
    ensures
        final(ctx_a).wf(),
        conn_views(final(ctx_a).connections@) == conn_views(old(ctx_a).connections@).update(
            msg.conn_id_on_a.index as int,
            acked_conn_view(old(ctx_a).connections@[msg.conn_id_on_a.index as int]@, msg),
        ),
        final(ctx_a).events@ == old(ctx_a).events@.push(
            IbcEvent::OpenAckConnection { connection_id: msg.conn_id_on_a, counterparty_connection_id: msg.conn_id_on_b },
        ),
        final(ctx_a).clients == old(ctx_a).clients,
        final(ctx_a).channels == old(ctx_a).channels,
        final(ctx_a).modules == old(ctx_a).modules,
        final(ctx_a).port_bindings == old(ctx_a).port_bindings,
        final(ctx_a).supported_versions == old(ctx_a).supported_versions,
        final(ctx_a).logs@ == old(ctx_a).logs@.push(final(ctx_a).logs@[old(ctx_a).logs@.len() as int]),
        final(ctx_a).logs@[old(ctx_a).logs@.len() as int]@ == "success: connection open ack"@,
{
    let n = ctx_a.connections.len();
    proof {
        assert(msg.conn_id_on_a.index < n);
    }
    let i = msg.conn_id_on_a.index as usize;
    let mut versions = Vec::new();
    versions.push(msg.version);
    ctx_a.connections[i].state = ConnState::Open;
    ctx_a.connections[i].counterparty_connection_id = Some(msg.conn_id_on_b);
    ctx_a.connections[i].versions = versions;
    proof {
        assert(ctx_a.connections@[i as int].versions@ =~= seq![msg.version]);
        assert(conn_views(ctx_a.connections@) =~= conn_views(old(ctx_a).connections@).update(
            i as int,
            acked_conn_view(old(ctx_a).connections@[i as int]@, msg),
        ));
    }
    ctx_a.logs.push("success: connection open ack".to_owned());
    ctx_a.events.push(
        IbcEvent::OpenAckConnection { connection_id: msg.conn_id_on_a, counterparty_connection_id: msg.conn_id_on_b },
    );
}

/// What chain A's connection must hold for `ConnOpenConfirm` on B's `conn`.
pub open spec fn expected_open_on_a(conn: ConnectionView, msg: MsgConnOpenConfirm) -> ConnectionView {
    ConnectionView {
        state: ConnState::Open,
        client_id: conn.counterparty_client_id,
        counterparty_client_id: conn.client_id,
        counterparty_connection_id: Some(msg.conn_id_on_b),
        versions: conn.versions,
        delay_period: conn.delay_period,
    }
}

/// The core conditions of `ConnOpenConfirm`: B's connection exists in
/// TryOpen with a counterparty and an existing client, and the proof shows
/// A's connection Open with B's connection as counterparty.
pub open spec fn conn_open_confirm_check<M: Module>(ctx: Chain<M>, msg: MsgConnOpenConfirm) -> Result<(), HandlerError> {
    match ctx.conn_at(msg.conn_id_on_b) {
        None => Err(HandlerError::ConnectionNotFound),
        Some(conn) => if conn.state != ConnState::TryOpen {
            Err(HandlerError::ConnectionStateMismatch)
        } else if conn.client_id.index >= ctx.clients@.len() {
            Err(HandlerError::ClientNotFound)
        } else if conn.counterparty_connection_id is None {
            Err(HandlerError::InvalidCounterparty)
        } else if !conn_verified(
            ctx.clients@[conn.client_id.index as int],
            msg.proof_height_on_a,
            msg.proof_conn_end_on_a,
            conn.counterparty_connection_id->Some_0,
            expected_open_on_a(conn, msg),
        ) {
            Err(HandlerError::ProofVerificationFailure)
        } else {
            Ok(())
        },
    }
}

/// Validates `ConnOpenConfirm` on chain B.
pub fn conn_open_confirm_validate<M: Module>(ctx_b: &Chain<M>, msg: MsgConnOpenConfirm) -> (r: Result<(), HandlerError>)
    ensures
        r == conn_open_confirm_check(*ctx_b, msg),
{
    let conn = match ctx_b.connection_end(msg.conn_id_on_b) {
        Ok(c) => c,
        Err(e) => {
            return Err(e);
        },
    };
    if conn.state != ConnState::TryOpen {
        return Err(HandlerError::ConnectionStateMismatch);
    }
    if conn.client_id.index >= ctx_b.clients.len() as u64 {
        return Err(HandlerError::ClientNotFound);
    }
    let conn_a = match conn.counterparty_connection_id {
        Some(c) => c,
        None => {
            return Err(HandlerError::InvalidCounterparty);
        },
    };
    let expected = ConnectionEnd {
        state: ConnState::Open,
        client_id: conn.counterparty_client_id,
        counterparty_client_id: conn.client_id,
        counterparty_connection_id: Some(msg.conn_id_on_b),
        versions: crate::types::copy_ids(&conn.versions),
        delay_period: conn.delay_period,
    };
    match ctx_b.clients[conn.client_id.index as usize].verify_connection(
        msg.proof_height_on_a,
        msg.proof_conn_end_on_a,
        conn_a,
        &expected,
    ) {
        Ok(_) => Ok(()),
        Err(e) => Err(e),
    }
}

/// Executes a validated `ConnOpenConfirm`: B's connection becomes Open, and
/// one `OpenConfirmConnection` event.
pub fn conn_open_confirm_execute<M: Module>(ctx_b: &mut Chain<M>, msg: MsgConnOpenConfirm)
    requires
        old(ctx_b).wf(),
        conn_open_confirm_check(*old(ctx_b), msg) is Ok,
    ensures
        final(ctx_b).wf(),
        conn_views(final(ctx_b).connections@) == conn_views(old(ctx_b).connections@).update(
            msg.conn_id_on_b.index as int,
            ConnectionView { state: ConnState::Open, ..old(ctx_b).connections@[msg.conn_id_on_b.index as int]@ },
        ),
        final(ctx_b).events@ == old(ctx_b).events@.push(
            IbcEvent::OpenConfirmConnection {
                connection_id: msg.conn_id_on_b,
                counterparty_connection_id: old(ctx_b).connections@[msg.conn_id_on_b.index as int].counterparty_connection_id->Some_0,
            },
        ),
        final(ctx_b).clients == old(ctx_b).clients,
        final(ctx_b).channels == old(ctx_b).channels,
        final(ctx_b).modules == old(ctx_b).modules,
        final(ctx_b).port_bindings == old(ctx_b).port_bindings,
        final(ctx_b).supported_versions == old(ctx_b).supported_versions,
        final(ctx_b).logs@ == old(ctx_b).logs@.push(final(ctx_b).logs@[old(ctx_b).logs@.len() as int]),
        final(ctx_b).logs@[old(ctx_b).logs@.len() as int]@ == "success: connection open confirm"@,
{
    let n = ctx_b.connections.len();
    proof {
        assert(msg.conn_id_on_b.index < n);
    }
    let i = msg.conn_id_on_b.index as usize;
    let conn_a = match ctx_b.connections[i].counterparty_connection_id {
        Some(c) => c,
        None => ConnectionId::new(0),
    };
    ctx_b.connections[i].state = ConnState::Open;
    proof {
        assert(conn_views(ctx_b.connections@) =~= conn_views(old(ctx_b).connections@).update(
            i as int,
            ConnectionView { state: ConnState::Open, ..old(ctx_b).connections@[i as int]@ },
        ));
    }
    ctx_b.logs.push("success: connection open confirm".to_owned());
    ctx_b.events.push(
        IbcEvent::OpenConfirmConnection { connection_id: msg.conn_id_on_b, counterparty_connection_id: conn_a },
    );
}

/// Replaying an executed `ConnOpenAck` fails at validation: the connection
/// is no longer in Init.
pub proof fn lemma_conn_open_ack_replay_rejected<M: Module>(before: Chain<M>, after: Chain<M>, msg: MsgConnOpenAck)
    requires
        conn_open_ack_check(before, msg) is Ok,
        conn_views(after.connections@) == conn_views(before.connections@).update(
            msg.conn_id_on_a.index as int,
            acked_conn_view(before.connections@[msg.conn_id_on_a.index as int]@, msg),
        ),
    ensures
        conn_open_ack_check(after, msg) == Err::<(), HandlerError>(HandlerError::ConnectionStateMismatch),
{
    let i = msg.conn_id_on_a.index as int;
    assert(conn_views(before.connections@).len() == before.connections@.len());
    assert(conn_views(after.connections@).len() == after.connections@.len());
    assert(i < after.connections@.len());
    assert(conn_views(after.connections@)[i] == after.connections@[i]@);
}

/// Replaying an executed `ConnOpenConfirm` fails at validation: the
/// connection is no longer in TryOpen.
pub proof fn lemma_conn_open_confirm_replay_rejected<M: Module>(before: Chain<M>, after: Chain<M>, msg: MsgConnOpenConfirm)
    requires
        conn_open_confirm_check(before, msg) is Ok,
        conn_views(after.connections@) == conn_views(before.connections@).update(
            msg.conn_id_on_b.index as int,
            ConnectionView { state: ConnState::Open, ..before.connections@[msg.conn_id_on_b.index as int]@ },
        ),
    ensures
        conn_open_confirm_check(after, msg) == Err::<(), HandlerError>(HandlerError::ConnectionStateMismatch),
{
    let i = msg.conn_id_on_b.index as int;
    assert(conn_views(before.connections@).len() == before.connections@.len());
    assert(conn_views(after.connections@).len() == after.connections@.len());
    assert(i < after.connections@.len());
    assert(conn_views(after.connections@)[i] == after.connections@[i]@);
}

} // verus!

use vstd::prelude::*;
use crate::client::{CommitmentProof, chan_committed, chan_verified, proof_matches};
use crate::context::{Chain, ChanStep, CloseConfirm, IbcEvent, Module, ModuleEvent, app_events, chan_views, module_ids, open_conn_check};
use crate::types::{Ordering, ConnectionEnd, ConnectionView, Version, ModuleId, ConnectionId, ChanCounterparty, ChanState, ChannelEnd, ChannelId, ChannelView, HandlerError, Height, PortId};

verus! {

/// Confirms on chain B that the counterparty end on chain A was closed.
#[derive(Clone, Copy, Debug, PartialEq, Eq, Structural)]
pub struct MsgChannelCloseConfirm {
    pub port_id_on_b: PortId,
    pub chan_id_on_b: ChannelId,
    pub proof_chan_end_on_a: CommitmentProof,
    pub proof_height_on_a: Height,
}

/// `chan` with its state set to `state`.
pub open spec fn with_state(chan: ChannelView, state: ChanState) -> ChannelView {
    ChannelView { state, ..chan }
}

/// What chain A's end must hold once closed, as chain B's end `chan` at
/// (`port_b`, `chan_b`) with counterparty connection `conn_a` expects it.
pub open spec fn expected_closed_on_a(
    chan: ChannelView,
    port_b: PortId,
    chan_b: ChannelId,
    conn_a: ConnectionId,
) -> ChannelView {
    ChannelView {
        state: ChanState::Closed,
        ordering: chan.ordering,
        counterparty: ChanCounterparty { port_id: port_b, channel_id: Some(chan_b) },
        connection_hops: seq![conn_a],
        version: chan.version,
    }
}

/// The core conditions of a close confirmation, with the first that fails:
/// the channel end exists and is not closed, its first hop is an open
/// connection with a client and a counterparty, the end knows its
/// counterparty channel, and the proof shows that channel closed.
pub open spec fn close_confirm_check<M: Module>(ctx: Chain<M>, msg: MsgChannelCloseConfirm) -> Result<(), HandlerError> {
    match ctx.chan_at(msg.port_id_on_b, msg.chan_id_on_b) {
        None => Err(HandlerError::ChannelNotFound),
        Some(chan) => if chan.state == ChanState::Closed {
            Err(HandlerError::ChannelClosed)
        } else {
            match open_conn_check(ctx, chan.connection_hops[0]) {
                Err(e) => Err(e),
                Ok(conn) => match chan.counterparty.channel_id {
                    None => Err(HandlerError::InvalidCounterparty),
                    Some(chan_a) => if chan_verified(
                        ctx.clients@[conn.client_id.index as int],
                        msg.proof_height_on_a,
                        msg.proof_chan_end_on_a,
                        chan.counterparty.port_id,
                        chan_a,
                        expected_closed_on_a(
                            chan,
                            msg.port_id_on_b,
                            msg.chan_id_on_b,
                            conn.counterparty_connection_id->Some_0,
                        ),
                    ) {
                        Ok(())
                    } else {
                        Err(HandlerError::ProofVerificationFailure)
                    },
                },
            }
        },
    }
}

/// Checks the core conditions of a close confirmation; see `close_confirm_check`.
pub fn close_confirm_core<M: Module>(ctx_b: &Chain<M>, msg: MsgChannelCloseConfirm) -> (r: Result<(), HandlerError>)
    requires
        ctx_b.wf(),
    ensures
        r == close_confirm_check(*ctx_b, msg),
{
    let chan = match ctx_b.channel_end(msg.port_id_on_b, msg.chan_id_on_b) {
        Ok(c) => c,
        Err(e) => {
            return Err(e);
        },
    };
    if chan.state == ChanState::Closed {
        return Err(HandlerError::ChannelClosed);
    }
    proof {
        assert(ctx_b.channels@[msg.chan_id_on_b.index as int].1.connection_hops@.len() > 0);
    }
    let conn = match ctx_b.open_connection(chan.connection_hops[0]) {
        Ok(c) => c,
        Err(e) => {
            return Err(e);
        },
    };
    let n_clients = ctx_b.clients.len();
    let chan_a = match chan.counterparty.channel_id {
        None => {
            return Err(HandlerError::InvalidCounterparty);
        },
        Some(c) => c,
    };
    let conn_a = match conn.counterparty_connection_id {
        Some(c) => c,
        None => {
            return Err(HandlerError::InvalidCounterparty);
        },
    };
    let mut hops = Vec::new();
    hops.push(conn_a);
    let expected = ChannelEnd {
        state: ChanState::Closed,
        ordering: chan.ordering,
        counterparty: ChanCounterparty { port_id: msg.port_id_on_b, channel_id: Some(msg.chan_id_on_b) },
        connection_hops: hops,
        version: chan.version,
    };
    proof {
        assert(conn.client_id.index < n_clients);
        assert(expected@.connection_hops =~= seq![conn_a]);
        assert(expected@ == expected_closed_on_a(chan@, msg.port_id_on_b, msg.chan_id_on_b, conn_a));
    }
    match ctx_b.clients[conn.client_id.index as usize].verify_channel(
        msg.proof_height_on_a,
        msg.proof_chan_end_on_a,
        chan.counterparty.port_id,
        chan_a,
        &expected,
    ) {
        Ok(_) => Ok(()),
        Err(e) => Err(e),
    }
}

/// Validates a close confirmation on chain B: the core conditions, then the
/// routed module's own check. Reads the chain only.
pub fn chan_close_confirm_validate<M: Module>(
    ctx_b: &Chain<M>,
    module_id: ModuleId,
    msg: MsgChannelCloseConfirm,
) -> (r: Result<(), HandlerError>)
    requires
        ctx_b.wf(),
    ensures
        close_confirm_check(*ctx_b, msg) is Err ==> r == close_confirm_check(*ctx_b, msg),
        close_confirm_check(*ctx_b, msg) is Ok && !ctx_b.has_route(module_id) ==> r
            == Err::<(), HandlerError>(HandlerError::RouteNotFound),
        r is Ok ==> close_confirm_check(*ctx_b, msg) is Ok && ctx_b.has_route(module_id),
        close_confirm_check(*ctx_b, msg) is Ok && ctx_b.has_route(module_id) ==> r is Ok || r->Err_0 is Module,
{
    match close_confirm_core(ctx_b, msg) {
        Ok(_) => {},
        Err(e) => {
            return Err(e);
        },
    }
    ctx_b.run_module_validate(module_id, ChanStep::CloseConfirm, msg.port_id_on_b, msg.chan_id_on_b, Version::new(0))
}

/// Executes a validated close confirmation on chain B: the channel end is
/// stored as closed, one `CloseConfirmChannel` event names both ends and the
/// first connection hop, then the module's execute callback runs and its
/// extras are emitted. A module failure is reported after the core's write,
/// which stays.
pub fn chan_close_confirm_execute<M: Module>(
    ctx_b: &mut Chain<M>,
    module_id: ModuleId,
    msg: MsgChannelCloseConfirm,
) -> (r: Result<(), HandlerError>)
    requires
        old(ctx_b).wf(),
        close_confirm_check(*old(ctx_b), msg) is Ok,
        old(ctx_b).has_route(module_id),
    ensures
        chan_exec_frame(*old(ctx_b), *final(ctx_b)),
        chan_exec_emits(*old(ctx_b), *final(ctx_b), "success: channel close confirm"@, r is Ok),
        ({
            let i = msg.chan_id_on_b.index as int;
            let old_chan = old(ctx_b).channels@[i].1@;
            &&& chan_views(final(ctx_b).channels@) == chan_views(old(ctx_b).channels@).update(
                i,
                (msg.port_id_on_b, with_state(old_chan, ChanState::Closed)),
            )
            &&& final(ctx_b).events@[old(ctx_b).events@.len() as int] == IbcEvent::CloseConfirmChannel(
                CloseConfirm {
                    port_id_on_b: msg.port_id_on_b,
                    chan_id_on_b: msg.chan_id_on_b,
                    port_id_on_a: old_chan.counterparty.port_id,
                    chan_id_on_a: old_chan.counterparty.channel_id->Some_0,
                    conn_id_on_b: old_chan.connection_hops[0],
                },
            )
        }),
        r is Err ==> r->Err_0 is ModuleExecute,
{
    let n_channels = ctx_b.channels.len();
    proof {
        assert(ctx_b.chan_at(msg.port_id_on_b, msg.chan_id_on_b) is Some);
        assert(msg.chan_id_on_b.index < n_channels);
    }
    let i = msg.chan_id_on_b.index as usize;
    let port_id_on_a = ctx_b.channels[i].1.counterparty.port_id;
    let chan_id_on_a = match ctx_b.channels[i].1.counterparty.channel_id {
        Some(c) => c,
        None => ChannelId::new(0),
    };
    let conn_id_on_b = ctx_b.channels[i].1.connection_hops[0];
    set_channel_state(ctx_b, i, ChanState::Closed);
    ctx_b.logs.push("success: channel close confirm".to_owned());
    ctx_b.events.push(
        IbcEvent::CloseConfirmChannel(
            CloseConfirm::new(msg.port_id_on_b, msg.chan_id_on_b, port_id_on_a, chan_id_on_a, conn_id_on_b),
        ),
    );
    let ghost mid = *ctx_b;
    let r = ctx_b.run_module_execute(module_id, ChanStep::CloseConfirm, msg.port_id_on_b, msg.chan_id_on_b, Version::new(0));
    proof {
        lemma_chan_exec_emits(*old(ctx_b), mid, *ctx_b, mid.logs@[old(ctx_b).logs@.len() as int]@, r is Ok);
    }
    r
}

/// The next channel id of `ctx` still fits its counter.
pub open spec fn chan_counter_free<M: Module>(ctx: Chain<M>) -> bool {
    ctx.channels@.len() < u64::MAX
}

/// Facts every channel execution keeps: the chain stays well formed,
/// connections, clients and port bindings stay, and the modules keep their
/// ids.
pub open spec fn chan_exec_frame<M: Module>(old_ctx: Chain<M>, new_ctx: Chain<M>) -> bool {
    &&& new_ctx.wf()
    &&& new_ctx.connections == old_ctx.connections
    &&& new_ctx.clients == old_ctx.clients
    &&& new_ctx.port_bindings == old_ctx.port_bindings
    &&& module_ids(new_ctx.modules@) == module_ids(old_ctx.modules@)
}

/// What a channel execution emits: one core event and the log line `line`,
/// then, where the module's execute callback succeeded (`ok`), the module's
/// events as `AppModule`, in order, and its log lines; otherwise nothing more.
pub open spec fn chan_exec_emits<M: Module>(old_ctx: Chain<M>, new_ctx: Chain<M>, line: Seq<char>, ok: bool) -> bool {
    let e = old_ctx.events@.len();
    let n = old_ctx.logs@.len();
    &&& new_ctx.events@.len() > e
    &&& new_ctx.logs@.len() > n
    &&& new_ctx.logs@[n as int]@ == line
    &&& ok ==> exists|evs: Seq<ModuleEvent>, lines: Seq<String>|
        new_ctx.events@ == old_ctx.events@.push(new_ctx.events@[e as int]) + app_events(evs) && new_ctx.logs@
            == old_ctx.logs@.push(new_ctx.logs@[n as int]) + lines
    &&& !ok ==> new_ctx.events@ == old_ctx.events@.push(new_ctx.events@[e as int]) && new_ctx.logs@ == old_ctx.logs@.push(
        new_ctx.logs@[n as int],
    )
}

/// A core event and log line, then what the module side emitted, make up a
/// channel execution's emissions.
proof fn lemma_chan_exec_emits<M: Module>(o: Chain<M>, m: Chain<M>, n: Chain<M>, line: Seq<char>, ok: bool)
    requires
        m.events@ == o.events@.push(m.events@[o.events@.len() as int]),
        m.logs@ == o.logs@.push(m.logs@[o.logs@.len() as int]),
        m.logs@[o.logs@.len() as int]@ == line,
        ok ==> exists|evs: Seq<ModuleEvent>, lines: Seq<String>|
            n.events@ == m.events@ + app_events(evs) && n.logs@ == m.logs@ + lines,
        !ok ==> n.events == m.events && n.logs == m.logs,
    ensures
        chan_exec_emits(o, n, line, ok),
{
    let e = o.events@.len() as int;
    let k = o.logs@.len() as int;
    if ok {
        let (evs, lines) = choose|evs: Seq<ModuleEvent>, lines: Seq<String>|
            n.events@ == m.events@ + app_events(evs) && n.logs@ == m.logs@ + lines;
        assert(n.events@[e] == m.events@[e]);
        assert(n.logs@[k] == m.logs@[k]);
        assert(n.events@ == o.events@.push(n.events@[e]) + app_events(evs));
        assert(n.logs@ == o.logs@.push(n.logs@[k]) + lines);
    }
}

/// Opens a channel on chain A from `port_id_on_a` towards `port_id_on_b`.
#[derive(Debug)]
pub struct MsgChannelOpenInit {
    pub port_id_on_a: PortId,
    pub connection_hops_on_a: Vec<ConnectionId>,
    pub port_id_on_b: PortId,
    pub ordering: Ordering,
    pub version: Version,
}

/// The core conditions of `ChanOpenInit`: exactly one connection hop, which
/// exists, and a fresh channel id.
pub open spec fn chan_open_init_check<M: Module>(ctx: Chain<M>, msg: &MsgChannelOpenInit) -> Result<(), HandlerError> {
    if msg.connection_hops_on_a@.len() != 1 {
        Err(HandlerError::InvalidConnectionHops)
    } else if ctx.conn_at(msg.connection_hops_on_a@[0]) is None {
        Err(HandlerError::ConnectionNotFound)
    } else if !chan_counter_free(ctx) {
        Err(HandlerError::IdentifierOverflow)
    } else {
        Ok(())
    }
}

/// The channel end that `ChanOpenInit` creates.
pub open spec fn init_chan_view(msg: &MsgChannelOpenInit) -> ChannelView {
    ChannelView {
        state: ChanState::Init,
        ordering: msg.ordering,
        counterparty: ChanCounterparty { port_id: msg.port_id_on_b, channel_id: None },
        connection_hops: msg.connection_hops_on_a@,
        version: msg.version,
    }
}

/// Checks the core conditions of `ChanOpenInit`; see `chan_open_init_check`.
pub fn chan_open_init_core<M: Module>(ctx_a: &Chain<M>, msg: &MsgChannelOpenInit) -> (r: Result<(), HandlerError>)
    ensures
        r == chan_open_init_check(*ctx_a, msg),
{
    if msg.connection_hops_on_a.len() != 1 {
        return Err(HandlerError::InvalidConnectionHops);
    }
    match ctx_a.connection_end(msg.connection_hops_on_a[0]) {
        Ok(_) => {},
        Err(e) => {
            return Err(e);
        },
    }
    if ctx_a.channels.len() as u64 >= u64::MAX {
        return Err(HandlerError::IdentifierOverflow);
    }
    Ok(())
}

/// Validates `ChanOpenInit` on chain A: the core conditions, then the routed
/// module's check of the channel about to be created.
pub fn chan_open_init_validate<M: Module>(ctx_a: &Chain<M>, module_id: ModuleId, msg: &MsgChannelOpenInit) -> (r: Result<(), HandlerError>)
    ensures
        chan_open_init_check(*ctx_a, msg) is Err ==> r == chan_open_init_check(*ctx_a, msg),
        chan_open_init_check(*ctx_a, msg) is Ok && !ctx_a.has_route(module_id) ==> r
            == Err::<(), HandlerError>(HandlerError::RouteNotFound),
        r is Ok ==> chan_open_init_check(*ctx_a, msg) is Ok && ctx_a.has_route(module_id),
        chan_open_init_check(*ctx_a, msg) is Ok && ctx_a.has_route(module_id) ==> r is Ok || r->Err_0 is Module,
{
    match chan_open_init_core(ctx_a, msg) {
        Ok(_) => {},
        Err(e) => {
            return Err(e);
        },
    }
    let chan_id = ChannelId::new(ctx_a.channels.len() as u64);
    ctx_a.run_module_validate(module_id, ChanStep::OpenInit, msg.port_id_on_a, chan_id, msg.version)
}

/// Executes a validated `ChanOpenInit`: a new channel end in Init under the
/// next id, one `OpenInitChannel` event, then the module's callback.
pub fn chan_open_init_execute<M: Module>(ctx_a: &mut Chain<M>, module_id: ModuleId, msg: &MsgChannelOpenInit) -> (r: Result<ChannelId, HandlerError>)
    requires
        old(ctx_a).wf(),
        chan_open_init_check(*old(ctx_a), msg) is Ok,
        old(ctx_a).has_route(module_id),
    ensures
        chan_exec_frame(*old(ctx_a), *final(ctx_a)),
        chan_exec_emits(*old(ctx_a), *final(ctx_a), "success: channel open init"@, r is Ok),
        chan_views(final(ctx_a).channels@) == chan_views(old(ctx_a).channels@).push((msg.port_id_on_a, init_chan_view(msg))),
        final(ctx_a).events@[old(ctx_a).events@.len() as int] == (IbcEvent::OpenInitChannel {
            port_id: msg.port_id_on_a,
            channel_id: ChannelId { index: old(ctx_a).channels@.len() as u64 },
            connection_id: msg.connection_hops_on_a@[0],
        }),
        r is Ok ==> r->Ok_0.index == old(ctx_a).channels@.len(),
        r is Err ==> r->Err_0 is ModuleExecute,
{
    let chan_id = ChannelId::new(ctx_a.channels.len() as u64);
    let conn_id = msg.connection_hops_on_a[0];
    let end = ChannelEnd {
        state: ChanState::Init,
        ordering: msg.ordering,
        counterparty: ChanCounterparty { port_id: msg.port_id_on_b, channel_id: None },
        connection_hops: crate::types::copy_ids(&msg.connection_hops_on_a),
        version: msg.version,
    };
    ctx_a.channels.push((msg.port_id_on_a, end));
    proof {
        assert(chan_views(ctx_a.channels@) =~= chan_views(old(ctx_a).channels@).push((msg.port_id_on_a, init_chan_view(msg))));
        assert forall|j: int| 0 <= j < ctx_a.channels@.len() implies (#[trigger] ctx_a.channels@[j]).1.connection_hops@.len() > 0 by {
            if j < old(ctx_a).channels@.len() {
                assert(ctx_a.channels@[j] == old(ctx_a).channels@[j]);
            }
        }
    }
    ctx_a.logs.push("success: channel open init".to_owned());
    ctx_a.events.push(IbcEvent::OpenInitChannel { port_id: msg.port_id_on_a, channel_id: chan_id, connection_id: conn_id });
    match ctx_a.run_module_execute(module_id, ChanStep::OpenInit, msg.port_id_on_a, chan_id, msg.version) {
        Ok(_) => Ok(chan_id),
        Err(e) => Err(e),
    }
}

/// Answers on chain B a channel that chain A initialised.
#[derive(Debug)]
pub struct MsgChannelOpenTry {
    pub port_id_on_b: PortId,
    pub connection_hops_on_b: Vec<ConnectionId>,
    pub port_id_on_a: PortId,
    pub chan_id_on_a: ChannelId,
    pub ordering: Ordering,
    pub version: Version,
    pub proof_chan_end_on_a: CommitmentProof,
    pub proof_height_on_a: Height,
}

/// What chain A's end must hold for `ChanOpenTry` over connection `conn`.
pub open spec fn expected_init_chan_on_a(conn: ConnectionView, msg: &MsgChannelOpenTry) -> ChannelView {
    ChannelView {
        state: ChanState::Init,
        ordering: msg.ordering,
        counterparty: ChanCounterparty { port_id: msg.port_id_on_b, channel_id: None },
        connection_hops: seq![conn.counterparty_connection_id->Some_0],
        version: msg.version,
    }
}

/// The core conditions of `ChanOpenTry`: exactly one hop, an open connection
/// with a client and counterparty, a fresh id, and a proof of A's end in Init.
pub open spec fn chan_open_try_check<M: Module>(ctx: Chain<M>, msg: &MsgChannelOpenTry) -> Result<(), HandlerError> {
    if msg.connection_hops_on_b@.len() != 1 {
        Err(HandlerError::InvalidConnectionHops)
    } else {
        match open_conn_check(ctx, msg.connection_hops_on_b@[0]) {
            Err(e) => Err(e),
            Ok(conn) => if !chan_counter_free(ctx) {
                Err(HandlerError::IdentifierOverflow)
            } else if !chan_verified(
                ctx.clients@[conn.client_id.index as int],
                msg.proof_height_on_a,
                msg.proof_chan_end_on_a,
                msg.port_id_on_a,
                msg.chan_id_on_a,
                expected_init_chan_on_a(conn, msg),
            ) {
                Err(HandlerError::ProofVerificationFailure)
            } else {
                Ok(())
            },
        }
    }
}

/// The channel end that `ChanOpenTry` creates.
pub open spec fn try_chan_view(msg: &MsgChannelOpenTry) -> ChannelView {
    ChannelView {
        state: ChanState::TryOpen,
        ordering: msg.ordering,
        counterparty: ChanCounterparty { port_id: msg.port_id_on_a, channel_id: Some(msg.chan_id_on_a) },
        connection_hops: msg.connection_hops_on_b@,
        version: msg.version,
    }
}

/// Checks the core conditions of `ChanOpenTry`; see `chan_open_try_check`.
pub fn chan_open_try_core<M: Module>(ctx_b: &Chain<M>, msg: &MsgChannelOpenTry) -> (r: Result<(), HandlerError>)
    ensures
        r == chan_open_try_check(*ctx_b, msg),
{
    if msg.connection_hops_on_b.len() != 1 {
        return Err(HandlerError::InvalidConnectionHops);
    }
    let conn = match ctx_b.open_connection(msg.connection_hops_on_b[0]) {
        Ok(c) => c,
        Err(e) => {
            return Err(e);
        },
    };
    if ctx_b.channels.len() as u64 >= u64::MAX {
        return Err(HandlerError::IdentifierOverflow);
    }
    let n_clients = ctx_b.clients.len();
    let conn_a = match conn.counterparty_connection_id {
        Some(c) => c,
        None => {
            return Err(HandlerError::InvalidCounterparty);
        },
    };
    let mut hops = Vec::new();
    hops.push(conn_a);
    let expected = ChannelEnd {
        state: ChanState::Init,
        ordering: msg.ordering,
        counterparty: ChanCounterparty { port_id: msg.port_id_on_b, channel_id: None },
        connection_hops: hops,
        version: msg.version,
    };
    proof {
        assert(conn.client_id.index < n_clients);
        assert(expected@.connection_hops =~= seq![conn_a]);
        assert(expected@ == expected_init_chan_on_a(conn@, msg));
    }
    match ctx_b.clients[conn.client_id.index as usize].verify_channel(
        msg.proof_height_on_a,
        msg.proof_chan_end_on_a,
        msg.port_id_on_a,
        msg.chan_id_on_a,
        &expected,
    ) {
        Ok(_) => Ok(()),
        Err(e) => Err(e),
    }
}

/// Validates `ChanOpenTry` on chain B: the core conditions, then the routed
/// module's check of the channel about to be created.
pub fn chan_open_try_validate<M: Module>(ctx_b: &Chain<M>, module_id: ModuleId, msg: &MsgChannelOpenTry) -> (r: Result<(), HandlerError>)
    requires
        ctx_b.wf(),
    ensures
        chan_open_try_check(*ctx_b, msg) is Err ==> r == chan_open_try_check(*ctx_b, msg),
        chan_open_try_check(*ctx_b, msg) is Ok && !ctx_b.has_route(module_id) ==> r
            == Err::<(), HandlerError>(HandlerError::RouteNotFound),
        r is Ok ==> chan_open_try_check(*ctx_b, msg) is Ok && ctx_b.has_route(module_id),
        chan_open_try_check(*ctx_b, msg) is Ok && ctx_b.has_route(module_id) ==> r is Ok || r->Err_0 is Module,
{
    match chan_open_try_core(ctx_b, msg) {
        Ok(_) => {},
        Err(e) => {
            return Err(e);
        },
    }
    let chan_id = ChannelId::new(ctx_b.channels.len() as u64);
    ctx_b.run_module_validate(module_id, ChanStep::OpenTry, msg.port_id_on_b, chan_id, msg.version)
}

/// Executes a validated `ChanOpenTry`: a new channel end in TryOpen under the
/// next id with A's end as counterparty, one `OpenTryChannel` event, then the
/// module's callback.
pub fn chan_open_try_execute<M: Module>(ctx_b: &mut Chain<M>, module_id: ModuleId, msg: &MsgChannelOpenTry) -> (r: Result<ChannelId, HandlerError>)
    requires
        old(ctx_b).wf(),
        chan_open_try_check(*old(ctx_b), msg) is Ok,
        old(ctx_b).has_route(module_id),
    ensures
        chan_exec_frame(*old(ctx_b), *final(ctx_b)),
        chan_exec_emits(*old(ctx_b), *final(ctx_b), "success: channel open try"@, r is Ok),
        chan_views(final(ctx_b).channels@) == chan_views(old(ctx_b).channels@).push((msg.port_id_on_b, try_chan_view(msg))),
        final(ctx_b).events@[old(ctx_b).events@.len() as int] == (IbcEvent::OpenTryChannel {
            port_id: msg.port_id_on_b,
            channel_id: ChannelId { index: old(ctx_b).channels@.len() as u64 },
            counterparty_port_id: msg.port_id_on_a,
            counterparty_channel_id: msg.chan_id_on_a,
            connection_id: msg.connection_hops_on_b@[0],
        }),
        r is Ok ==> r->Ok_0.index == old(ctx_b).channels@.len(),
        r is Err ==> r->Err_0 is ModuleExecute,
{
    let chan_id = ChannelId::new(ctx_b.channels.len() as u64);
    let conn_id = msg.connection_hops_on_b[0];
    let end = ChannelEnd {
        state: ChanState::TryOpen,
        ordering: msg.ordering,
        counterparty: ChanCounterparty { port_id: msg.port_id_on_a, channel_id: Some(msg.chan_id_on_a) },
        connection_hops: crate::types::copy_ids(&msg.connection_hops_on_b),
        version: msg.version,
    };
    ctx_b.channels.push((msg.port_id_on_b, end));
    proof {
        assert(chan_views(ctx_b.channels@) =~= chan_views(old(ctx_b).channels@).push((msg.port_id_on_b, try_chan_view(msg))));
        assert forall|j: int| 0 <= j < ctx_b.channels@.len() implies (#[trigger] ctx_b.channels@[j]).1.connection_hops@.len() > 0 by {
            if j < old(ctx_b).channels@.len() {
                assert(ctx_b.channels@[j] == old(ctx_b).channels@[j]);
            }
        }
    }
    ctx_b.logs.push("success: channel open try".to_owned());
    ctx_b.events.push(
        IbcEvent::OpenTryChannel {
            port_id: msg.port_id_on_b,
            channel_id: chan_id,
            counterparty_port_id: msg.port_id_on_a,
            counterparty_channel_id: msg.chan_id_on_a,
            connection_id: conn_id,
        },
    );
    match ctx_b.run_module_execute(module_id, ChanStep::OpenTry, msg.port_id_on_b, chan_id, msg.version) {
        Ok(_) => Ok(chan_id),
        Err(e) => Err(e),
    }
}

/// The channel end under (`port`, `chan`) as a step on an existing end needs
/// it: present, not closed, in state `required`, over an open connection.
pub open spec fn existing_chan_check<M: Module>(
    ctx: Chain<M>,
    port: PortId,
    chan: ChannelId,
    required: ChanState,
) -> Result<(ChannelView, ConnectionView), HandlerError> {
    match ctx.chan_at(port, chan) {
        None => Err(HandlerError::ChannelNotFound),
        Some(end) => if end.state == ChanState::Closed {
            Err(HandlerError::ChannelClosed)
        } else if end.state != required {
            Err(HandlerError::ChannelStateMismatch)
        } else {
            match open_conn_check(ctx, end.connection_hops[0]) {
                Err(e) => Err(e),
                Ok(conn) => Ok((end, conn)),
            }
        },
    }
}

/// Fetches the channel end and its connection for a step on an existing end;
/// see `existing_chan_check`.
fn existing_channel<M: Module>(ctx: &Chain<M>, port: PortId, chan: ChannelId, required: ChanState) -> (r: Result<(ChannelEnd, ConnectionEnd), HandlerError>)
    requires
        ctx.wf(),
    ensures
        match existing_chan_check(*ctx, port, chan, required) {
            Ok((e, c)) => r is Ok && r->Ok_0.0@ == e && r->Ok_0.1@ == c,
            Err(x) => r == Err::<(ChannelEnd, ConnectionEnd), HandlerError>(x),
        },
{
    let end = match ctx.channel_end(port, chan) {
        Ok(e) => e,
        Err(x) => {
            return Err(x);
        },
    };
    if end.state == ChanState::Closed {
        return Err(HandlerError::ChannelClosed);
    }
    if end.state != required {
        return Err(HandlerError::ChannelStateMismatch);
    }
    proof {
        assert(ctx.channels@[chan.index as int].1.connection_hops@.len() > 0);
    }
    match ctx.open_connection(end.connection_hops[0]) {
        Ok(conn) => Ok((end, conn)),
        Err(x) => Err(x),
    }
}

/// Stores `state` as the state of the channel end at position `i`, keeping
/// everything else.
fn set_channel_state<M: Module>(ctx: &mut Chain<M>, i: usize, state: ChanState)
    requires
        old(ctx).wf(),
        i < old(ctx).channels@.len(),
    ensures
        final(ctx).wf(),
        chan_views(final(ctx).channels@) == chan_views(old(ctx).channels@).update(
            i as int,
            (old(ctx).channels@[i as int].0, with_state(old(ctx).channels@[i as int].1@, state)),
        ),
        final(ctx).channels@[i as int].1.connection_hops == old(ctx).channels@[i as int].1.connection_hops,
        final(ctx).events == old(ctx).events,
        final(ctx).logs == old(ctx).logs,
        final(ctx).connections == old(ctx).connections,
        final(ctx).clients == old(ctx).clients,
        final(ctx).port_bindings == old(ctx).port_bindings,
        final(ctx).modules == old(ctx).modules,
        final(ctx).supported_versions == old(ctx).supported_versions,
{
    ctx.channels[i].1.state = state;
    proof {
        assert(chan_views(ctx.channels@) =~= chan_views(old(ctx).channels@).update(
            i as int,
            (old(ctx).channels@[i as int].0, with_state(old(ctx).channels@[i as int].1@, state)),
        ));
        assert forall|j: int| 0 <= j < ctx.channels@.len() implies (#[trigger] ctx.channels@[j]).1.connection_hops@.len() > 0 by {
            if j != i {
                assert(ctx.channels@[j] == old(ctx).channels@[j]);
            }
        }
    }
}

/// Acknowledges on chain A that chain B's end is in TryOpen.
#[derive(Clone, Copy, Debug, PartialEq, Eq, Structural)]
pub struct MsgChannelOpenAck {
    pub port_id_on_a: PortId,
    pub chan_id_on_a: ChannelId,
    pub chan_id_on_b: ChannelId,
    pub version_on_b: Version,
    pub proof_chan_end_on_b: CommitmentProof,
    pub proof_height_on_b: Height,
}

/// What chain B's end must hold for `ChanOpenAck` on A's `end` over `conn`.
pub open spec fn expected_try_chan_on_b(end: ChannelView, conn: ConnectionView, msg: MsgChannelOpenAck) -> ChannelView {
    ChannelView {
        state: ChanState::TryOpen,
        ordering: end.ordering,
        counterparty: ChanCounterparty { port_id: msg.port_id_on_a, channel_id: Some(msg.chan_id_on_a) },
        connection_hops: seq![conn.counterparty_connection_id->Some_0],
        version: msg.version_on_b,
    }
}

/// The core conditions of `ChanOpenAck`: A's end in Init over an open
/// connection, and a proof of B's end in TryOpen naming A's end.
pub open spec fn chan_open_ack_check<M: Module>(ctx: Chain<M>, msg: MsgChannelOpenAck) -> Result<(), HandlerError> {
    match existing_chan_check(ctx, msg.port_id_on_a, msg.chan_id_on_a, ChanState::Init) {
        Err(e) => Err(e),
        Ok((end, conn)) => if !chan_verified(
            ctx.clients@[conn.client_id.index as int],
            msg.proof_height_on_b,
            msg.proof_chan_end_on_b,
            end.counterparty.port_id,
            msg.chan_id_on_b,
            expected_try_chan_on_b(end, conn, msg),
        ) {
            Err(HandlerError::ProofVerificationFailure)
        } else {
            Ok(())
        },
    }
}

/// Checks the core conditions of `ChanOpenAck`; see `chan_open_ack_check`.
pub fn chan_open_ack_core<M: Module>(ctx_a: &Chain<M>, msg: MsgChannelOpenAck) -> (r: Result<(), HandlerError>)
    requires
        ctx_a.wf(),
    ensures
        r == chan_open_ack_check(*ctx_a, msg),
{
    let (end, conn) = match existing_channel(ctx_a, msg.port_id_on_a, msg.chan_id_on_a, ChanState::Init) {
        Ok(x) => x,
        Err(e) => {
            return Err(e);
        },
    };
    let n_clients = ctx_a.clients.len();
    let conn_b = match conn.counterparty_connection_id {
        Some(c) => c,
        None => {
            return Err(HandlerError::InvalidCounterparty);
        },
    };
    let mut hops = Vec::new();
    hops.push(conn_b);
    let expected = ChannelEnd {
        state: ChanState::TryOpen,
        ordering: end.ordering,
        counterparty: ChanCounterparty { port_id: msg.port_id_on_a, channel_id: Some(msg.chan_id_on_a) },
        connection_hops: hops,
        version: msg.version_on_b,
    };
    proof {
        assert(conn.client_id.index < n_clients);
        assert(expected@.connection_hops =~= seq![conn_b]);
        assert(expected@ == expected_try_chan_on_b(end@, conn@, msg));
    }
    match ctx_a.clients[conn.client_id.index as usize].verify_channel(
        msg.proof_height_on_b,
        msg.proof_chan_end_on_b,
        end.counterparty.port_id,
        msg.chan_id_on_b,
        &expected,
    ) {
        Ok(_) => Ok(()),
        Err(e) => Err(e),
    }
}

/// Validates `ChanOpenAck` on chain A: the core conditions, then the routed
/// module's check.
pub fn chan_open_ack_validate<M: Module>(ctx_a: &Chain<M>, module_id: ModuleId, msg: MsgChannelOpenAck) -> (r: Result<(), HandlerError>)
    requires
        ctx_a.wf(),
    ensures
        chan_open_ack_check(*ctx_a, msg) is Err ==> r == chan_open_ack_check(*ctx_a, msg),
        chan_open_ack_check(*ctx_a, msg) is Ok && !ctx_a.has_route(module_id) ==> r
            == Err::<(), HandlerError>(HandlerError::RouteNotFound),
        r is Ok ==> chan_open_ack_check(*ctx_a, msg) is Ok && ctx_a.has_route(module_id),
        chan_open_ack_check(*ctx_a, msg) is Ok && ctx_a.has_route(module_id) ==> r is Ok || r->Err_0 is Module,
{
    match chan_open_ack_core(ctx_a, msg) {
        Ok(_) => {},
        Err(e) => {
            return Err(e);
        },
    }
    ctx_a.run_module_validate(module_id, ChanStep::OpenAck, msg.port_id_on_a, msg.chan_id_on_a, msg.version_on_b)
}

/// A's end opened by `ChanOpenAck`.
pub open spec fn acked_chan_view(end: ChannelView, msg: MsgChannelOpenAck) -> ChannelView {
    ChannelView {
        state: ChanState::Open,
        counterparty: ChanCounterparty { port_id: end.counterparty.port_id, channel_id: Some(msg.chan_id_on_b) },
        version: msg.version_on_b,
        ..end
    }
}

/// Executes a validated `ChanOpenAck`: A's end becomes Open with B's channel
/// as counterparty and B's version, one `OpenAckChannel` event, then the
/// module's callback.
pub fn chan_open_ack_execute<M: Module>(ctx_a: &mut Chain<M>, module_id: ModuleId, msg: MsgChannelOpenAck) -> (r: Result<(), HandlerError>)
    requires
        old(ctx_a).wf(),
        chan_open_ack_check(*old(ctx_a), msg) is Ok,
        old(ctx_a).has_route(module_id),
    ensures
        chan_exec_frame(*old(ctx_a), *final(ctx_a)),
        chan_exec_emits(*old(ctx_a), *final(ctx_a), "success: channel open ack"@, r is Ok),
        chan_views(final(ctx_a).channels@) == chan_views(old(ctx_a).channels@).update(
            msg.chan_id_on_a.index as int,
            (msg.port_id_on_a, acked_chan_view(old(ctx_a).channels@[msg.chan_id_on_a.index as int].1@, msg)),
        ),
        final(ctx_a).events@[old(ctx_a).events@.len() as int] == (IbcEvent::OpenAckChannel {
            port_id: msg.port_id_on_a,
            channel_id: msg.chan_id_on_a,
            counterparty_channel_id: msg.chan_id_on_b,
            connection_id: old(ctx_a).channels@[msg.chan_id_on_a.index as int].1.connection_hops@[0],
        }),
        r is Err ==> r->Err_0 is ModuleExecute,
{
    let n = ctx_a.channels.len();
    proof {
        assert(ctx_a.chan_at(msg.port_id_on_a, msg.chan_id_on_a) is Some);
        assert(msg.chan_id_on_a.index < n);
    }
    let i = msg.chan_id_on_a.index as usize;
    let conn_id = ctx_a.channels[i].1.connection_hops[0];
    ctx_a.channels[i].1.state = ChanState::Open;
    ctx_a.channels[i].1.counterparty.channel_id = Some(msg.chan_id_on_b);
    ctx_a.channels[i].1.version = msg.version_on_b;
    proof {
        assert(chan_views(ctx_a.channels@) =~= chan_views(old(ctx_a).channels@).update(
            i as int,
            (msg.port_id_on_a, acked_chan_view(old(ctx_a).channels@[i as int].1@, msg)),
        ));
        assert forall|j: int| 0 <= j < ctx_a.channels@.len() implies (#[trigger] ctx_a.channels@[j]).1.connection_hops@.len() > 0 by {
            if j != i {
                assert(ctx_a.channels@[j] == old(ctx_a).channels@[j]);
            }
        }
    }
    ctx_a.logs.push("success: channel open ack".to_owned());
    ctx_a.events.push(
        IbcEvent::OpenAckChannel {
            port_id: msg.port_id_on_a,
            channel_id: msg.chan_id_on_a,
            counterparty_channel_id: msg.chan_id_on_b,
            connection_id: conn_id,
        },
    );
    let ghost mid = *ctx_a;
    let r = ctx_a.run_module_execute(module_id, ChanStep::OpenAck, msg.port_id_on_a, msg.chan_id_on_a, msg.version_on_b);
    proof {
        lemma_chan_exec_emits(*old(ctx_a), mid, *ctx_a, mid.logs@[old(ctx_a).logs@.len() as int]@, r is Ok);
    }
    r
}

/// Confirms on chain B that chain A's end is open.
#[derive(Clone, Copy, Debug, PartialEq, Eq, Structural)]
pub struct MsgChannelOpenConfirm {
    pub port_id_on_b: PortId,
    pub chan_id_on_b: ChannelId,
    pub proof_chan_end_on_a: CommitmentProof,
    pub proof_height_on_a: Height,
}

/// What chain A's end must hold for `ChanOpenConfirm` on B's `end` over `conn`.
pub open spec fn expected_open_chan_on_a(end: ChannelView, conn: ConnectionView, msg: MsgChannelOpenConfirm) -> ChannelView {
    ChannelView {
        state: ChanState::Open,
        ordering: end.ordering,
        counterparty: ChanCounterparty { port_id: msg.port_id_on_b, channel_id: Some(msg.chan_id_on_b) },
        connection_hops: seq![conn.counterparty_connection_id->Some_0],
        version: end.version,
    }
}

/// The core conditions of `ChanOpenConfirm`: B's end in TryOpen over an open
/// connection, knowing its counterparty channel, and a proof of A's end Open.
pub open spec fn chan_open_confirm_check<M: Module>(ctx: Chain<M>, msg: MsgChannelOpenConfirm) -> Result<(), HandlerError> {
    match existing_chan_check(ctx, msg.port_id_on_b, msg.chan_id_on_b, ChanState::TryOpen) {
        Err(e) => Err(e),
        Ok((end, conn)) => match end.counterparty.channel_id {
            None => Err(HandlerError::InvalidCounterparty),
            Some(chan_a) => if !chan_verified(
                ctx.clients@[conn.client_id.index as int],
                msg.proof_height_on_a,
                msg.proof_chan_end_on_a,
                end.counterparty.port_id,
                chan_a,
                expected_open_chan_on_a(end, conn, msg),
            ) {
                Err(HandlerError::ProofVerificationFailure)
            } else {
                Ok(())
            },
        },
    }
}

/// Checks the core conditions of `ChanOpenConfirm`; see `chan_open_confirm_check`.
pub fn chan_open_confirm_core<M: Module>(ctx_b: &Chain<M>, msg: MsgChannelOpenConfirm) -> (r: Result<(), HandlerError>)
    requires
        ctx_b.wf(),
    ensures
        r == chan_open_confirm_check(*ctx_b, msg),
{
    let (end, conn) = match existing_channel(ctx_b, msg.port_id_on_b, msg.chan_id_on_b, ChanState::TryOpen) {
        Ok(x) => x,
        Err(e) => {
            return Err(e);
        },
    };
    let chan_a = match end.counterparty.channel_id {
        Some(c) => c,
        None => {
            return Err(HandlerError::InvalidCounterparty);
        },
    };
    let n_clients = ctx_b.clients.len();
    let conn_a = match conn.counterparty_connection_id {
        Some(c) => c,
        None => {
            return Err(HandlerError::InvalidCounterparty);
        },
    };
    let mut hops = Vec::new();
    hops.push(conn_a);
    let expected = ChannelEnd {
        state: ChanState::Open,
        ordering: end.ordering,
        counterparty: ChanCounterparty { port_id: msg.port_id_on_b, channel_id: Some(msg.chan_id_on_b) },
        connection_hops: hops,
        version: end.version,
    };
    proof {
        assert(conn.client_id.index < n_clients);
        assert(expected@.connection_hops =~= seq![conn_a]);
        assert(expected@ == expected_open_chan_on_a(end@, conn@, msg));
    }
    match ctx_b.clients[conn.client_id.index as usize].verify_channel(
        msg.proof_height_on_a,
        msg.proof_chan_end_on_a,
        end.counterparty.port_id,
        chan_a,
        &expected,
    ) {
        Ok(_) => Ok(()),
        Err(e) => Err(e),
    }
}

/// Validates `ChanOpenConfirm` on chain B: the core conditions, then the
/// routed module's check.
pub fn chan_open_confirm_validate<M: Module>(ctx_b: &Chain<M>, module_id: ModuleId, msg: MsgChannelOpenConfirm) -> (r: Result<(), HandlerError>)
    requires
        ctx_b.wf(),
    ensures
        chan_open_confirm_check(*ctx_b, msg) is Err ==> r == chan_open_confirm_check(*ctx_b, msg),
        chan_open_confirm_check(*ctx_b, msg) is Ok && !ctx_b.has_route(module_id) ==> r
            == Err::<(), HandlerError>(HandlerError::RouteNotFound),
        r is Ok ==> chan_open_confirm_check(*ctx_b, msg) is Ok && ctx_b.has_route(module_id),
        chan_open_confirm_check(*ctx_b, msg) is Ok && ctx_b.has_route(module_id) ==> r is Ok || r->Err_0 is Module,
{
    match chan_open_confirm_core(ctx_b, msg) {
        Ok(_) => {},
        Err(e) => {
            return Err(e);
        },
    }
    ctx_b.run_module_validate(module_id, ChanStep::OpenConfirm, msg.port_id_on_b, msg.chan_id_on_b, Version::new(0))
}

/// Executes a validated `ChanOpenConfirm`: B's end becomes Open, one
/// `OpenConfirmChannel` event, then the module's callback.
pub fn chan_open_confirm_execute<M: Module>(ctx_b: &mut Chain<M>, module_id: ModuleId, msg: MsgChannelOpenConfirm) -> (r: Result<(), HandlerError>)
    requires
        old(ctx_b).wf(),
        chan_open_confirm_check(*old(ctx_b), msg) is Ok,
        old(ctx_b).has_route(module_id),
    ensures
        chan_exec_frame(*old(ctx_b), *final(ctx_b)),
        chan_exec_emits(*old(ctx_b), *final(ctx_b), "success: channel open confirm"@, r is Ok),
        chan_views(final(ctx_b).channels@) == chan_views(old(ctx_b).channels@).update(
            msg.chan_id_on_b.index as int,
            (msg.port_id_on_b, with_state(old(ctx_b).channels@[msg.chan_id_on_b.index as int].1@, ChanState::Open)),
        ),
        final(ctx_b).events@[old(ctx_b).events@.len() as int] == (IbcEvent::OpenConfirmChannel {
            port_id: msg.port_id_on_b,
            channel_id: msg.chan_id_on_b,
            connection_id: old(ctx_b).channels@[msg.chan_id_on_b.index as int].1.connection_hops@[0],
        }),
        r is Err ==> r->Err_0 is ModuleExecute,
{
    let n = ctx_b.channels.len();
    proof {
        assert(ctx_b.chan_at(msg.port_id_on_b, msg.chan_id_on_b) is Some);
        assert(msg.chan_id_on_b.index < n);
    }
    let i = msg.chan_id_on_b.index as usize;
    let conn_id = ctx_b.channels[i].1.connection_hops[0];
    set_channel_state(ctx_b, i, ChanState::Open);
    ctx_b.logs.push("success: channel open confirm".to_owned());
    ctx_b.events.push(IbcEvent::OpenConfirmChannel { port_id: msg.port_id_on_b, channel_id: msg.chan_id_on_b, connection_id: conn_id });
    let ghost mid = *ctx_b;
    let r = ctx_b.run_module_execute(module_id, ChanStep::OpenConfirm, msg.port_id_on_b, msg.chan_id_on_b, Version::new(0));
    proof {
        lemma_chan_exec_emits(*old(ctx_b), mid, *ctx_b, mid.logs@[old(ctx_b).logs@.len() as int]@, r is Ok);
    }
    r
}

/// Closes a channel end on its own chain; no proof is needed.
#[derive(Clone, Copy, Debug, PartialEq, Eq, Structural)]
pub struct MsgChannelCloseInit {
    pub port_id_on_a: PortId,
    pub chan_id_on_a: ChannelId,
}

/// The core conditions of `ChanCloseInit`: the end is Open over an open
/// connection.
pub open spec fn chan_close_init_check<M: Module>(ctx: Chain<M>, msg: MsgChannelCloseInit) -> Result<(), HandlerError> {
    match existing_chan_check(ctx, msg.port_id_on_a, msg.chan_id_on_a, ChanState::Open) {
        Err(e) => Err(e),
        Ok(_) => Ok(()),
    }
}

/// Checks the core conditions of `ChanCloseInit`; see `chan_close_init_check`.
pub fn chan_close_init_core<M: Module>(ctx_a: &Chain<M>, msg: MsgChannelCloseInit) -> (r: Result<(), HandlerError>)
    requires
        ctx_a.wf(),
    ensures
        r == chan_close_init_check(*ctx_a, msg),
{
    match existing_channel(ctx_a, msg.port_id_on_a, msg.chan_id_on_a, ChanState::Open) {
        Ok(_) => Ok(()),
        Err(e) => Err(e),
    }
}

/// Validates `ChanCloseInit`: the core conditions, then the routed module's
/// check.
pub fn chan_close_init_validate<M: Module>(ctx_a: &Chain<M>, module_id: ModuleId, msg: MsgChannelCloseInit) -> (r: Result<(), HandlerError>)
    requires
        ctx_a.wf(),
    ensures
        chan_close_init_check(*ctx_a, msg) is Err ==> r == chan_close_init_check(*ctx_a, msg),
        chan_close_init_check(*ctx_a, msg) is Ok && !ctx_a.has_route(module_id) ==> r
            == Err::<(), HandlerError>(HandlerError::RouteNotFound),
        r is Ok ==> chan_close_init_check(*ctx_a, msg) is Ok && ctx_a.has_route(module_id),
        chan_close_init_check(*ctx_a, msg) is Ok && ctx_a.has_route(module_id) ==> r is Ok || r->Err_0 is Module,
{
    match chan_close_init_core(ctx_a, msg) {
        Ok(_) => {},
        Err(e) => {
            return Err(e);
        },
    }
    ctx_a.run_module_validate(module_id, ChanStep::CloseInit, msg.port_id_on_a, msg.chan_id_on_a, Version::new(0))
}

/// Executes a validated `ChanCloseInit`: the end becomes Closed, one
/// `CloseInitChannel` event, then the module's callback.
pub fn chan_close_init_execute<M: Module>(ctx_a: &mut Chain<M>, module_id: ModuleId, msg: MsgChannelCloseInit) -> (r: Result<(), HandlerError>)
    requires
        old(ctx_a).wf(),
        chan_close_init_check(*old(ctx_a), msg) is Ok,
        old(ctx_a).has_route(module_id),
    ensures
        chan_exec_frame(*old(ctx_a), *final(ctx_a)),
        chan_exec_emits(*old(ctx_a), *final(ctx_a), "success: channel close init"@, r is Ok),
        chan_views(final(ctx_a).channels@) == chan_views(old(ctx_a).channels@).update(
            msg.chan_id_on_a.index as int,
            (msg.port_id_on_a, with_state(old(ctx_a).channels@[msg.chan_id_on_a.index as int].1@, ChanState::Closed)),
        ),
        final(ctx_a).events@[old(ctx_a).events@.len() as int] == (IbcEvent::CloseInitChannel {
            port_id: msg.port_id_on_a,
            channel_id: msg.chan_id_on_a,
            connection_id: old(ctx_a).channels@[msg.chan_id_on_a.index as int].1.connection_hops@[0],
        }),
        r is Err ==> r->Err_0 is ModuleExecute,
{
    let n = ctx_a.channels.len();
    proof {
        assert(ctx_a.chan_at(msg.port_id_on_a, msg.chan_id_on_a) is Some);
        assert(msg.chan_id_on_a.index < n);
    }
    let i = msg.chan_id_on_a.index as usize;
    let conn_id = ctx_a.channels[i].1.connection_hops[0];
    set_channel_state(ctx_a, i, ChanState::Closed);
    ctx_a.logs.push("success: channel close init".to_owned());
    ctx_a.events.push(IbcEvent::CloseInitChannel { port_id: msg.port_id_on_a, channel_id: msg.chan_id_on_a, connection_id: conn_id });
    let ghost mid = *ctx_a;
    let r = ctx_a.run_module_execute(module_id, ChanStep::CloseInit, msg.port_id_on_a, msg.chan_id_on_a, Version::new(0));
    proof {
        lemma_chan_exec_emits(*old(ctx_a), mid, *ctx_a, mid.logs@[old(ctx_a).logs@.len() as int]@, r is Ok);
    }
    r
}

/// Where the value of a present channel end is replaced, looking it up gives
/// the new value.
pub proof fn lemma_chan_at_updated<M: Module>(before: Chain<M>, after: Chain<M>, port: PortId, chan: ChannelId)
    requires
        before.chan_at(port, chan) is Some,
        exists|v: ChannelView|
            chan_views(after.channels@) == chan_views(before.channels@).update(chan.index as int, (port, v)),
    ensures
        after.chan_at(port, chan) == Some(
            chan_views(after.channels@)[chan.index as int].1,
        ),
{
    let i = chan.index as int;
    assert(chan_views(before.channels@).len() == before.channels@.len());
    assert(chan_views(after.channels@).len() == after.channels@.len());
    assert(chan_views(after.channels@)[i] == (after.channels@[i].0, after.channels@[i].1@));
}

/// Replaying an executed `ChanOpenAck` fails at validation: the end is no
/// longer in Init.
pub proof fn lemma_chan_open_ack_replay_rejected<M: Module>(before: Chain<M>, after: Chain<M>, msg: MsgChannelOpenAck)
    requires
        chan_open_ack_check(before, msg) is Ok,
        chan_views(after.channels@) == chan_views(before.channels@).update(
            msg.chan_id_on_a.index as int,
            (msg.port_id_on_a, acked_chan_view(before.channels@[msg.chan_id_on_a.index as int].1@, msg)),
        ),
    ensures
        chan_open_ack_check(after, msg) == Err::<(), HandlerError>(HandlerError::ChannelStateMismatch),
{
    lemma_chan_at_updated(before, after, msg.port_id_on_a, msg.chan_id_on_a);
}

/// Replaying an executed `ChanOpenConfirm` fails at validation: the end is
/// no longer in TryOpen.
pub proof fn lemma_chan_open_confirm_replay_rejected<M: Module>(before: Chain<M>, after: Chain<M>, msg: MsgChannelOpenConfirm)
    requires
        chan_open_confirm_check(before, msg) is Ok,
        chan_views(after.channels@) == chan_views(before.channels@).update(
            msg.chan_id_on_b.index as int,
            (msg.port_id_on_b, with_state(before.channels@[msg.chan_id_on_b.index as int].1@, ChanState::Open)),
        ),
    ensures
        chan_open_confirm_check(after, msg) == Err::<(), HandlerError>(HandlerError::ChannelStateMismatch),
{
    lemma_chan_at_updated(before, after, msg.port_id_on_b, msg.chan_id_on_b);
}

/// Replaying an executed `ChanCloseInit` fails at validation: the end is
/// closed.
pub proof fn lemma_chan_close_init_replay_rejected<M: Module>(before: Chain<M>, after: Chain<M>, msg: MsgChannelCloseInit)
    requires
        chan_close_init_check(before, msg) is Ok,
        chan_views(after.channels@) == chan_views(before.channels@).update(
            msg.chan_id_on_a.index as int,
            (msg.port_id_on_a, with_state(before.channels@[msg.chan_id_on_a.index as int].1@, ChanState::Closed)),
        ),
    ensures
        chan_close_init_check(after, msg) == Err::<(), HandlerError>(HandlerError::ChannelClosed),
{
    lemma_chan_at_updated(before, after, msg.port_id_on_a, msg.chan_id_on_a);
}

/// Replaying an executed close confirmation fails at validation: the end is
/// closed.
pub proof fn lemma_chan_close_confirm_replay_rejected<M: Module>(before: Chain<M>, after: Chain<M>, msg: MsgChannelCloseConfirm)
    requires
        close_confirm_check(before, msg) is Ok,
        chan_views(after.channels@) == chan_views(before.channels@).update(
            msg.chan_id_on_b.index as int,
            (msg.port_id_on_b, with_state(before.channels@[msg.chan_id_on_b.index as int].1@, ChanState::Closed)),
        ),
    ensures
        close_confirm_check(after, msg) == Err::<(), HandlerError>(HandlerError::ChannelClosed),
{
    lemma_chan_at_updated(before, after, msg.port_id_on_b, msg.chan_id_on_b);
}

/// The client that a close confirmation on `ctx` verifies against, and the
/// closed end it expects on the other chain, where the channel end exists,
/// is not closed, its connection is open with a known counterparty and it
/// knows its counterparty channel.
pub open spec fn close_confirm_ready<M: Module>(ctx: Chain<M>, msg: MsgChannelCloseConfirm) -> bool {
    &&& ctx.chan_at(msg.port_id_on_b, msg.chan_id_on_b) is Some
    &&& ctx.chan_at(msg.port_id_on_b, msg.chan_id_on_b)->Some_0.state != ChanState::Closed
    &&& open_conn_check(ctx, ctx.chan_at(msg.port_id_on_b, msg.chan_id_on_b)->Some_0.connection_hops[0]) is Ok
    &&& ctx.chan_at(msg.port_id_on_b, msg.chan_id_on_b)->Some_0.counterparty.channel_id is Some
}

/// A close confirmation whose proof names no consensus state of the client
/// at the claimed height (a wrong height, or a tampered proof) fails with
/// `ProofVerificationFailure`.
pub proof fn lemma_close_confirm_unrooted_proof_rejected<M: Module>(ctx: Chain<M>, msg: MsgChannelCloseConfirm)
    requires
        close_confirm_ready(ctx, msg),
        ({
            let end = ctx.chan_at(msg.port_id_on_b, msg.chan_id_on_b)->Some_0;
            let conn = open_conn_check(ctx, end.connection_hops[0])->Ok_0;
            let c = ctx.clients@[conn.client_id.index as int];
            forall|j: int|
                0 <= j < c.consensus_states@.len() ==> !proof_matches(
                    #[trigger] c.consensus_states@[j],
                    msg.proof_height_on_a,
                    msg.proof_chan_end_on_a,
                )
        }),
    ensures
        close_confirm_check(ctx, msg) == Err::<(), HandlerError>(HandlerError::ProofVerificationFailure),
{
}

/// A close confirmation whose proof names the consensus state at the claimed
/// height is accepted exactly when that state's root holds the other end,
/// closed and naming this end, at its path: an honest proof passes, and a
/// root holding any other value there, or none, fails with
/// `ProofVerificationFailure`.
pub proof fn lemma_close_confirm_rooted_proof_decides<M: Module>(ctx: Chain<M>, msg: MsgChannelCloseConfirm, j: int)
    requires
        ctx.wf(),
        close_confirm_ready(ctx, msg),
        ({
            let end = ctx.chan_at(msg.port_id_on_b, msg.chan_id_on_b)->Some_0;
            let conn = open_conn_check(ctx, end.connection_hops[0])->Ok_0;
            let c = ctx.clients@[conn.client_id.index as int];
            0 <= j < c.consensus_states@.len() && proof_matches(c.consensus_states@[j], msg.proof_height_on_a, msg.proof_chan_end_on_a)
        }),
    ensures
        ({
            let end = ctx.chan_at(msg.port_id_on_b, msg.chan_id_on_b)->Some_0;
            let conn = open_conn_check(ctx, end.connection_hops[0])->Ok_0;
            let c = ctx.clients@[conn.client_id.index as int];
            let expected = expected_closed_on_a(
                end,
                msg.port_id_on_b,
                msg.chan_id_on_b,
                conn.counterparty_connection_id->Some_0,
            );
            if chan_committed(c.consensus_states@[j].root, end.counterparty.port_id, end.counterparty.channel_id->Some_0, expected) {
                close_confirm_check(ctx, msg) == Ok::<(), HandlerError>(())
            } else {
                close_confirm_check(ctx, msg) == Err::<(), HandlerError>(HandlerError::ProofVerificationFailure)
            }
        }),
{
    let end = ctx.chan_at(msg.port_id_on_b, msg.chan_id_on_b)->Some_0;
    let conn = open_conn_check(ctx, end.connection_hops[0])->Ok_0;
    let c = ctx.clients@[conn.client_id.index as int];
    assert(c.wf());
    let expected = expected_closed_on_a(end, msg.port_id_on_b, msg.chan_id_on_b, conn.counterparty_connection_id->Some_0);
    assert forall|k: int| 0 <= k < c.consensus_states@.len() && proof_matches(#[trigger] c.consensus_states@[k], msg.proof_height_on_a, msg.proof_chan_end_on_a)
        implies k == j by {
        if k != j {
            assert(c.consensus_states@[k].height != c.consensus_states@[j].height);
        }
    }
    assert(proof_matches(c.consensus_states@[j], msg.proof_height_on_a, msg.proof_chan_end_on_a));
}

} // verus!

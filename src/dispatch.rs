use vstd::prelude::*;
use crate::channel::{
    MsgChannelCloseConfirm, MsgChannelCloseInit, MsgChannelOpenAck, MsgChannelOpenConfirm, MsgChannelOpenInit,
    MsgChannelOpenTry, chan_close_confirm_execute, chan_close_confirm_validate, chan_close_init_check,
    chan_close_init_core, chan_close_init_execute, chan_close_init_validate, chan_open_ack_core, chan_open_confirm_core,
    chan_open_init_core, chan_open_try_core, close_confirm_core, chan_open_ack_check, chan_open_ack_execute, chan_open_ack_validate,
    chan_open_confirm_check, chan_open_confirm_execute, chan_open_confirm_validate, chan_open_init_check,
    chan_open_init_execute, chan_open_init_validate, chan_open_try_check, chan_open_try_execute, chan_open_try_validate,
    close_confirm_check,
};
use crate::connection::{
    MsgConnOpenAck, MsgConnOpenConfirm, MsgConnOpenInit, MsgConnOpenTry, conn_open_ack_check, conn_open_ack_execute,
    conn_open_ack_validate, conn_open_confirm_check, conn_open_confirm_execute, conn_open_confirm_validate,
    conn_open_init_check, conn_open_init_execute, conn_open_init_validate, conn_open_try_check, conn_open_try_execute,
    conn_open_try_validate,
};
use crate::context::{Chain, Module, chan_views, conn_views};
use crate::types::{ChanState, ConnectionView, ChannelView, HandlerError, PortId, chan_rank, conn_rank};

verus! {

/// A handshake message of any kind, as a relayer submits it.
#[derive(Debug)]
pub enum MsgEnvelope {
    ConnOpenInit(MsgConnOpenInit),
    ConnOpenTry(MsgConnOpenTry),
    ConnOpenAck(MsgConnOpenAck),
    ConnOpenConfirm(MsgConnOpenConfirm),
    ChanOpenInit(MsgChannelOpenInit),
    ChanOpenTry(MsgChannelOpenTry),
    ChanOpenAck(MsgChannelOpenAck),
    ChanOpenConfirm(MsgChannelOpenConfirm),
    ChanCloseInit(MsgChannelCloseInit),
    ChanCloseConfirm(MsgChannelCloseConfirm),
}

/// The core conditions of a message of any kind.
pub open spec fn envelope_check<M: Module>(ctx: Chain<M>, msg: &MsgEnvelope) -> Result<(), HandlerError> {
    match msg {
        MsgEnvelope::ConnOpenInit(m) => conn_open_init_check(ctx, *m),
        MsgEnvelope::ConnOpenTry(m) => conn_open_try_check(ctx, m),
        MsgEnvelope::ConnOpenAck(m) => conn_open_ack_check(ctx, *m),
        MsgEnvelope::ConnOpenConfirm(m) => conn_open_confirm_check(ctx, *m),
        MsgEnvelope::ChanOpenInit(m) => chan_open_init_check(ctx, m),
        MsgEnvelope::ChanOpenTry(m) => chan_open_try_check(ctx, m),
        MsgEnvelope::ChanOpenAck(m) => chan_open_ack_check(ctx, *m),
        MsgEnvelope::ChanOpenConfirm(m) => chan_open_confirm_check(ctx, *m),
        MsgEnvelope::ChanCloseInit(m) => chan_close_init_check(ctx, *m),
        MsgEnvelope::ChanCloseConfirm(m) => close_confirm_check(ctx, *m),
    }
}

/// The connection states of `new` are those of `old` or later, position by
/// position, and `new` holds at least as many ends.
pub open spec fn conn_progress(old: Seq<ConnectionView>, new: Seq<ConnectionView>) -> bool {
    &&& old.len() <= new.len()
    &&& forall|i: int| 0 <= i < old.len() ==> conn_rank(#[trigger] old[i].state) <= conn_rank(new[i].state)
}

/// The channel states of `new` are those of `old` or later, position by
/// position (Closed last), and `new` holds at least as many ends.
pub open spec fn chan_progress(old: Seq<(PortId, ChannelView)>, new: Seq<(PortId, ChannelView)>) -> bool {
    &&& old.len() <= new.len()
    &&& forall|i: int| 0 <= i < old.len() ==> chan_rank(#[trigger] old[i].1.state) <= chan_rank(new[i].1.state)
}

/// Both kinds of record only move forward from `old` to `new`.
pub open spec fn progress<M: Module>(old: Chain<M>, new: Chain<M>) -> bool {
    conn_progress(conn_views(old.connections@), conn_views(new.connections@)) && chan_progress(
        chan_views(old.channels@),
        chan_views(new.channels@),
    )
}

/// The port whose module a channel message is routed to.
pub open spec fn routed_port(msg: &MsgEnvelope) -> Option<PortId> {
    match msg {
        MsgEnvelope::ChanOpenInit(m) => Some(m.port_id_on_a),
        MsgEnvelope::ChanOpenTry(m) => Some(m.port_id_on_b),
        MsgEnvelope::ChanOpenAck(m) => Some(m.port_id_on_a),
        MsgEnvelope::ChanOpenConfirm(m) => Some(m.port_id_on_b),
        MsgEnvelope::ChanCloseInit(m) => Some(m.port_id_on_a),
        MsgEnvelope::ChanCloseConfirm(m) => Some(m.port_id_on_b),
        _ => None,
    }
}

/// Some module is bound to `port` on `ctx`.
pub open spec fn port_bound<M: Module>(ctx: Chain<M>, port: PortId) -> bool {
    exists|i: int| 0 <= i < ctx.port_bindings@.len() && (#[trigger] ctx.port_bindings@[i]).0 == port
}

/// Applies one message: it is validated first, and executed only where
/// validation succeeded, with the same message. A message that fails its core
/// conditions reports the first failed condition; any failure of validation
/// (core conditions, routing, the module's check) leaves the chain exactly as
/// it was; whatever happens, connection and channel states only move
/// forward.
pub fn dispatch<M: Module>(ctx: &mut Chain<M>, msg: &MsgEnvelope) -> (r: Result<(), HandlerError>)
    requires
        old(ctx).wf(),
    ensures
        final(ctx).wf(),
        envelope_check(*old(ctx), msg) is Err ==> r == envelope_check(*old(ctx), msg) && *final(ctx) == *old(ctx),
        r is Ok ==> envelope_check(*old(ctx), msg) is Ok,
        envelope_check(*old(ctx), msg) is Ok && routed_port(msg) is Some && !port_bound(*old(ctx), routed_port(msg)->Some_0)
            ==> r == Err::<(), HandlerError>(HandlerError::RouteNotFound),
        r is Err && !(r->Err_0 is ModuleExecute) ==> *final(ctx) == *old(ctx),
        r is Err && r->Err_0 is ModuleExecute ==> envelope_check(*old(ctx), msg) is Ok,
        progress(*old(ctx), *final(ctx)),
{
    let port = match msg {
        MsgEnvelope::ChanOpenInit(m) => Some(m.port_id_on_a),
        MsgEnvelope::ChanOpenTry(m) => Some(m.port_id_on_b),
        MsgEnvelope::ChanOpenAck(m) => Some(m.port_id_on_a),
        MsgEnvelope::ChanOpenConfirm(m) => Some(m.port_id_on_b),
        MsgEnvelope::ChanCloseInit(m) => Some(m.port_id_on_a),
        MsgEnvelope::ChanCloseConfirm(m) => Some(m.port_id_on_b),
        _ => None,
    };
    let route = match port {
        Some(p) => ctx.lookup_module_by_port(p),
        None => None,
    };
    if port.is_some() && route.is_none() {
        // No module is bound to the port: the core conditions still come first.
        let core = match msg {
            MsgEnvelope::ChanOpenInit(m) => chan_open_init_core(ctx, m),
            MsgEnvelope::ChanOpenTry(m) => chan_open_try_core(ctx, m),
            MsgEnvelope::ChanOpenAck(m) => chan_open_ack_core(ctx, *m),
            MsgEnvelope::ChanOpenConfirm(m) => chan_open_confirm_core(ctx, *m),
            MsgEnvelope::ChanCloseInit(m) => chan_close_init_core(ctx, *m),
            MsgEnvelope::ChanCloseConfirm(m) => close_confirm_core(ctx, *m),
            _ => Ok(()),
        };
        return match core {
            Err(e) => Err(e),
            Ok(_) => Err(HandlerError::RouteNotFound),
        };
    }
    let module_id = match route {
        Some(id) => id,
        None => crate::types::ModuleId::new(0),
    };
    let r = match msg {
        MsgEnvelope::ConnOpenInit(m) => match conn_open_init_validate(ctx, *m) {
            Err(e) => Err(e),
            Ok(_) => {
                conn_open_init_execute(ctx, *m);
                Ok(())
            },
        },
        MsgEnvelope::ConnOpenTry(m) => match conn_open_try_validate(ctx, m) {
            Err(e) => Err(e),
            Ok(_) => {
                conn_open_try_execute(ctx, m);
                Ok(())
            },
        },
        MsgEnvelope::ConnOpenAck(m) => match conn_open_ack_validate(ctx, *m) {
            Err(e) => Err(e),
            Ok(_) => {
                conn_open_ack_execute(ctx, *m);
                Ok(())
            },
        },
        MsgEnvelope::ConnOpenConfirm(m) => match conn_open_confirm_validate(ctx, *m) {
            Err(e) => Err(e),
            Ok(_) => {
                conn_open_confirm_execute(ctx, *m);
                Ok(())
            },
        },
        MsgEnvelope::ChanOpenInit(m) => match chan_open_init_validate(ctx, module_id, m) {
            Err(e) => Err(e),
            Ok(_) => match chan_open_init_execute(ctx, module_id, m) {
                Ok(_) => Ok(()),
                Err(e) => Err(e),
            },
        },
        MsgEnvelope::ChanOpenTry(m) => match chan_open_try_validate(ctx, module_id, m) {
            Err(e) => Err(e),
            Ok(_) => match chan_open_try_execute(ctx, module_id, m) {
                Ok(_) => Ok(()),
                Err(e) => Err(e),
            },
        },
        MsgEnvelope::ChanOpenAck(m) => match chan_open_ack_validate(ctx, module_id, *m) {
            Err(e) => Err(e),
            Ok(_) => chan_open_ack_execute(ctx, module_id, *m),
        },
        MsgEnvelope::ChanOpenConfirm(m) => match chan_open_confirm_validate(ctx, module_id, *m) {
            Err(e) => Err(e),
            Ok(_) => chan_open_confirm_execute(ctx, module_id, *m),
        },
        MsgEnvelope::ChanCloseInit(m) => match chan_close_init_validate(ctx, module_id, *m) {
            Err(e) => Err(e),
            Ok(_) => chan_close_init_execute(ctx, module_id, *m),
        },
        MsgEnvelope::ChanCloseConfirm(m) => match chan_close_confirm_validate(ctx, module_id, *m) {
            Err(e) => Err(e),
            Ok(_) => chan_close_confirm_execute(ctx, module_id, *m),
        },
    };
    r
}

/// Forward movement composes: over any sequence of applied messages the
/// connection and channel states only move forward.
pub proof fn lemma_progress_transitive<M: Module>(a: Chain<M>, b: Chain<M>, c: Chain<M>)
    requires
        progress(a, b),
        progress(b, c),
    ensures
        progress(a, c),
{
    let (ca, cb, cc) = (conn_views(a.connections@), conn_views(b.connections@), conn_views(c.connections@));
    assert forall|i: int| 0 <= i < ca.len() implies conn_rank(#[trigger] ca[i].state) <= conn_rank(cc[i].state) by {
        assert(conn_rank(cb[i].state) <= conn_rank(cc[i].state));
    }
    let (ha, hb, hc) = (chan_views(a.channels@), chan_views(b.channels@), chan_views(c.channels@));
    assert forall|i: int| 0 <= i < ha.len() implies chan_rank(#[trigger] ha[i].1.state) <= chan_rank(hc[i].1.state) by {
        assert(chan_rank(hb[i].1.state) <= chan_rank(hc[i].1.state));
    }
}

/// Closed is absorbing: a channel end that was Closed is still Closed after
/// any forward movement.
pub proof fn lemma_closed_absorbing<M: Module>(a: Chain<M>, b: Chain<M>, i: int)
    requires
        progress(a, b),
        0 <= i < a.channels@.len(),
        a.channels@[i].1.state == ChanState::Closed,
    ensures
        b.channels@[i].1.state == ChanState::Closed,
{
    assert(chan_views(a.channels@)[i].1.state == ChanState::Closed);
    assert(chan_rank(chan_views(b.channels@)[i].1.state) >= 3);
}

} // verus!

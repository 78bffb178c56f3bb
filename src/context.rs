use vstd::prelude::*;
use crate::client::{Client, CommitmentRoot, ConsensusState, conflicts, has_height, height_max};
use crate::types::ConnState;
use crate::types::{ChannelEnd, ChannelId, ChannelView, ChanState, ClientId, ConnectionEnd, ConnectionId, ConnectionView, HandlerError, ModuleError, ModuleId, PortId, Version};

verus! {

/// An application-defined event passed through by the core.
#[derive(Debug)]
pub struct ModuleEvent {
    pub kind: String,
}

/// What a module's execute callback hands back: events and log lines that the
/// core emits after its own event.
pub struct ModuleExtras {
    pub events: Vec<ModuleEvent>,
    pub log: Vec<String>,
}

impl ModuleExtras {
    pub fn empty() -> (r: ModuleExtras)
        ensures
            r.events@.len() == 0,
            r.log@.len() == 0,
    {
        ModuleExtras { events: Vec::new(), log: Vec::new() }
    }
}

/// Payload of the event emitted when a channel close is confirmed.
#[derive(Clone, Copy, Debug, PartialEq, Eq, Structural)]
pub struct CloseConfirm {
    pub port_id_on_b: PortId,
    pub chan_id_on_b: ChannelId,
    pub port_id_on_a: PortId,
    pub chan_id_on_a: ChannelId,
    pub conn_id_on_b: ConnectionId,
}

impl CloseConfirm {
    pub fn new(
        port_id_on_b: PortId,
        chan_id_on_b: ChannelId,
        port_id_on_a: PortId,
        chan_id_on_a: ChannelId,
        conn_id_on_b: ConnectionId,
    ) -> (r: CloseConfirm)
        ensures
            r == (CloseConfirm { port_id_on_b, chan_id_on_b, port_id_on_a, chan_id_on_a, conn_id_on_b }),
    {
        CloseConfirm { port_id_on_b, chan_id_on_b, port_id_on_a, chan_id_on_a, conn_id_on_b }
    }
}

/// The structured events the core emits, one kind per handshake step, plus
/// the pass-through of application-module events.
#[derive(Debug)]
pub enum IbcEvent {
    OpenInitConnection { connection_id: ConnectionId, client_id: ClientId, counterparty_client_id: ClientId },
    OpenTryConnection {
        connection_id: ConnectionId,
        client_id: ClientId,
        counterparty_connection_id: ConnectionId,
        counterparty_client_id: ClientId,
    },
    OpenAckConnection { connection_id: ConnectionId, counterparty_connection_id: ConnectionId },
    OpenConfirmConnection { connection_id: ConnectionId, counterparty_connection_id: ConnectionId },
    OpenInitChannel { port_id: PortId, channel_id: ChannelId, connection_id: ConnectionId },
    OpenTryChannel {
        port_id: PortId,
        channel_id: ChannelId,
        counterparty_port_id: PortId,
        counterparty_channel_id: ChannelId,
        connection_id: ConnectionId,
    },
    OpenAckChannel { port_id: PortId, channel_id: ChannelId, counterparty_channel_id: ChannelId, connection_id: ConnectionId },
    OpenConfirmChannel { port_id: PortId, channel_id: ChannelId, connection_id: ConnectionId },
    CloseInitChannel { port_id: PortId, channel_id: ChannelId, connection_id: ConnectionId },
    CloseConfirmChannel(CloseConfirm),
    AppModule(ModuleEvent),
}

/// The channel handshake steps at which a module is called back.
#[derive(Clone, Copy, Debug, PartialEq, Eq, Structural)]
pub enum ChanStep {
    OpenInit,
    OpenTry,
    OpenAck,
    OpenConfirm,
    CloseInit,
    CloseConfirm,
}

/// An application module's handshake callbacks. Validate callbacks see the
/// module read-only; execute callbacks may change the module and hand back
/// extras for the core to emit.
pub trait Module {
    fn on_chan_open_init_validate(&self, port_id: PortId, chan_id: ChannelId, version: Version) -> Result<(), ModuleError>;

    fn on_chan_open_init_execute(&mut self, port_id: PortId, chan_id: ChannelId, version: Version) -> Result<ModuleExtras, ModuleError>;

    fn on_chan_open_try_validate(&self, port_id: PortId, chan_id: ChannelId, version: Version) -> Result<(), ModuleError>;

    fn on_chan_open_try_execute(&mut self, port_id: PortId, chan_id: ChannelId, version: Version) -> Result<ModuleExtras, ModuleError>;

    fn on_chan_open_ack_validate(&self, port_id: PortId, chan_id: ChannelId, version: Version) -> Result<(), ModuleError>;

    fn on_chan_open_ack_execute(&mut self, port_id: PortId, chan_id: ChannelId, version: Version) -> Result<ModuleExtras, ModuleError>;

    fn on_chan_open_confirm_validate(&self, port_id: PortId, chan_id: ChannelId) -> Result<(), ModuleError>;

    fn on_chan_open_confirm_execute(&mut self, port_id: PortId, chan_id: ChannelId) -> Result<ModuleExtras, ModuleError>;

    fn on_chan_close_init_validate(&self, port_id: PortId, chan_id: ChannelId) -> Result<(), ModuleError>;

    fn on_chan_close_init_execute(&mut self, port_id: PortId, chan_id: ChannelId) -> Result<ModuleExtras, ModuleError>;

    fn on_chan_close_confirm_validate(&self, port_id: PortId, chan_id: ChannelId) -> Result<(), ModuleError>;

    fn on_chan_close_confirm_execute(&mut self, port_id: PortId, chan_id: ChannelId) -> Result<ModuleExtras, ModuleError>;
}

/// The state of one chain as the core sees it: its light clients, connection
/// and channel ends (ids are positions, handed out by a counter), the routing
/// table from ports to modules, the versions it supports, and the event and
/// log sinks.
pub struct Chain<M: Module> {
    pub clients: Vec<Client>,
    pub connections: Vec<ConnectionEnd>,
    pub channels: Vec<(PortId, ChannelEnd)>,
    pub port_bindings: Vec<(PortId, ModuleId)>,
    pub modules: Vec<(ModuleId, M)>,
    pub supported_versions: Vec<Version>,
    pub events: Vec<IbcEvent>,
    pub logs: Vec<String>,
}

/// The connection ends of a chain as values.
pub open spec fn conn_views(s: Seq<ConnectionEnd>) -> Seq<ConnectionView> {
    s.map_values(|c: ConnectionEnd| c@)
}

/// The channel ends of a chain as values, with the port each is bound under.
pub open spec fn chan_views(s: Seq<(PortId, ChannelEnd)>) -> Seq<(PortId, ChannelView)> {
    s.map_values(|e: (PortId, ChannelEnd)| (e.0, e.1@))
}

/// Events handed back by a module, as the core emits them.
pub open spec fn app_events(s: Seq<ModuleEvent>) -> Seq<IbcEvent> {
    s.map_values(|e: ModuleEvent| IbcEvent::AppModule(e))
}

/// The module ids of a routing table, in order.
pub open spec fn module_ids<M>(s: Seq<(ModuleId, M)>) -> Seq<ModuleId> {
    s.map_values(|e: (ModuleId, M)| e.0)
}

impl<M: Module> Chain<M> {
    /// Every client keeps one consensus state per height, every channel end
    /// has a first connection hop, and some version is supported.
    pub open spec fn wf(&self) -> bool {
        &&& forall|i: int| 0 <= i < self.clients@.len() ==> (#[trigger] self.clients@[i]).wf()
        &&& forall|i: int|
            0 <= i < self.channels@.len() ==> (#[trigger] self.channels@[i]).1.connection_hops@.len() > 0
        &&& self.supported_versions@.len() > 0
    }

    /// The connection end with id `id`, if any.
    pub open spec fn conn_at(&self, id: ConnectionId) -> Option<ConnectionView> {
        if id.index < self.connections@.len() {
            Some(self.connections@[id.index as int]@)
        } else {
            None
        }
    }

    /// The channel end bound under (`port`, `chan`), if any.
    pub open spec fn chan_at(&self, port: PortId, chan: ChannelId) -> Option<ChannelView> {
        if chan.index < self.channels@.len() && self.channels@[chan.index as int].0 == port {
            Some(self.channels@[chan.index as int].1@)
        } else {
            None
        }
    }

    /// Some module is registered under `module_id`.
    pub open spec fn has_route(&self, module_id: ModuleId) -> bool {
        module_ids(self.modules@).contains(module_id)
    }

    /// A chain with no records, supporting `supported_versions`.
    pub fn new(supported_versions: Vec<Version>) -> (r: Chain<M>)
        requires
            supported_versions@.len() > 0,
        ensures
            r.wf(),
            r.supported_versions@ == supported_versions@,
            r.clients@.len() == 0,
            r.connections@.len() == 0,
            r.channels@.len() == 0,
            r.modules@.len() == 0,
            r.port_bindings@.len() == 0,
            r.events@.len() == 0,
            r.logs@.len() == 0,
    {
        Chain {
            clients: Vec::new(),
            connections: Vec::new(),
            channels: Vec::new(),
            port_bindings: Vec::new(),
            modules: Vec::new(),
            supported_versions,
            events: Vec::new(),
            logs: Vec::new(),
        }
    }

    /// Looks up connection `id`; fails with `ConnectionNotFound`.
    pub fn connection_end(&self, id: ConnectionId) -> (r: Result<ConnectionEnd, HandlerError>)
        ensures
            match self.conn_at(id) {
                Some(v) => r is Ok && r->Ok_0@ == v,
                None => r == Err::<ConnectionEnd, HandlerError>(HandlerError::ConnectionNotFound),
            },
    {
        if id.index < self.connections.len() as u64 {
            Ok(self.connections[id.index as usize].duplicate())
        } else {
            Err(HandlerError::ConnectionNotFound)
        }
    }

    /// Looks up the channel end bound under (`port`, `chan`); fails with
    /// `ChannelNotFound`.
    pub fn channel_end(&self, port: PortId, chan: ChannelId) -> (r: Result<ChannelEnd, HandlerError>)
        ensures
            match self.chan_at(port, chan) {
                Some(v) => r is Ok && r->Ok_0@ == v,
                None => r == Err::<ChannelEnd, HandlerError>(HandlerError::ChannelNotFound),
            },
    {
        if chan.index < self.channels.len() as u64 && self.channels[chan.index as usize].0 == port {
            Ok(self.channels[chan.index as usize].1.duplicate())
        } else {
            Err(HandlerError::ChannelNotFound)
        }
    }

    /// The position of the module registered under `module_id`.
    pub fn route_index(&self, module_id: ModuleId) -> (r: Option<usize>)
        ensures
            r is Some <==> self.has_route(module_id),
            r is Some ==> r->Some_0 < self.modules@.len() && self.modules@[r->Some_0 as int].0 == module_id,
    {
        let mut i: usize = 0;
        while i < self.modules.len()
            invariant
                i <= self.modules@.len(),
                forall|j: int| 0 <= j < i ==> module_ids(self.modules@)[j] != module_id,
            decreases self.modules@.len() - i,
        {
            if self.modules[i].0 == module_id {
                proof {
                    assert(module_ids(self.modules@)[i as int] == module_id);
                }
                return Some(i);
            }
            i = i + 1;
        }
        None
    }

    /// The module bound to `port`, if any.
    pub fn lookup_module_by_port(&self, port: PortId) -> (r: Option<ModuleId>)
        ensures
            r is Some <==> exists|i: int| 0 <= i < self.port_bindings@.len() && (#[trigger] self.port_bindings@[i]).0 == port,
            r is Some ==> exists|i: int|
                0 <= i < self.port_bindings@.len() && #[trigger] self.port_bindings@[i] == (port, r->Some_0),
    {
        let mut i: usize = 0;
        while i < self.port_bindings.len()
            invariant
                i <= self.port_bindings@.len(),
                forall|j: int| 0 <= j < i ==> (#[trigger] self.port_bindings@[j]).0 != port,
            decreases self.port_bindings@.len() - i,
        {
            if self.port_bindings[i].0 == port {
                proof {
                    assert(self.port_bindings@[i as int] == (port, self.port_bindings@[i as int].1));
                }
                return Some(self.port_bindings[i].1);
            }
            i = i + 1;
        }
        None
    }

    /// Registers `module` under `module_id` and binds `port` to it.
    pub fn bind_port(&mut self, port: PortId, module_id: ModuleId, module: M)
        ensures
            final(self).modules@ == old(self).modules@.push((module_id, module)),
            final(self).port_bindings@ == old(self).port_bindings@.push((port, module_id)),
            old(self).wf() ==> final(self).wf(),
            final(self).clients == old(self).clients,
            final(self).connections == old(self).connections,
            final(self).channels == old(self).channels,
            final(self).supported_versions == old(self).supported_versions,
    {
        self.modules.push((module_id, module));
        self.port_bindings.push((port, module_id));
        proof {
            if old(self).wf() {
                assert forall|i: int| 0 <= i < self.clients@.len() implies (#[trigger] self.clients@[i]).wf() by {
                    assert(self.clients@[i] == old(self).clients@[i]);
                }
                assert forall|i: int| 0 <= i < self.channels@.len() implies (#[trigger] self.channels@[i]).1.connection_hops@.len() > 0 by {
                    assert(self.channels@[i] == old(self).channels@[i]);
                }
            }
        }
    }

    /// Creates a client whose first consensus state is `client`'s; its id is
    /// the next position.
    pub fn create_client(&mut self, client: Client) -> (r: ClientId)
        requires
            old(self).wf(),
            client.wf(),
            old(self).clients@.len() < u64::MAX,
        ensures
            final(self).wf(),
            r.index == old(self).clients@.len(),
            final(self).clients@ == old(self).clients@.push(client),
            final(self).connections == old(self).connections,
            final(self).channels == old(self).channels,
            final(self).modules == old(self).modules,
            final(self).supported_versions == old(self).supported_versions,
    {
        let id = ClientId::new(self.clients.len() as u64);
        self.clients.push(client);
        proof {
            assert forall|i: int| 0 <= i < self.clients@.len() implies (#[trigger] self.clients@[i]).wf() by {
                if i < old(self).clients@.len() {
                    assert(self.clients@[i] == old(self).clients@[i]);
                }
            }
        }
        id
    }

    /// The commitment root of this chain's current connection and channel
    /// records, signed as `root_id`.
    pub fn commitment_root(&self, root_id: u64) -> (r: CommitmentRoot)
        ensures
            r.root_id == root_id,
            conn_views(r.connections@) == conn_views(self.connections@),
            chan_views(r.channels@) == chan_views(self.channels@),
    {
        let mut connections: Vec<ConnectionEnd> = Vec::new();
        let mut i: usize = 0;
        while i < self.connections.len()
            invariant
                i <= self.connections@.len(),
                connections@.len() == i,
                forall|j: int| 0 <= j < i ==> (#[trigger] connections@[j])@ == self.connections@[j]@,
            decreases self.connections@.len() - i,
        {
            connections.push(self.connections[i].duplicate());
            i = i + 1;
        }
        let mut channels: Vec<(PortId, ChannelEnd)> = Vec::new();
        let mut k: usize = 0;
        while k < self.channels.len()
            invariant
                k <= self.channels@.len(),
                channels@.len() == k,
                forall|j: int|
                    0 <= j < k ==> (#[trigger] channels@[j]).0 == self.channels@[j].0 && channels@[j].1@
                        == self.channels@[j].1@,
            decreases self.channels@.len() - k,
        {
            channels.push((self.channels[k].0, self.channels[k].1.duplicate()));
            k = k + 1;
        }
        proof {
            assert(conn_views(connections@) =~= conn_views(self.connections@));
            assert(chan_views(channels@) =~= chan_views(self.channels@));
        }
        CommitmentRoot { root_id, connections, channels }
    }
}

/// The connection `conn_id` as a channel step needs it: present, open, with
/// an existing client and a known counterparty connection.
pub open spec fn open_conn_check<M: Module>(ctx: Chain<M>, conn_id: ConnectionId) -> Result<ConnectionView, HandlerError> {
    match ctx.conn_at(conn_id) {
        None => Err(HandlerError::ConnectionNotFound),
        Some(conn) => if conn.state != ConnState::Open {
            Err(HandlerError::ConnectionStateMismatch)
        } else if conn.client_id.index >= ctx.clients@.len() {
            Err(HandlerError::ClientNotFound)
        } else if conn.counterparty_connection_id is None {
            Err(HandlerError::InvalidCounterparty)
        } else {
            Ok(conn)
        },
    }
}

impl<M: Module> Chain<M> {
    /// Fetches connection `conn_id` for a channel step; see `open_conn_check`.
    pub fn open_connection(&self, conn_id: ConnectionId) -> (r: Result<ConnectionEnd, HandlerError>)
        ensures
            match open_conn_check(*self, conn_id) {
                Ok(v) => r is Ok && r->Ok_0@ == v,
                Err(e) => r == Err::<ConnectionEnd, HandlerError>(e),
            },
    {
        let conn = self.connection_end(conn_id)?;
        if conn.state != ConnState::Open {
            return Err(HandlerError::ConnectionStateMismatch);
        }
        if conn.client_id.index >= self.clients.len() as u64 {
            return Err(HandlerError::ClientNotFound);
        }
        if conn.counterparty_connection_id.is_none() {
            return Err(HandlerError::InvalidCounterparty);
        }
        Ok(conn)
    }

    /// Runs the validate callback of `step` on the module at `idx`.
    pub fn module_validate(
        &self,
        idx: usize,
        step: ChanStep,
        port_id: PortId,
        chan_id: ChannelId,
        version: Version,
    ) -> (r: Result<(), ModuleError>)
        requires
            idx < self.modules@.len(),
    {
        let m = &self.modules[idx].1;
        match step {
            ChanStep::OpenInit => m.on_chan_open_init_validate(port_id, chan_id, version),
            ChanStep::OpenTry => m.on_chan_open_try_validate(port_id, chan_id, version),
            ChanStep::OpenAck => m.on_chan_open_ack_validate(port_id, chan_id, version),
            ChanStep::OpenConfirm => m.on_chan_open_confirm_validate(port_id, chan_id),
            ChanStep::CloseInit => m.on_chan_close_init_validate(port_id, chan_id),
            ChanStep::CloseConfirm => m.on_chan_close_confirm_validate(port_id, chan_id),
        }
    }

    /// Runs the execute callback of `step` on the module at `idx`; only that
    /// module may change.
    pub fn module_execute(
        &mut self,
        idx: usize,
        step: ChanStep,
        port_id: PortId,
        chan_id: ChannelId,
        version: Version,
    ) -> (r: Result<ModuleExtras, ModuleError>)
        requires
            idx < old(self).modules@.len(),
        ensures
            module_ids(final(self).modules@) == module_ids(old(self).modules@),
            final(self).clients == old(self).clients,
            final(self).connections == old(self).connections,
            final(self).channels == old(self).channels,
            final(self).port_bindings == old(self).port_bindings,
            final(self).supported_versions == old(self).supported_versions,
            final(self).events == old(self).events,
            final(self).logs == old(self).logs,
    {
        let (mid, mut m) = self.modules.remove(idx);
        let r = match step {
            ChanStep::OpenInit => m.on_chan_open_init_execute(port_id, chan_id, version),
            ChanStep::OpenTry => m.on_chan_open_try_execute(port_id, chan_id, version),
            ChanStep::OpenAck => m.on_chan_open_ack_execute(port_id, chan_id, version),
            ChanStep::OpenConfirm => m.on_chan_open_confirm_execute(port_id, chan_id),
            ChanStep::CloseInit => m.on_chan_close_init_execute(port_id, chan_id),
            ChanStep::CloseConfirm => m.on_chan_close_confirm_execute(port_id, chan_id),
        };
        self.modules.insert(idx, (mid, m));
        proof {
            assert(module_ids(self.modules@) =~= module_ids(old(self).modules@));
        }
        r
    }

    /// Emits the module's extras after the core's own event: each module event
    /// wrapped as `AppModule`, then each log line.
    pub fn emit_extras(&mut self, extras: ModuleExtras)
        ensures
            final(self).events@ == old(self).events@ + app_events(extras.events@),
            final(self).logs@ == old(self).logs@ + extras.log@,
            final(self).clients == old(self).clients,
            final(self).connections == old(self).connections,
            final(self).channels == old(self).channels,
            final(self).modules == old(self).modules,
            final(self).port_bindings == old(self).port_bindings,
            final(self).supported_versions == old(self).supported_versions,
    {
        let ModuleExtras { events, log } = extras;
        let ghost evs = events@;
        let mut events = events;
        proof {
            assert(evs.subrange(0, 0) =~= Seq::<ModuleEvent>::empty());
            assert(app_events(evs.subrange(0, 0)) =~= Seq::<IbcEvent>::empty());
            assert(old(self).events@ + app_events(evs.subrange(0, 0)) =~= old(self).events@);
            assert(evs.subrange(0, evs.len() as int) =~= evs);
        }
        while events.len() > 0
            invariant
                events@.len() <= evs.len(),
                events@ == evs.subrange(evs.len() - events@.len(), evs.len() as int),
                self.events@ == old(self).events@ + app_events(evs.subrange(0, evs.len() - events@.len())),
                self.logs == old(self).logs,
                self.clients == old(self).clients,
                self.connections == old(self).connections,
                self.channels == old(self).channels,
                self.modules == old(self).modules,
                self.port_bindings == old(self).port_bindings,
                self.supported_versions == old(self).supported_versions,
            decreases events@.len(),
        {
            let ghost c = evs.len() - events@.len();
            let e = events.remove(0);
            self.events.push(IbcEvent::AppModule(e));
            proof {
                assert(e == evs[c]);
                assert(app_events(evs.subrange(0, c + 1)) =~= app_events(evs.subrange(0, c)).push(IbcEvent::AppModule(e)));
                assert(events@ =~= evs.subrange(c + 1, evs.len() as int));
                assert(self.events@ =~= old(self).events@ + app_events(evs.subrange(0, c + 1)));
            }
        }
        proof {
            assert(evs.subrange(0, evs.len() as int) =~= evs);
        }
        let ghost lines = log@;
        let mut log = log;
        proof {
            assert(old(self).logs@ + lines.subrange(0, 0) =~= old(self).logs@);
            assert(lines.subrange(0, lines.len() as int) =~= lines);
        }
        while log.len() > 0
            invariant
                log@.len() <= lines.len(),
                log@ == lines.subrange(lines.len() - log@.len(), lines.len() as int),
                self.logs@ == old(self).logs@ + lines.subrange(0, lines.len() - log@.len()),
                self.events@ == old(self).events@ + app_events(evs),
                self.clients == old(self).clients,
                self.connections == old(self).connections,
                self.channels == old(self).channels,
                self.modules == old(self).modules,
                self.port_bindings == old(self).port_bindings,
                self.supported_versions == old(self).supported_versions,
            decreases log@.len(),
        {
            let ghost c = lines.len() - log@.len();
            let line = log.remove(0);
            self.logs.push(line);
            proof {
                assert(log@ =~= lines.subrange(c + 1, lines.len() as int));
                assert(self.logs@ =~= old(self).logs@ + lines.subrange(0, c + 1));
            }
        }
        proof {
            assert(lines.subrange(0, lines.len() as int) =~= lines);
        }
    }
}

impl<M: Module> Chain<M> {
    /// The module side of a channel step's execution, after the core's own
    /// write and event: the routed module's execute callback, then its extras.
    pub fn run_module_execute(
        &mut self,
        module_id: ModuleId,
        step: ChanStep,
        port_id: PortId,
        chan_id: ChannelId,
        version: Version,
    ) -> (r: Result<(), HandlerError>)
        requires
            old(self).has_route(module_id),
        ensures
            r is Ok ==> exists|evs: Seq<ModuleEvent>, lines: Seq<String>|
                final(self).events@ == old(self).events@ + app_events(evs) && final(self).logs@ == old(self).logs@ + lines,
            r is Err ==> r->Err_0 is ModuleExecute && final(self).events == old(self).events && final(self).logs
                == old(self).logs,
            module_ids(final(self).modules@) == module_ids(old(self).modules@),
            final(self).clients == old(self).clients,
            final(self).connections == old(self).connections,
            final(self).channels == old(self).channels,
            final(self).port_bindings == old(self).port_bindings,
            final(self).supported_versions == old(self).supported_versions,
    {
        let idx = match self.route_index(module_id) {
            Some(x) => x,
            None => {
                return Err(HandlerError::RouteNotFound);
            },
        };
        let extras = match self.module_execute(idx, step, port_id, chan_id, version) {
            Ok(x) => x,
            Err(e) => {
                return Err(HandlerError::ModuleExecute(e));
            },
        };
        let ghost evs = extras.events@;
        let ghost lines = extras.log@;
        self.emit_extras(extras);
        Ok(())
    }

    /// The module side of a channel step's validation: the routed module's
    /// validate callback; `RouteNotFound` when no module is registered.
    pub fn run_module_validate(
        &self,
        module_id: ModuleId,
        step: ChanStep,
        port_id: PortId,
        chan_id: ChannelId,
        version: Version,
    ) -> (r: Result<(), HandlerError>)
        ensures
            !self.has_route(module_id) ==> r == Err::<(), HandlerError>(HandlerError::RouteNotFound),
            r is Ok ==> self.has_route(module_id),
            r is Err ==> r->Err_0 is Module || r->Err_0 is RouteNotFound,
            self.has_route(module_id) ==> r is Ok || r->Err_0 is Module,
    {
        let idx = match self.route_index(module_id) {
            Some(x) => x,
            None => {
                return Err(HandlerError::RouteNotFound);
            },
        };
        match self.module_validate(idx, step, port_id, chan_id, version) {
            Ok(()) => Ok(()),
            Err(e) => Err(HandlerError::Module(e)),
        }
    }
}

impl<M: Module> Chain<M> {
    /// Folds `header` into client `client_id`; see `Client::update`. Fails
    /// with `ClientNotFound` for an unknown client.
    pub fn update_client(&mut self, client_id: ClientId, header: ConsensusState) -> (r: Result<(), HandlerError>)
        requires
            old(self).wf(),
        ensures
            final(self).wf(),
            final(self).connections == old(self).connections,
            final(self).channels == old(self).channels,
            final(self).modules == old(self).modules,
            final(self).port_bindings == old(self).port_bindings,
            final(self).supported_versions == old(self).supported_versions,
            final(self).events == old(self).events,
            final(self).clients@.len() == old(self).clients@.len(),
            forall|j: int| 0 <= j < old(self).clients@.len() && j != client_id.index ==> #[trigger] final(self).clients@[j] == old(self).clients@[j],
            client_id.index >= old(self).clients@.len() ==> r == Err::<(), HandlerError>(HandlerError::ClientNotFound),
            client_id.index < old(self).clients@.len() ==> ({
                let c = old(self).clients@[client_id.index as int];
                let n = final(self).clients@[client_id.index as int];
                &&& conflicts(c.consensus_states@, header.height, header.root.root_id) ==> r
                    == Err::<(), HandlerError>(HandlerError::ClientMisbehaviour) && n == c
                &&& !conflicts(c.consensus_states@, header.height, header.root.root_id) && has_height(c.consensus_states@, header.height)
                    ==> r is Ok && n == c
                &&& !has_height(c.consensus_states@, header.height) ==> r is Ok && n.consensus_states@ == c.consensus_states@.push(header)
                    && n.latest_height == height_max(c.latest_height, header.height)
            }),
    {
        if client_id.index >= self.clients.len() as u64 {
            return Err(HandlerError::ClientNotFound);
        }
        let i = client_id.index as usize;
        proof {
            assert(self.clients@[i as int].wf());
        }
        let r = self.clients[i].update(header);
        proof {
            assert forall|j: int| 0 <= j < self.clients@.len() implies (#[trigger] self.clients@[j]).wf() by {
                if j != i {
                    assert(self.clients@[j] == old(self).clients@[j]);
                }
            }
        }
        r
    }
}

} // verus!

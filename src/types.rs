use vstd::prelude::*;

verus! {

/// Identifier of a light-client instance on the local chain.
#[derive(Clone, Copy, Debug, PartialEq, Eq, Structural)]
pub struct ClientId {
    pub index: u64,
}

/// Identifier of a connection end; generated by a per-chain counter.
#[derive(Clone, Copy, Debug, PartialEq, Eq, Structural)]
pub struct ConnectionId {
    pub index: u64,
}

/// Identifier of a channel end; generated by a per-chain counter.
#[derive(Clone, Copy, Debug, PartialEq, Eq, Structural)]
pub struct ChannelId {
    pub index: u64,
}

/// Identifier of a port, bound to exactly one application module.
#[derive(Clone, Copy, Debug, PartialEq, Eq, Structural)]
pub struct PortId {
    pub index: u64,
}

/// Identifier of an application module.
#[derive(Clone, Copy, Debug, PartialEq, Eq, Structural)]
pub struct ModuleId {
    pub index: u64,
}

/// A connection version identifier.
#[derive(Clone, Copy, Debug, PartialEq, Eq, Structural)]
pub struct Version {
    pub id: u64,
}

impl ClientId {
    pub fn new(index: u64) -> (r: Self)
        ensures
            r.index == index,
    {
        ClientId { index }
    }
}

impl ConnectionId {
    pub fn new(index: u64) -> (r: Self)
        ensures
            r.index == index,
    {
        ConnectionId { index }
    }
}

impl ChannelId {
    pub fn new(index: u64) -> (r: Self)
        ensures
            r.index == index,
    {
        ChannelId { index }
    }
}

impl PortId {
    pub fn new(index: u64) -> (r: Self)
        ensures
            r.index == index,
    {
        PortId { index }
    }
}

impl ModuleId {
    pub fn new(index: u64) -> (r: Self)
        ensures
            r.index == index,
    {
        ModuleId { index }
    }
}

impl Version {
    pub fn new(id: u64) -> (r: Self)
        ensures
            r.id == id,
    {
        Version { id }
    }
}

/// A height of a remote chain: revision number, then height within it.
#[derive(Clone, Copy, Debug, PartialEq, Eq, Structural)]
pub struct Height {
    pub revision_number: u64,
    pub revision_height: u64,
}

/// The total order on heights, lexicographic over the two components.
pub open spec fn height_lt(a: Height, b: Height) -> bool {
    a.revision_number < b.revision_number || (a.revision_number == b.revision_number
        && a.revision_height < b.revision_height)
}

impl Height {
    pub fn new(revision_number: u64, revision_height: u64) -> (r: Self)
        ensures
            r.revision_number == revision_number,
            r.revision_height == revision_height,
    {
        Height { revision_number, revision_height }
    }

    pub fn lt(&self, other: &Height) -> (r: bool)
        ensures
            r == height_lt(*self, *other),
    {
        self.revision_number < other.revision_number || (self.revision_number
            == other.revision_number && self.revision_height < other.revision_height)
    }
}

/// State of a connection end.
#[derive(Clone, Copy, Debug, PartialEq, Eq, Structural)]
pub enum ConnState {
    Init,
    TryOpen,
    Open,
}

/// State of a channel end; `Closed` is terminal.
#[derive(Clone, Copy, Debug, PartialEq, Eq, Structural)]
pub enum ChanState {
    Init,
    TryOpen,
    Open,
    Closed,
}

/// Packet ordering of a channel.
#[derive(Clone, Copy, Debug, PartialEq, Eq, Structural)]
pub enum Ordering {
    Ordered,
    Unordered,
}

/// Position of a connection state in the handshake order.
pub open spec fn conn_rank(s: ConnState) -> int {
    match s {
        ConnState::Init => 0,
        ConnState::TryOpen => 1,
        ConnState::Open => 2,
    }
}

/// Position of a channel state in the handshake order.
pub open spec fn chan_rank(s: ChanState) -> int {
    match s {
        ChanState::Init => 0,
        ChanState::TryOpen => 1,
        ChanState::Open => 2,
        ChanState::Closed => 3,
    }
}

/// One side's record of a connection handshake.
#[derive(Debug)]
pub struct ConnectionEnd {
    pub state: ConnState,
    pub client_id: ClientId,
    pub counterparty_client_id: ClientId,
    pub counterparty_connection_id: Option<ConnectionId>,
    pub versions: Vec<Version>,
    pub delay_period: u64,
}

/// The mathematical value of a connection end.
pub struct ConnectionView {
    pub state: ConnState,
    pub client_id: ClientId,
    pub counterparty_client_id: ClientId,
    pub counterparty_connection_id: Option<ConnectionId>,
    pub versions: Seq<Version>,
    pub delay_period: u64,
}

impl View for ConnectionEnd {
    type V = ConnectionView;

    open spec fn view(&self) -> ConnectionView {
        ConnectionView {
            state: self.state,
            client_id: self.client_id,
            counterparty_client_id: self.counterparty_client_id,
            counterparty_connection_id: self.counterparty_connection_id,
            versions: self.versions@,
            delay_period: self.delay_period,
        }
    }
}

/// The other side of a channel as this end knows it.
#[derive(Clone, Copy, Debug, PartialEq, Eq, Structural)]
pub struct ChanCounterparty {
    pub port_id: PortId,
    pub channel_id: Option<ChannelId>,
}

/// One side's record of a channel handshake.
#[derive(Debug)]
pub struct ChannelEnd {
    pub state: ChanState,
    pub ordering: Ordering,
    pub counterparty: ChanCounterparty,
    pub connection_hops: Vec<ConnectionId>,
    pub version: Version,
}

/// The mathematical value of a channel end.
pub struct ChannelView {
    pub state: ChanState,
    pub ordering: Ordering,
    pub counterparty: ChanCounterparty,
    pub connection_hops: Seq<ConnectionId>,
    pub version: Version,
}

impl View for ChannelEnd {
    type V = ChannelView;

    open spec fn view(&self) -> ChannelView {
        ChannelView {
            state: self.state,
            ordering: self.ordering,
            counterparty: self.counterparty,
            connection_hops: self.connection_hops@,
            version: self.version,
        }
    }
}

/// Copies a sequence of plain identifiers.
pub fn copy_ids<T: Copy>(v: &Vec<T>) -> (r: Vec<T>)
    ensures
        r@ == v@,
{
    let mut r: Vec<T> = Vec::new();
    let mut i: usize = 0;
    while i < v.len()
        invariant
            i <= v.len(),
            r@ == v@.subrange(0, i as int),
        decreases v.len() - i,
    {
        r.push(v[i]);
        i = i + 1;
        proof {
            assert(r@ =~= v@.subrange(0, i as int));
        }
    }
    proof {
        assert(v@.subrange(0, v.len() as int) =~= v@);
    }
    r
}

/// Compares two version lists.
pub fn versions_equal(a: &Vec<Version>, b: &Vec<Version>) -> (r: bool)
    ensures
        r == (a@ == b@),
{
    if a.len() != b.len() {
        return false;
    }
    let mut i: usize = 0;
    while i < a.len()
        invariant
            i <= a.len(),
            a.len() == b.len(),
            forall|j: int| 0 <= j < i ==> a@[j] == b@[j],
        decreases a.len() - i,
    {
        if a[i] != b[i] {
            return false;
        }
        i = i + 1;
    }
    proof {
        assert(a@ =~= b@);
    }
    true
}

/// Compares two lists of connection hops.
pub fn hops_equal(a: &Vec<ConnectionId>, b: &Vec<ConnectionId>) -> (r: bool)
    ensures
        r == (a@ == b@),
{
    if a.len() != b.len() {
        return false;
    }
    let mut i: usize = 0;
    while i < a.len()
        invariant
            i <= a.len(),
            a.len() == b.len(),
            forall|j: int| 0 <= j < i ==> a@[j] == b@[j],
        decreases a.len() - i,
    {
        if a[i] != b[i] {
            return false;
        }
        i = i + 1;
    }
    proof {
        assert(a@ =~= b@);
    }
    true
}

fn opt_conn_eq(a: Option<ConnectionId>, b: Option<ConnectionId>) -> (r: bool)
    ensures
        r == (a == b),
{
    match (a, b) {
        (Some(x), Some(y)) => x == y,
        (None, None) => true,
        _ => false,
    }
}

fn opt_chan_eq(a: Option<ChannelId>, b: Option<ChannelId>) -> (r: bool)
    ensures
        r == (a == b),
{
    match (a, b) {
        (Some(x), Some(y)) => x == y,
        (None, None) => true,
        _ => false,
    }
}

impl ConnectionEnd {
    /// A deep copy of this end.
    pub fn duplicate(&self) -> (r: ConnectionEnd)
        ensures
            r@ == self@,
    {
        ConnectionEnd {
            state: self.state,
            client_id: self.client_id,
            counterparty_client_id: self.counterparty_client_id,
            counterparty_connection_id: self.counterparty_connection_id,
            versions: copy_ids(&self.versions),
            delay_period: self.delay_period,
        }
    }

    /// Whether two ends hold the same value.
    pub fn same_as(&self, other: &ConnectionEnd) -> (r: bool)
        ensures
            r == (self@ == other@),
    {
        self.state == other.state && self.client_id == other.client_id
            && self.counterparty_client_id == other.counterparty_client_id && opt_conn_eq(
            self.counterparty_connection_id,
            other.counterparty_connection_id,
        ) && versions_equal(&self.versions, &other.versions) && self.delay_period
            == other.delay_period
    }
}

impl ChannelEnd {
    /// A deep copy of this end.
    pub fn duplicate(&self) -> (r: ChannelEnd)
        ensures
            r@ == self@,
    {
        ChannelEnd {
            state: self.state,
            ordering: self.ordering,
            counterparty: self.counterparty,
            connection_hops: copy_ids(&self.connection_hops),
            version: self.version,
        }
    }

    /// Whether two ends hold the same value.
    pub fn same_as(&self, other: &ChannelEnd) -> (r: bool)
        ensures
            r == (self@ == other@),
    {
        self.state == other.state && self.ordering == other.ordering
            && self.counterparty.port_id == other.counterparty.port_id && opt_chan_eq(
            self.counterparty.channel_id,
            other.counterparty.channel_id,
        ) && hops_equal(&self.connection_hops, &other.connection_hops) && self.version
            == other.version
    }
}

} // verus!

verus! {

/// Failure reported by an application module's callback.
#[derive(Clone, Copy, Debug, PartialEq, Eq, Structural)]
pub struct ModuleError {
    pub code: u64,
}

/// The kinds of failure a handshake handler reports. `Module` is a module
/// rejecting a step during validation, with nothing changed; `ModuleExecute`
/// is a module failing during execution, after the core's own write.
#[derive(Clone, Copy, Debug, PartialEq, Eq, Structural)]
pub enum HandlerError {
    ClientNotFound,
    ClientMisbehaviour,
    ConnectionNotFound,
    ConnectionStateMismatch,
    ChannelNotFound,
    ChannelStateMismatch,
    ChannelClosed,
    VersionMismatch,
    ProofVerificationFailure,
    RouteNotFound,
    InvalidCounterparty,
    InvalidConnectionHops,
    IdentifierOverflow,
    Module(ModuleError),
    ModuleExecute(ModuleError),
}

} // verus!

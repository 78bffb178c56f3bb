use vstd::prelude::*;
use crate::types::{ChannelEnd, ChannelId, ChannelView, ConnectionEnd, ConnectionId, ConnectionView, HandlerError, Height, PortId, height_lt};

verus! {

/// The committed state of a remote chain at one height: its connection and
/// channel records, under a root identifier that the remote chain signs.
pub struct CommitmentRoot {
    pub root_id: u64,
    pub connections: Vec<ConnectionEnd>,
    pub channels: Vec<(PortId, ChannelEnd)>,
}

/// A consensus state: the commitment root of the remote chain at a height.
pub struct ConsensusState {
    pub height: Height,
    pub root: CommitmentRoot,
}

/// A proof relayed alongside a message: the signed root it was made under.
#[derive(Clone, Copy, Debug, PartialEq, Eq, Structural)]
pub struct CommitmentProof {
    pub root_id: u64,
}

impl CommitmentProof {
    pub fn new(root_id: u64) -> (r: Self)
        ensures
            r.root_id == root_id,
    {
        CommitmentProof { root_id }
    }
}

/// A light client tracking one remote chain: its latest height and the
/// consensus states it has accepted, at most one per height.
pub struct Client {
    pub latest_height: Height,
    pub consensus_states: Vec<ConsensusState>,
}

/// The connection record at `id` in `root` has value `v`.
pub open spec fn conn_committed(root: CommitmentRoot, id: ConnectionId, v: ConnectionView) -> bool {
    &&& id.index < root.connections@.len()
    &&& root.connections@[id.index as int]@ == v
}

/// The channel record at (`port`, `chan`) in `root` has value `v`.
pub open spec fn chan_committed(
    root: CommitmentRoot,
    port: PortId,
    chan: ChannelId,
    v: ChannelView,
) -> bool {
    &&& chan.index < root.channels@.len()
    &&& root.channels@[chan.index as int].0 == port
    &&& root.channels@[chan.index as int].1@ == v
}

/// `cs` is the consensus state at exactly height `h` and `proof` was made
/// under its root.
pub open spec fn proof_matches(cs: ConsensusState, h: Height, proof: CommitmentProof) -> bool {
    cs.height == h && cs.root.root_id == proof.root_id
}

/// `proof` at height `h` shows, through client `c`, connection `id` with value `v`.
pub open spec fn conn_verified(
    c: Client,
    h: Height,
    proof: CommitmentProof,
    id: ConnectionId,
    v: ConnectionView,
) -> bool {
    exists|i: int|
        0 <= i < c.consensus_states@.len() && proof_matches(#[trigger] c.consensus_states@[i], h, proof)
            && conn_committed(c.consensus_states@[i].root, id, v)
}

/// `proof` at height `h` shows, through client `c`, channel (`port`, `chan`) with value `v`.
pub open spec fn chan_verified(
    c: Client,
    h: Height,
    proof: CommitmentProof,
    port: PortId,
    chan: ChannelId,
    v: ChannelView,
) -> bool {
    exists|i: int|
        0 <= i < c.consensus_states@.len() && proof_matches(#[trigger] c.consensus_states@[i], h, proof)
            && chan_committed(c.consensus_states@[i].root, port, chan, v)
}

/// `proof` at height `h` shows, through client `c`, that no connection is
/// stored under `id`.
pub open spec fn conn_absence_verified(c: Client, h: Height, proof: CommitmentProof, id: ConnectionId) -> bool {
    exists|i: int|
        0 <= i < c.consensus_states@.len() && proof_matches(#[trigger] c.consensus_states@[i], h, proof)
            && id.index >= c.consensus_states@[i].root.connections@.len()
}

/// The heights of `s` are pairwise distinct.
pub open spec fn heights_unique(s: Seq<ConsensusState>) -> bool {
    forall|i: int, j: int|
        0 <= i < s.len() && 0 <= j < s.len() && i != j ==> #[trigger] s[i].height != #[trigger] s[j].height
}

/// Some consensus state of `s` sits at height `h`.
pub open spec fn has_height(s: Seq<ConsensusState>, h: Height) -> bool {
    exists|i: int| 0 <= i < s.len() && #[trigger] s[i].height == h
}

/// Some consensus state of `s` sits at height `h` with another root than `root_id`.
pub open spec fn conflicts(s: Seq<ConsensusState>, h: Height, root_id: u64) -> bool {
    exists|i: int| 0 <= i < s.len() && #[trigger] s[i].height == h && s[i].root.root_id != root_id
}

/// The larger of two heights.
pub open spec fn height_max(a: Height, b: Height) -> Height {
    if height_lt(a, b) {
        b
    } else {
        a
    }
}

impl Client {
    /// Consensus states are unique per height.
    pub open spec fn wf(&self) -> bool {
        heights_unique(self.consensus_states@)
    }

    /// A client whose first consensus state is `initial`.
    pub fn new(initial: ConsensusState) -> (r: Client)
        ensures
            r.wf(),
            r.latest_height == initial.height,
            r.consensus_states@ == seq![initial],
    {
        let h = initial.height;
        let mut consensus_states: Vec<ConsensusState> = Vec::new();
        consensus_states.push(initial);
        Client { latest_height: h, consensus_states }
    }

    /// Folds a new consensus state into the client. A second state at a height
    /// already held, with another root, is misbehaviour; the same root again
    /// changes nothing; otherwise the state is appended.
    pub fn update(&mut self, header: ConsensusState) -> (r: Result<(), HandlerError>)
        requires
            old(self).wf(),
        ensures
            final(self).wf(),
            conflicts(old(self).consensus_states@, header.height, header.root.root_id) ==> r
                == Err::<(), HandlerError>(HandlerError::ClientMisbehaviour) && *final(self)
                == *old(self),
            !conflicts(old(self).consensus_states@, header.height, header.root.root_id) && has_height(
                old(self).consensus_states@,
                header.height,
            ) ==> r is Ok && *final(self) == *old(self),
            !has_height(old(self).consensus_states@, header.height) ==> r is Ok
                && final(self).consensus_states@ == old(self).consensus_states@.push(header)
                && final(self).latest_height == height_max(old(self).latest_height, header.height),
    {
        let mut i: usize = 0;
        while i < self.consensus_states.len()
            invariant
                i <= self.consensus_states@.len(),
                self.wf(),
                *self == *old(self),
                forall|j: int| 0 <= j < i ==> #[trigger] self.consensus_states@[j].height != header.height,
            decreases self.consensus_states@.len() - i,
        {
            if self.consensus_states[i].height == header.height {
                if self.consensus_states[i].root.root_id == header.root.root_id {
                    proof {
                        assert forall|j: int|
                            0 <= j < self.consensus_states@.len() && #[trigger] self.consensus_states@[j].height
                                == header.height implies self.consensus_states@[j].root.root_id
                            == header.root.root_id by {
                            if j != i {
                                assert(self.consensus_states@[i as int].height != self.consensus_states@[j].height);
                            }
                        }
                        assert(self.consensus_states@[i as int].height == header.height);
                    }
                    return Ok(());
                } else {
                    proof {
                        assert(self.consensus_states@[i as int].height == header.height);
                    }
                    return Err(HandlerError::ClientMisbehaviour);
                }
            }
            i = i + 1;
        }
        if self.latest_height.lt(&header.height) {
            self.latest_height = header.height;
        }
        self.consensus_states.push(header);
        Ok(())
    }

    /// Checks that `proof` at height `proof_height` shows no connection under
    /// `id`; fails with `ProofVerificationFailure` otherwise.
    pub fn verify_connection_absence(&self, proof_height: Height, proof: CommitmentProof, id: ConnectionId) -> (r: Result<(), HandlerError>)
        ensures
            r is Ok <==> conn_absence_verified(*self, proof_height, proof, id),
            r is Err ==> r == Err::<(), HandlerError>(HandlerError::ProofVerificationFailure),
    {
        let mut i: usize = 0;
        while i < self.consensus_states.len()
            invariant
                i <= self.consensus_states@.len(),
                forall|j: int|
                    0 <= j < i ==> !(proof_matches(#[trigger] self.consensus_states@[j], proof_height, proof)
                        && id.index >= self.consensus_states@[j].root.connections@.len()),
            decreases self.consensus_states@.len() - i,
        {
            let cs = &self.consensus_states[i];
            if cs.height == proof_height && cs.root.root_id == proof.root_id && id.index >= cs.root.connections.len() as u64 {
                proof {
                    assert(proof_matches(self.consensus_states@[i as int], proof_height, proof));
                }
                return Ok(());
            }
            i = i + 1;
        }
        Err(HandlerError::ProofVerificationFailure)
    }

    /// Checks that `proof` at height `proof_height` shows connection `id` with
    /// the value `expected`; fails with `ProofVerificationFailure` otherwise.
    pub fn verify_connection(
        &self,
        proof_height: Height,
        proof: CommitmentProof,
        id: ConnectionId,
        expected: &ConnectionEnd,
    ) -> (r: Result<(), HandlerError>)
        ensures
            r is Ok <==> conn_verified(*self, proof_height, proof, id, expected@),
            r is Err ==> r == Err::<(), HandlerError>(HandlerError::ProofVerificationFailure),
    {
        let mut i: usize = 0;
        while i < self.consensus_states.len()
            invariant
                i <= self.consensus_states@.len(),
                forall|j: int|
                    0 <= j < i ==> !(proof_matches(#[trigger] self.consensus_states@[j], proof_height, proof)
                        && conn_committed(self.consensus_states@[j].root, id, expected@)),
            decreases self.consensus_states@.len() - i,
        {
            let cs = &self.consensus_states[i];
            if cs.height == proof_height && cs.root.root_id == proof.root_id {
                let k = id.index as usize;
                if id.index < cs.root.connections.len() as u64 && cs.root.connections[k].same_as(expected) {
                    proof {
                        assert(proof_matches(self.consensus_states@[i as int], proof_height, proof));
                    }
                    return Ok(());
                }
            }
            i = i + 1;
        }
        Err(HandlerError::ProofVerificationFailure)
    }

    /// Checks that `proof` at height `proof_height` shows channel (`port`,
    /// `chan`) with the value `expected`; fails with `ProofVerificationFailure`
    /// otherwise.
    pub fn verify_channel(
        &self,
        proof_height: Height,
        proof: CommitmentProof,
        port: PortId,
        chan: ChannelId,
        expected: &ChannelEnd,
    ) -> (r: Result<(), HandlerError>)
        ensures
            r is Ok <==> chan_verified(*self, proof_height, proof, port, chan, expected@),
            r is Err ==> r == Err::<(), HandlerError>(HandlerError::ProofVerificationFailure),
    {
        let mut i: usize = 0;
        while i < self.consensus_states.len()
            invariant
                i <= self.consensus_states@.len(),
                forall|j: int|
                    0 <= j < i ==> !(proof_matches(#[trigger] self.consensus_states@[j], proof_height, proof)
                        && chan_committed(self.consensus_states@[j].root, port, chan, expected@)),
            decreases self.consensus_states@.len() - i,
        {
            let cs = &self.consensus_states[i];
            if cs.height == proof_height && cs.root.root_id == proof.root_id {
                let k = chan.index as usize;
                if chan.index < cs.root.channels.len() as u64 && cs.root.channels[k].0 == port
                    && cs.root.channels[k].1.same_as(expected) {
                    proof {
                        assert(proof_matches(self.consensus_states@[i as int], proof_height, proof));
                    }
                    return Ok(());
                }
            }
            i = i + 1;
        }
        Err(HandlerError::ProofVerificationFailure)
    }
}

/// An honestly committed connection value is accepted: a proof made under
/// the root of the consensus state at `h` shows the value stored there.
pub proof fn lemma_honest_connection_accepted(c: Client, i: int, id: ConnectionId)
    requires
        0 <= i < c.consensus_states@.len(),
        id.index < c.consensus_states@[i].root.connections@.len(),
    ensures
        conn_verified(
            c,
            c.consensus_states@[i].height,
            CommitmentProof { root_id: c.consensus_states@[i].root.root_id },
            id,
            c.consensus_states@[i].root.connections@[id.index as int]@,
        ),
{
    assert(proof_matches(
        c.consensus_states@[i],
        c.consensus_states@[i].height,
        CommitmentProof { root_id: c.consensus_states@[i].root.root_id },
    ));
}

/// A mutated value is rejected: against the consensus state at `h`, a proof
/// shows no other value at the committed path than the one stored there.
pub proof fn lemma_mutated_connection_rejected(c: Client, i: int, id: ConnectionId, v: ConnectionView)
    requires
        c.wf(),
        0 <= i < c.consensus_states@.len(),
        id.index < c.consensus_states@[i].root.connections@.len(),
        v != c.consensus_states@[i].root.connections@[id.index as int]@,
    ensures
        !conn_verified(
            c,
            c.consensus_states@[i].height,
            CommitmentProof { root_id: c.consensus_states@[i].root.root_id },
            id,
            v,
        ),
{
    let h = c.consensus_states@[i].height;
    let p = CommitmentProof { root_id: c.consensus_states@[i].root.root_id };
    assert forall|j: int| 0 <= j < c.consensus_states@.len() && proof_matches(#[trigger] c.consensus_states@[j], h, p)
        implies !conn_committed(c.consensus_states@[j].root, id, v) by {
        if j != i {
            assert(c.consensus_states@[i].height != c.consensus_states@[j].height);
        }
    }
}

/// A mutated path is rejected where the root holds another value, or none,
/// at the mutated path.
pub proof fn lemma_mutated_path_rejected(c: Client, i: int, id: ConnectionId, other: ConnectionId, v: ConnectionView)
    requires
        c.wf(),
        0 <= i < c.consensus_states@.len(),
        !conn_committed(c.consensus_states@[i].root, other, v),
    ensures
        !conn_verified(
            c,
            c.consensus_states@[i].height,
            CommitmentProof { root_id: c.consensus_states@[i].root.root_id },
            other,
            v,
        ),
{
    let h = c.consensus_states@[i].height;
    let p = CommitmentProof { root_id: c.consensus_states@[i].root.root_id };
    assert forall|j: int| 0 <= j < c.consensus_states@.len() && proof_matches(#[trigger] c.consensus_states@[j], h, p)
        implies !conn_committed(c.consensus_states@[j].root, other, v) by {
        if j != i {
            assert(c.consensus_states@[i].height != c.consensus_states@[j].height);
        }
    }
}

/// A proof at a height where the client holds no consensus state under the
/// proof's root (a wrong height, or a tampered proof) shows nothing, for any
/// connection or channel path and value.
pub proof fn lemma_unrooted_proof_rejected(
    c: Client,
    h: Height,
    proof: CommitmentProof,
    id: ConnectionId,
    v: ConnectionView,
    port: PortId,
    chan: ChannelId,
    w: ChannelView,
)
    requires
        forall|j: int| 0 <= j < c.consensus_states@.len() ==> !proof_matches(#[trigger] c.consensus_states@[j], h, proof),
    ensures
        !conn_verified(c, h, proof, id, v),
        !chan_verified(c, h, proof, port, chan, w),
{
}

} // verus!

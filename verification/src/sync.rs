use vstd::prelude::*;
use vstd::string::*;
use crate::descriptor::NodeDescriptor;

verus! {

/// What has happened to one node in one phase of a broadcast.
pub enum NodeSyncStatus {
    /// The node has not been reached in this phase.
    Pending,
    /// The node failed its liveness probe and was passed over: an
    /// unreachable node never counts as a failure.
    Skipped,
    /// The node accepted the call.
    Succeeded,
    /// The node rejected the call or the transport failed.
    Failed,
}

/// Where a broadcast stands. The forward phase walks the nodes in listing
/// order; the first failure switches to the rollback phase, which walks
/// every node again with the compensating delete.
pub enum SyncPhase {
    /// Probe the node at the forward cursor.
    ForwardProbe,
    /// The node at the forward cursor is alive: send it the create call.
    ForwardCreate,
    /// Probe the node at the rollback cursor.
    RollbackProbe,
    /// The node at the rollback cursor is alive: send it the delete call.
    RollbackCall,
    /// Every node succeeded or was skipped: the stream is synced.
    Synced,
    /// The broadcast failed and the compensating delete reached (or
    /// skipped) every node.
    RolledBack,
    /// A compensating delete itself failed: the cluster needs an operator.
    RollbackFailed,
}

/// The next piece of outside work the driver must perform.
pub enum SyncAction {
    /// Probe the liveness endpoint of the node at this index.
    Probe(usize),
    /// Send the stream-create call to the node at this index.
    Create(usize),
    /// Send the compensating delete to the node at this index.
    Rollback(usize),
    /// The broadcast is over; read the result.
    Finished,
}

/// How a finished broadcast ended.
pub enum SyncResult {
    /// Every node succeeded or was skipped as unreachable.
    Synced,
    /// A node failed; the rollback reached or skipped every node. The
    /// stream was not created.
    RolledBack,
    /// A node failed and then a rollback call failed too: the cluster is
    /// left inconsistent.
    RollbackFailed,
}

pub open spec fn attempted_ok(s: NodeSyncStatus) -> bool {
    s is Skipped || s is Succeeded
}

/// One stream-creation broadcast across a fixed membership snapshot,
/// stepped from outside: the driver asks for the next action, performs the
/// network call, and reports what came back. The saga itself — strict
/// listing order, skip unreachable nodes, halt on first failure, then the
/// deliberately blunt rollback to every node — lives here, verified.
pub struct SyncCoordinator {
    pub nodes: Vec<NodeDescriptor>,
    pub forward: Vec<NodeSyncStatus>,
    pub rollback: Vec<NodeSyncStatus>,
    pub idx: usize,
    pub rb_idx: usize,
    pub phase: SyncPhase,
}

impl SyncCoordinator {
    pub open spec fn n(self) -> int {
        self.nodes@.len() as int
    }

    pub open spec fn forward_prefix_ok(self, upto: int) -> bool {
        forall|j: int| 0 <= j < upto ==> attempted_ok(#[trigger] self.forward@[j])
    }

    pub open spec fn forward_rest_pending(self, from: int) -> bool {
        forall|j: int| from <= j < self.n() ==> (#[trigger] self.forward@[j]) is Pending
    }

    pub open spec fn rollback_prefix_ok(self, upto: int) -> bool {
        forall|j: int| 0 <= j < upto ==> attempted_ok(#[trigger] self.rollback@[j])
    }

    pub open spec fn rollback_rest_pending(self, from: int) -> bool {
        forall|j: int| from <= j < self.n() ==> (#[trigger] self.rollback@[j]) is Pending
    }

    /// A forward failure is on record at the forward cursor and nothing
    /// past the cursor was ever attempted.
    pub open spec fn failed_at_cursor(self) -> bool {
        &&& self.idx < self.n()
        &&& self.forward@[self.idx as int] is Failed
        &&& self.forward_prefix_ok(self.idx as int)
        &&& self.forward_rest_pending(self.idx + 1)
    }

    pub open spec fn wf(self) -> bool {
        &&& self.forward@.len() == self.n()
        &&& self.rollback@.len() == self.n()
        &&& match self.phase {
            SyncPhase::ForwardProbe | SyncPhase::ForwardCreate => {
                &&& self.idx < self.n()
                &&& self.forward_prefix_ok(self.idx as int)
                &&& self.forward_rest_pending(self.idx as int)
                &&& self.rb_idx == 0
                &&& self.rollback_rest_pending(0)
            },
            SyncPhase::RollbackProbe | SyncPhase::RollbackCall => {
                &&& self.failed_at_cursor()
                &&& self.rb_idx < self.n()
                &&& self.rollback_prefix_ok(self.rb_idx as int)
                &&& self.rollback_rest_pending(self.rb_idx as int)
            },
            SyncPhase::Synced => {
                &&& self.idx == self.n()
                &&& self.forward_prefix_ok(self.n())
                &&& self.rb_idx == 0
                &&& self.rollback_rest_pending(0)
            },
            SyncPhase::RolledBack => {
                &&& self.failed_at_cursor()
                &&& self.rb_idx == self.n()
                &&& self.rollback_prefix_ok(self.n())
            },
            SyncPhase::RollbackFailed => {
                &&& self.failed_at_cursor()
                &&& self.rb_idx < self.n()
                &&& self.rollback_prefix_ok(self.rb_idx as int)
                &&& self.rollback@[self.rb_idx as int] is Failed
                &&& self.rollback_rest_pending(self.rb_idx + 1)
            },
        }
    }

    pub open spec fn is_finished(self) -> bool {
        self.phase is Synced || self.phase is RolledBack || self.phase is RollbackFailed
    }

    /// Start a broadcast over the membership snapshot. An empty snapshot is
    /// vacuously synced.
    pub fn new(nodes: Vec<NodeDescriptor>) -> (r: SyncCoordinator)
        ensures
            r.wf(),
            r.nodes@ == nodes@,
            r.idx == 0,
            r.rb_idx == 0,
            r.forward_rest_pending(0),
            r.rollback_rest_pending(0),
            nodes@.len() == 0 ==> r.phase is Synced,
            nodes@.len() > 0 ==> r.phase is ForwardProbe,
    {
        let n = nodes.len();
        let mut forward: Vec<NodeSyncStatus> = Vec::new();
        let mut rollback: Vec<NodeSyncStatus> = Vec::new();
        let mut i: usize = 0;
        while i < n
            invariant
                i <= n,
                forward@.len() == i,
                rollback@.len() == i,
                forall|j: int| 0 <= j < i ==> (#[trigger] forward@[j]) is Pending,
                forall|j: int| 0 <= j < i ==> (#[trigger] rollback@[j]) is Pending,
            decreases n - i,
        {
            forward.push(NodeSyncStatus::Pending);
            rollback.push(NodeSyncStatus::Pending);
            i += 1;
        }
        let phase = if n == 0 {
            SyncPhase::Synced
        } else {
            SyncPhase::ForwardProbe
        };
        SyncCoordinator { nodes, forward, rollback, idx: 0, rb_idx: 0, phase }
    }

    /// What the driver must do next, a pure reading of the current phase.
    pub fn next_action(&self) -> (r: SyncAction)
        requires
            self.wf(),
        ensures
            match self.phase {
                SyncPhase::ForwardProbe => r == SyncAction::Probe(self.idx),
                SyncPhase::ForwardCreate => r == SyncAction::Create(self.idx),
                SyncPhase::RollbackProbe => r == SyncAction::Probe(self.rb_idx),
                SyncPhase::RollbackCall => r == SyncAction::Rollback(self.rb_idx),
                _ => r == SyncAction::Finished,
            },
    {
        match self.phase {
            SyncPhase::ForwardProbe => SyncAction::Probe(self.idx),
            SyncPhase::ForwardCreate => SyncAction::Create(self.idx),
            SyncPhase::RollbackProbe => SyncAction::Probe(self.rb_idx),
            SyncPhase::RollbackCall => SyncAction::Rollback(self.rb_idx),
            _ => SyncAction::Finished,
        }
    }

    /// Record a liveness probe answer for the node the cursor points at.
    /// A dead node is skipped — never a failure — and the walk moves on.
    pub fn on_probe(&mut self, alive: bool)
        requires
            old(self).wf(),
            old(self).phase is ForwardProbe || old(self).phase is RollbackProbe,
        ensures
            final(self).wf(),
            final(self).nodes@ == old(self).nodes@,
            old(self).phase is ForwardProbe ==> final(self).rollback@ == old(self).rollback@
                && final(self).rb_idx == old(self).rb_idx,
            old(self).phase is RollbackProbe ==> final(self).forward@ == old(self).forward@
                && final(self).idx == old(self).idx,
            match old(self).phase {
                SyncPhase::ForwardProbe => {
                    if alive {
                        final(self).phase is ForwardCreate && final(self).forward@ == old(
                            self,
                        ).forward@ && final(self).idx == old(self).idx
                    } else {
                        &&& final(self).forward@ == old(self).forward@.update(
                            old(self).idx as int,
                            NodeSyncStatus::Skipped,
                        )
                        &&& final(self).idx == old(self).idx + 1
                        &&& if old(self).idx + 1 == old(self).n() {
                            final(self).phase is Synced
                        } else {
                            final(self).phase is ForwardProbe
                        }
                    }
                },
                SyncPhase::RollbackProbe => {
                    if alive {
                        final(self).phase is RollbackCall && final(self).rollback@ == old(
                            self,
                        ).rollback@ && final(self).rb_idx == old(self).rb_idx
                    } else {
                        &&& final(self).rollback@ == old(self).rollback@.update(
                            old(self).rb_idx as int,
                            NodeSyncStatus::Skipped,
                        )
                        &&& final(self).rb_idx == old(self).rb_idx + 1
                        &&& if old(self).rb_idx + 1 == old(self).n() {
                            final(self).phase is RolledBack
                        } else {
                            final(self).phase is RollbackProbe
                        }
                    }
                },
                _ => false,
            },
    {
        let n = self.nodes.len();
        match self.phase {
            SyncPhase::ForwardProbe => {
                if alive {
                    self.phase = SyncPhase::ForwardCreate;
                } else {
                    self.forward[self.idx] = NodeSyncStatus::Skipped;
                    self.idx += 1;
                    if self.idx == n {
                        self.phase = SyncPhase::Synced;
                    }
                }
            },
            SyncPhase::RollbackProbe => {
                if alive {
                    self.phase = SyncPhase::RollbackCall;
                } else {
                    self.rollback[self.rb_idx] = NodeSyncStatus::Skipped;
                    self.rb_idx += 1;
                    if self.rb_idx == n {
                        self.phase = SyncPhase::RolledBack;
                    }
                }
            },
            _ => {
            },
        }
    }

    /// Record the outcome of a create call. Success moves the walk on; the
    /// first failure halts the forward phase at once — later nodes are not
    /// attempted — and opens the rollback walk at the start of the list.
    pub fn on_create_result(&mut self, ok: bool)
        requires
            old(self).wf(),
            old(self).phase is ForwardCreate,
        ensures
            final(self).wf(),
            final(self).nodes@ == old(self).nodes@,
            final(self).rollback@ == old(self).rollback@,
            final(self).rb_idx == 0,
            if ok {
                &&& final(self).forward@ == old(self).forward@.update(
                    old(self).idx as int,
                    NodeSyncStatus::Succeeded,
                )
                &&& final(self).idx == old(self).idx + 1
                &&& if old(self).idx + 1 == old(self).n() {
                    final(self).phase is Synced
                } else {
                    final(self).phase is ForwardProbe
                }
            } else {
                &&& final(self).forward@ == old(self).forward@.update(
                    old(self).idx as int,
                    NodeSyncStatus::Failed,
                )
                &&& final(self).idx == old(self).idx
                &&& final(self).phase is RollbackProbe
            },
    {
        let n = self.nodes.len();
        if ok {
            self.forward[self.idx] = NodeSyncStatus::Succeeded;
            self.idx += 1;
            if self.idx == n {
                self.phase = SyncPhase::Synced;
            } else {
                self.phase = SyncPhase::ForwardProbe;
            }
        } else {
            self.forward[self.idx] = NodeSyncStatus::Failed;
            self.phase = SyncPhase::RollbackProbe;
        }
    }

    /// Record the outcome of a compensating delete. A rollback failure is
    /// fatal on the spot: the broadcast ends inconsistent, for an operator.
    pub fn on_rollback_result(&mut self, ok: bool)
        requires
            old(self).wf(),
            old(self).phase is RollbackCall,
        ensures
            final(self).wf(),
            final(self).nodes@ == old(self).nodes@,
            final(self).forward@ == old(self).forward@,
            final(self).idx == old(self).idx,
            if ok {
                &&& final(self).rollback@ == old(self).rollback@.update(
                    old(self).rb_idx as int,
                    NodeSyncStatus::Succeeded,
                )
                &&& final(self).rb_idx == old(self).rb_idx + 1
                &&& if old(self).rb_idx + 1 == old(self).n() {
                    final(self).phase is RolledBack
                } else {
                    final(self).phase is RollbackProbe
                }
            } else {
                &&& final(self).rollback@ == old(self).rollback@.update(
                    old(self).rb_idx as int,
                    NodeSyncStatus::Failed,
                )
                &&& final(self).rb_idx == old(self).rb_idx
                &&& final(self).phase is RollbackFailed
            },
    {
        let n = self.nodes.len();
        if ok {
            self.rollback[self.rb_idx] = NodeSyncStatus::Succeeded;
            self.rb_idx += 1;
            if self.rb_idx == n {
                self.phase = SyncPhase::RolledBack;
            } else {
                self.phase = SyncPhase::RollbackProbe;
            }
        } else {
            self.rollback[self.rb_idx] = NodeSyncStatus::Failed;
            self.phase = SyncPhase::RollbackFailed;
        }
    }

    /// Read the result of a finished broadcast.
    pub fn result(&self) -> (r: SyncResult)
        requires
            self.wf(),
            self.is_finished(),
        ensures
            self.phase is Synced <==> r is Synced,
            self.phase is RolledBack <==> r is RolledBack,
            self.phase is RollbackFailed <==> r is RollbackFailed,
    {
        match self.phase {
            SyncPhase::Synced => SyncResult::Synced,
            SyncPhase::RolledBack => SyncResult::RolledBack,
            _ => SyncResult::RollbackFailed,
        }
    }

    /// The address a forward create call goes to: the node's advertised
    /// address followed by the stream path.
    pub fn create_url(&self, i: usize, stream_name: &str) -> (r: String)
        requires
            i < self.nodes@.len(),
        ensures
            r@ == self.nodes@[i as int]@.domain_name + "api/v1/logstream/"@ + stream_name@,
    {
        let mut url = self.nodes[i].domain_name.clone();
        url.append("api/v1/logstream/");
        url.append(stream_name);
        url
    }
}

/// A broadcast that reports success reports it honestly: every node either
/// accepted the stream or was skipped as unreachable — no node failed — and
/// not one compensating delete was sent.
pub proof fn lemma_synced_no_failure_no_rollback(c: SyncCoordinator)
    requires
        c.wf(),
        c.phase is Synced,
    ensures
        forall|j: int| 0 <= j < c.n() ==> attempted_ok(#[trigger] c.forward@[j]),
        forall|j: int| 0 <= j < c.n() ==> (#[trigger] c.rollback@[j]) is Pending,
{
}

/// While the broadcast is still walking forward — and when it ends
/// synced — no failure is on record and no compensating delete has been
/// issued: skipping an unreachable node never counts as a failure, so a
/// broadcast whose reachable nodes all succeed ends synced, whatever the
/// node count.
pub proof fn lemma_forward_never_failed(c: SyncCoordinator)
    requires
        c.wf(),
        c.phase is ForwardProbe || c.phase is ForwardCreate || c.phase is Synced,
    ensures
        forall|j: int| 0 <= j < c.n() ==> !((#[trigger] c.forward@[j]) is Failed),
        forall|j: int| 0 <= j < c.n() ==> (#[trigger] c.rollback@[j]) is Pending,
{
}

/// A broadcast that did not sync halted at its first failure: the failing
/// node is on record at the cursor, every node before it was attempted, and
/// no node after it was ever sent the create call.
pub proof fn lemma_failure_halts_forward(c: SyncCoordinator)
    requires
        c.wf(),
        c.phase is RolledBack || c.phase is RollbackFailed,
    ensures
        c.forward@[c.idx as int] is Failed,
        forall|j: int| 0 <= j < c.idx ==> attempted_ok(#[trigger] c.forward@[j]),
        forall|j: int| c.idx < j < c.n() ==> (#[trigger] c.forward@[j]) is Pending,
{
}

/// The rollback is deliberately blunt: once a broadcast fails and rolls
/// back, the compensating delete was directed at every node in the original
/// listing — attempted ones and untouched ones alike.
pub proof fn lemma_rollback_reaches_all(c: SyncCoordinator)
    requires
        c.wf(),
        c.phase is RolledBack,
    ensures
        forall|j: int| 0 <= j < c.n() ==> attempted_ok(#[trigger] c.rollback@[j]),
{
}

} // verus!

//! The pipeline core: the two bounded queues and the state machine that
//! the network loops drive. Readers feed decoded commands in through
//! `on_line`, the tick task calls `tick`, and the broadcaster drains
//! `next_broadcast` and reports write failures back.
//!
//! Neither queue can block this core: a full command queue hands the
//! command back to the caller (which is how backpressure reaches only the
//! offending client's own read loop), and a full snapshot queue coalesces
//! by replacing its newest entry, so the simulation always makes progress.

use vstd::prelude::*;
use crate::codec;
use crate::game::{apply_all, spec_apply, GameState};
use crate::message::{ClientCommand, PlayerState};
use crate::registry::Registry;

verus! {

/// Capacity of the command queue (readers -> simulation).
pub const CMD_QUEUE_CAP: usize = 256;

/// Capacity of the snapshot queue (simulation -> broadcaster).
pub const SNAP_QUEUE_CAP: usize = 256;

/// Bounded FIFO of commands, each tagged with its originating connection.
pub struct CommandQueue {
    pub items: Vec<(u64, ClientCommand)>,
}

impl CommandQueue {
    pub open spec fn model(self) -> Seq<(u64, ClientCommand)> {
        self.items@
    }

    pub open spec fn wf(self) -> bool {
        self.items@.len() <= CMD_QUEUE_CAP
    }

    pub fn new() -> (r: CommandQueue)
        ensures
            r.wf(),
            r.model().len() == 0,
    {
        CommandQueue { items: Vec::new() }
    }

    /// Append unless full. A full queue hands the command back unchanged
    /// so the caller can hold it and retry: the queue never blocks and
    /// never drops a valid command.
    pub fn try_push(&mut self, origin: u64, cmd: ClientCommand) -> (rejected: Option<ClientCommand>)
        requires
            old(self).wf(),
        ensures
            final(self).wf(),
            match rejected {
                None => {
                    &&& old(self).model().len() < CMD_QUEUE_CAP
                    &&& final(self).model() == old(self).model().push((origin, cmd))
                },
                Some(c) => {
                    &&& old(self).model().len() == CMD_QUEUE_CAP
                    &&& c == cmd
                    &&& *final(self) == *old(self)
                },
            },
    {
        if self.items.len() < CMD_QUEUE_CAP {
            self.items.push((origin, cmd));
            None
        } else {
            Some(cmd)
        }
    }

    /// Remove and return the oldest entry, if any.
    pub fn pop_front(&mut self) -> (r: Option<(u64, ClientCommand)>)
        requires
            old(self).wf(),
        ensures
            final(self).wf(),
            match r {
                Some(e) => {
                    &&& old(self).model().len() > 0
                    &&& e == old(self).model()[0]
                    &&& final(self).model() == old(self).model().drop_first()
                },
                None => {
                    &&& old(self).model().len() == 0
                    &&& *final(self) == *old(self)
                },
            },
    {
        if self.items.len() == 0 {
            None
        } else {
            let e = self.items.remove(0);
            proof {
                assert(self.model() =~= old(self).model().drop_first());
            }
            Some(e)
        }
    }

    pub fn len(&self) -> (r: usize)
        ensures
            r == self.model().len(),
    {
        self.items.len()
    }
}

/// Bounded FIFO of snapshots with a coalescing producer: pushing into a
/// full queue replaces the newest queued snapshot instead of blocking,
/// so a stalled consumer slows delivery, never the simulation.
pub struct SnapshotQueue {
    pub items: Vec<Vec<PlayerState>>,
}

impl SnapshotQueue {
    pub open spec fn model(self) -> Seq<Seq<PlayerState>> {
        Seq::new(self.items@.len(), |i: int| self.items@[i]@)
    }

    /// Bounded, and every queued snapshot holds only well-formed players
    /// (so it can always be serialized).
    pub open spec fn wf(self) -> bool {
        &&& self.items@.len() <= SNAP_QUEUE_CAP
        &&& forall|i: int, j: int|
            0 <= i < self.items@.len() && 0 <= j < self.items@[i]@.len()
                ==> (#[trigger] self.items@[i]@[j]).wf()
    }

    pub fn new() -> (r: SnapshotQueue)
        ensures
            r.wf(),
            r.model().len() == 0,
    {
        SnapshotQueue { items: Vec::new() }
    }

    /// Enqueue a snapshot. Never fails: when full, the newest queued
    /// snapshot is replaced by this one (coalescing), keeping the latest
    /// world visible while older queued snapshots still drain in order.
    pub fn push_coalesce(&mut self, snap: Vec<PlayerState>)
        requires
            old(self).wf(),
            forall|j: int| 0 <= j < snap@.len() ==> (#[trigger] snap@[j]).wf(),
        ensures
            final(self).wf(),
            final(self).model().len() >= 1,
            old(self).model().len() < SNAP_QUEUE_CAP
                ==> final(self).model() == old(self).model().push(snap@),
            old(self).model().len() == SNAP_QUEUE_CAP
                ==> final(self).model() == old(self).model().drop_last().push(snap@),
            final(self).model().last() == snap@,
    {
        if self.items.len() == SNAP_QUEUE_CAP {
            self.items.pop();
        }
        self.items.push(snap);
        proof {
            if old(self).model().len() < SNAP_QUEUE_CAP {
                assert(final(self).model() =~= old(self).model().push(snap@));
            } else {
                assert(final(self).model() =~= old(self).model().drop_last().push(snap@));
            }
        }
    }

    /// Remove and return the oldest snapshot, if any.
    pub fn pop_front(&mut self) -> (r: Option<Vec<PlayerState>>)
        requires
            old(self).wf(),
        ensures
            final(self).wf(),
            match r {
                Some(s) => {
                    &&& old(self).model().len() > 0
                    &&& s@ == old(self).model()[0]
                    &&& final(self).model() == old(self).model().drop_first()
                },
                None => {
                    &&& old(self).model().len() == 0
                    &&& *final(self) == *old(self)
                },
            },
    {
        if self.items.len() == 0 {
            None
        } else {
            let s = self.items.remove(0);
            proof {
                assert(self.model() =~= old(self).model().drop_first());
            }
            Some(s)
        }
    }

    pub fn len(&self) -> (r: usize)
        ensures
            r == self.model().len(),
    {
        self.items.len()
    }
}

/// What ingesting one line did.
#[derive(Debug)]
pub enum IngestOutcome {
    /// The line was not a valid command: dropped silently, nothing changed.
    Malformed,
    /// The decoded command was queued for the next tick.
    Queued,
    /// The command queue is full; the decoded command is handed back so
    /// the reader can hold it (backpressuring only that client).
    QueueFull { cmd: ClientCommand },
}

/// The whole server core: world, registry, and the two queues. Every
/// decision the concurrent loops take is a method here; the loops only
/// move bytes and report I/O outcomes.
pub struct ServerCore {
    pub world: GameState,
    pub registry: Registry,
    pub commands: CommandQueue,
    pub snapshots: SnapshotQueue,
}

impl ServerCore {
    pub open spec fn wf(self) -> bool {
        &&& self.world.wf()
        &&& self.registry.wf()
        &&& self.commands.wf()
        &&& self.snapshots.wf()
    }

    pub fn new() -> (r: ServerCore)
        ensures
            r.wf(),
            r.world.model().players.len() == 0,
            r.world.model().next_id == 1,
            r.registry.model().len() == 0,
            r.registry.next_handle == 1,
            r.commands.model().len() == 0,
            r.snapshots.model().len() == 0,
    {
        ServerCore {
            world: GameState::new(),
            registry: Registry::new(),
            commands: CommandQueue::new(),
            snapshots: SnapshotQueue::new(),
        }
    }

    /// A connection was accepted: register it, returning its handle.
    pub fn on_connect(&mut self) -> (r: Option<u64>)
        requires
            old(self).wf(),
        ensures
            final(self).wf(),
            final(self).world == old(self).world,
            final(self).commands == old(self).commands,
            final(self).snapshots == old(self).snapshots,
            match r {
                Some(h) => {
                    &&& h == old(self).registry.next_handle
                    &&& !old(self).registry.model().contains(h)
                    &&& final(self).registry.model() == old(self).registry.model().push(h)
                    &&& final(self).registry.next_handle == old(self).registry.next_handle + 1
                },
                None => {
                    &&& old(self).registry.next_handle == u64::MAX
                    &&& final(self).registry == old(self).registry
                },
            },
    {
        self.registry.register()
    }

    /// A connection's read side ended (EOF or error): drop it from the
    /// registry so no further broadcast is addressed to it.
    pub fn on_disconnect(&mut self, conn: u64)
        requires
            old(self).wf(),
        ensures
            final(self).wf(),
            final(self).world == old(self).world,
            final(self).commands == old(self).commands,
            final(self).snapshots == old(self).snapshots,
            !final(self).registry.model().contains(conn),
            forall|c: u64| c != conn
                ==> (final(self).registry.model().contains(c)
                    <==> old(self).registry.model().contains(c)),
    {
        self.registry.unregister(conn)
    }

    /// A write to `conn` failed: same cleanup as a read-side close. The
    /// two paths may race in the surrounding loops; both go through the
    /// registry's stable-key removal, so either order leaves `conn` gone
    /// and every other connection untouched.
    pub fn on_write_error(&mut self, conn: u64)
        requires
            old(self).wf(),
        ensures
            final(self).wf(),
            final(self).world == old(self).world,
            final(self).commands == old(self).commands,
            final(self).snapshots == old(self).snapshots,
            !final(self).registry.model().contains(conn),
            forall|c: u64| c != conn
                ==> (final(self).registry.model().contains(c)
                    <==> old(self).registry.model().contains(c)),
    {
        self.registry.unregister(conn)
    }

    /// One line arrived from `conn`: decode it and queue the command.
    /// A malformed line changes nothing and is dropped silently; the
    /// connection stays registered and later lines are still processed.
    pub fn on_line(&mut self, conn: u64, line: &str) -> (r: IngestOutcome)
        requires
            old(self).wf(),
        ensures
            final(self).wf(),
            final(self).world == old(self).world,
            final(self).registry == old(self).registry,
            final(self).snapshots == old(self).snapshots,
            match r {
                IngestOutcome::Malformed => {
                    &&& codec::spec_decode_command(line@) is None
                    &&& final(self).commands == old(self).commands
                },
                IngestOutcome::Queued => {
                    &&& codec::spec_decode_command(line@) is Some
                    &&& old(self).commands.model().len() < CMD_QUEUE_CAP
                    &&& final(self).commands.model().len() == old(self).commands.model().len() + 1
                    &&& final(self).commands.model().last().0 == conn
                    &&& codec::command_view(final(self).commands.model().last().1)
                        == codec::spec_decode_command(line@).unwrap()
                    &&& final(self).commands.model().drop_last() == old(self).commands.model()
                },
                IngestOutcome::QueueFull { cmd } => {
                    &&& codec::spec_decode_command(line@) is Some
                    &&& codec::command_view(cmd) == codec::spec_decode_command(line@).unwrap()
                    &&& old(self).commands.model().len() == CMD_QUEUE_CAP
                    &&& final(self).commands == old(self).commands
                },
            },
    {
        match codec::decode_command(line) {
            None => IngestOutcome::Malformed,
            Some(cmd) => {
                match self.commands.try_push(conn, cmd) {
                    None => {
                        proof {
                            assert(self.commands.model().drop_last()
                                =~= old(self).commands.model());
                        }
                        IngestOutcome::Queued
                    },
                    Some(c) => IngestOutcome::QueueFull { cmd: c },
                }
            },
        }
    }

    /// One simulation tick: drain every queued command in arrival order
    /// into the world, then enqueue a snapshot of the world as it stands
    /// at that single instant. Total for any well-formed core — a full
    /// snapshot queue coalesces rather than blocks, so a stalled
    /// broadcaster can never stop the simulation or the other clients.
    pub fn tick(&mut self)
        requires
            old(self).wf(),
        ensures
            final(self).wf(),
            final(self).registry == old(self).registry,
            final(self).commands.model().len() == 0,
            final(self).world.model() == apply_all(
                old(self).world.model(), old(self).commands.model()),
            final(self).snapshots.model().len() >= 1,
            final(self).snapshots.model().last() == final(self).world.model().players,
            old(self).snapshots.model().len() < SNAP_QUEUE_CAP
                ==> final(self).snapshots.model()
                    == old(self).snapshots.model().push(final(self).world.model().players),
            old(self).snapshots.model().len() == SNAP_QUEUE_CAP
                ==> final(self).snapshots.model()
                    == old(self).snapshots.model().drop_last().push(final(self).world.model().players),
    {
        loop
            invariant
                self.world.wf(),
                self.commands.wf(),
                self.registry == old(self).registry,
                self.snapshots == old(self).snapshots,
                apply_all(self.world.model(), self.commands.model())
                    == apply_all(old(self).world.model(), old(self).commands.model()),
            ensures
                self.world.wf(),
                self.registry == old(self).registry,
                self.snapshots == old(self).snapshots,
                self.commands.model().len() == 0,
                self.world.model() == apply_all(
                    old(self).world.model(), old(self).commands.model()),
            decreases self.commands.model().len(),
        {
            let ghost w0 = self.world.model();
            let ghost c0 = self.commands.model();
            match self.commands.pop_front() {
                None => {
                    break;
                },
                Some((origin, cmd)) => {
                    let _ = self.world.apply_command(origin, &cmd);
                    proof {
                        assert(c0.len() > 0);
                        assert(apply_all(w0, c0) == apply_all(
                            spec_apply(w0, c0[0].0, c0[0].1), c0.drop_first()));
                    }
                },
            }
        }
        let snap = self.world.snapshot();
        proof {
            assert forall|j: int| 0 <= j < snap@.len() implies (#[trigger] snap@[j]).wf() by {
                assert(self.world.model().players[j].wf());
            }
        }
        self.snapshots.push_coalesce(snap);
    }

    /// Hand the broadcaster its next delivery: the oldest queued
    /// snapshot, serialized exactly once, with the handles of exactly
    /// the currently registered connections. `None` iff nothing is
    /// queued. Nothing else in the core changes.
    pub fn next_broadcast(&mut self) -> (r: Option<(String, Vec<u64>)>)
        requires
            old(self).wf(),
        ensures
            final(self).wf(),
            final(self).world == old(self).world,
            final(self).registry == old(self).registry,
            final(self).commands == old(self).commands,
            match r {
                Some(out) => {
                    &&& old(self).snapshots.model().len() > 0
                    &&& out.0@ == codec::spec_encode_snapshot(old(self).snapshots.model()[0])
                    &&& out.1@ == old(self).registry.model()
                    &&& final(self).snapshots.model() == old(self).snapshots.model().drop_first()
                },
                None => {
                    &&& old(self).snapshots.model().len() == 0
                    &&& final(self).snapshots == old(self).snapshots
                },
            },
    {
        match self.snapshots.pop_front() {
            None => None,
            Some(snap) => {
                proof {
                    assert forall|j: int| 0 <= j < snap@.len() implies (#[trigger] snap@[j]).wf() by {
                        assert(old(self).snapshots.items@[0]@[j].wf());
                    }
                }
                let line = codec::encode_snapshot(&snap);
                let members = self.registry.members();
                Some((line, members))
            },
        }
    }
}

} // verus!

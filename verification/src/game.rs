//! The simulated world and the rules for applying client commands to it.
//!
//! Each command carries the identity of the connection it came from; a
//! `Move` touches exactly the player owned by that connection, and `Join`
//! draws a fresh id from a monotonic counter that is never reset, so ids
//! stay pairwise distinct across any interleaving of joins and leaves.

use vstd::prelude::*;
use crate::message::{ClientCommand, PlayerState, COORD_LIMIT, START_HP};

verus! {

/// Mathematical model of a world: the roster, the owning connection of
/// each roster slot, and the next id the counter will hand out.
pub struct WorldModel {
    pub players: Seq<PlayerState>,
    pub owners: Seq<u64>,
    pub next_id: u64,
}

impl WorldModel {
    /// Well-formed world: one owner per roster slot, owners pairwise
    /// distinct, ids pairwise distinct and all below the counter, every
    /// position within the clamping bound.
    pub open spec fn wf(self) -> bool {
        &&& self.players.len() == self.owners.len()
        &&& forall|i: int, j: int|
            0 <= i < self.players.len() && 0 <= j < self.players.len() && i != j
                ==> self.players[i].id != self.players[j].id
        &&& forall|i: int, j: int|
            0 <= i < self.owners.len() && 0 <= j < self.owners.len() && i != j
                ==> self.owners[i] != self.owners[j]
        &&& forall|i: int| 0 <= i < self.players.len() ==> (#[trigger] self.players[i]).id < self.next_id
        &&& forall|i: int| 0 <= i < self.players.len() ==> (#[trigger] self.players[i]).wf()
    }

    /// Whether some roster slot is owned by connection `origin`.
    pub open spec fn has_owner(self, origin: u64) -> bool {
        self.owners.contains(origin)
    }
}

/// Clamp a mathematical coordinate into the world's bounds.
pub open spec fn clamp_coord(v: int) -> int {
    if v > COORD_LIMIT { COORD_LIMIT as int } else if v < -COORD_LIMIT { -(COORD_LIMIT as int) } else { v }
}

/// A player after a move by `(dx, dy)` millis, positions clamped.
pub open spec fn moved_player(p: PlayerState, dx: i64, dy: i64) -> PlayerState {
    PlayerState {
        id: p.id,
        x: clamp_coord(p.x + dx) as i64,
        y: clamp_coord(p.y + dy) as i64,
        hp: p.hp,
    }
}

/// The player a fresh `Join` inserts.
pub open spec fn new_player(id: u64) -> PlayerState {
    PlayerState { id, x: 0, y: 0, hp: START_HP }
}

/// What one command from connection `origin` does to the world.
///
/// - `Join`: if `origin` already owns a player, or the id counter is
///   exhausted, nothing changes; otherwise a player with the next id and
///   starting stats is appended and the counter advances.
/// - `Move`: the player owned by `origin`, if any, moves by `(dx, dy)`
///   with clamping; every other player is untouched.
/// - `Attack`: validated upstream but unresolved here; the world is
///   unchanged.
pub open spec fn spec_apply(w: WorldModel, origin: u64, cmd: ClientCommand) -> WorldModel {
    match cmd {
        ClientCommand::Join { name: _ } => {
            if w.has_owner(origin) || w.next_id == u64::MAX {
                w
            } else {
                WorldModel {
                    players: w.players.push(new_player(w.next_id)),
                    owners: w.owners.push(origin),
                    next_id: (w.next_id + 1) as u64,
                }
            }
        },
        ClientCommand::Move { dx, dy } => {
            WorldModel {
                players: Seq::new(
                    w.players.len(),
                    |i: int|
                        if w.owners[i] == origin {
                            moved_player(w.players[i], dx, dy)
                        } else {
                            w.players[i]
                        },
                ),
                owners: w.owners,
                next_id: w.next_id,
            }
        },
        ClientCommand::Attack { target: _ } => w,
    }
}

/// A whole batch of `(origin, command)` pairs applied in arrival order.
pub open spec fn apply_all(w: WorldModel, cmds: Seq<(u64, ClientCommand)>) -> WorldModel
    decreases cmds.len(),
{
    if cmds.len() == 0 {
        w
    } else {
        apply_all(spec_apply(w, cmds[0].0, cmds[0].1), cmds.drop_first())
    }
}

/// What `apply_command` reports about one command.
#[derive(Debug, PartialEq, Eq, Structural)]
pub enum ApplyOutcome {
    /// A fresh player with this id was inserted.
    Joined { id: u64 },
    /// `Join` from a connection that already owns a player (or with the
    /// counter exhausted): a no-op.
    JoinIgnored,
    /// The originating connection's player was moved.
    Moved,
    /// `Move` from a connection with no player: a no-op.
    MoveIgnored,
    /// `Attack` naming an existing player: validated, unresolved.
    AttackValidated,
    /// `Attack` naming no existing player: a no-op.
    AttackUnknownTarget,
}

/// The live world: roster, parallel owner list, monotonic id counter.
pub struct GameState {
    pub players: Vec<PlayerState>,
    pub owners: Vec<u64>,
    pub next_id: u64,
}

impl GameState {
    pub open spec fn model(self) -> WorldModel {
        WorldModel { players: self.players@, owners: self.owners@, next_id: self.next_id }
    }

    pub open spec fn wf(self) -> bool {
        self.model().wf()
    }

    /// An empty world; ids will be handed out from 1.
    pub fn new() -> (r: GameState)
        ensures
            r.wf(),
            r.model().players.len() == 0,
            r.model().next_id == 1,
    {
        GameState { players: Vec::new(), owners: Vec::new(), next_id: 1 }
    }

    /// Index of the roster slot owned by `origin`, if any.
    fn find_owner(&self, origin: u64) -> (r: Option<usize>)
        ensures
            match r {
                Some(i) => i < self.owners@.len() && self.owners@[i as int] == origin,
                None => !self.model().has_owner(origin),
            },
    {
        let mut i: usize = 0;
        while i < self.owners.len()
            invariant
                i <= self.owners@.len(),
                forall|j: int| 0 <= j < i ==> self.owners@[j] != origin,
            decreases self.owners@.len() - i,
        {
            if self.owners[i] == origin {
                return Some(i);
            }
            i += 1;
        }
        None
    }

    /// Index of the player with id `target`, if any.
    fn find_player(&self, target: u64) -> (r: Option<usize>)
        ensures
            match r {
                Some(i) => i < self.players@.len() && self.players@[i as int].id == target,
                None => forall|j: int| 0 <= j < self.players@.len() ==> (#[trigger] self.players@[j]).id != target,
            },
    {
        let mut i: usize = 0;
        while i < self.players.len()
            invariant
                i <= self.players@.len(),
                forall|j: int| 0 <= j < i ==> (#[trigger] self.players@[j]).id != target,
            decreases self.players@.len() - i,
        {
            if self.players[i].id == target {
                return Some(i);
            }
            i += 1;
        }
        None
    }

    /// `v + d` clamped into the coordinate bounds, without overflow.
    fn add_clamped(v: i64, d: i64) -> (r: i64)
        requires
            -COORD_LIMIT <= v <= COORD_LIMIT,
        ensures
            r == clamp_coord(v + d),
    {
        match v.checked_add(d) {
            Some(s) => {
                if s > COORD_LIMIT {
                    COORD_LIMIT
                } else if s < -COORD_LIMIT {
                    -COORD_LIMIT
                } else {
                    s
                }
            },
            None => {
                if d > 0 {
                    COORD_LIMIT
                } else {
                    -COORD_LIMIT
                }
            },
        }
    }

    /// Apply one command from connection `origin`, reporting what happened.
    pub fn apply_command(&mut self, origin: u64, cmd: &ClientCommand) -> (r: ApplyOutcome)
        requires
            old(self).wf(),
        ensures
            final(self).wf(),
            final(self).model() == spec_apply(old(self).model(), origin, *cmd),
            match r {
                ApplyOutcome::Joined { id } => {
                    &&& cmd matches ClientCommand::Join { .. }
                    &&& id == old(self).next_id
                    &&& !old(self).model().has_owner(origin)
                    &&& old(self).next_id < u64::MAX
                },
                ApplyOutcome::JoinIgnored => {
                    &&& cmd matches ClientCommand::Join { .. }
                    &&& old(self).model().has_owner(origin) || old(self).next_id == u64::MAX
                },
                ApplyOutcome::Moved => {
                    &&& cmd matches ClientCommand::Move { .. }
                    &&& old(self).model().has_owner(origin)
                },
                ApplyOutcome::MoveIgnored => {
                    &&& cmd matches ClientCommand::Move { .. }
                    &&& !old(self).model().has_owner(origin)
                },
                ApplyOutcome::AttackValidated => {
                    &&& cmd matches ClientCommand::Attack { target: t } ==> exists|j: int|
                        0 <= j < old(self).players@.len() && (#[trigger] old(self).players@[j]).id
                            == t
                    &&& cmd matches ClientCommand::Attack { .. }
                },
                ApplyOutcome::AttackUnknownTarget => {
                    &&& cmd matches ClientCommand::Attack { target: t } ==> forall|j: int|
                        0 <= j < old(self).players@.len() ==> (#[trigger] old(self).players@[j]).id
                            != t
                    &&& cmd matches ClientCommand::Attack { .. }
                },
            },
    {
        match cmd {
            ClientCommand::Join { name: _ } => {
                if self.next_id == u64::MAX {
                    return ApplyOutcome::JoinIgnored;
                }
                match self.find_owner(origin) {
                    Some(_) => ApplyOutcome::JoinIgnored,
                    None => {
                        let id = self.next_id;
                        self.players.push(PlayerState { id, x: 0, y: 0, hp: START_HP });
                        self.owners.push(origin);
                        self.next_id = id + 1;
                        proof {
                            assert(self.model().players =~= spec_apply(
                                old(self).model(), origin, *cmd).players);
                            assert(self.model().owners =~= spec_apply(
                                old(self).model(), origin, *cmd).owners);
                            assert forall|i: int, j: int|
                                0 <= i < self.players@.len() && 0 <= j < self.players@.len() && i != j
                                    implies self.players@[i].id != self.players@[j].id by {
                            }
                        }
                        ApplyOutcome::Joined { id }
                    },
                }
            },
            ClientCommand::Move { dx, dy } => {
                let r = match self.find_owner(origin) {
                    Some(i) => {
                        let p = self.players[i];
                        let np = PlayerState {
                            id: p.id,
                            x: Self::add_clamped(p.x, *dx),
                            y: Self::add_clamped(p.y, *dy),
                            hp: p.hp,
                        };
                        self.players[i] = np;
                        ApplyOutcome::Moved
                    },
                    None => ApplyOutcome::MoveIgnored,
                };
                proof {
                    assert(self.model().players =~= spec_apply(
                        old(self).model(), origin, *cmd).players);
                }
                r
            },
            ClientCommand::Attack { target } => {
                match self.find_player(*target) {
                    Some(_) => ApplyOutcome::AttackValidated,
                    None => ApplyOutcome::AttackUnknownTarget,
                }
            },
        }
    }

    /// An immutable copy of the roster, taken at one instant.
    pub fn snapshot(&self) -> (r: Vec<PlayerState>)
        ensures
            r@ == self.players@,
    {
        let mut out: Vec<PlayerState> = Vec::new();
        let mut i: usize = 0;
        while i < self.players.len()
            invariant
                i <= self.players@.len(),
                out@ == self.players@.subrange(0, i as int),
            decreases self.players@.len() - i,
        {
            out.push(self.players[i]);
            i += 1;
        }
        proof {
            assert(out@ =~= self.players@);
        }
        out
    }
}


/// Applying any single command to a well-formed world leaves it
/// well-formed: ids stay pairwise distinct and below the counter,
/// owners stay pairwise distinct, positions stay in bounds.
pub proof fn lemma_apply_preserves_wf(w: WorldModel, origin: u64, cmd: ClientCommand)
    requires
        w.wf(),
    ensures
        spec_apply(w, origin, cmd).wf(),
{
    match cmd {
        ClientCommand::Join { name: _ } => {
            if !w.has_owner(origin) && w.next_id != u64::MAX {
                assert forall|i: int| 0 <= i < w.owners.len() implies w.owners[i] != origin by {
                    if w.owners[i] == origin {
                        assert(w.owners.contains(origin));
                    }
                }
            }
        },
        ClientCommand::Move { dx, dy } => {
            let w2 = spec_apply(w, origin, cmd);
            assert forall|i: int| 0 <= i < w2.players.len() implies (#[trigger] w2.players[i]).id
                == w.players[i].id && w2.players[i].wf() by {
            }
        },
        ClientCommand::Attack { target: _ } => {
        },
    }
}

/// Any batch of commands preserves well-formedness.
pub proof fn lemma_apply_all_preserves_wf(w: WorldModel, cmds: Seq<(u64, ClientCommand)>)
    requires
        w.wf(),
    ensures
        apply_all(w, cmds).wf(),
    decreases cmds.len(),
{
    if cmds.len() > 0 {
        lemma_apply_preserves_wf(w, cmds[0].0, cmds[0].1);
        lemma_apply_all_preserves_wf(spec_apply(w, cmds[0].0, cmds[0].1), cmds.drop_first());
    }
}

/// Uniqueness: whatever sequence of commands reaches the world -- joins
/// from any connections, interleaved with anything else -- the resulting
/// player ids are pairwise distinct.
pub proof fn lemma_player_ids_unique(w: WorldModel, cmds: Seq<(u64, ClientCommand)>)
    requires
        w.wf(),
    ensures
        forall|i: int, j: int|
            0 <= i < apply_all(w, cmds).players.len() && 0 <= j < apply_all(w, cmds).players.len()
                && i != j ==> apply_all(w, cmds).players[i].id != apply_all(w, cmds).players[j].id,
{
    lemma_apply_all_preserves_wf(w, cmds);
}

/// The id counter never moves backwards, so an id handed out once is
/// never handed out again, even across disconnects and reconnects.
pub proof fn lemma_counter_monotonic(w: WorldModel, cmds: Seq<(u64, ClientCommand)>)
    requires
        w.wf(),
    ensures
        apply_all(w, cmds).next_id >= w.next_id,
    decreases cmds.len(),
{
    if cmds.len() > 0 {
        lemma_apply_preserves_wf(w, cmds[0].0, cmds[0].1);
        lemma_counter_monotonic(spec_apply(w, cmds[0].0, cmds[0].1), cmds.drop_first());
    }
}


/// Stability: no command ever removes a player or changes an existing
/// player's id -- the roster only grows at the end. Together with the
/// monotonic counter this is why an id, once seen, always names the
/// same player.
pub proof fn lemma_roster_ids_stable(w: WorldModel, cmds: Seq<(u64, ClientCommand)>)
    requires
        w.wf(),
    ensures
        apply_all(w, cmds).players.len() >= w.players.len(),
        forall|i: int|
            0 <= i < w.players.len() ==> apply_all(w, cmds).players[i].id == (
            #[trigger] w.players[i]).id,
    decreases cmds.len(),
{
    if cmds.len() > 0 {
        let w1 = spec_apply(w, cmds[0].0, cmds[0].1);
        lemma_apply_preserves_wf(w, cmds[0].0, cmds[0].1);
        lemma_roster_ids_stable(w1, cmds.drop_first());
        assert forall|i: int| 0 <= i < w.players.len() implies apply_all(w, cmds).players[i].id
            == (#[trigger] w.players[i]).id by {
            assert(w1.players[i].id == w.players[i].id);
            assert(apply_all(w1, cmds.drop_first()).players[i].id == w1.players[i].id);
        }
    }
}

/// Routing: a `Move` from connection `origin` touches at most one
/// player -- the one owned by `origin` -- and leaves every other
/// player, the owner list and the id counter exactly as they were.
pub proof fn lemma_move_routing(w: WorldModel, origin: u64, dx: i64, dy: i64)
    requires
        w.wf(),
    ensures
        ({
            let w2 = spec_apply(w, origin, (ClientCommand::Move { dx, dy }));
            &&& w2.players.len() == w.players.len()
            &&& w2.owners == w.owners
            &&& w2.next_id == w.next_id
            &&& forall|i: int|
                0 <= i < w.players.len() && w.owners[i] != origin
                    ==> w2.players[i] == w.players[i]
            &&& forall|i: int|
                0 <= i < w.players.len() && w.owners[i] == origin
                    ==> w2.players[i] == moved_player(w.players[i], dx, dy)
            &&& forall|i: int, j: int|
                0 <= i < w.players.len() && 0 <= j < w.players.len() && w.owners[i] == origin
                    && w.owners[j] == origin ==> i == j
        }),
{
}

} // verus!

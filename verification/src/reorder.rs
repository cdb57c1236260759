//! Moving an entry to another position while the positions stay dense.

use crate::connection::Connection;
use crate::database::{lemma_dense_is_permutation, Database};
use crate::demon::{DemonView, MinimalDemon, MinimalDemonView};
use crate::error::PointercrateError;
use crate::statement::{with_position, Statement, StatementView};
use vstd::set_lib::set_int_range;
use vstd::prelude::*;

verus! {

/// The position a moving entry is parked at while the others shift. No entry
/// of a dense list is ever there.
pub const PARKED: i16 = -1;

/// The row `r` after the entry with key `id` has moved from `from` to `to`:
/// the entry itself stands at `to`, and every entry between the two positions
/// has moved one step towards `from`.
pub open spec fn relocate(r: DemonView, id: int, from: int, to: int) -> DemonView {
    if r.base.id == id {
        with_position(r, to)
    } else if from < r.base.position <= to {
        with_position(r, r.base.position - 1)
    } else if to <= r.base.position < from {
        with_position(r, r.base.position + 1)
    } else {
        r
    }
}

/// The statement that closes the gap at `from` and opens one at `to`.
pub open spec fn shift_between(from: int, to: int) -> StatementView {
    if to > from {
        StatementView::ShiftDown { after: from, upto: to }
    } else {
        StatementView::ShiftUp { from: to, before: from }
    }
}

/// The three writes that move the entry `id` from `from` to `to`: park it,
/// shift the entries in between, place it.
pub open spec fn move_plan(id: int, from: int, to: int) -> Seq<StatementView> {
    seq![
        StatementView::SetPosition { id: id, position: PARKED as int },
        shift_between(from, to),
        StatementView::SetPosition { id: id, position: to },
    ]
}

impl Database {
    /// The store after every statement of `plan`, in order.
    pub open spec fn run(self, plan: Seq<StatementView>) -> Database
        decreases plan.len(),
    {
        if plan.len() == 0 {
            self
        } else {
            self.run(plan.drop_last()).execute(plan.last())
        }
    }

    /// How a move of `d` to `to` ends: the target must lie in `1..=N`; a move
    /// to where `d` stands succeeds at once; otherwise `d` must be an entry of
    /// the list.
    pub open spec fn move_result(self, d: MinimalDemonView, to: int) -> Result<
        (),
        PointercrateError,
    > {
        if to < 1 || to > self.max_position() {
            Err(PointercrateError::InvalidPosition { maximal: self.max_position() as i16 })
        } else if to == d.position {
            Ok(())
        } else if !self.holds(d) {
            Err(PointercrateError::NotFound)
        } else {
            Ok(())
        }
    }

    /// Whether a move of `d` to `to` writes anything.
    pub open spec fn move_writes(self, d: MinimalDemonView, to: int) -> bool {
        self.move_result(d, to) is Ok && to != d.position
    }

    /// The store after a move of `d` to `to`: untouched where the move fails
    /// or leads nowhere, else every row relocated and the three writes noted.
    pub open spec fn after_move(self, d: MinimalDemonView, to: int) -> Database {
        if self.move_writes(d, to) {
            Database {
                demons: Seq::new(
                    self.demons.len(),
                    |i: int| relocate(self.demons[i], d.id, d.position, to),
                ),
                journal: self.journal + move_plan(d.id, d.position, to),
                ..self
            }
        } else {
            self
        }
    }
}

/// Carrying out the three writes of a move one after the other relocates
/// every row as [`Database::after_move`] says, and after each single write no
/// two entries share a position.
pub proof fn lemma_move_plan(db: Database, d: MinimalDemonView, to: int)
    requires
        db.wf(),
        db.move_writes(d, to),
    ensures
        db.run(move_plan(d.id, d.position, to)) == db.after_move(d, to),
        db.run(move_plan(d.id, d.position, to).take(1)).unique_positions(),
        db.run(move_plan(d.id, d.position, to).take(2)).unique_positions(),
        db.run(move_plan(d.id, d.position, to).take(3)).unique_positions(),
{
    let plan = move_plan(d.id, d.position, to);
    let s0 = db.execute(plan[0]);
    let s1 = s0.execute(plan[1]);
    let s2 = s1.execute(plan[2]);
    lemma_three_writes(db, d, to);
    reveal_with_fuel(Database::run, 4);
    assert(plan.take(1).drop_last() =~= Seq::<StatementView>::empty());
    assert(plan.take(2).drop_last() =~= plan.take(1));
    assert(plan.take(3).drop_last() =~= plan.take(2));
    assert(plan.take(3) =~= plan);
    assert(plan.take(1).last() == plan[0]);
    assert(plan.take(2).last() == plan[1]);
    assert(plan.take(3).last() == plan[2]);
    assert(db.run(plan.take(1)) == s0);
    assert(db.run(plan.take(2)) == s1);
    assert(db.run(plan.take(3)) == s2);
}

/// The three writes of a move, spelled out.
pub proof fn lemma_three_writes(db: Database, d: MinimalDemonView, to: int)
    requires
        db.wf(),
        db.move_writes(d, to),
    ensures
        ({
            let plan = move_plan(d.id, d.position, to);
            let s0 = db.execute(plan[0]);
            let s1 = s0.execute(plan[1]);
            let s2 = s1.execute(plan[2]);
            &&& s0.unique_positions()
            &&& s1.unique_positions()
            &&& s2.unique_positions()
            &&& s2 == db.after_move(d, to)
        }),
{
    let plan = move_plan(d.id, d.position, to);
    let s0 = db.execute(plan[0]);
    let s1 = s0.execute(plan[1]);
    let s2 = s1.execute(plan[2]);
    let k = choose|k: int|
        0 <= k < db.demons.len() && (#[trigger] db.demons[k]).base.id == d.id
            && db.demons[k].base.position == d.position;
    assert forall|i: int| 0 <= i < db.demons.len() implies (#[trigger] db.demons[i]).base.id
        == d.id <==> i == k by {
        if i != k {
            assert(db.demons[i].base.id != db.demons[k].base.id);
        }
    }
    assert forall|i: int| 0 <= i < db.demons.len() && i != k implies (
    #[trigger] db.demons[i]).base.position != d.position by {
        assert(db.demons[i].base.position != db.demons[k].base.position);
    }
    assert forall|i: int| 0 <= i < db.demons.len() implies (#[trigger] s2.demons[i]) == relocate(
        db.demons[i],
        d.id,
        d.position,
        to,
    ) by {
        assert(s0.demons[i] == plan[0].on_row(db.demons[i]));
        assert(s1.demons[i] == plan[1].on_row(s0.demons[i]));
        assert(s2.demons[i] == plan[2].on_row(s1.demons[i]));
    }
    assert(s2.demons =~= db.after_move(d, to).demons);
    assert(s2.journal =~= db.after_move(d, to).journal);
    assert(s0.unique_positions()) by {
        assert forall|i: int, j: int| 0 <= i < j < s0.demons.len() implies (
        #[trigger] s0.demons[i]).base.position != (#[trigger] s0.demons[j]).base.position by {
            assert(db.demons[i].base.position != db.demons[j].base.position);
        }
    }
    assert(s1.unique_positions()) by {
        assert forall|i: int, j: int| 0 <= i < j < s1.demons.len() implies (
        #[trigger] s1.demons[i]).base.position != (#[trigger] s1.demons[j]).base.position by {
            assert(db.demons[i].base.position != db.demons[j].base.position);
            assert(s0.demons[i] == plan[0].on_row(db.demons[i]));
            assert(s0.demons[j] == plan[0].on_row(db.demons[j]));
        }
    }
    assert(s2.unique_positions()) by {
        assert forall|i: int, j: int| 0 <= i < j < s2.demons.len() implies (
        #[trigger] s2.demons[i]).base.position != (#[trigger] s2.demons[j]).base.position by {
            assert(db.demons[i].base.position != db.demons[j].base.position);
        }
    }
}

/// A move leaves the list dense and the store well-formed.
pub proof fn lemma_move_keeps_wf(db: Database, d: MinimalDemonView, to: int)
    requires
        db.wf(),
    ensures
        db.after_move(d, to).wf(),
{
    if db.move_writes(d, to) {
        lemma_three_writes(db, d, to);
        let after = db.after_move(d, to);
        assert forall|i: int| 0 <= i < after.demons.len() implies 1 <= (
        #[trigger] after.demons[i]).base.position <= after.demons.len() by {
            assert(1 <= db.demons[i].base.position <= db.demons.len());
        }
        assert forall|i: int, j: int| 0 <= i < j < after.demons.len() implies (
        #[trigger] after.demons[i]).base.id != (#[trigger] after.demons[j]).base.id by {
            assert(db.demons[i].base.id != db.demons[j].base.id);
        }
        assert forall|i: int| 0 <= i < after.demons.len() implies (
        #[trigger] after.demons[i]).base.id < after.next_demon && 0
            <= after.demons[i].requirement <= 100 by {
            assert(db.demons[i].base.id < db.next_demon);
            assert(0 <= db.demons[i].requirement <= 100);
        }
    }
}

impl Database {
    /// The store after the moves `moves`, in order. Each names an entry by
    /// its key and the position it is to take; a move that fails changes
    /// nothing.
    pub open spec fn after_moves(self, moves: Seq<(int, int)>) -> Database
        decreases moves.len(),
    {
        if moves.len() == 0 {
            self
        } else {
            let before = self.after_moves(moves.drop_last());
            before.after_move(before.demon(moves.last().0).base, moves.last().1)
        }
    }
}

/// After each of any sequence of moves the positions in use are exactly
/// `1..=N`, each used by one entry, and `N` is what it was.
pub proof fn lemma_moves_keep_dense(db: Database, moves: Seq<(int, int)>, k: int)
    requires
        db.wf(),
        0 <= k <= moves.len(),
    ensures
        db.after_moves(moves.take(k)).wf(),
        db.after_moves(moves.take(k)).demons.len() == db.demons.len(),
        db.after_moves(moves.take(k)).positions().no_duplicates(),
        db.after_moves(moves.take(k)).positions().to_set() == set_int_range(
            1,
            db.max_position() + 1,
        ),
    decreases k,
{
    if k > 0 {
        lemma_moves_keep_dense(db, moves, k - 1);
        assert(moves.take(k).drop_last() =~= moves.take(k - 1));
        let before = db.after_moves(moves.take(k - 1));
        let m = moves.take(k).last();
        lemma_move_keeps_wf(before, before.demon(m.0).base, m.1);
    }
    lemma_dense_is_permutation(db.after_moves(moves.take(k)));
}

/// A move of an entry to the position it stands at succeeds and writes nothing.
pub proof fn lemma_move_to_own_position(db: Database, d: MinimalDemonView)
    requires
        db.wf(),
        db.holds(d),
    ensures
        db.move_result(d, d.position) == Ok::<(), PointercrateError>(()),
        db.after_move(d, d.position) == db,
{
    let k = choose|k: int|
        0 <= k < db.demons.len() && (#[trigger] db.demons[k]).base.id == d.id
            && db.demons[k].base.position == d.position;
    assert(1 <= db.demons[k].base.position <= db.demons.len());
}

/// A move changes the position of the entry it moves and nothing else of
/// it, and leaves the players and the creator rows alone.
pub proof fn lemma_row_after_move(db: Database, d: DemonView, to: int)
    requires
        db.wf(),
        db.has_demon(d.base.id),
        db.demon(d.base.id) == d,
        db.move_result(d.base, to) is Ok,
    ensures
        db.after_move(d.base, to).has_demon(d.base.id),
        db.after_move(d.base, to).demon(d.base.id) == with_position(d, to),
        db.after_move(d.base, to).players == db.players,
        db.after_move(d.base, to).creators == db.creators,
{
    let after = db.after_move(d.base, to);
    lemma_move_keeps_wf(db, d.base, to);
    let k = choose|k: int| 0 <= k < db.demons.len() && (#[trigger] db.demons[k]).base.id == d.base.id;
    assert(after.demons[k].base.id == d.base.id);
    let j = choose|j: int|
        0 <= j < after.demons.len() && (#[trigger] after.demons[j]).base.id == d.base.id;
    if j < k {
        assert(after.demons[j].base.id != after.demons[k].base.id);
    } else if k < j {
        assert(after.demons[k].base.id != after.demons[j].base.id);
    }
    if !db.move_writes(d.base, to) {
        assert(with_position(d, to) == d);
    }
}

impl MinimalDemon {
    /// Moves this entry to the position `to`.
    ///
    /// The target must lie in `1..=N`, where `N` is the number of entries. A
    /// move to the entry's own position writes nothing. Otherwise the entry is
    /// parked, the entries between the two positions shift by one towards the
    /// place it left, and the entry is placed at `to`. After the first and
    /// after the second of these writes no two entries share a position, and
    /// after the third the list is dense again.
    pub fn mv(&mut self, to: i16, connection: &mut Connection) -> (r: Result<
        (),
        PointercrateError,
    >)
        requires
            old(connection)@.wf(),
        ensures
            r == old(connection)@.move_result(old(self)@, to as int),
            final(connection)@ == old(connection)@.after_move(old(self)@, to as int),
            final(connection)@.wf(),
            r is Ok ==> final(self)@ == (MinimalDemonView { position: to as int, ..old(self)@ }),
            r is Err ==> final(self)@ == old(self)@,
            old(connection)@.move_writes(old(self)@, to as int) ==> old(connection)@.run(
                move_plan(old(self)@.id, old(self)@.position, to as int).take(1),
            ).unique_positions() && old(connection)@.run(
                move_plan(old(self)@.id, old(self)@.position, to as int).take(2),
            ).unique_positions(),
    {
        let maximal_position = connection.max_position();

        if to > maximal_position || to < 1 {
            return Err(PointercrateError::InvalidPosition { maximal: maximal_position });
        }
        if to == self.position {
            return Ok(());
        }
        if !connection.holds(self) {
            return Err(PointercrateError::NotFound);
        }
        proof {
            lemma_three_writes(connection@, self@, to as int);
            lemma_move_keeps_wf(connection@, self@, to as int);
            lemma_move_plan(connection@, self@, to as int);
        }

        connection.execute(Statement::SetPosition { id: self.id, position: PARKED });

        if to > self.position {
            connection.execute(Statement::ShiftDown { after: self.position, upto: to });
        } else {
            connection.execute(Statement::ShiftUp { from: to, before: self.position });
        }

        connection.execute(Statement::SetPosition { id: self.id, position: to });

        self.position = to;

        Ok(())
    }
}

} // verus!

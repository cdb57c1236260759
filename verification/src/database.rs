//! The store as a mathematical value, what its statements do to it, and what
//! holds of it between operations.

use crate::cistring::ci_eq;
use crate::demon::{DemonView, FullDemonView, MinimalDemonView};
use crate::error::PointercrateError;
use crate::player::PlayerView;
use crate::statement::StatementView;
use vstd::set_lib::{lemma_int_range, lemma_subset_equality, set_int_range};
use vstd::prelude::*;

verus! {

/// The rows `rows` after the statement `s` has gone over each of them.
pub open spec fn update_all(rows: Seq<DemonView>, s: StatementView) -> Seq<DemonView> {
    Seq::new(rows.len(), |i: int| s.on_row(rows[i]))
}

/// Whether the demon `demon` and the player `player` make the creator row `c`.
pub open spec fn is_pair(c: (int, int), demon: int, player: int) -> bool {
    c.0 == demon && c.1 == player
}

/// No two of the rows share a position.
pub open spec fn unique_positions_in(rows: Seq<DemonView>) -> bool {
    forall|i: int, j: int|
        0 <= i < j < rows.len() ==> (#[trigger] rows[i]).base.position != (
        #[trigger] rows[j]).base.position
}

/// The positions of the `N` rows are exactly `1..=N`, each used once.
pub open spec fn dense_in(rows: Seq<DemonView>) -> bool {
    &&& unique_positions_in(rows)
    &&& forall|i: int| 0 <= i < rows.len() ==> 1 <= (#[trigger] rows[i]).base.position <= rows.len()
}

/// No two of the rows share a key, and every key lies below `next`.
pub open spec fn keys_valid_in(rows: Seq<DemonView>, next: int) -> bool {
    &&& forall|i: int, j: int|
        0 <= i < j < rows.len() ==> (#[trigger] rows[i]).base.id != (#[trigger] rows[j]).base.id
    &&& forall|i: int| 0 <= i < rows.len() ==> (#[trigger] rows[i]).base.id < next
}

/// The requirement of every row lies in `0..=100`.
pub open spec fn requirements_valid_in(rows: Seq<DemonView>) -> bool {
    forall|i: int| 0 <= i < rows.len() ==> 0 <= (#[trigger] rows[i]).requirement <= 100
}

/// No two of the players share a key or, up to case, a name, and every key
/// lies below `next`.
pub open spec fn players_valid_in(rows: Seq<PlayerView>, next: int) -> bool {
    &&& forall|i: int, j: int|
        0 <= i < j < rows.len() ==> (#[trigger] rows[i]).id != (#[trigger] rows[j]).id
    &&& forall|i: int, j: int|
        0 <= i < j < rows.len() ==> !ci_eq((#[trigger] rows[i]).name, (#[trigger] rows[j]).name)
    &&& forall|i: int| 0 <= i < rows.len() ==> (#[trigger] rows[i]).id < next
}

/// No creator row stands twice, and each names a player key below `next`.
pub open spec fn creators_valid_in(rows: Seq<(int, int)>, next: int) -> bool {
    &&& rows.no_duplicates()
    &&& forall|i: int| 0 <= i < rows.len() ==> (#[trigger] rows[i]).1 < next
}

/// The test whether the creator rows `creators` credit a player for `demon`.
pub open spec fn credited_in(creators: Seq<(int, int)>, demon: int) -> spec_fn(PlayerView) -> bool {
    |p: PlayerView| creators.contains((demon, p.id))
}

/// The store as a value: its three tables, the statements written so far, and
/// the keys that the next new entry and the next new player will get.
pub struct Database {
    pub demons: Seq<DemonView>,
    pub players: Seq<PlayerView>,
    pub creators: Seq<(int, int)>,
    pub journal: Seq<StatementView>,
    pub next_demon: int,
    pub next_player: int,
}

/// How an operation ends: the store it leaves, and what it hands back.
pub struct Outcome<T> {
    pub db: Database,
    pub result: Result<T, PointercrateError>,
}

/// What a result holds, seen as a value.
pub open spec fn viewed<T: View>(r: Result<T, PointercrateError>) -> Result<T::V, PointercrateError> {
    match r {
        Ok(t) => Ok(t@),
        Err(e) => Err(e),
    }
}

/// Where crediting players stands: the store, and the error that stopped it,
/// if one did.
pub struct Credited {
    pub db: Database,
    pub error: Option<PointercrateError>,
}

impl Database {
    /// The operation fails with `e` and leaves the store as it is.
    pub open spec fn refuse<T>(self, e: PointercrateError) -> Outcome<T> {
        Outcome { db: self, result: Err(e) }
    }

    /// The store after one statement: the tables as the statement leaves them,
    /// and the statement at the end of the journal.
    pub open spec fn execute(self, s: StatementView) -> Database {
        Database {
            demons: match s {
                StatementView::InsertDemon { demon } => self.demons.push(demon),
                _ => update_all(self.demons, s),
            },
            players: match s {
                StatementView::InsertPlayer { player } => self.players.push(player),
                _ => self.players,
            },
            creators: match s {
                StatementView::InsertCreator { demon_id, player_id } => self.creators.push(
                    (demon_id, player_id),
                ),
                StatementView::DeleteCreator { demon_id, player_id } => self.creators.filter(
                    |c: (int, int)| !is_pair(c, demon_id, player_id),
                ),
                _ => self.creators,
            },
            journal: self.journal.push(s),
            ..self
        }
    }

    /// The highest position in use, which for a dense list is the number of entries.
    pub open spec fn max_position(self) -> int {
        self.demons.len() as int
    }

    /// The positions in use, row by row.
    pub open spec fn positions(self) -> Seq<int> {
        Seq::new(self.demons.len(), |i: int| self.demons[i].base.position)
    }

    /// The entry with the key `id` together with its creators.
    pub open spec fn full_demon(self, id: int) -> FullDemonView {
        FullDemonView { demon: self.demon(id), creators: self.creators_of(id) }
    }

    /// No two entries share a position.
    pub open spec fn unique_positions(self) -> bool {
        unique_positions_in(self.demons)
    }

    /// The positions in use are exactly `1..=N` for the `N` entries of the list,
    /// each used once.
    pub open spec fn dense(self) -> bool {
        dense_in(self.demons)
    }

    /// No two entries share a key, and every key was handed out already.
    pub open spec fn demon_keys_valid(self) -> bool {
        keys_valid_in(self.demons, self.next_demon)
    }

    /// No two players share a key or, up to case, a name, and every key was
    /// handed out already.
    pub open spec fn player_keys_valid(self) -> bool {
        players_valid_in(self.players, self.next_player)
    }

    /// No creator row stands twice, and each names a player key that was
    /// handed out already.
    pub open spec fn creator_keys_valid(self) -> bool {
        creators_valid_in(self.creators, self.next_player)
    }

    /// What holds of the store between any two operations.
    pub open spec fn wf(self) -> bool {
        &&& self.demons.len() <= i16::MAX
        &&& self.dense()
        &&& self.demon_keys_valid()
        &&& requirements_valid_in(self.demons)
        &&& self.player_keys_valid()
        &&& self.creator_keys_valid()
    }

    /// Whether the list has an entry with the key `id`.
    pub open spec fn has_demon(self, id: int) -> bool {
        exists|i: int| 0 <= i < self.demons.len() && (#[trigger] self.demons[i]).base.id == id
    }

    /// The entry with the key `id`, where there is one.
    pub open spec fn demon(self, id: int) -> DemonView {
        self.demons[choose|i: int|
            0 <= i < self.demons.len() && (#[trigger] self.demons[i]).base.id == id]
    }

    /// Whether the list has an entry at `position`.
    pub open spec fn has_position(self, position: int) -> bool {
        exists|i: int|
            0 <= i < self.demons.len() && (#[trigger] self.demons[i]).base.position == position
    }

    /// The entry at `position`, where there is one.
    pub open spec fn demon_at(self, position: int) -> DemonView {
        self.demons[choose|i: int|
            0 <= i < self.demons.len() && (#[trigger] self.demons[i]).base.position == position]
    }

    /// Whether `d` is an entry of the list as far as key and position go.
    pub open spec fn holds(self, d: MinimalDemonView) -> bool {
        exists|i: int|
            0 <= i < self.demons.len() && (#[trigger] self.demons[i]).base.id == d.id
                && self.demons[i].base.position == d.position
    }

    /// Whether a player has the key `id`.
    pub open spec fn has_player(self, id: int) -> bool {
        exists|i: int| 0 <= i < self.players.len() && (#[trigger] self.players[i]).id == id
    }

    /// The player with the key `id`, where there is one.
    pub open spec fn player(self, id: int) -> PlayerView {
        self.players[choose|i: int|
            0 <= i < self.players.len() && (#[trigger] self.players[i]).id == id]
    }

    /// Whether a player goes, up to case, by `name`.
    pub open spec fn has_player_named(self, name: Seq<char>) -> bool {
        exists|i: int|
            0 <= i < self.players.len() && ci_eq((#[trigger] self.players[i]).name, name)
    }

    /// The player who goes, up to case, by `name`, where there is one.
    pub open spec fn player_named(self, name: Seq<char>) -> PlayerView {
        self.players[choose|i: int|
            0 <= i < self.players.len() && ci_eq((#[trigger] self.players[i]).name, name)]
    }

    /// Whether the player `player` is credited as a creator of the entry `demon`.
    pub open spec fn has_creator(self, demon: int, player: int) -> bool {
        self.creators.contains((demon, player))
    }

    /// The players credited as creators of the entry `demon`, in the order of
    /// the player table.
    pub open spec fn creators_of(self, demon: int) -> Seq<PlayerView> {
        self.players.filter(credited_in(self.creators, demon))
    }

    /// How crediting `player` for `demon` ends: both must be in the store.
    pub open spec fn credit_result(self, demon: int, player: int) -> Result<(), PointercrateError> {
        if self.has_demon(demon) && self.has_player(player) {
            Ok(())
        } else {
            Err(PointercrateError::NotFound)
        }
    }

    /// The store after crediting `player` for `demon`: one more creator row,
    /// unless the credit fails or the row is there already.
    pub open spec fn after_credit(self, demon: int, player: int) -> Database {
        if self.credit_result(demon, player) is Ok && !self.has_creator(demon, player) {
            self.execute(StatementView::InsertCreator { demon_id: demon, player_id: player })
        } else {
            self
        }
    }

    /// Whether the list can take no further entry: it has as many as there
    /// are positions, or no key is left.
    pub open spec fn full(self) -> bool {
        self.demons.len() >= i16::MAX || self.next_demon >= i32::MAX
    }

    /// The store after the new row `row` is inserted at its position: the
    /// entries at or after that position move up by one, the row joins them,
    /// and the next key is taken.
    pub open spec fn after_insert(self, row: DemonView) -> Database {
        Database {
            next_demon: self.next_demon + 1,
            ..self.execute(
                StatementView::ShiftUp {
                    from: row.base.position,
                    before: self.max_position() + 1,
                },
            ).execute(StatementView::InsertDemon { demon: row })
        }
    }

    /// The player of the name `name` looked up or created and then credited
    /// for `demon`.
    pub open spec fn credit_named(self, demon: int, name: Seq<char>) -> Credited {
        match self.resolve_result(name) {
            Err(e) => Credited { db: self, error: Some(e) },
            Ok(p) => {
                let found = self.after_resolve(name);
                match found.credit_result(demon, p.id) {
                    Err(e) => Credited { db: found, error: Some(e) },
                    Ok(_) => Credited { db: found.after_credit(demon, p.id), error: None },
                }
            },
        }
    }

    /// The players of the names `names` credited for `demon` one after the
    /// other, up to the first that fails.
    pub open spec fn credit_all(self, demon: int, names: Seq<Seq<char>>) -> Credited
        decreases names.len(),
    {
        if names.len() == 0 {
            Credited { db: self, error: None }
        } else {
            let before = self.credit_all(demon, names.drop_last());
            if before.error is Some {
                before
            } else {
                before.db.credit_named(demon, names.last())
            }
        }
    }

    /// How taking the credit of `player` for `demon` back ends: the row must
    /// be there.
    pub open spec fn discredit_result(self, demon: int, player: int) -> Result<
        (),
        PointercrateError,
    > {
        if self.has_creator(demon, player) {
            Ok(())
        } else {
            Err(PointercrateError::NotFound)
        }
    }

    /// The store after taking the credit of `player` for `demon` back.
    pub open spec fn after_discredit(self, demon: int, player: int) -> Database {
        if self.has_creator(demon, player) {
            self.execute(StatementView::DeleteCreator { demon_id: demon, player_id: player })
        } else {
            self
        }
    }

    /// The player that a lookup by `name` ends with: the one who goes by that
    /// name, else a new one under the next free key; an error only where no
    /// key is left.
    pub open spec fn resolve_result(self, name: Seq<char>) -> Result<PlayerView, PointercrateError> {
        if self.has_player_named(name) {
            Ok(self.player_named(name))
        } else if self.next_player >= i32::MAX {
            Err(PointercrateError::DatabaseError)
        } else {
            Ok(PlayerView { id: self.next_player, name: name })
        }
    }

    /// The store after a lookup by `name`: untouched where the player exists
    /// or no key is left, else with the new player inserted.
    pub open spec fn after_resolve(self, name: Seq<char>) -> Database {
        if self.has_player_named(name) || self.next_player >= i32::MAX {
            self
        } else {
            Database {
                next_player: self.next_player + 1,
                ..self.execute(
                    StatementView::InsertPlayer {
                        player: PlayerView { id: self.next_player, name: name },
                    },
                )
            }
        }
    }
}

/// In a dense list of `N` entries the positions in use are exactly the
/// numbers `1..=N`, each used by one entry.
pub proof fn lemma_dense_is_permutation(db: Database)
    requires
        db.dense(),
    ensures
        db.positions().no_duplicates(),
        db.positions().to_set() == set_int_range(1, db.max_position() + 1),
        forall|p: int| #[trigger] db.has_position(p) <==> 1 <= p <= db.demons.len(),
{
    broadcast use vstd::seq_lib::seq_to_set_is_finite;

    let ps = db.positions();
    let n = db.demons.len() as int;
    assert forall|i: int, j: int| 0 <= i < ps.len() && 0 <= j < ps.len() && i != j implies ps[i]
        != ps[j] by {
        if i < j {
            assert(db.demons[i].base.position != db.demons[j].base.position);
        } else {
            assert(db.demons[j].base.position != db.demons[i].base.position);
        }
    }
    ps.unique_seq_to_set();
    lemma_int_range(1, n + 1);
    assert forall|p: int| ps.to_set().contains(p) implies set_int_range(1, n + 1).contains(p) by {
        let i = choose|i: int| 0 <= i < ps.len() && ps[i] == p;
        assert(1 <= db.demons[i].base.position <= n);
    }
    lemma_subset_equality(ps.to_set(), set_int_range(1, n + 1));
    assert forall|p: int| #[trigger] db.has_position(p) <==> 1 <= p <= n by {
        if db.has_position(p) {
            let i = choose|i: int|
                0 <= i < db.demons.len() && (#[trigger] db.demons[i]).base.position == p;
            assert(1 <= db.demons[i].base.position <= n);
        }
        if 1 <= p <= n {
            assert(set_int_range(1, n + 1).contains(p));
            assert(ps.to_set().contains(p));
            let i = choose|i: int| 0 <= i < ps.len() && ps[i] == p;
            assert(db.demons[i].base.position == p);
        }
    }
}

/// Looking an entry up by its position and then by its key gives the same row.
pub proof fn lemma_row_at_is_row_of(db: Database, position: int)
    requires
        db.wf(),
        db.has_position(position),
    ensures
        db.has_demon(db.demon_at(position).base.id),
        db.demon(db.demon_at(position).base.id) == db.demon_at(position),
{
    let i = choose|i: int|
        0 <= i < db.demons.len() && (#[trigger] db.demons[i]).base.position == position;
    let id = db.demons[i].base.id;
    let k = choose|k: int| 0 <= k < db.demons.len() && (#[trigger] db.demons[k]).base.id == id;
    if k < i {
        assert(db.demons[k].base.id != db.demons[i].base.id);
    } else if i < k {
        assert(db.demons[i].base.id != db.demons[k].base.id);
    }
}

/// Whether `s` changes one column of one entry, neither its key nor its
/// position, and, where the column is the requirement, to a value in `0..=100`.
pub open spec fn is_column_write(s: StatementView) -> bool {
    ||| s is SetName
    ||| s is SetVideo
    ||| s is SetVerifier
    ||| s is SetPublisher
    ||| (s matches StatementView::SetRequirement { requirement, .. } && 0 <= requirement <= 100)
}

/// A write to a column other than the position leaves the store well-formed.
pub proof fn lemma_column_write_keeps_wf(db: Database, s: StatementView)
    requires
        db.wf(),
        is_column_write(s),
    ensures
        db.execute(s).wf(),
{
    let after = db.execute(s);
    assert forall|i: int| 0 <= i < after.demons.len() implies (#[trigger] after.demons[i]).base.id
        == db.demons[i].base.id && after.demons[i].base.position
        == db.demons[i].base.position by {
        assert(after.demons[i] == s.on_row(db.demons[i]));
    }
    assert forall|i: int, j: int| 0 <= i < j < after.demons.len() implies (
    #[trigger] after.demons[i]).base.position != (#[trigger] after.demons[j]).base.position by {
        assert(db.demons[i].base.position != db.demons[j].base.position);
    }
    assert forall|i: int, j: int| 0 <= i < j < after.demons.len() implies (
    #[trigger] after.demons[i]).base.id != (#[trigger] after.demons[j]).base.id by {
        assert(db.demons[i].base.id != db.demons[j].base.id);
    }
    assert forall|i: int| 0 <= i < after.demons.len() implies 1 <= (
    #[trigger] after.demons[i]).base.position <= after.demons.len() by {
        assert(1 <= db.demons[i].base.position <= db.demons.len());
    }
    assert forall|i: int| 0 <= i < after.demons.len() implies (#[trigger] after.demons[i]).base.id
        < after.next_demon by {
        assert(db.demons[i].base.id < db.next_demon);
    }
    assert forall|i: int| 0 <= i < after.demons.len() implies 0 <= (
    #[trigger] after.demons[i]).requirement <= 100 by {
        assert(after.demons[i] == s.on_row(db.demons[i]));
        assert(0 <= db.demons[i].requirement <= 100);
    }
}

/// A lookup by name leaves the store well-formed, whether or not it had to
/// insert the player.
pub proof fn lemma_resolve_keeps_wf(db: Database, name: Seq<char>)
    requires
        db.wf(),
    ensures
        db.after_resolve(name).wf(),
{
    let after = db.after_resolve(name);
    if after != db {
        let n = db.players.len() as int;
        assert(after.players == db.players.push(PlayerView { id: db.next_player, name: name }));
        assert(after.demons =~= db.demons);
        assert forall|i: int, j: int| 0 <= i < j < after.players.len() implies (
        #[trigger] after.players[i]).id != (#[trigger] after.players[j]).id && !ci_eq(
            after.players[i].name,
            after.players[j].name,
        ) by {
            if j < n {
                assert(db.players[i].id != db.players[j].id);
                assert(!ci_eq(db.players[i].name, db.players[j].name));
            } else {
                assert(db.players[i].id < db.next_player);
                assert(!ci_eq(db.players[i].name, name));
            }
        }
        assert forall|i: int| 0 <= i < after.players.len() implies (#[trigger] after.players[i]).id
            < after.next_player by {
            if i < n {
                assert(db.players[i].id < db.next_player);
            }
        }
    }
}

/// A lookup by name changes no entry and no creator row, and the player it
/// ends with is in the store afterwards.
pub proof fn lemma_resolve_keeps_rows(db: Database, name: Seq<char>)
    requires
        db.wf(),
    ensures
        db.after_resolve(name).demons == db.demons,
        db.after_resolve(name).creators == db.creators,
        db.resolve_result(name) is Ok ==> db.after_resolve(name).has_player(
            db.resolve_result(name)->Ok_0.id,
        ),
{
    let after = db.after_resolve(name);
    assert(after.demons =~= db.demons);
    if db.resolve_result(name) is Ok {
        if db.has_player_named(name) {
            let k = choose|k: int|
                0 <= k < db.players.len() && ci_eq((#[trigger] db.players[k]).name, name);
            assert(db.players[k].id == db.player_named(name).id);
        } else {
            assert(after.players[db.players.len() as int].id == db.next_player);
        }
    }
}

/// Looking the same name up a second time finds the player of the first
/// lookup and changes nothing.
pub proof fn lemma_resolve_twice(db: Database, name: Seq<char>)
    requires
        db.wf(),
        db.resolve_result(name) is Ok,
    ensures
        db.after_resolve(name).resolve_result(name) == db.resolve_result(name),
        db.after_resolve(name).after_resolve(name) == db.after_resolve(name),
{
    let after = db.after_resolve(name);
    if after != db {
        let n = db.players.len() as int;
        assert(after.players[n].name == name);
        assert(after.has_player_named(name));
        let k = choose|k: int|
            0 <= k < after.players.len() && ci_eq((#[trigger] after.players[k]).name, name);
        if k < n {
            assert(ci_eq(db.players[k].name, name));
        }
    }
}

/// Filtering a sequence without repetitions leaves one without repetitions,
/// which holds exactly the members that pass.
pub proof fn lemma_filter_distinct<A>(s: Seq<A>, pred: spec_fn(A) -> bool)
    requires
        s.no_duplicates(),
    ensures
        s.filter(pred).no_duplicates(),
        forall|x: A| #[trigger] s.filter(pred).contains(x) <==> s.contains(x) && pred(x),
    decreases s.len(),
{
    reveal(Seq::filter);
    if s.len() > 0 {
        let front = s.drop_last();
        let last = s.last();
        lemma_filter_distinct(front, pred);
        let sub = front.filter(pred);
        let out = s.filter(pred);
        assert forall|x: A| front.contains(x) implies s.contains(x) && x != last by {
            let i = choose|i: int| 0 <= i < front.len() && front[i] == x;
            assert(s[i] == x);
        }
        assert forall|x: A| s.contains(x) && x != last implies front.contains(x) by {
            let i = choose|i: int| 0 <= i < s.len() && s[i] == x;
            assert(front[i] == x);
        }
        assert(s.contains(last)) by {
            assert(s[s.len() - 1] == last);
        }
        if pred(last) {
            assert(out == sub.push(last));
            assert(!sub.contains(last));
            assert forall|i: int, j: int| 0 <= i < out.len() && 0 <= j < out.len() && i
                != j implies out[i] != out[j] by {
                if i < sub.len() {
                    assert(sub.contains(sub[i]));
                }
                if j < sub.len() {
                    assert(sub.contains(sub[j]));
                }
            }
            assert forall|x: A| #[trigger] out.contains(x) <==> s.contains(x) && pred(x) by {
                if out.contains(x) {
                    let i = choose|i: int| 0 <= i < out.len() && out[i] == x;
                    if i < sub.len() {
                        assert(sub.contains(x));
                    }
                }
                if s.contains(x) && pred(x) {
                    if x == last {
                        assert(out[out.len() - 1] == x);
                    } else {
                        assert(sub.contains(x));
                        let i = choose|i: int| 0 <= i < sub.len() && sub[i] == x;
                        assert(out[i] == x);
                    }
                }
            }
        } else {
            assert(out == sub);
        }
    }
}

/// Crediting a player for an entry leaves the store well-formed.
pub proof fn lemma_credit_keeps_wf(db: Database, demon: int, player: int)
    requires
        db.wf(),
    ensures
        db.after_credit(demon, player).wf(),
{
    let after = db.after_credit(demon, player);
    if after != db {
        assert(after.demons =~= db.demons);
        let k = choose|k: int| 0 <= k < db.players.len() && (#[trigger] db.players[k]).id == player;
        assert(db.players[k].id < db.next_player);
        assert forall|i: int, j: int| 0 <= i < after.creators.len() && 0 <= j
            < after.creators.len() && i != j implies after.creators[i] != after.creators[j] by {
            if i < db.creators.len() {
                assert(db.creators.contains(db.creators[i]));
            }
            if j < db.creators.len() {
                assert(db.creators.contains(db.creators[j]));
            }
        }
    }
}

/// Taking a credit back leaves the store well-formed.
pub proof fn lemma_discredit_keeps_wf(db: Database, demon: int, player: int)
    requires
        db.wf(),
    ensures
        db.after_discredit(demon, player).wf(),
{
    let after = db.after_discredit(demon, player);
    if after != db {
        assert(after.demons =~= db.demons);
        let keep = |c: (int, int)| !is_pair(c, demon, player);
        lemma_filter_distinct(db.creators, keep);
        assert forall|i: int| 0 <= i < after.creators.len() implies (
        #[trigger] after.creators[i]).1 < after.next_player by {
            assert(after.creators.contains(after.creators[i]));
            let c = after.creators[i];
            let j = choose|j: int| 0 <= j < db.creators.len() && db.creators[j] == c;
            assert(db.creators[j].1 < db.next_player);
        }
    }
}

/// Inserting a row at a position in `1..=N+1` under the next key leaves the
/// list dense and the store well-formed, and between the shift and the
/// insertion no two entries share a position.
pub proof fn lemma_insert_keeps_wf(db: Database, row: DemonView)
    requires
        db.wf(),
        !db.full(),
        1 <= row.base.position <= db.max_position() + 1,
        0 <= row.requirement <= 100,
        row.base.id == db.next_demon,
    ensures
        db.after_insert(row).wf(),
        db.execute(
            StatementView::ShiftUp { from: row.base.position, before: db.max_position() + 1 },
        ).unique_positions(),
{
    let shift = StatementView::ShiftUp { from: row.base.position, before: db.max_position() + 1 };
    let shifted = db.execute(shift);
    let after = db.after_insert(row);
    let n = db.demons.len() as int;
    assert(after.demons == shifted.demons.push(row));
    assert forall|i: int| 0 <= i < n implies (#[trigger] after.demons[i]) == shift.on_row(
        db.demons[i],
    ) by {
        assert(shifted.demons[i] == shift.on_row(db.demons[i]));
    }
    assert forall|i: int, j: int| 0 <= i < j < shifted.demons.len() implies (
    #[trigger] shifted.demons[i]).base.position != (#[trigger] shifted.demons[j]).base.position by {
        assert(db.demons[i].base.position != db.demons[j].base.position);
    }
    assert forall|i: int| 0 <= i < after.demons.len() implies 1 <= (
    #[trigger] after.demons[i]).base.position <= after.demons.len() && after.demons[i].base.id
        < after.next_demon && 0 <= after.demons[i].requirement <= 100 by {
        if i < n {
            assert(1 <= db.demons[i].base.position <= n);
            assert(db.demons[i].base.id < db.next_demon);
            assert(0 <= db.demons[i].requirement <= 100);
        }
    }
    assert forall|i: int, j: int| 0 <= i < j < after.demons.len() implies (
    #[trigger] after.demons[i]).base.position != (#[trigger] after.demons[j]).base.position
        && after.demons[i].base.id != after.demons[j].base.id by {
        assert(1 <= db.demons[i].base.position <= n);
        assert(db.demons[i].base.id < db.next_demon);
        if j < n {
            assert(db.demons[i].base.position != db.demons[j].base.position);
            assert(db.demons[i].base.id != db.demons[j].base.id);
        }
    }
}

/// Crediting a player by name leaves the store well-formed.
pub proof fn lemma_credit_named_keeps_wf(db: Database, demon: int, name: Seq<char>)
    requires
        db.wf(),
    ensures
        db.credit_named(demon, name).db.wf(),
{
    lemma_resolve_keeps_wf(db, name);
    if db.resolve_result(name) is Ok {
        lemma_credit_keeps_wf(db.after_resolve(name), demon, db.resolve_result(name)->Ok_0.id);
    }
}

/// Once crediting has failed on a prefix of the names, the rest changes nothing.
pub proof fn lemma_credit_all_stops(db: Database, demon: int, names: Seq<Seq<char>>, k: int)
    requires
        0 <= k <= names.len(),
        db.credit_all(demon, names.take(k)).error is Some,
    ensures
        db.credit_all(demon, names) == db.credit_all(demon, names.take(k)),
    decreases names.len() - k,
{
    if k < names.len() {
        assert(names.take(k + 1).drop_last() =~= names.take(k));
        lemma_credit_all_stops(db, demon, names, k + 1);
    } else {
        assert(names.take(k) =~= names);
    }
}

/// Crediting a player a second time changes nothing: the store holds one
/// row for the pair, however often it was credited.
pub proof fn lemma_credit_twice(db: Database, demon: int, player: int)
    requires
        db.wf(),
        db.credit_result(demon, player) is Ok,
    ensures
        db.after_credit(demon, player).has_creator(demon, player),
        db.after_credit(demon, player).credit_result(demon, player) is Ok,
        db.after_credit(demon, player).after_credit(demon, player) == db.after_credit(
            demon,
            player,
        ),
        forall|i: int, j: int|
            #![trigger db.after_credit(demon, player).creators[i], db.after_credit(demon, player).creators[j]]
            0 <= i < j < db.after_credit(demon, player).creators.len() ==> !(is_pair(
                db.after_credit(demon, player).creators[i],
                demon,
                player,
            ) && is_pair(db.after_credit(demon, player).creators[j], demon, player)),
{
    let after = db.after_credit(demon, player);
    lemma_credit_keeps_wf(db, demon, player);
    if after != db {
        assert(after.demons =~= db.demons);
        assert(after.creators[db.creators.len() as int] == (demon, player));
        let k = choose|k: int|
            0 <= k < db.demons.len() && (#[trigger] db.demons[k]).base.id == demon;
        assert(after.demons[k].base.id == demon);
        let m = choose|m: int| 0 <= m < db.players.len() && (#[trigger] db.players[m]).id == player;
        assert(after.players[m].id == player);
    }
    assert forall|i: int, j: int| 0 <= i < j < after.creators.len() implies !(is_pair(
        #[trigger] after.creators[i],
        demon,
        player,
    ) && is_pair(#[trigger] after.creators[j], demon, player)) by {
        assert(after.creators[i] != after.creators[j]);
    }
}

/// A statement that inserts nothing and deletes nothing keeps every entry
/// under its key, and changes the entry's row as it changes any row.
pub proof fn lemma_row_after_write(db: Database, s: StatementView, id: int)
    requires
        db.wf(),
        db.has_demon(id),
        is_column_write(s),
    ensures
        db.execute(s).has_demon(id),
        db.execute(s).demon(id) == s.on_row(db.demon(id)),
        db.execute(s).players == db.players,
        db.execute(s).creators == db.creators,
{
    let after = db.execute(s);
    lemma_column_write_keeps_wf(db, s);
    let k = choose|k: int| 0 <= k < db.demons.len() && (#[trigger] db.demons[k]).base.id == id;
    assert(after.demons[k] == s.on_row(db.demons[k]));
    assert(after.demons[k].base.id == id);
    let j = choose|j: int| 0 <= j < after.demons.len() && (#[trigger] after.demons[j]).base.id == id;
    if j < k {
        assert(after.demons[j].base.id != after.demons[k].base.id);
    } else if k < j {
        assert(after.demons[k].base.id != after.demons[j].base.id);
    }
}

/// A lookup by name leaves the creators of every entry as they are.
pub proof fn lemma_resolve_keeps_creators(db: Database, name: Seq<char>, demon: int)
    requires
        db.wf(),
    ensures
        db.after_resolve(name).creators_of(demon) == db.creators_of(demon),
{
    let after = db.after_resolve(name);
    if after != db {
        reveal(Seq::filter);
        let credited = credited_in(db.creators, demon);
        let new = PlayerView { id: db.next_player, name: name };
        assert(after.players == db.players.push(new));
        assert(after.players.drop_last() =~= db.players);
        if credited(new) {
            let i = choose|i: int| 0 <= i < db.creators.len() && db.creators[i] == (demon, new.id);
            assert(db.creators[i].1 < db.next_player);
        }
    }
}

} // verus!

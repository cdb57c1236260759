//! The store held in memory: the tables, the journal, and the reads and
//! writes that the operations of the list are built from.

use crate::cistring::{ci_eq, CiString};
use crate::creator::Creator;
use crate::database::{
    creators_valid_in, credited_in, dense_in, is_pair, keys_valid_in, players_valid_in,
    requirements_valid_in, update_all, viewed, Database,
};
use crate::demon::{text_of, Demon, DemonView, MinimalDemon, MinimalDemonView};
use crate::error::PointercrateError;
use crate::player::{player_rows_of, DatabasePlayer, PlayerView};
use crate::statement::{Statement, StatementView};
use vstd::prelude::*;

verus! {

/// The rows behind a vector of entries.
pub open spec fn rows_of(v: Seq<Demon>) -> Seq<DemonView> {
    Seq::new(v.len(), |i: int| v[i]@)
}

/// The rows behind a vector of creator pairs.
pub open spec fn creator_rows_of(v: Seq<(i32, i32)>) -> Seq<(int, int)> {
    Seq::new(v.len(), |i: int| (v[i].0 as int, v[i].1 as int))
}

/// The statements behind a journal.
pub open spec fn statements_of(v: Seq<Statement>) -> Seq<StatementView> {
    Seq::new(v.len(), |i: int| v[i]@)
}

/// An open unit of work on the store, held in memory: the three tables and
/// the journal of every statement carried out on them.
pub struct Connection {
    demons: Vec<Demon>,
    players: Vec<DatabasePlayer>,
    creators: Vec<(i32, i32)>,
    journal: Vec<Statement>,
    next_demon: i32,
    next_player: i32,
}

impl View for Connection {
    type V = Database;

    closed spec fn view(&self) -> Database {
        Database {
            demons: rows_of(self.demons@),
            players: player_rows_of(self.players@),
            creators: creator_rows_of(self.creators@),
            journal: statements_of(self.journal@),
            next_demon: self.next_demon as int,
            next_player: self.next_player as int,
        }
    }
}

fn update_rows(rows: &mut Vec<Demon>, stmt: &Statement)
    ensures
        rows_of(final(rows)@) == update_all(rows_of(old(rows)@), stmt@),
{
    let ghost before = rows@;
    let n = rows.len();
    let mut i: usize = 0;
    while i < n
        invariant
            i <= n,
            rows@.len() == n,
            before.len() == n,
            forall|j: int| 0 <= j < i ==> (#[trigger] rows@[j])@ == stmt@.on_row(before[j]@),
            forall|j: int| i <= j < n ==> #[trigger] rows@[j] == before[j],
        decreases n - i,
    {
        stmt.apply(&mut rows[i]);
        i += 1;
    }
    assert(rows_of(rows@) =~= update_all(rows_of(before), stmt@));
}

fn without_pair(pairs: &Vec<(i32, i32)>, demon: i32, player: i32) -> (out: Vec<(i32, i32)>)
    ensures
        creator_rows_of(out@) == creator_rows_of(pairs@).filter(
            |c: (int, int)| !is_pair(c, demon as int, player as int),
        ),
{
    let ghost keep = |c: (int, int)| !is_pair(c, demon as int, player as int);
    let ghost all = creator_rows_of(pairs@);
    let mut out: Vec<(i32, i32)> = Vec::new();
    let mut i: usize = 0;
    proof {
        reveal(Seq::filter);
        assert(all.take(0) =~= Seq::empty());
        assert(creator_rows_of(out@) =~= all.take(0).filter(keep));
    }
    while i < pairs.len()
        invariant
            i <= pairs@.len(),
            all == creator_rows_of(pairs@),
            keep == |c: (int, int)| !is_pair(c, demon as int, player as int),
            creator_rows_of(out@) == all.take(i as int).filter(keep),
        decreases pairs@.len() - i,
    {
        let c = pairs[i];
        let ghost prev = creator_rows_of(out@);
        if !(c.0 == demon && c.1 == player) {
            out.push(c);
        }
        proof {
            reveal(Seq::filter);
            assert(all.take(i + 1).drop_last() =~= all.take(i as int));
            assert(all.take(i + 1).last() == (c.0 as int, c.1 as int));
            if keep((c.0 as int, c.1 as int)) {
                assert(creator_rows_of(out@) =~= prev.push((c.0 as int, c.1 as int)));
            }
        }
        i += 1;
    }
    assert(all.take(pairs@.len() as int) =~= all);
    out
}

fn clone_rows(rows: &Vec<Demon>) -> (out: Vec<Demon>)
    ensures
        rows_of(out@) == rows_of(rows@),
{
    let mut out: Vec<Demon> = Vec::new();
    let mut i: usize = 0;
    while i < rows.len()
        invariant
            i <= rows@.len(),
            out@.len() == i,
            forall|j: int| 0 <= j < i ==> (#[trigger] out@[j])@ == rows@[j]@,
        decreases rows@.len() - i,
    {
        out.push(rows[i].clone());
        i += 1;
    }
    assert(rows_of(out@) =~= rows_of(rows@));
    out
}

fn clone_players(rows: &Vec<DatabasePlayer>) -> (out: Vec<DatabasePlayer>)
    ensures
        player_rows_of(out@) == player_rows_of(rows@),
{
    let mut out: Vec<DatabasePlayer> = Vec::new();
    let mut i: usize = 0;
    while i < rows.len()
        invariant
            i <= rows@.len(),
            out@.len() == i,
            forall|j: int| 0 <= j < i ==> (#[trigger] out@[j])@ == rows@[j]@,
        decreases rows@.len() - i,
    {
        out.push(rows[i].clone());
        i += 1;
    }
    assert(player_rows_of(out@) =~= player_rows_of(rows@));
    out
}

fn clone_journal(rows: &Vec<Statement>) -> (out: Vec<Statement>)
    ensures
        statements_of(out@) == statements_of(rows@),
{
    let mut out: Vec<Statement> = Vec::new();
    let mut i: usize = 0;
    while i < rows.len()
        invariant
            i <= rows@.len(),
            out@.len() == i,
            forall|j: int| 0 <= j < i ==> (#[trigger] out@[j])@ == rows@[j]@,
        decreases rows@.len() - i,
    {
        out.push(rows[i].clone());
        i += 1;
    }
    assert(statements_of(out@) =~= statements_of(rows@));
    out
}

fn clone_pairs(rows: &Vec<(i32, i32)>) -> (out: Vec<(i32, i32)>)
    ensures
        out@ == rows@,
{
    let mut out: Vec<(i32, i32)> = Vec::new();
    let mut i: usize = 0;
    while i < rows.len()
        invariant
            i <= rows@.len(),
            out@.len() == i,
            forall|j: int| 0 <= j < i ==> #[trigger] out@[j] == rows@[j],
        decreases rows@.len() - i,
    {
        let pair = rows[i];
        out.push((pair.0, pair.1));
        i += 1;
    }
    assert(out@ =~= rows@);
    out
}

/// The store that holds the given rows, has written nothing yet, and will
/// hand out the given keys next.
pub open spec fn loaded(
    demons: Seq<DemonView>,
    players: Seq<PlayerView>,
    creators: Seq<(int, int)>,
    next_demon: int,
    next_player: int,
) -> Database {
    Database {
        demons: demons,
        players: players,
        creators: creators,
        journal: Seq::empty(),
        next_demon: next_demon,
        next_player: next_player,
    }
}

/// The pairs behind a vector of creator rows.
pub open spec fn pairs_of(v: Seq<Creator>) -> Seq<(int, int)> {
    Seq::new(v.len(), |i: int| (v[i].demon as int, v[i].creator as int))
}

/// Whether one of the first `i` rows stands at the position `q`.
spec fn taken(rows: Seq<DemonView>, i: int, q: int) -> bool {
    exists|a: int| 0 <= a < i && (#[trigger] rows[a]).base.position == q
}

fn rows_dense(rows: &Vec<Demon>) -> (ok: bool)
    ensures
        ok == (rows@.len() <= i16::MAX && dense_in(rows_of(rows@))),
{
    let ghost view = rows_of(rows@);
    let n = rows.len();
    if n > 32767 {
        return false;
    }
    let mut seen: Vec<bool> = Vec::new();
    let mut k: usize = 0;
    while k <= n
        invariant
            k <= n + 1,
            n <= 32767,
            seen@.len() == k,
            forall|q: int| 0 <= q < k ==> !#[trigger] seen@[q],
        decreases n + 1 - k,
    {
        seen.push(false);
        k += 1;
    }
    let mut i: usize = 0;
    while i < n
        invariant
            i <= n,
            n == rows@.len(),
            n <= 32767,
            view == rows_of(rows@),
            seen@.len() == n + 1,
            forall|q: int| 0 <= q <= n ==> (#[trigger] seen@[q] <==> taken(view, i as int, q)),
            forall|a: int| 0 <= a < i ==> 1 <= (#[trigger] view[a]).base.position <= n,
            forall|a: int, b: int|
                0 <= a < b < i ==> (#[trigger] view[a]).base.position != (
                #[trigger] view[b]).base.position,
        decreases n - i,
    {
        let p = rows[i].base.position;
        if p < 1 || p as usize > n {
            assert(!(1 <= view[i as int].base.position <= n));
            return false;
        }
        if seen[p as usize] {
            proof {
                assert(taken(view, i as int, p as int));
                let a = choose|a: int| 0 <= a < i && (#[trigger] view[a]).base.position == p;
                assert(view[a].base.position == view[i as int].base.position);
            }
            return false;
        }
        let ghost before = seen@;
        seen.set(p as usize, true);
        proof {
            assert forall|a: int| 0 <= a < i implies (#[trigger] view[a]).base.position != p by {
                if view[a].base.position == p {
                    assert(taken(view, i as int, p as int));
                }
            }
            assert forall|q: int| 0 <= q <= n implies (#[trigger] seen@[q] <==> taken(
                view,
                i + 1,
                q,
            )) by {
                if q == p {
                    assert(view[i as int].base.position == q);
                } else {
                    assert(seen@[q] == before[q]);
                    if taken(view, i as int, q) {
                        let a = choose|a: int|
                            0 <= a < i && (#[trigger] view[a]).base.position == q;
                        assert(view[a].base.position == q);
                    }
                    if taken(view, i + 1, q) {
                        let a = choose|a: int|
                            0 <= a < i + 1 && (#[trigger] view[a]).base.position == q;
                        assert(a < i);
                    }
                }
            }
        }
        i += 1;
    }
    true
}

fn rows_keyed(rows: &Vec<Demon>, next: i32) -> (ok: bool)
    ensures
        ok == (keys_valid_in(rows_of(rows@), next as int) && requirements_valid_in(rows_of(rows@))),
{
    let ghost view = rows_of(rows@);
    let n = rows.len();
    let mut i: usize = 0;
    while i < n
        invariant
            i <= n,
            n == rows@.len(),
            view == rows_of(rows@),
            forall|a: int| 0 <= a < i ==> (#[trigger] view[a]).base.id < next,
            forall|a: int| 0 <= a < i ==> 0 <= (#[trigger] view[a]).requirement <= 100,
            forall|a: int, b: int|
                0 <= a < b < i ==> (#[trigger] view[a]).base.id != (#[trigger] view[b]).base.id,
        decreases n - i,
    {
        let id = rows[i].base.id;
        if id >= next {
            assert(!(view[i as int].base.id < next));
            return false;
        }
        if rows[i].requirement < 0 || rows[i].requirement > 100 {
            assert(!(0 <= view[i as int].requirement <= 100));
            return false;
        }
        let mut j: usize = 0;
        while j < i
            invariant
                j <= i,
                i < n,
                n == rows@.len(),
                view == rows_of(rows@),
                id == rows@[i as int].base.id,
                forall|a: int| 0 <= a < j ==> (#[trigger] view[a]).base.id != id,
            decreases i - j,
        {
            if rows[j].base.id == id {
                assert(view[j as int].base.id == view[i as int].base.id);
                return false;
            }
            j += 1;
        }
        i += 1;
    }
    true
}

fn players_keyed(rows: &Vec<DatabasePlayer>, next: i32) -> (ok: bool)
    ensures
        ok == players_valid_in(player_rows_of(rows@), next as int),
{
    let ghost view = player_rows_of(rows@);
    let n = rows.len();
    let mut i: usize = 0;
    while i < n
        invariant
            i <= n,
            n == rows@.len(),
            view == player_rows_of(rows@),
            forall|a: int| 0 <= a < i ==> (#[trigger] view[a]).id < next,
            forall|a: int, b: int| 0 <= a < b < i ==> (#[trigger] view[a]).id != (#[trigger] view[b]).id,
            forall|a: int, b: int|
                0 <= a < b < i ==> !ci_eq((#[trigger] view[a]).name, (#[trigger] view[b]).name),
        decreases n - i,
    {
        if rows[i].id >= next {
            assert(!(view[i as int].id < next));
            return false;
        }
        let mut j: usize = 0;
        while j < i
            invariant
                j <= i,
                i < n,
                n == rows@.len(),
                view == player_rows_of(rows@),
                forall|a: int|
                    0 <= a < j ==> (#[trigger] view[a]).id != view[i as int].id && !ci_eq(
                        view[a].name,
                        view[i as int].name,
                    ),
            decreases i - j,
        {
            if rows[j].id == rows[i].id || rows[j].name == rows[i].name {
                assert(view[j as int].id == view[i as int].id || ci_eq(
                    view[j as int].name,
                    view[i as int].name,
                ));
                return false;
            }
            j += 1;
        }
        i += 1;
    }
    true
}

fn pairs_keyed(rows: &Vec<(i32, i32)>, next: i32) -> (ok: bool)
    ensures
        ok == creators_valid_in(creator_rows_of(rows@), next as int),
{
    let ghost view = creator_rows_of(rows@);
    let n = rows.len();
    let mut i: usize = 0;
    while i < n
        invariant
            i <= n,
            n == rows@.len(),
            view == creator_rows_of(rows@),
            forall|a: int| 0 <= a < i ==> (#[trigger] view[a]).1 < next,
            forall|a: int, b: int| 0 <= a < b < i ==> #[trigger] view[a] != #[trigger] view[b],
        decreases n - i,
    {
        let pair = rows[i];
        if pair.1 >= next {
            assert(!(view[i as int].1 < next));
            return false;
        }
        let mut j: usize = 0;
        while j < i
            invariant
                j <= i,
                i < n,
                n == rows@.len(),
                view == creator_rows_of(rows@),
                pair == rows@[i as int],
                forall|a: int| 0 <= a < j ==> #[trigger] view[a] != view[i as int],
            decreases i - j,
        {
            if rows[j].0 == pair.0 && rows[j].1 == pair.1 {
                assert(view[j as int] == view[i as int]);
                return false;
            }
            j += 1;
        }
        i += 1;
    }
    assert forall|a: int, b: int|
        0 <= a < view.len() && 0 <= b < view.len() && a != b implies view[a] != view[b] by {
        if a < b {
            assert(view[a] != view[b]);
        } else {
            assert(view[b] != view[a]);
        }
    }
    true
}

fn pairs_from(rows: &Vec<Creator>) -> (out: Vec<(i32, i32)>)
    ensures
        creator_rows_of(out@) == pairs_of(rows@),
{
    let mut out: Vec<(i32, i32)> = Vec::new();
    let mut i: usize = 0;
    while i < rows.len()
        invariant
            i <= rows@.len(),
            out@.len() == i,
            forall|j: int|
                0 <= j < i ==> (#[trigger] out@[j]).0 == rows@[j].demon && out@[j].1
                    == rows@[j].creator,
        decreases rows@.len() - i,
    {
        out.push((rows[i].demon, rows[i].creator));
        i += 1;
    }
    assert(creator_rows_of(out@) =~= pairs_of(rows@));
    out
}

impl Clone for Connection {
    /// A copy of the store on which work can go on without touching this one.
    fn clone(&self) -> (c: Connection)
        ensures
            c@ == self@,
    {
        Connection {
            demons: clone_rows(&self.demons),
            players: clone_players(&self.players),
            creators: clone_pairs(&self.creators),
            journal: clone_journal(&self.journal),
            next_demon: self.next_demon,
            next_player: self.next_player,
        }
    }
}

impl Connection {
    /// An empty store with an empty journal.
    pub fn new() -> (c: Connection)
        ensures
            c@.wf(),
            c@ == loaded(Seq::empty(), Seq::empty(), Seq::empty(), 1, 1),
    {
        let c = Connection {
            demons: Vec::new(),
            players: Vec::new(),
            creators: Vec::new(),
            journal: Vec::new(),
            next_demon: 1,
            next_player: 1,
        };
        assert(c@.demons =~= Seq::empty());
        assert(c@.players =~= Seq::empty());
        assert(c@.creators =~= Seq::empty());
        assert(c@.journal =~= Seq::empty());
        c
    }

    /// The store that holds the given rows, provided they are well-formed:
    /// the positions of the entries are `1..=N`, each used once; every
    /// requirement lies in `0..=100`; no key and, up to case, no player name
    /// stands twice; no creator row stands twice; and `next_demon` and
    /// `next_player` lie above every key in use. The positions are checked in
    /// one pass; the other checks compare the rows pair by pair.
    pub fn load(
        demons: Vec<Demon>,
        players: Vec<DatabasePlayer>,
        creators: Vec<Creator>,
        next_demon: i32,
        next_player: i32,
    ) -> (r: Result<Connection, PointercrateError>)
        ensures
            match r {
                Ok(c) => c@.wf() && c@ == loaded(
                    rows_of(demons@),
                    player_rows_of(players@),
                    pairs_of(creators@),
                    next_demon as int,
                    next_player as int,
                ),
                Err(e) => e == PointercrateError::DatabaseError && !loaded(
                    rows_of(demons@),
                    player_rows_of(players@),
                    pairs_of(creators@),
                    next_demon as int,
                    next_player as int,
                ).wf(),
            },
    {
        let pairs = pairs_from(&creators);
        if !rows_dense(&demons) || !rows_keyed(&demons, next_demon) || !players_keyed(
            &players,
            next_player,
        ) || !pairs_keyed(&pairs, next_player) {
            return Err(PointercrateError::DatabaseError);
        }
        let c = Connection {
            demons: demons,
            players: players,
            creators: pairs,
            journal: Vec::new(),
            next_demon: next_demon,
            next_player: next_player,
        };
        assert(c@.journal =~= Seq::empty());
        Ok(c)
    }

    /// Carries out one statement and notes it in the journal.
    pub(crate) fn execute(&mut self, stmt: Statement)
        ensures
            final(self)@ == old(self)@.execute(stmt@),
    {
        match &stmt {
            Statement::InsertDemon { demon } => {
                self.demons.push(demon.clone());
                assert(rows_of(self.demons@) =~= rows_of(old(self).demons@).push(demon@));
            },
            Statement::InsertPlayer { player } => {
                self.players.push(player.clone());
                assert(player_rows_of(self.players@) =~= player_rows_of(old(self).players@).push(
                    player@,
                ));
                assert(rows_of(self.demons@) =~= update_all(rows_of(self.demons@), stmt@));
            },
            Statement::InsertCreator { demon_id, player_id } => {
                self.creators.push((*demon_id, *player_id));
                assert(creator_rows_of(self.creators@) =~= creator_rows_of(
                    old(self).creators@,
                ).push((*demon_id as int, *player_id as int)));
                assert(rows_of(self.demons@) =~= update_all(rows_of(self.demons@), stmt@));
            },
            Statement::DeleteCreator { demon_id, player_id } => {
                self.creators = without_pair(&self.creators, *demon_id, *player_id);
                assert(rows_of(self.demons@) =~= update_all(rows_of(self.demons@), stmt@));
            },
            _ => {
                update_rows(&mut self.demons, &stmt);
            },
        }
        let ghost noted = stmt@;
        self.journal.push(stmt);
        assert(statements_of(self.journal@) =~= statements_of(old(self).journal@).push(noted));
    }

    /// The statements carried out so far, oldest first.
    pub fn journal(&self) -> (j: &Vec<Statement>)
        ensures
            statements_of(j@) == self@.journal,
    {
        &self.journal
    }

    /// The highest position in use.
    pub fn max_position(&self) -> (n: i16)
        requires
            self@.wf(),
        ensures
            n == self@.max_position(),
    {
        self.demons.len() as i16
    }

    /// Whether `d` is an entry of the list as far as key and position go.
    pub fn holds(&self, d: &MinimalDemon) -> (b: bool)
        ensures
            b == self@.holds(d@),
    {
        let mut i: usize = 0;
        while i < self.demons.len()
            invariant
                i <= self.demons@.len(),
                forall|j: int|
                    0 <= j < i ==> !((#[trigger] self@.demons[j]).base.id == d@.id
                        && self@.demons[j].base.position == d@.position),
            decreases self.demons@.len() - i,
        {
            if self.demons[i].base.id == d.id && self.demons[i].base.position == d.position {
                assert(self@.demons[i as int].base.id == d@.id);
                return true;
            }
            i += 1;
        }
        false
    }

    /// The entry with the key `id`.
    pub fn demon_by_id(&self, id: i32) -> (r: Option<Demon>)
        requires
            self@.wf(),
        ensures
            self@.has_demon(id as int) ==> (r matches Some(d) && d@ == self@.demon(id as int)),
            !self@.has_demon(id as int) ==> r is None,
    {
        let mut i: usize = 0;
        while i < self.demons.len()
            invariant
                self@.wf(),
                i <= self.demons@.len(),
                forall|j: int| 0 <= j < i ==> (#[trigger] self@.demons[j]).base.id != id,
            decreases self.demons@.len() - i,
        {
            if self.demons[i].base.id == id {
                proof {
                    let k = choose|k: int|
                        0 <= k < self@.demons.len() && (#[trigger] self@.demons[k]).base.id == id;
                    assert(self@.demons[i as int].base.id == id);
                    if k < i {
                        assert(self@.demons[k].base.id != self@.demons[i as int].base.id);
                    } else if k > i {
                        assert(self@.demons[i as int].base.id != self@.demons[k].base.id);
                    }
                }
                return Some(self.demons[i].clone());
            }
            i += 1;
        }
        None
    }

    /// The entry at `position`.
    pub fn demon_by_position(&self, position: i16) -> (r: Option<Demon>)
        requires
            self@.wf(),
        ensures
            self@.has_position(position as int) ==> (r matches Some(d) && d@ == self@.demon_at(
                position as int,
            )),
            !self@.has_position(position as int) ==> r is None,
    {
        let mut i: usize = 0;
        while i < self.demons.len()
            invariant
                self@.wf(),
                i <= self.demons@.len(),
                forall|j: int| 0 <= j < i ==> (#[trigger] self@.demons[j]).base.position != position,
            decreases self.demons@.len() - i,
        {
            if self.demons[i].base.position == position {
                proof {
                    let k = choose|k: int|
                        0 <= k < self@.demons.len() && (#[trigger] self@.demons[k]).base.position
                            == position;
                    assert(self@.demons[i as int].base.position == position);
                    if k < i {
                        assert(self@.demons[k].base.position != self@.demons[i as int].base.position);
                    } else if k > i {
                        assert(self@.demons[i as int].base.position != self@.demons[k].base.position);
                    }
                }
                return Some(self.demons[i].clone());
            }
            i += 1;
        }
        None
    }

    /// The player with the key `id`.
    pub fn player_by_id(&self, id: i32) -> (r: Option<DatabasePlayer>)
        requires
            self@.wf(),
        ensures
            self@.has_player(id as int) ==> (r matches Some(p) && p@ == self@.player(id as int)),
            !self@.has_player(id as int) ==> r is None,
    {
        let mut i: usize = 0;
        while i < self.players.len()
            invariant
                self@.wf(),
                i <= self.players@.len(),
                forall|j: int| 0 <= j < i ==> (#[trigger] self@.players[j]).id != id,
            decreases self.players@.len() - i,
        {
            if self.players[i].id == id {
                proof {
                    let k = choose|k: int|
                        0 <= k < self@.players.len() && (#[trigger] self@.players[k]).id == id;
                    assert(self@.players[i as int].id == id);
                    if k < i {
                        assert(self@.players[k].id != self@.players[i as int].id);
                    } else if k > i {
                        assert(self@.players[i as int].id != self@.players[k].id);
                    }
                }
                return Some(self.players[i].clone());
            }
            i += 1;
        }
        None
    }

    /// The player who goes, up to case, by `name`.
    pub fn player_named(&self, name: &CiString) -> (r: Option<DatabasePlayer>)
        requires
            self@.wf(),
        ensures
            self@.has_player_named(name@) ==> (r matches Some(p) && p@ == self@.player_named(
                name@,
            )),
            !self@.has_player_named(name@) ==> r is None,
    {
        let mut i: usize = 0;
        while i < self.players.len()
            invariant
                self@.wf(),
                i <= self.players@.len(),
                forall|j: int| 0 <= j < i ==> !ci_eq((#[trigger] self@.players[j]).name, name@),
            decreases self.players@.len() - i,
        {
            if self.players[i].name == *name {
                proof {
                    let k = choose|k: int|
                        0 <= k < self@.players.len() && ci_eq(
                            (#[trigger] self@.players[k]).name,
                            name@,
                        );
                    assert(ci_eq(self@.players[i as int].name, name@));
                    if k < i {
                        assert(!ci_eq(self@.players[k].name, self@.players[i as int].name));
                    } else if k > i {
                        assert(!ci_eq(self@.players[i as int].name, self@.players[k].name));
                    }
                }
                return Some(self.players[i].clone());
            }
            i += 1;
        }
        None
    }

    /// Inserts a player under the next free key.
    pub(crate) fn create_player(&mut self, name: CiString) -> (r: Result<
        DatabasePlayer,
        PointercrateError,
    >)
        requires
            old(self)@.wf(),
            !old(self)@.has_player_named(name@),
        ensures
            final(self)@ == old(self)@.after_resolve(name@),
            final(self)@.wf(),
            viewed(r) == old(self)@.resolve_result(name@),
    {
        proof {
            crate::database::lemma_resolve_keeps_wf(self@, name@);
        }
        if self.next_player == i32::MAX {
            return Err(PointercrateError::DatabaseError);
        }
        let player = DatabasePlayer { id: self.next_player, name: name };
        self.execute(Statement::InsertPlayer { player: player.clone() });
        self.next_player = self.next_player + 1;
        Ok(player)
    }

    /// Whether the player `player` is credited as a creator of the entry `demon`.
    pub fn has_creator(&self, demon: i32, player: i32) -> (b: bool)
        ensures
            b == self@.has_creator(demon as int, player as int),
    {
        let mut i: usize = 0;
        while i < self.creators.len()
            invariant
                i <= self.creators@.len(),
                forall|j: int|
                    0 <= j < i ==> #[trigger] self@.creators[j] != (demon as int, player as int),
            decreases self.creators@.len() - i,
        {
            if self.creators[i].0 == demon && self.creators[i].1 == player {
                assert(self@.creators[i as int] == (demon as int, player as int));
                return true;
            }
            i += 1;
        }
        false
    }

    /// The players credited as creators of the entry `demon`.
    pub fn creators_of(&self, demon: i32) -> (out: Vec<DatabasePlayer>)
        ensures
            player_rows_of(out@) == self@.creators_of(demon as int),
    {
        let ghost credited = credited_in(self@.creators, demon as int);
        let ghost all = self@.players;
        let mut out: Vec<DatabasePlayer> = Vec::new();
        let mut i: usize = 0;
        proof {
            reveal(Seq::filter);
            assert(all.take(0) =~= Seq::empty());
            assert(player_rows_of(out@) =~= all.take(0).filter(credited));
        }
        while i < self.players.len()
            invariant
                i <= self.players@.len(),
                all == self@.players,
                credited == credited_in(self@.creators, demon as int),
                player_rows_of(out@) == all.take(i as int).filter(credited),
            decreases self.players@.len() - i,
        {
            let ghost prev = player_rows_of(out@);
            let keep = self.has_creator(demon, self.players[i].id);
            if keep {
                out.push(self.players[i].clone());
            }
            proof {
                reveal(Seq::filter);
                assert(all.take(i + 1).drop_last() =~= all.take(i as int));
                assert(all.take(i + 1).last() == self.players@[i as int]@);
                if keep {
                    assert(player_rows_of(out@) =~= prev.push(self.players@[i as int]@));
                }
            }
            i += 1;
        }
        assert(all.take(self.players@.len() as int) =~= all);
        out
    }

    /// Whether the list can take no further entry.
    pub fn is_full(&self) -> (b: bool)
        ensures
            b == self@.full(),
    {
        self.demons.len() >= 32767 || self.next_demon == i32::MAX
    }

    /// Inserts an entry at `position` under the next free key.
    pub(crate) fn insert_demon(
        &mut self,
        name: CiString,
        position: i16,
        requirement: i16,
        video: Option<String>,
        publisher: DatabasePlayer,
        verifier: DatabasePlayer,
    ) -> (row: Demon)
        requires
            old(self)@.wf(),
            !old(self)@.full(),
            1 <= position <= old(self)@.max_position() + 1,
            0 <= requirement <= 100,
        ensures
            row@ == (DemonView {
                base: MinimalDemonView {
                    id: old(self)@.next_demon,
                    position: position as int,
                    name: name@,
                },
                requirement: requirement as int,
                video: text_of(video),
                publisher: publisher@,
                verifier: verifier@,
            }),
            final(self)@ == old(self)@.after_insert(row@),
            final(self)@.wf(),
    {
        let row = Demon {
            base: MinimalDemon { id: self.next_demon, position: position, name: name },
            requirement: requirement,
            video: video,
            publisher: publisher,
            verifier: verifier,
        };
        proof {
            crate::database::lemma_insert_keeps_wf(self@, row@);
        }
        let before = (self.demons.len() + 1) as i16;
        self.execute(Statement::ShiftUp { from: position, before: before });
        self.execute(Statement::InsertDemon { demon: row.clone() });
        self.next_demon = self.next_demon + 1;
        row
    }
}

} // verus!

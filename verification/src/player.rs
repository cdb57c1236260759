//! Players, looked up by key or by name.

use crate::cistring::CiString;
use crate::connection::Connection;
use crate::database::viewed;
use crate::error::PointercrateError;
use vstd::prelude::*;

verus! {

/// What a player row holds.
pub struct PlayerView {
    pub id: int,
    pub name: Seq<char>,
}

/// A player as the store knows them: the key of the row and the name it is
/// looked up by.
#[derive(Debug)]
pub struct DatabasePlayer {
    pub id: i32,
    pub name: CiString,
}

impl View for DatabasePlayer {
    type V = PlayerView;

    open spec fn view(&self) -> PlayerView {
        PlayerView { id: self.id as int, name: self.name@ }
    }
}

/// The rows behind a vector of players.
pub open spec fn player_rows_of(v: Seq<DatabasePlayer>) -> Seq<PlayerView> {
    Seq::new(v.len(), |i: int| v[i]@)
}

impl Clone for DatabasePlayer {
    fn clone(&self) -> (p: DatabasePlayer)
        ensures
            p@ == self@,
    {
        DatabasePlayer { id: self.id, name: self.name.clone() }
    }
}


impl DatabasePlayer {
    /// The player with the key `id`.
    pub fn by_id(id: i32, connection: &Connection) -> (r: Result<DatabasePlayer, PointercrateError>)
        requires
            connection@.wf(),
        ensures
            connection@.has_player(id as int) ==> (r matches Ok(p) && p@ == connection@.player(
                id as int,
            )),
            !connection@.has_player(id as int) ==> r matches Err(PointercrateError::NotFound),
    {
        match connection.player_by_id(id) {
            Some(player) => Ok(player),
            None => Err(PointercrateError::NotFound),
        }
    }

    /// The player who goes, up to case, by `name`; where there is none yet,
    /// a new player of that name. Fails only where the store has no key left
    /// for a new player.
    pub fn by_name_or_create(name: &CiString, connection: &mut Connection) -> (r: Result<
        DatabasePlayer,
        PointercrateError,
    >)
        requires
            old(connection)@.wf(),
        ensures
            final(connection)@ == old(connection)@.after_resolve(name@),
            final(connection)@.wf(),
            viewed(r) == old(connection)@.resolve_result(name@),
    {
        match connection.player_named(name) {
            Some(player) => Ok(player),
            None => connection.create_player(name.clone()),
        }
    }
}

} // verus!

//! The rows that credit players as creators of entries.

use crate::connection::Connection;
use crate::database::{lemma_credit_keeps_wf, lemma_discredit_keeps_wf};
use crate::demon::MinimalDemon;
use crate::error::PointercrateError;
use crate::player::DatabasePlayer;
use crate::statement::Statement;
use vstd::prelude::*;

verus! {

/// The row that credits a player as a creator of an entry.
#[derive(Debug, Clone, Copy, PartialEq, Eq, Structural)]
pub struct Creator {
    pub demon: i32,
    pub creator: i32,
}

impl Creator {
    /// The row that credits `player` for `demon`, where it exists.
    pub fn get(demon: &MinimalDemon, player: &DatabasePlayer, connection: &Connection) -> (r:
        Result<Creator, PointercrateError>)
        ensures
            connection@.has_creator(demon@.id, player@.id) ==> r == Ok::<
                Creator,
                PointercrateError,
            >(Creator { demon: demon.id, creator: player.id }),
            !connection@.has_creator(demon@.id, player@.id) ==> r == Err::<
                Creator,
                PointercrateError,
            >(PointercrateError::NotFound),
    {
        if connection.has_creator(demon.id, player.id) {
            Ok(Creator { demon: demon.id, creator: player.id })
        } else {
            Err(PointercrateError::NotFound)
        }
    }

    /// Credits `player` as a creator of `demon`. Both must be in the store.
    /// Nothing is written where the player is credited already.
    pub fn insert(demon: &MinimalDemon, player: &DatabasePlayer, connection: &mut Connection) -> (r:
        Result<(), PointercrateError>)
        requires
            old(connection)@.wf(),
        ensures
            r == old(connection)@.credit_result(demon@.id, player@.id),
            final(connection)@ == old(connection)@.after_credit(demon@.id, player@.id),
            final(connection)@.wf(),
    {
        proof {
            lemma_credit_keeps_wf(connection@, demon@.id, player@.id);
        }
        if connection.demon_by_id(demon.id).is_none() || connection.player_by_id(
            player.id,
        ).is_none() {
            return Err(PointercrateError::NotFound);
        }
        if !connection.has_creator(demon.id, player.id) {
            connection.execute(Statement::InsertCreator { demon_id: demon.id, player_id: player.id });
        }
        Ok(())
    }

    /// Takes the credit back. Fails where the row is not in the store.
    pub fn delete(self, connection: &mut Connection) -> (r: Result<(), PointercrateError>)
        requires
            old(connection)@.wf(),
        ensures
            r == old(connection)@.discredit_result(self.demon as int, self.creator as int),
            final(connection)@ == old(connection)@.after_discredit(
                self.demon as int,
                self.creator as int,
            ),
            final(connection)@.wf(),
    {
        proof {
            lemma_discredit_keeps_wf(connection@, self.demon as int, self.creator as int);
        }
        if !connection.has_creator(self.demon, self.creator) {
            return Err(PointercrateError::NotFound);
        }
        connection.execute(
            Statement::DeleteCreator { demon_id: self.demon, player_id: self.creator },
        );
        Ok(())
    }
}

} // verus!

//! The operations on an entry named by its position.

use crate::api::v2;
use crate::cistring::CiString;
use crate::connection::Connection;
use crate::database::{viewed, Database, Outcome};
use crate::demon::{Demon, DemonView, FullDemon, FullDemonView};
use crate::error::PointercrateError;
use crate::patch::{PatchDemon, PatchView};
use crate::player::{DatabasePlayer, PlayerView};
use crate::version::VersionToken;
use vstd::prelude::*;

verus! {

impl Database {
    /// Whether an entry stands at `position`.
    pub open spec fn listed(self, position: int) -> bool {
        1 <= position <= self.max_position()
    }

    /// [`Database::patch_by_id`] for the entry at `position`.
    pub open spec fn patch_by_position(
        self,
        position: int,
        if_match: Seq<int>,
        patch: PatchView,
    ) -> Outcome<FullDemonView> {
        if self.listed(position) {
            self.patch_by_id(self.id_at(position), if_match, patch)
        } else {
            self.refuse(PointercrateError::NotFound)
        }
    }

    /// [`Database::credit_by_id`] for the entry at `position`.
    pub open spec fn credit_by_position(self, position: int, name: Seq<char>) -> Outcome<
        (DemonView, PlayerView),
    > {
        if self.listed(position) {
            self.credit_by_id(self.id_at(position), name)
        } else {
            self.refuse(PointercrateError::NotFound)
        }
    }

    /// [`Database::discredit_by_id`] for the entry at `position`.
    pub open spec fn discredit_by_position(self, position: int, player: int) -> Outcome<()> {
        if self.listed(position) {
            self.discredit_by_id(self.id_at(position), player)
        } else {
            self.refuse(PointercrateError::NotFound)
        }
    }
}

/// The entry at `position`, with its creators.
pub fn get(position: i16, connection: &Connection) -> (r: Result<FullDemon, PointercrateError>)
    requires
        connection@.wf(),
    ensures
        connection@.listed(position as int) ==> (r matches Ok(d) && d@ == connection@.full_demon(
            connection@.id_at(position as int),
        ) && d@.demon.base.position == position),
        !connection@.listed(position as int) ==> r matches Err(PointercrateError::NotFound),
{
    FullDemon::by_position(position, connection)
}

/// Patches the entry at `position`, provided `if_match` is the version token
/// of the entry as it stands. Where the patch fails, nothing is written.
pub fn patch(
    if_match: &VersionToken,
    data: PatchDemon,
    position: i16,
    connection: &mut Connection,
) -> (r: Result<FullDemon, PointercrateError>)
    requires
        old(connection)@.wf(),
    ensures
        final(connection)@.wf(),
        final(connection)@ == old(connection)@.patch_by_position(
            position as int,
            if_match@,
            data@,
        ).db,
        viewed(r) == old(connection)@.patch_by_position(position as int, if_match@, data@).result,
{
    match Demon::by_position(position, connection) {
        Ok(demon) => v2::patch(if_match, data, demon.base.id, connection),
        Err(e) => Err(e),
    }
}

/// Credits the player of the name `creator`, created where there is none
/// yet, as a creator of the entry at `position`. Hands back the entry and the
/// player.
pub fn post_creator(position: i16, creator: &CiString, connection: &mut Connection) -> (r: Result<
    (Demon, DatabasePlayer),
    PointercrateError,
>)
    requires
        old(connection)@.wf(),
    ensures
        final(connection)@.wf(),
        final(connection)@ == old(connection)@.credit_by_position(position as int, creator@).db,
        viewed(r) == old(connection)@.credit_by_position(position as int, creator@).result,
{
    match Demon::by_position(position, connection) {
        Ok(demon) => v2::post_creator(demon.base.id, creator, connection),
        Err(e) => Err(e),
    }
}

/// Takes the credit of the player with the key `player_id` for the entry at
/// `position` back.
pub fn delete_creator(position: i16, player_id: i32, connection: &mut Connection) -> (r: Result<
    (),
    PointercrateError,
>)
    requires
        old(connection)@.wf(),
    ensures
        final(connection)@.wf(),
        final(connection)@ == old(connection)@.discredit_by_position(
            position as int,
            player_id as int,
        ).db,
        r == old(connection)@.discredit_by_position(position as int, player_id as int).result,
{
    match Demon::by_position(position, connection) {
        Ok(demon) => v2::delete_creator(demon.base.id, player_id, connection),
        Err(e) => Err(e),
    }
}

} // verus!

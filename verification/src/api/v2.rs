//! The operations on an entry named by its key.

use crate::cistring::CiString;
use crate::connection::Connection;
use crate::creator::Creator;
use crate::database::{lemma_resolve_keeps_rows, viewed};
use crate::demon::{Demon, FullDemon};
use crate::error::PointercrateError;
use crate::patch::PatchDemon;
use crate::player::DatabasePlayer;
use crate::version::{check_version, VersionToken};
use vstd::prelude::*;

verus! {

/// The entry with the key `id`, with its creators.
pub fn get(id: i32, connection: &Connection) -> (r: Result<FullDemon, PointercrateError>)
    requires
        connection@.wf(),
    ensures
        connection@.has_demon(id as int) ==> (r matches Ok(d) && d@ == connection@.full_demon(
            id as int,
        )),
        !connection@.has_demon(id as int) ==> r matches Err(PointercrateError::NotFound),
{
    FullDemon::by_id(id, connection)
}

/// Patches the entry with the key `id`, provided `if_match` is the version
/// token of the entry as it stands. Where the patch fails, nothing is written.
pub fn patch(if_match: &VersionToken, data: PatchDemon, id: i32, connection: &mut Connection) -> (r:
    Result<FullDemon, PointercrateError>)
    requires
        old(connection)@.wf(),
    ensures
        final(connection)@.wf(),
        final(connection)@ == old(connection)@.patch_by_id(id as int, if_match@, data@).db,
        viewed(r) == old(connection)@.patch_by_id(id as int, if_match@, data@).result,
{
    let demon = match FullDemon::by_id(id, connection) {
        Ok(demon) => demon,
        Err(e) => {
            return Err(e);
        },
    };
    if let Err(e) = check_version(&demon, if_match) {
        return Err(e);
    }
    demon.apply_patch(data, connection)
}

/// Credits the player of the name `creator`, created where there is none
/// yet, as a creator of the entry with the key `id`. Hands back the entry and
/// the player.
pub fn post_creator(id: i32, creator: &CiString, connection: &mut Connection) -> (r: Result<
    (Demon, DatabasePlayer),
    PointercrateError,
>)
    requires
        old(connection)@.wf(),
    ensures
        final(connection)@.wf(),
        final(connection)@ == old(connection)@.credit_by_id(id as int, creator@).db,
        viewed(r) == old(connection)@.credit_by_id(id as int, creator@).result,
{
    let demon = match Demon::by_id(id, connection) {
        Ok(demon) => demon,
        Err(e) => {
            return Err(e);
        },
    };
    proof {
        lemma_resolve_keeps_rows(connection@, creator@);
    }
    let player = match DatabasePlayer::by_name_or_create(creator, connection) {
        Ok(player) => player,
        Err(e) => {
            return Err(e);
        },
    };
    match Creator::insert(&demon.base, &player, connection) {
        Ok(()) => Ok((demon, player)),
        Err(e) => Err(e),
    }
}

/// Takes the credit of the player with the key `player_id` for the entry
/// with the key `id` back.
pub fn delete_creator(id: i32, player_id: i32, connection: &mut Connection) -> (r: Result<
    (),
    PointercrateError,
>)
    requires
        old(connection)@.wf(),
    ensures
        final(connection)@.wf(),
        final(connection)@ == old(connection)@.discredit_by_id(id as int, player_id as int).db,
        r == old(connection)@.discredit_by_id(id as int, player_id as int).result,
{
    let demon = match Demon::by_id(id, connection) {
        Ok(demon) => demon,
        Err(e) => {
            return Err(e);
        },
    };
    let player = match DatabasePlayer::by_id(player_id, connection) {
        Ok(player) => player,
        Err(e) => {
            return Err(e);
        },
    };
    match Creator::get(&demon.base, &player, connection) {
        Ok(row) => row.delete(connection),
        Err(e) => Err(e),
    }
}

} // verus!

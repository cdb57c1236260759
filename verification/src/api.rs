//! The operations a caller of the list is offered. Each of them is all or
//! nothing: where it fails the store is as it was before.

pub mod v1;
pub mod v2;

use crate::connection::Connection;
use crate::database::{viewed, Database, Outcome};
use crate::demon::{DemonView, FullDemon, FullDemonView};
use crate::error::PointercrateError;
use crate::patch::{lemma_patch_tracks, PatchView};
use crate::player::PlayerView;
use crate::post::PostDemon;
use crate::version::{lemma_token_unique, token_of};
use vstd::prelude::*;

verus! {

impl Database {
    /// The entry with the key `id` is patched, provided `if_match` is its
    /// version token, or nothing changes.
    pub open spec fn patch_by_id(self, id: int, if_match: Seq<int>, patch: PatchView) -> Outcome<
        FullDemonView,
    > {
        if !self.has_demon(id) {
            self.refuse(PointercrateError::NotFound)
        } else if if_match != token_of(self.full_demon(id)) {
            self.refuse(PointercrateError::PreconditionFailed)
        } else {
            self.patch_full(self.full_demon(id), patch)
        }
    }

    /// The player of the name `name` is credited for the entry with the key
    /// `id`, or nothing changes. The outcome names the entry and the player.
    pub open spec fn credit_by_id(self, id: int, name: Seq<char>) -> Outcome<
        (DemonView, PlayerView),
    > {
        if !self.has_demon(id) {
            self.refuse(PointercrateError::NotFound)
        } else {
            match self.credit_named(id, name).error {
                Some(e) => self.refuse(e),
                None => Outcome {
                    db: self.credit_named(id, name).db,
                    result: Ok((self.demon(id), self.resolve_result(name)->Ok_0)),
                },
            }
        }
    }

    /// The credit of the player `player` for the entry with the key `id` is
    /// taken back, or nothing changes.
    pub open spec fn discredit_by_id(self, id: int, player: int) -> Outcome<()> {
        if !self.has_demon(id) || !self.has_player(player) || !self.has_creator(id, player) {
            self.refuse(PointercrateError::NotFound)
        } else {
            Outcome { db: self.after_discredit(id, player), result: Ok(()) }
        }
    }

    /// The key of the entry at `position`.
    pub open spec fn id_at(self, position: int) -> int {
        self.demon_at(position).base.id
    }
}

/// Of two patches handed in with the same version token, the second is
/// refused once the first has changed the entry: it fails with
/// `PreconditionFailed`, and the entry stays as the first patch left it.
pub proof fn lemma_stale_token_is_refused(
    db: Database,
    id: int,
    token: Seq<int>,
    first: PatchView,
    second: PatchView,
)
    requires
        db.wf(),
        db.patch_by_id(id, token, first).result is Ok,
        db.patch_by_id(id, token, first).result->Ok_0 != db.full_demon(id),
    ensures
        db.patch_by_id(id, token, first).db.wf(),
        db.patch_by_id(id, token, first).db.has_demon(id),
        db.patch_by_id(id, token, first).db.full_demon(id) == db.patch_by_id(
            id,
            token,
            first,
        ).result->Ok_0,
        db.patch_by_id(id, token, first).db.patch_by_id(id, token, second) == db.patch_by_id(
            id,
            token,
            first,
        ).db.refuse::<FullDemonView>(PointercrateError::PreconditionFailed),
{
    let after = db.patch_by_id(id, token, first);
    let k = choose|k: int| 0 <= k < db.demons.len() && (#[trigger] db.demons[k]).base.id == id;
    assert(db.demon(id).base.id == id);
    lemma_patch_tracks(db, db.demon(id), first);
    if token_of(after.db.full_demon(id)) == token {
        lemma_token_unique(after.db.full_demon(id), db.full_demon(id));
    }
}

/// Creates an entry at the position `data` names. Where the creation fails,
/// nothing is written.
pub fn post(data: PostDemon, connection: &mut Connection) -> (r: Result<
    FullDemon,
    PointercrateError,
>)
    requires
        old(connection)@.wf(),
    ensures
        final(connection)@.wf(),
        final(connection)@ == old(connection)@.post(data@).db,
        viewed(r) == old(connection)@.post(data@).result,
{
    FullDemon::create_from(data, connection)
}

} // verus!

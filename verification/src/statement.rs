//! The writes that the store knows, and what each does to a row.

use crate::cistring::CiString;
use crate::demon::{clone_text, text_of, Demon, DemonView, MinimalDemonView};
use crate::player::{DatabasePlayer, PlayerView};
use vstd::prelude::*;

verus! {

/// What a write to the store says.
pub enum StatementView {
    SetPosition { id: int, position: int },
    ShiftDown { after: int, upto: int },
    ShiftUp { from: int, before: int },
    SetName { id: int, name: Seq<char> },
    SetVideo { id: int, video: Option<Seq<char>> },
    SetVerifier { id: int, player: PlayerView },
    SetPublisher { id: int, player: PlayerView },
    SetRequirement { id: int, requirement: int },
    InsertDemon { demon: DemonView },
    InsertPlayer { player: PlayerView },
    InsertCreator { demon_id: int, player_id: int },
    DeleteCreator { demon_id: int, player_id: int },
}

/// One write to the store.
///
/// `ShiftDown` lowers by one the position of every entry whose position `p`
/// satisfies `after < p <= upto`; `ShiftUp` raises by one the position of every
/// entry with `from <= p < before`. The `Set..` statements change one column
/// of the entry with the given key.
#[derive(Debug)]
pub enum Statement {
    SetPosition { id: i32, position: i16 },
    ShiftDown { after: i16, upto: i16 },
    ShiftUp { from: i16, before: i16 },
    SetName { id: i32, name: CiString },
    SetVideo { id: i32, video: Option<String> },
    SetVerifier { id: i32, player: DatabasePlayer },
    SetPublisher { id: i32, player: DatabasePlayer },
    SetRequirement { id: i32, requirement: i16 },
    InsertDemon { demon: Demon },
    InsertPlayer { player: DatabasePlayer },
    InsertCreator { demon_id: i32, player_id: i32 },
    DeleteCreator { demon_id: i32, player_id: i32 },
}

impl View for Statement {
    type V = StatementView;

    open spec fn view(&self) -> StatementView {
        match *self {
            Statement::SetPosition { id, position } => StatementView::SetPosition {
                id: id as int,
                position: position as int,
            },
            Statement::ShiftDown { after, upto } => StatementView::ShiftDown {
                after: after as int,
                upto: upto as int,
            },
            Statement::ShiftUp { from, before } => StatementView::ShiftUp {
                from: from as int,
                before: before as int,
            },
            Statement::SetName { id, name } => StatementView::SetName { id: id as int, name: name@ },
            Statement::SetVideo { id, video } => StatementView::SetVideo {
                id: id as int,
                video: text_of(video),
            },
            Statement::SetVerifier { id, player } => StatementView::SetVerifier {
                id: id as int,
                player: player@,
            },
            Statement::SetPublisher { id, player } => StatementView::SetPublisher {
                id: id as int,
                player: player@,
            },
            Statement::SetRequirement { id, requirement } => StatementView::SetRequirement {
                id: id as int,
                requirement: requirement as int,
            },
            Statement::InsertDemon { demon } => StatementView::InsertDemon { demon: demon@ },
            Statement::InsertPlayer { player } => StatementView::InsertPlayer { player: player@ },
            Statement::InsertCreator { demon_id, player_id } => StatementView::InsertCreator {
                demon_id: demon_id as int,
                player_id: player_id as int,
            },
            Statement::DeleteCreator { demon_id, player_id } => StatementView::DeleteCreator {
                demon_id: demon_id as int,
                player_id: player_id as int,
            },
        }
    }
}

/// The row `r` moved to position `p`.
pub open spec fn with_position(r: DemonView, p: int) -> DemonView {
    DemonView { base: MinimalDemonView { position: p, ..r.base }, ..r }
}

impl StatementView {
    /// What the statement makes of one entry's row.
    pub open spec fn on_row(self, r: DemonView) -> DemonView {
        match self {
            StatementView::SetPosition { id, position } => if r.base.id == id {
                with_position(r, position)
            } else {
                r
            },
            StatementView::ShiftDown { after, upto } => if after < r.base.position <= upto {
                with_position(r, r.base.position - 1)
            } else {
                r
            },
            StatementView::ShiftUp { from, before } => if from <= r.base.position < before {
                with_position(r, r.base.position + 1)
            } else {
                r
            },
            StatementView::SetName { id, name } => if r.base.id == id {
                DemonView { base: MinimalDemonView { name: name, ..r.base }, ..r }
            } else {
                r
            },
            StatementView::SetVideo { id, video } => if r.base.id == id {
                DemonView { video: video, ..r }
            } else {
                r
            },
            StatementView::SetVerifier { id, player } => if r.base.id == id {
                DemonView { verifier: player, ..r }
            } else {
                r
            },
            StatementView::SetPublisher { id, player } => if r.base.id == id {
                DemonView { publisher: player, ..r }
            } else {
                r
            },
            StatementView::SetRequirement { id, requirement } => if r.base.id == id {
                DemonView { requirement: requirement, ..r }
            } else {
                r
            },
            _ => r,
        }
    }
}

impl Statement {
    /// Carries the statement out on one row held in memory.
    pub fn apply(&self, row: &mut Demon)
        ensures
            final(row)@ == self@.on_row(old(row)@),
    {
        match self {
            Statement::SetPosition { id, position } => {
                if row.base.id == *id {
                    row.base.position = *position;
                }
            },
            Statement::ShiftDown { after, upto } => {
                if *after < row.base.position && row.base.position <= *upto {
                    row.base.position = row.base.position - 1;
                }
            },
            Statement::ShiftUp { from, before } => {
                if *from <= row.base.position && row.base.position < *before {
                    row.base.position = row.base.position + 1;
                }
            },
            Statement::SetName { id, name } => {
                if row.base.id == *id {
                    row.base.name = name.clone();
                }
            },
            Statement::SetVideo { id, video } => {
                if row.base.id == *id {
                    row.video = clone_text(video);
                }
            },
            Statement::SetVerifier { id, player } => {
                if row.base.id == *id {
                    row.verifier = player.clone();
                }
            },
            Statement::SetPublisher { id, player } => {
                if row.base.id == *id {
                    row.publisher = player.clone();
                }
            },
            Statement::SetRequirement { id, requirement } => {
                if row.base.id == *id {
                    row.requirement = *requirement;
                }
            },
            _ => {},
        }
    }
}

impl Clone for Statement {
    fn clone(&self) -> (s: Statement)
        ensures
            s@ == self@,
    {
        match self {
            Statement::SetPosition { id, position } => Statement::SetPosition {
                id: *id,
                position: *position,
            },
            Statement::ShiftDown { after, upto } => Statement::ShiftDown {
                after: *after,
                upto: *upto,
            },
            Statement::ShiftUp { from, before } => Statement::ShiftUp {
                from: *from,
                before: *before,
            },
            Statement::SetName { id, name } => Statement::SetName { id: *id, name: name.clone() },
            Statement::SetVideo { id, video } => Statement::SetVideo {
                id: *id,
                video: clone_text(video),
            },
            Statement::SetVerifier { id, player } => Statement::SetVerifier {
                id: *id,
                player: player.clone(),
            },
            Statement::SetPublisher { id, player } => Statement::SetPublisher {
                id: *id,
                player: player.clone(),
            },
            Statement::SetRequirement { id, requirement } => Statement::SetRequirement {
                id: *id,
                requirement: *requirement,
            },
            Statement::InsertDemon { demon } => Statement::InsertDemon { demon: demon.clone() },
            Statement::InsertPlayer { player } => Statement::InsertPlayer {
                player: player.clone(),
            },
            Statement::InsertCreator { demon_id, player_id } => Statement::InsertCreator {
                demon_id: *demon_id,
                player_id: *player_id,
            },
            Statement::DeleteCreator { demon_id, player_id } => Statement::DeleteCreator {
                demon_id: *demon_id,
                player_id: *player_id,
            },
        }
    }
}

} // verus!

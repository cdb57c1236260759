//! The entries of the list and how they are read from the store.

use crate::cistring::CiString;
use crate::connection::Connection;
use crate::database::{lemma_dense_is_permutation, lemma_row_at_is_row_of};
use crate::error::PointercrateError;
use crate::player::{player_rows_of, DatabasePlayer, PlayerView};
use vstd::prelude::*;

verus! {

/// What identifies an entry and places it in the list.
pub struct MinimalDemonView {
    pub id: int,
    pub position: int,
    pub name: Seq<char>,
}

/// What an entry's row holds.
pub struct DemonView {
    pub base: MinimalDemonView,
    pub requirement: int,
    pub video: Option<Seq<char>>,
    pub publisher: PlayerView,
    pub verifier: PlayerView,
}

/// An entry together with the players credited as its creators.
pub struct FullDemonView {
    pub demon: DemonView,
    pub creators: Seq<PlayerView>,
}

/// The part of an entry that places it in the list.
#[derive(Debug)]
pub struct MinimalDemon {
    pub id: i32,
    pub position: i16,
    pub name: CiString,
}

/// An entry of the list.
#[derive(Debug)]
pub struct Demon {
    pub base: MinimalDemon,
    pub requirement: i16,
    pub video: Option<String>,
    pub publisher: DatabasePlayer,
    pub verifier: DatabasePlayer,
}

/// An entry with its creators.
#[derive(Debug)]
pub struct FullDemon {
    pub demon: Demon,
    pub creators: Vec<DatabasePlayer>,
}

/// The text behind an optional string.
pub open spec fn text_of(s: Option<String>) -> Option<Seq<char>> {
    match s {
        Some(s) => Some(s@),
        None => None,
    }
}

impl View for MinimalDemon {
    type V = MinimalDemonView;

    open spec fn view(&self) -> MinimalDemonView {
        MinimalDemonView { id: self.id as int, position: self.position as int, name: self.name@ }
    }
}

impl View for Demon {
    type V = DemonView;

    open spec fn view(&self) -> DemonView {
        DemonView {
            base: self.base@,
            requirement: self.requirement as int,
            video: text_of(self.video),
            publisher: self.publisher@,
            verifier: self.verifier@,
        }
    }
}

impl View for FullDemon {
    type V = FullDemonView;

    open spec fn view(&self) -> FullDemonView {
        FullDemonView { demon: self.demon@, creators: player_rows_of(self.creators@) }
    }
}

/// A copy of an optional string.
pub fn clone_text(s: &Option<String>) -> (c: Option<String>)
    ensures
        text_of(c) == text_of(*s),
{
    match s {
        Some(s) => Some(s.clone()),
        None => None,
    }
}

impl Clone for MinimalDemon {
    fn clone(&self) -> (d: MinimalDemon)
        ensures
            d@ == self@,
    {
        MinimalDemon { id: self.id, position: self.position, name: self.name.clone() }
    }
}

impl Clone for Demon {
    fn clone(&self) -> (d: Demon)
        ensures
            d@ == self@,
    {
        Demon {
            base: self.base.clone(),
            requirement: self.requirement,
            video: clone_text(&self.video),
            publisher: self.publisher.clone(),
            verifier: self.verifier.clone(),
        }
    }
}


impl Demon {
    /// The highest position in use, which is the number of entries.
    pub fn max_position(connection: &Connection) -> (n: i16)
        requires
            connection@.wf(),
        ensures
            n == connection@.max_position(),
    {
        connection.max_position()
    }

    /// The entry with the key `id`.
    pub fn by_id(id: i32, connection: &Connection) -> (r: Result<Demon, PointercrateError>)
        requires
            connection@.wf(),
        ensures
            connection@.has_demon(id as int) ==> (r matches Ok(d) && d@ == connection@.demon(
                id as int,
            )),
            !connection@.has_demon(id as int) ==> r matches Err(PointercrateError::NotFound),
    {
        match connection.demon_by_id(id) {
            Some(demon) => Ok(demon),
            None => Err(PointercrateError::NotFound),
        }
    }

    /// The entry at `position`, which exists exactly for the positions `1..=N`.
    pub fn by_position(position: i16, connection: &Connection) -> (r: Result<
        Demon,
        PointercrateError,
    >)
        requires
            connection@.wf(),
        ensures
            1 <= position <= connection@.max_position() ==> (r matches Ok(d) && d@
                == connection@.demon_at(position as int) && d@.base.position == position),
            !(1 <= position <= connection@.max_position()) ==> r matches Err(
                PointercrateError::NotFound,
            ),
    {
        proof {
            lemma_dense_is_permutation(connection@);
        }
        match connection.demon_by_position(position) {
            Some(demon) => Ok(demon),
            None => Err(PointercrateError::NotFound),
        }
    }
}

impl FullDemon {
    /// The entry with the key `id`, with its creators.
    pub fn by_id(id: i32, connection: &Connection) -> (r: Result<FullDemon, PointercrateError>)
        requires
            connection@.wf(),
        ensures
            connection@.has_demon(id as int) ==> (r matches Ok(d) && d@ == connection@.full_demon(
                id as int,
            )),
            !connection@.has_demon(id as int) ==> r matches Err(PointercrateError::NotFound),
    {
        match connection.demon_by_id(id) {
            Some(demon) => {
                let creators = connection.creators_of(id);
                Ok(FullDemon { demon: demon, creators: creators })
            },
            None => Err(PointercrateError::NotFound),
        }
    }

    /// The entry at `position`, with its creators.
    pub fn by_position(position: i16, connection: &Connection) -> (r: Result<
        FullDemon,
        PointercrateError,
    >)
        requires
            connection@.wf(),
        ensures
            1 <= position <= connection@.max_position() ==> (r matches Ok(d) && d@
                == connection@.full_demon(connection@.demon_at(position as int).base.id)
                && d@.demon.base.position == position),
            !(1 <= position <= connection@.max_position()) ==> r matches Err(
                PointercrateError::NotFound,
            ),
    {
        proof {
            lemma_dense_is_permutation(connection@);
        }
        match connection.demon_by_position(position) {
            Some(demon) => {
                proof {
                    lemma_row_at_is_row_of(connection@, position as int);
                }
                let creators = connection.creators_of(demon.base.id);
                Ok(FullDemon { demon: demon, creators: creators })
            },
            None => Err(PointercrateError::NotFound),
        }
    }
}

} // verus!

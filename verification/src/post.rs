//! The creation of entries.

use crate::cistring::CiString;
use crate::connection::Connection;
use crate::creator::Creator;
use crate::database::{
    lemma_credit_all_stops, lemma_credit_named_keeps_wf, viewed, Credited, Database, Outcome,
};
use crate::demon::{text_of, DemonView, FullDemon, FullDemonView, MinimalDemonView};
use crate::error::PointercrateError;
use crate::player::DatabasePlayer;
use crate::video::{valid_video, validate};
use vstd::prelude::*;

verus! {

/// What a new entry is made from.
pub struct PostView {
    pub name: Seq<char>,
    pub position: int,
    pub requirement: int,
    pub video: Option<Seq<char>>,
    pub verifier: Seq<char>,
    pub publisher: Seq<char>,
    pub creators: Seq<Seq<char>>,
}

/// What a new entry is made from: its columns, the position it is to take,
/// and the names of the players involved.
#[derive(Debug)]
pub struct PostDemon {
    pub name: CiString,
    pub position: i16,
    pub requirement: i16,
    pub video: Option<String>,
    pub verifier: CiString,
    pub publisher: CiString,
    pub creators: Vec<CiString>,
}

/// The texts behind a vector of names.
pub open spec fn names_of(v: Seq<CiString>) -> Seq<Seq<char>> {
    Seq::new(v.len(), |i: int| v[i]@)
}

impl View for PostDemon {
    type V = PostView;

    open spec fn view(&self) -> PostView {
        PostView {
            name: self.name@,
            position: self.position as int,
            requirement: self.requirement as int,
            video: text_of(self.video),
            verifier: self.verifier@,
            publisher: self.publisher@,
            creators: names_of(self.creators@),
        }
    }
}

/// How the creation of an entry ends: the store, and the new entry or the
/// error that stopped the creation.
pub struct Posted {
    pub db: Database,
    pub result: Result<FullDemonView, PointercrateError>,
}

impl Database {
    /// An entry is created from `post`, or, where a step fails, nothing changes.
    pub open spec fn post(self, post: PostView) -> Outcome<FullDemonView> {
        match self.posted(post).result {
            Ok(full) => Outcome { db: self.posted(post).db, result: Ok(full) },
            Err(e) => self.refuse(e),
        }
    }

    /// What is wrong with `post` before anything is written: a requirement
    /// outside `0..=100`, a malformed video link, a full list, or a position
    /// outside `1..=N+1`, in this order.
    pub open spec fn post_error(self, post: PostView) -> Option<PointercrateError> {
        if post.requirement < 0 || post.requirement > 100 {
            Some(PointercrateError::InvalidRequirement)
        } else if post.video is Some && !valid_video(post.video->0) {
            Some(PointercrateError::InvalidMediaLink)
        } else if self.full() {
            Some(PointercrateError::DatabaseError)
        } else if post.position < 1 || post.position > self.max_position() + 1 {
            Some(
                PointercrateError::InvalidPosition { maximal: (self.max_position() + 1) as i16 },
            )
        } else {
            None
        }
    }

    /// The creation of an entry, step by step: the checks of
    /// [`Database::post_error`], the publisher and the verifier looked up or
    /// created, the row inserted at its position, the creators credited.
    pub open spec fn posted(self, post: PostView) -> Posted {
        if self.post_error(post) is Some {
            Posted { db: self, result: Err(self.post_error(post)->0) }
        } else {
            match self.resolve_result(post.publisher) {
                Err(e) => Posted { db: self, result: Err(e) },
                Ok(publisher) => {
                    let db1 = self.after_resolve(post.publisher);
                    match db1.resolve_result(post.verifier) {
                        Err(e) => Posted { db: db1, result: Err(e) },
                        Ok(verifier) => {
                            let db2 = db1.after_resolve(post.verifier);
                            let row = DemonView {
                                base: MinimalDemonView {
                                    id: db2.next_demon,
                                    position: post.position,
                                    name: post.name,
                                },
                                requirement: post.requirement,
                                video: post.video,
                                publisher: publisher,
                                verifier: verifier,
                            };
                            let credited = db2.after_insert(row).credit_all(
                                row.base.id,
                                post.creators,
                            );
                            Posted {
                                db: credited.db,
                                result: match credited.error {
                                    Some(e) => Err(e),
                                    None => Ok(
                                        FullDemonView {
                                            demon: row,
                                            creators: credited.db.creators_of(row.base.id),
                                        },
                                    ),
                                },
                            }
                        },
                    }
                },
            }
        }
    }
}

impl FullDemon {
    /// The steps of a creation, one after the other, up to the first that fails.
    #[verifier::loop_isolation(false)]
    fn create_steps(data: PostDemon, connection: &mut Connection) -> (r: Result<
        FullDemon,
        PointercrateError,
    >)
        requires
            old(connection)@.wf(),
        ensures
            final(connection)@.wf(),
            final(connection)@ == old(connection)@.posted(data@).db,
            viewed(r) == old(connection)@.posted(data@).result,
    {
        let PostDemon { name, position, requirement, video, verifier, publisher, creators } = data;
        if requirement < 0 || requirement > 100 {
            return Err(PointercrateError::InvalidRequirement);
        }
        let video = match video {
            None => None,
            Some(video) => match validate(&video) {
                Ok(video) => Some(video),
                Err(e) => {
                    return Err(e);
                },
            },
        };
        if connection.is_full() {
            return Err(PointercrateError::DatabaseError);
        }
        let maximal = connection.max_position() + 1;
        if position < 1 || position > maximal {
            return Err(PointercrateError::InvalidPosition { maximal: maximal });
        }
        let publisher = match DatabasePlayer::by_name_or_create(&publisher, connection) {
            Ok(player) => player,
            Err(e) => {
                return Err(e);
            },
        };
        let verifier = match DatabasePlayer::by_name_or_create(&verifier, connection) {
            Ok(player) => player,
            Err(e) => {
                return Err(e);
            },
        };
        let demon = connection.insert_demon(name, position, requirement, video, publisher, verifier);
        let ghost inserted = connection@;
        let ghost names = names_of(creators@);
        let mut i: usize = 0;
        while i < creators.len()
            invariant
                i <= creators@.len(),
                names == names_of(creators@),
                connection@.wf(),
                inserted.credit_all(demon@.base.id, names.take(i as int)) == (Credited {
                    db: connection@,
                    error: None,
                }),
            decreases creators@.len() - i,
        {
            proof {
                assert(names.take(i + 1).drop_last() =~= names.take(i as int));
                assert(names.take(i + 1).last() == creators@[i as int]@);
                lemma_credit_named_keeps_wf(connection@, demon@.base.id, creators@[i as int]@);
            }
            let outcome = match DatabasePlayer::by_name_or_create(&creators[i], connection) {
                Ok(player) => Creator::insert(&demon.base, &player, connection),
                Err(e) => Err(e),
            };
            if let Err(e) = outcome {
                proof {
                    lemma_credit_all_stops(inserted, demon@.base.id, names, i + 1);
                }
                return Err(e);
            }
            i += 1;
        }
        proof {
            assert(names.take(creators@.len() as int) =~= names);
        }
        let credited = connection.creators_of(demon.base.id);
        Ok(FullDemon { demon: demon, creators: credited })
    }

    /// Creates an entry at the position `data` names, which must lie in
    /// `1..=N+1`; the entries at or after it move up by one. Where a step
    /// fails the store is as it was before: the steps run on a copy of the
    /// store, which takes the place of the store once all of them have
    /// succeeded.
    pub fn create_from(data: PostDemon, connection: &mut Connection) -> (r: Result<
        FullDemon,
        PointercrateError,
    >)
        requires
            old(connection)@.wf(),
        ensures
            final(connection)@.wf(),
            final(connection)@ == old(connection)@.post(data@).db,
            viewed(r) == old(connection)@.post(data@).result,
    {
        let mut work = connection.clone();
        match FullDemon::create_steps(data, &mut work) {
            Ok(full) => {
                *connection = work;
                Ok(full)
            },
            Err(e) => Err(e),
        }
    }
}

} // verus!

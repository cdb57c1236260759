//! Changes to one entry: the setters for its columns, and the patch that
//! applies several of them in a fixed order, all or none.

use crate::cistring::{ci_eq, CiString};
use crate::connection::Connection;
use crate::database::{
    is_column_write, lemma_column_write_keeps_wf, lemma_resolve_keeps_creators,
    lemma_resolve_keeps_rows, lemma_resolve_keeps_wf, lemma_row_after_write, viewed, Database,
    Outcome,
};
use crate::demon::{Demon, DemonView, FullDemon, FullDemonView, MinimalDemon, MinimalDemonView};
use crate::error::PointercrateError;
use crate::player::{DatabasePlayer, PlayerView};
use crate::reorder::{lemma_move_keeps_wf, lemma_row_after_move};
use crate::statement::{with_position, Statement, StatementView};
use crate::video::{valid_video, validate};
use vstd::prelude::*;

verus! {

/// What a patch says of the video link.
pub enum VideoPatchView {
    Unset,
    SetNull,
    SetValue(Seq<char>),
}

/// What a patch says of the video link: nothing, that it is to be cleared,
/// or its new value.
#[derive(Debug)]
pub enum VideoPatch {
    Unset,
    SetNull,
    SetValue(String),
}

impl View for VideoPatch {
    type V = VideoPatchView;

    open spec fn view(&self) -> VideoPatchView {
        match self {
            VideoPatch::Unset => VideoPatchView::Unset,
            VideoPatch::SetNull => VideoPatchView::SetNull,
            VideoPatch::SetValue(v) => VideoPatchView::SetValue(v@),
        }
    }
}

/// What a patch holds.
pub struct PatchView {
    pub name: Option<Seq<char>>,
    pub position: Option<int>,
    pub video: VideoPatchView,
    pub requirement: Option<int>,
    pub verifier: Option<Seq<char>>,
    pub publisher: Option<Seq<char>>,
}

/// A set of changes to one entry. A field that is `None` (`Unset` for the
/// video) is left as it is.
#[derive(Debug)]
pub struct PatchDemon {
    pub name: Option<CiString>,
    pub position: Option<i16>,
    pub video: VideoPatch,
    pub requirement: Option<i16>,
    pub verifier: Option<CiString>,
    pub publisher: Option<CiString>,
}

/// The text behind an optional name.
pub open spec fn name_of(s: Option<CiString>) -> Option<Seq<char>> {
    match s {
        Some(s) => Some(s@),
        None => None,
    }
}

/// The number behind an optional `i16`.
pub open spec fn number_of(n: Option<i16>) -> Option<int> {
    match n {
        Some(n) => Some(n as int),
        None => None,
    }
}

impl View for PatchDemon {
    type V = PatchView;

    open spec fn view(&self) -> PatchView {
        PatchView {
            name: name_of(self.name),
            position: number_of(self.position),
            video: self.video@,
            requirement: number_of(self.requirement),
            verifier: name_of(self.verifier),
            publisher: name_of(self.publisher),
        }
    }
}

impl PatchView {
    /// The patch that changes nothing.
    pub open spec fn empty() -> PatchView {
        PatchView {
            name: None,
            position: None,
            video: VideoPatchView::Unset,
            requirement: None,
            verifier: None,
            publisher: None,
        }
    }
}

/// The error of a result, if it is one.
pub open spec fn error_of<T>(r: Result<T, PointercrateError>) -> Option<PointercrateError> {
    match r {
        Ok(_) => None,
        Err(e) => Some(e),
    }
}

/// Where a patch stands after some of its steps: the store, the entry as the
/// caller holds it, and the error that stopped the patch, if one did. Once an
/// error is set no later step changes anything.
pub struct Patched {
    pub db: Database,
    pub demon: DemonView,
    pub error: Option<PointercrateError>,
}

impl Patched {
    /// Before the first step.
    pub open spec fn start(db: Database, demon: DemonView) -> Patched {
        Patched { db: db, demon: demon, error: None }
    }

    /// Stopped by `e`, with nothing written by the failing step.
    pub open spec fn failed(self, e: PointercrateError) -> Patched {
        Patched { error: Some(e), ..self }
    }

    /// One write, carried out on the store and on the entry the caller holds.
    pub open spec fn write(self, s: StatementView) -> Patched {
        Patched { db: self.db.execute(s), demon: s.on_row(self.demon), ..self }
    }

    /// The entry moves to `to`.
    pub open spec fn moved(self, to: int) -> Patched {
        if self.error is Some {
            self
        } else {
            match self.db.move_result(self.demon.base, to) {
                Err(e) => self.failed(e),
                Ok(_) => Patched {
                    db: self.db.after_move(self.demon.base, to),
                    demon: with_position(self.demon, to),
                    ..self
                },
            }
        }
    }

    /// The entry is renamed, unless it goes by that name up to case already.
    pub open spec fn named(self, name: Seq<char>) -> Patched {
        if self.error is Some || ci_eq(self.demon.base.name, name) {
            self
        } else {
            self.write(StatementView::SetName { id: self.demon.base.id, name: name })
        }
    }

    /// The video link is checked and then replaced, unless it is the same.
    pub open spec fn video_set(self, video: Seq<char>) -> Patched {
        if self.error is Some {
            self
        } else if !valid_video(video) {
            self.failed(PointercrateError::InvalidMediaLink)
        } else if self.demon.video == Some(video) {
            self
        } else {
            self.write(StatementView::SetVideo { id: self.demon.base.id, video: Some(video) })
        }
    }

    /// The video link is cleared, unless there is none.
    pub open spec fn video_removed(self) -> Patched {
        if self.error is Some || self.demon.video is None {
            self
        } else {
            self.write(StatementView::SetVideo { id: self.demon.base.id, video: None })
        }
    }

    /// The verifier is replaced, unless it is the same player.
    pub open spec fn verified_by(self, player: PlayerView) -> Patched {
        if self.error is Some || player.id == self.demon.verifier.id {
            self
        } else {
            self.write(StatementView::SetVerifier { id: self.demon.base.id, player: player })
        }
    }

    /// The publisher is replaced, unless it is the same player.
    pub open spec fn published_by(self, player: PlayerView) -> Patched {
        if self.error is Some || player.id == self.demon.publisher.id {
            self
        } else {
            self.write(StatementView::SetPublisher { id: self.demon.base.id, player: player })
        }
    }

    /// The requirement is checked against `0..=100` and then replaced, unless
    /// it is the same.
    pub open spec fn required(self, requirement: int) -> Patched {
        if self.error is Some {
            self
        } else if requirement < 0 || requirement > 100 {
            self.failed(PointercrateError::InvalidRequirement)
        } else if requirement == self.demon.requirement {
            self
        } else {
            self.write(
                StatementView::SetRequirement { id: self.demon.base.id, requirement: requirement },
            )
        }
    }

    /// The player of that name is looked up, or created.
    pub open spec fn resolved(self, name: Seq<char>) -> Patched {
        if self.error is Some {
            self
        } else {
            match self.db.resolve_result(name) {
                Err(e) => self.failed(e),
                Ok(_) => Patched { db: self.db.after_resolve(name), ..self },
            }
        }
    }

    /// The player that [`Patched::resolved`] found or created.
    pub open spec fn player(self, name: Seq<char>) -> PlayerView {
        self.db.resolve_result(name)->Ok_0
    }
}

impl Patched {
    /// The first step of a patch: the move, where the patch names a position.
    #[verifier::opaque]
    pub open spec fn position_step(self, position: Option<int>) -> Patched {
        match position {
            Some(to) => self.moved(to),
            None => self,
        }
    }

    /// The second step: the name, where the patch names one.
    #[verifier::opaque]
    pub open spec fn name_step(self, name: Option<Seq<char>>) -> Patched {
        match name {
            Some(name) => self.named(name),
            None => self,
        }
    }

    /// The third step: the video link, left alone, cleared or replaced.
    #[verifier::opaque]
    pub open spec fn video_step(self, video: VideoPatchView) -> Patched {
        match video {
            VideoPatchView::Unset => self,
            VideoPatchView::SetNull => self.video_removed(),
            VideoPatchView::SetValue(video) => self.video_set(video),
        }
    }

    /// The fourth step: the verifier, looked up by name or created, where the
    /// patch names one.
    #[verifier::opaque]
    pub open spec fn verifier_step(self, verifier: Option<Seq<char>>) -> Patched {
        match verifier {
            Some(name) => self.resolved(name).verified_by(self.player(name)),
            None => self,
        }
    }

    /// The fifth step: the publisher, as the verifier.
    #[verifier::opaque]
    pub open spec fn publisher_step(self, publisher: Option<Seq<char>>) -> Patched {
        match publisher {
            Some(name) => self.resolved(name).published_by(self.player(name)),
            None => self,
        }
    }

    /// The last step: the requirement, where the patch names one.
    #[verifier::opaque]
    pub open spec fn requirement_step(self, requirement: Option<int>) -> Patched {
        match requirement {
            Some(requirement) => self.required(requirement),
            None => self,
        }
    }
}

/// A patch, step by step: position, name, video, verifier, publisher,
/// requirement. The first step that fails stops it.
pub open spec fn patched(db: Database, demon: DemonView, patch: PatchView) -> Patched {
    Patched::start(db, demon).position_step(patch.position).name_step(patch.name).video_step(
        patch.video,
    ).verifier_step(patch.verifier).publisher_step(patch.publisher).requirement_step(
        patch.requirement,
    )
}

impl Database {
    /// The patch `patch` applied to the entry `demon`: all of it, or, where a
    /// step fails, nothing.
    pub open spec fn patch(self, demon: DemonView, patch: PatchView) -> Outcome<DemonView> {
        match patched(self, demon, patch).error {
            Some(e) => self.refuse(e),
            None => Outcome {
                db: patched(self, demon, patch).db,
                result: Ok(patched(self, demon, patch).demon),
            },
        }
    }

    /// [`Database::patch`] for an entry with its creators, which stay.
    pub open spec fn patch_full(self, full: FullDemonView, patch: PatchView) -> Outcome<
        FullDemonView,
    > {
        match self.patch(full.demon, patch).result {
            Err(e) => self.refuse(e),
            Ok(demon) => Outcome {
                db: self.patch(full.demon, patch).db,
                result: Ok(FullDemonView { demon: demon, ..full }),
            },
        }
    }
}

/// Once a patch has failed, no later step changes anything.
pub proof fn lemma_failed_patch_stays(s: Patched, patch: PatchView)
    requires
        s.error is Some,
    ensures
        s.position_step(patch.position) == s,
        s.name_step(patch.name) == s,
        s.video_step(patch.video) == s,
        s.verifier_step(patch.verifier) == s,
        s.publisher_step(patch.publisher) == s,
        s.requirement_step(patch.requirement) == s,
{
    reveal(Patched::position_step);
    reveal(Patched::name_step);
    reveal(Patched::video_step);
    reveal(Patched::verifier_step);
    reveal(Patched::publisher_step);
    reveal(Patched::requirement_step);
}

/// What a patch does to the video link: left out, the link stays; null
/// clears it; a value replaces it if it has the form of [`valid_video`], and
/// else stops the patch with nothing written.
pub proof fn lemma_video_tristate(s: Patched, video: Seq<char>)
    requires
        s.error is None,
    ensures
        s.video_step(VideoPatchView::Unset) == s,
        s.video_step(VideoPatchView::SetNull).demon.video is None,
        s.video_step(VideoPatchView::SetNull).error is None,
        valid_video(video) ==> s.video_step(VideoPatchView::SetValue(video)).demon.video == Some(
            video,
        ) && s.video_step(VideoPatchView::SetValue(video)).error is None,
        !valid_video(video) ==> s.video_step(VideoPatchView::SetValue(video)) == s.failed(
            PointercrateError::InvalidMediaLink,
        ),
{
    reveal(Patched::video_step);
}

/// Whether the store of `s` is well-formed and holds, under the key `id`,
/// the very entry that `s` works on, with the creators `creators`.
pub open spec fn tracks(s: Patched, id: int, creators: Seq<PlayerView>) -> bool {
    &&& s.db.wf()
    &&& s.db.has_demon(id)
    &&& s.db.demon(id) == s.demon
    &&& s.demon.base.id == id
    &&& s.db.creators_of(id) == creators
}

/// One write to a column of the entry keeps row and entry the same.
pub proof fn lemma_write_tracks(s: Patched, w: StatementView, id: int, creators: Seq<PlayerView>)
    requires
        tracks(s, id, creators),
        is_column_write(w),
    ensures
        tracks(s.write(w), id, creators),
{
    lemma_row_after_write(s.db, w, id);
    lemma_column_write_keeps_wf(s.db, w);
}

/// A lookup by name keeps row and entry the same.
pub proof fn lemma_resolved_tracks(s: Patched, name: Seq<char>, id: int, creators: Seq<PlayerView>)
    requires
        tracks(s, id, creators),
    ensures
        tracks(s.resolved(name), id, creators),
{
    lemma_resolve_keeps_wf(s.db, name);
    lemma_resolve_keeps_rows(s.db, name);
    lemma_resolve_keeps_creators(s.db, name, id);
}

/// Through every step of a patch, failed or not, the store holds under the
/// entry's key the entry as the patch hands it back, and its creators stay.
pub proof fn lemma_patch_tracks(db: Database, demon: DemonView, patch: PatchView)
    requires
        db.wf(),
        db.has_demon(demon.base.id),
        db.demon(demon.base.id) == demon,
    ensures
        tracks(patched(db, demon, patch), demon.base.id, db.creators_of(demon.base.id)),
{
    reveal(Patched::position_step);
    reveal(Patched::name_step);
    reveal(Patched::video_step);
    reveal(Patched::verifier_step);
    reveal(Patched::publisher_step);
    reveal(Patched::requirement_step);
    let id = demon.base.id;
    let creators = db.creators_of(id);
    let s0 = Patched::start(db, demon);
    let s1 = s0.position_step(patch.position);
    assert(tracks(s1, id, creators)) by {
        if patch.position is Some && db.move_result(demon.base, patch.position->0) is Ok {
            lemma_row_after_move(db, demon, patch.position->0);
            lemma_move_keeps_wf(db, demon.base, patch.position->0);
        }
    }
    let s2 = s1.name_step(patch.name);
    assert(tracks(s2, id, creators)) by {
        if s2 != s1 {
            lemma_write_tracks(
                s1,
                StatementView::SetName { id: id, name: patch.name->0 },
                id,
                creators,
            );
        }
    }
    let s3 = s2.video_step(patch.video);
    assert(tracks(s3, id, creators)) by {
        if s3.db != s2.db {
            match patch.video {
                VideoPatchView::Unset => {},
                VideoPatchView::SetNull => {
                    lemma_write_tracks(
                        s2,
                        StatementView::SetVideo { id: id, video: None },
                        id,
                        creators,
                    );
                },
                VideoPatchView::SetValue(video) => {
                    lemma_write_tracks(
                        s2,
                        StatementView::SetVideo { id: id, video: Some(video) },
                        id,
                        creators,
                    );
                },
            }
        }
    }
    let s4 = s3.verifier_step(patch.verifier);
    assert(tracks(s4, id, creators)) by {
        if patch.verifier is Some {
            let name = patch.verifier->0;
            lemma_resolved_tracks(s3, name, id, creators);
            if s4 != s3.resolved(name) {
                lemma_write_tracks(
                    s3.resolved(name),
                    StatementView::SetVerifier { id: id, player: s3.player(name) },
                    id,
                    creators,
                );
            }
        }
    }
    let s5 = s4.publisher_step(patch.publisher);
    assert(tracks(s5, id, creators)) by {
        if patch.publisher is Some {
            let name = patch.publisher->0;
            lemma_resolved_tracks(s4, name, id, creators);
            if s5 != s4.resolved(name) {
                lemma_write_tracks(
                    s4.resolved(name),
                    StatementView::SetPublisher { id: id, player: s4.player(name) },
                    id,
                    creators,
                );
            }
        }
    }
    let s6 = s5.requirement_step(patch.requirement);
    assert(tracks(s6, id, creators)) by {
        if s6.db != s5.db {
            lemma_write_tracks(
                s5,
                StatementView::SetRequirement { id: id, requirement: patch.requirement->0 },
                id,
                creators,
            );
        }
    }
}

/// The patch that names no field changes nothing and writes nothing.
pub proof fn lemma_empty_patch(db: Database, demon: DemonView)
    ensures
        patched(db, demon, PatchView::empty()) == Patched::start(db, demon),
        db.patch(demon, PatchView::empty()) == (Outcome { db: db, result: Ok(demon) }),
{
    reveal(Patched::position_step);
    reveal(Patched::name_step);
    reveal(Patched::video_step);
    reveal(Patched::verifier_step);
    reveal(Patched::publisher_step);
    reveal(Patched::requirement_step);
}

impl MinimalDemon {
    /// Renames the entry. Nothing is written where the new name is the old
    /// one up to case.
    pub fn set_name(&mut self, name: CiString, connection: &mut Connection) -> (r: Result<
        (),
        PointercrateError,
    >)
        requires
            old(connection)@.wf(),
        ensures
            r is Ok,
            final(connection)@.wf(),
            ci_eq(old(self)@.name, name@) ==> final(self)@ == old(self)@ && final(connection)@
                == old(connection)@,
            !ci_eq(old(self)@.name, name@) ==> final(self)@ == (MinimalDemonView {
                name: name@,
                ..old(self)@
            }) && final(connection)@ == old(connection)@.execute(
                StatementView::SetName { id: old(self)@.id, name: name@ },
            ),
    {
        if self.name != name {
            proof {
                lemma_column_write_keeps_wf(
                    connection@,
                    StatementView::SetName { id: self@.id, name: name@ },
                );
            }
            connection.execute(Statement::SetName { id: self.id, name: name.clone() });
            self.name = name;
        }
        Ok(())
    }
}

impl Demon {
    /// Replaces the verifier. Nothing is written where `verifier` is the
    /// verifier already.
    pub fn set_verifier(&mut self, verifier: DatabasePlayer, connection: &mut Connection) -> (r:
        Result<(), PointercrateError>)
        requires
            old(connection)@.wf(),
        ensures
            final(connection)@.wf(),
            (Patched { db: final(connection)@, demon: final(self)@, error: error_of(r) })
                == Patched::start(old(connection)@, old(self)@).verified_by(verifier@),
    {
        if verifier.id != self.verifier.id {
            proof {
                lemma_column_write_keeps_wf(
                    connection@,
                    StatementView::SetVerifier { id: self@.base.id, player: verifier@ },
                );
            }
            connection.execute(
                Statement::SetVerifier { id: self.base.id, player: verifier.clone() },
            );
            self.verifier = verifier;
        }
        Ok(())
    }

    /// Replaces the publisher. Nothing is written where `publisher` is the
    /// publisher already.
    pub fn set_publisher(&mut self, publisher: DatabasePlayer, connection: &mut Connection) -> (r:
        Result<(), PointercrateError>)
        requires
            old(connection)@.wf(),
        ensures
            final(connection)@.wf(),
            (Patched { db: final(connection)@, demon: final(self)@, error: error_of(r) })
                == Patched::start(old(connection)@, old(self)@).published_by(publisher@),
    {
        if publisher.id != self.publisher.id {
            proof {
                lemma_column_write_keeps_wf(
                    connection@,
                    StatementView::SetPublisher { id: self@.base.id, player: publisher@ },
                );
            }
            connection.execute(
                Statement::SetPublisher { id: self.base.id, player: publisher.clone() },
            );
            self.publisher = publisher;
        }
        Ok(())
    }

    /// Replaces the requirement, which must lie in `0..=100`. Nothing is
    /// written where it is the requirement already.
    pub fn set_requirement(&mut self, requirement: i16, connection: &mut Connection) -> (r: Result<
        (),
        PointercrateError,
    >)
        requires
            old(connection)@.wf(),
        ensures
            final(connection)@.wf(),
            (Patched { db: final(connection)@, demon: final(self)@, error: error_of(r) })
                == Patched::start(old(connection)@, old(self)@).required(requirement as int),
    {
        if requirement < 0 || requirement > 100 {
            return Err(PointercrateError::InvalidRequirement);
        }
        if requirement != self.requirement {
            proof {
                lemma_column_write_keeps_wf(
                    connection@,
                    StatementView::SetRequirement {
                        id: self@.base.id,
                        requirement: requirement as int,
                    },
                );
            }
            connection.execute(
                Statement::SetRequirement { id: self.base.id, requirement: requirement },
            );
            self.requirement = requirement;
        }
        Ok(())
    }

    /// Replaces the video link, which must have the form of
    /// [`valid_video`]. Nothing is written where it is the link already.
    pub fn set_video(&mut self, video: String, connection: &mut Connection) -> (r: Result<
        (),
        PointercrateError,
    >)
        requires
            old(connection)@.wf(),
        ensures
            final(connection)@.wf(),
            (Patched { db: final(connection)@, demon: final(self)@, error: error_of(r) })
                == Patched::start(old(connection)@, old(self)@).video_set(video@),
    {
        let video = match validate(&video) {
            Ok(video) => video,
            Err(e) => {
                return Err(e);
            },
        };
        let same = match &self.video {
            Some(current) => *current == video,
            None => false,
        };
        if !same {
            proof {
                lemma_column_write_keeps_wf(
                    connection@,
                    StatementView::SetVideo { id: self@.base.id, video: Some(video@) },
                );
            }
            connection.execute(
                Statement::SetVideo { id: self.base.id, video: Some(video.clone()) },
            );
            self.video = Some(video);
        }
        Ok(())
    }

    /// Clears the video link. Nothing is written where there is none.
    pub fn remove_video(&mut self, connection: &mut Connection) -> (r: Result<
        (),
        PointercrateError,
    >)
        requires
            old(connection)@.wf(),
        ensures
            final(connection)@.wf(),
            (Patched { db: final(connection)@, demon: final(self)@, error: error_of(r) })
                == Patched::start(old(connection)@, old(self)@).video_removed(),
    {
        if self.video.is_some() {
            proof {
                lemma_column_write_keeps_wf(
                    connection@,
                    StatementView::SetVideo { id: self@.base.id, video: None },
                );
            }
            connection.execute(Statement::SetVideo { id: self.base.id, video: None });
            self.video = None;
        }
        Ok(())
    }

    fn patch_position(&mut self, position: Option<i16>, connection: &mut Connection) -> (r:
        Result<(), PointercrateError>)
        requires
            old(connection)@.wf(),
        ensures
            final(connection)@.wf(),
            (Patched { db: final(connection)@, demon: final(self)@, error: error_of(r) })
                == Patched::start(old(connection)@, old(self)@).position_step(number_of(position)),
    {
        reveal(Patched::position_step);
        match position {
            Some(position) => self.base.mv(position, connection),
            None => Ok(()),
        }
    }

    fn patch_name(&mut self, name: Option<CiString>, connection: &mut Connection) -> (r: Result<
        (),
        PointercrateError,
    >)
        requires
            old(connection)@.wf(),
        ensures
            final(connection)@.wf(),
            (Patched { db: final(connection)@, demon: final(self)@, error: error_of(r) })
                == Patched::start(old(connection)@, old(self)@).name_step(name_of(name)),
    {
        reveal(Patched::name_step);
        match name {
            Some(name) => self.base.set_name(name, connection),
            None => Ok(()),
        }
    }

    fn patch_video(&mut self, video: VideoPatch, connection: &mut Connection) -> (r: Result<
        (),
        PointercrateError,
    >)
        requires
            old(connection)@.wf(),
        ensures
            final(connection)@.wf(),
            (Patched { db: final(connection)@, demon: final(self)@, error: error_of(r) })
                == Patched::start(old(connection)@, old(self)@).video_step(video@),
    {
        reveal(Patched::video_step);
        match video {
            VideoPatch::Unset => Ok(()),
            VideoPatch::SetNull => self.remove_video(connection),
            VideoPatch::SetValue(video) => self.set_video(video, connection),
        }
    }

    fn patch_verifier(&mut self, verifier: Option<CiString>, connection: &mut Connection) -> (r:
        Result<(), PointercrateError>)
        requires
            old(connection)@.wf(),
        ensures
            final(connection)@.wf(),
            (Patched { db: final(connection)@, demon: final(self)@, error: error_of(r) })
                == Patched::start(old(connection)@, old(self)@).verifier_step(name_of(verifier)),
    {
        reveal(Patched::verifier_step);
        match verifier {
            Some(verifier) => {
                match DatabasePlayer::by_name_or_create(&verifier, connection) {
                    Ok(player) => self.set_verifier(player, connection),
                    Err(e) => Err(e),
                }
            },
            None => Ok(()),
        }
    }

    fn patch_publisher(&mut self, publisher: Option<CiString>, connection: &mut Connection) -> (r:
        Result<(), PointercrateError>)
        requires
            old(connection)@.wf(),
        ensures
            final(connection)@.wf(),
            (Patched { db: final(connection)@, demon: final(self)@, error: error_of(r) })
                == Patched::start(old(connection)@, old(self)@).publisher_step(name_of(publisher)),
    {
        reveal(Patched::publisher_step);
        match publisher {
            Some(publisher) => {
                match DatabasePlayer::by_name_or_create(&publisher, connection) {
                    Ok(player) => self.set_publisher(player, connection),
                    Err(e) => Err(e),
                }
            },
            None => Ok(()),
        }
    }

    fn patch_requirement(&mut self, requirement: Option<i16>, connection: &mut Connection) -> (r:
        Result<(), PointercrateError>)
        requires
            old(connection)@.wf(),
        ensures
            final(connection)@.wf(),
            (Patched { db: final(connection)@, demon: final(self)@, error: error_of(r) })
                == Patched::start(old(connection)@, old(self)@).requirement_step(
                number_of(requirement),
            ),
    {
        reveal(Patched::requirement_step);
        match requirement {
            Some(requirement) => self.set_requirement(requirement, connection),
            None => Ok(()),
        }
    }

    /// The steps of a patch, one after the other, up to the first that fails.
    fn patch_steps(self, patch: PatchDemon, connection: &mut Connection) -> (r: Result<
        Demon,
        PointercrateError,
    >)
        requires
            old(connection)@.wf(),
        ensures
            final(connection)@.wf(),
            final(connection)@ == patched(old(connection)@, self@, patch@).db,
            match r {
                Ok(demon) => patched(old(connection)@, self@, patch@).error is None && demon@
                    == patched(old(connection)@, self@, patch@).demon,
                Err(e) => patched(old(connection)@, self@, patch@).error == Some(e),
            },
    {
        let mut demon = self;
        let ghost view = patch@;
        let PatchDemon { name, position, video, requirement, verifier, publisher } = patch;

        if let Err(e) = demon.patch_position(position, connection) {
            proof {
                lemma_failed_patch_stays(
                    Patched { db: connection@, demon: demon@, error: Some(e) },
                    view,
                );
            }
            return Err(e);
        }
        if let Err(e) = demon.patch_name(name, connection) {
            proof {
                lemma_failed_patch_stays(
                    Patched { db: connection@, demon: demon@, error: Some(e) },
                    view,
                );
            }
            return Err(e);
        }
        if let Err(e) = demon.patch_video(video, connection) {
            proof {
                lemma_failed_patch_stays(
                    Patched { db: connection@, demon: demon@, error: Some(e) },
                    view,
                );
            }
            return Err(e);
        }
        if let Err(e) = demon.patch_verifier(verifier, connection) {
            proof {
                lemma_failed_patch_stays(
                    Patched { db: connection@, demon: demon@, error: Some(e) },
                    view,
                );
            }
            return Err(e);
        }
        if let Err(e) = demon.patch_publisher(publisher, connection) {
            proof {
                lemma_failed_patch_stays(
                    Patched { db: connection@, demon: demon@, error: Some(e) },
                    view,
                );
            }
            return Err(e);
        }
        if let Err(e) = demon.patch_requirement(requirement, connection) {
            return Err(e);
        }
        Ok(demon)
    }

    /// Applies a patch: position, name, video, verifier, publisher and
    /// requirement, in this order, each only where the patch names it. The
    /// first step that fails ends the patch with its error, and the store is
    /// then as it was before the patch: the steps run on a copy of the store,
    /// which takes the place of the store once all of them have succeeded.
    pub fn apply_patch(self, patch: PatchDemon, connection: &mut Connection) -> (r: Result<
        Demon,
        PointercrateError,
    >)
        requires
            old(connection)@.wf(),
        ensures
            final(connection)@.wf(),
            final(connection)@ == old(connection)@.patch(self@, patch@).db,
            viewed(r) == old(connection)@.patch(self@, patch@).result,
    {
        let mut work = connection.clone();
        match self.patch_steps(patch, &mut work) {
            Ok(demon) => {
                *connection = work;
                Ok(demon)
            },
            Err(e) => Err(e),
        }
    }
}

impl FullDemon {
    /// Applies a patch to the entry, all of it or nothing; the creators stay
    /// as they are.
    pub fn apply_patch(self, patch: PatchDemon, connection: &mut Connection) -> (r: Result<
        FullDemon,
        PointercrateError,
    >)
        requires
            old(connection)@.wf(),
        ensures
            final(connection)@.wf(),
            final(connection)@ == old(connection)@.patch_full(self@, patch@).db,
            viewed(r) == old(connection)@.patch_full(self@, patch@).result,
    {
        let FullDemon { demon, creators } = self;
        match demon.apply_patch(patch, connection) {
            Ok(demon) => Ok(FullDemon { demon: demon, creators: creators }),
            Err(e) => Err(e),
        }
    }
}

} // verus!

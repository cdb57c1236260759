//! Version tokens: what an entry's token is, why two entries never share
//! one, and the check that refuses a change made against an outdated token.

use crate::cistring::code_of;
use crate::demon::{Demon, DemonView, FullDemon, FullDemonView};
use crate::error::PointercrateError;
use crate::player::{player_rows_of, DatabasePlayer, PlayerView};
use vstd::prelude::*;

verus! {

/// A text as numbers: its length, then its code points.
pub open spec fn encode_text(s: Seq<char>) -> Seq<int> {
    seq![s.len() as int] + Seq::new(s.len(), |i: int| s[i] as int)
}

/// An optional text as numbers: 0 for none, else 1 and the text.
pub open spec fn encode_video(v: Option<Seq<char>>) -> Seq<int> {
    match v {
        None => seq![0int],
        Some(s) => seq![1int] + encode_text(s),
    }
}

/// A player as numbers: the key, then the name.
pub open spec fn encode_player(p: PlayerView) -> Seq<int> {
    seq![p.id] + encode_text(p.name)
}

/// Players as numbers, one after the other.
pub open spec fn encode_players(ps: Seq<PlayerView>) -> Seq<int>
    decreases ps.len(),
{
    if ps.len() == 0 {
        Seq::empty()
    } else {
        encode_players(ps.drop_last()) + encode_player(ps.last())
    }
}

/// An entry as numbers: key, position, requirement, name, video, publisher,
/// verifier.
pub open spec fn encode_demon(d: DemonView) -> Seq<int> {
    seq![d.base.id, d.base.position, d.requirement] + encode_text(d.base.name) + encode_video(
        d.video,
    ) + encode_player(d.publisher) + encode_player(d.verifier)
}

/// The version token of an entry: every field of the entry and of its
/// creators, written down as numbers in a fixed order.
pub open spec fn token_of(f: FullDemonView) -> Seq<int> {
    encode_demon(f.demon) + seq![f.creators.len() as int] + encode_players(f.creators)
}

/// Two texts whose numbers, each followed by anything, agree are the same
/// text followed by the same.
pub proof fn lemma_text_unique(a: Seq<char>, x: Seq<int>, b: Seq<char>, y: Seq<int>)
    requires
        encode_text(a) + x == encode_text(b) + y,
    ensures
        a == b,
        x == y,
{
    let l = encode_text(a) + x;
    let r = encode_text(b) + y;
    assert(l[0] == a.len());
    assert(r[0] == b.len());
    assert(a.len() == b.len());
    assert forall|i: int| 0 <= i < a.len() implies a[i] == b[i] by {
        assert(l[i + 1] == a[i] as int);
        assert(r[i + 1] == b[i] as int);
    }
    assert(a =~= b);
    assert(l.len() == r.len());
    assert forall|i: int| 0 <= i < x.len() implies x[i] == y[i] by {
        assert(l[a.len() + 1 + i] == x[i]);
        assert(r[b.len() + 1 + i] == y[i]);
    }
    assert(x =~= y);
}

/// As [`lemma_text_unique`], for a single number.
pub proof fn lemma_number_unique(a: int, x: Seq<int>, b: int, y: Seq<int>)
    requires
        seq![a] + x == seq![b] + y,
    ensures
        a == b,
        x == y,
{
    let l = seq![a] + x;
    let r = seq![b] + y;
    assert(l[0] == a);
    assert(r[0] == b);
    assert(l.len() == r.len());
    assert forall|i: int| 0 <= i < x.len() implies x[i] == y[i] by {
        assert(l[i + 1] == x[i]);
        assert(r[i + 1] == y[i]);
    }
    assert(x =~= y);
}

/// As [`lemma_text_unique`], for an optional text.
pub proof fn lemma_video_unique(a: Option<Seq<char>>, x: Seq<int>, b: Option<Seq<char>>, y: Seq<int>)
    requires
        encode_video(a) + x == encode_video(b) + y,
    ensures
        a == b,
        x == y,
{
    let ta = match a {
        None => Seq::<int>::empty(),
        Some(s) => encode_text(s),
    };
    let tb = match b {
        None => Seq::<int>::empty(),
        Some(s) => encode_text(s),
    };
    let fa: int = if a is Some { 1 } else { 0 };
    let fb: int = if b is Some { 1 } else { 0 };
    assert(encode_video(a) + x =~= seq![fa] + (ta + x));
    assert(encode_video(b) + y =~= seq![fb] + (tb + y));
    lemma_number_unique(fa, ta + x, fb, tb + y);
    if a is Some {
        lemma_text_unique(a->0, x, b->0, y);
    } else {
        assert(ta + x =~= x);
        assert(tb + y =~= y);
    }
}

/// As [`lemma_text_unique`], for a player.
pub proof fn lemma_player_unique(a: PlayerView, x: Seq<int>, b: PlayerView, y: Seq<int>)
    requires
        encode_player(a) + x == encode_player(b) + y,
    ensures
        a == b,
        x == y,
{
    assert(encode_player(a) + x =~= seq![a.id] + (encode_text(a.name) + x));
    assert(encode_player(b) + y =~= seq![b.id] + (encode_text(b.name) + y));
    lemma_number_unique(a.id, encode_text(a.name) + x, b.id, encode_text(b.name) + y);
    lemma_text_unique(a.name, x, b.name, y);
}

/// As [`lemma_text_unique`], for two lists of players of one length.
pub proof fn lemma_players_unique(a: Seq<PlayerView>, x: Seq<int>, b: Seq<PlayerView>, y: Seq<int>)
    requires
        a.len() == b.len(),
        encode_players(a) + x == encode_players(b) + y,
    ensures
        a == b,
        x == y,
    decreases a.len(),
{
    if a.len() == 0 {
        assert(encode_players(a) + x =~= x);
        assert(encode_players(b) + y =~= y);
        assert(a =~= b);
    } else {
        let xa = encode_player(a.last()) + x;
        let yb = encode_player(b.last()) + y;
        assert(encode_players(a) + x =~= encode_players(a.drop_last()) + xa);
        assert(encode_players(b) + y =~= encode_players(b.drop_last()) + yb);
        lemma_players_unique(a.drop_last(), xa, b.drop_last(), yb);
        lemma_player_unique(a.last(), x, b.last(), y);
        assert(a =~= a.drop_last().push(a.last()));
        assert(b =~= b.drop_last().push(b.last()));
    }
}

/// As [`lemma_text_unique`], for an entry.
pub proof fn lemma_demon_unique(a: DemonView, x: Seq<int>, b: DemonView, y: Seq<int>)
    requires
        encode_demon(a) + x == encode_demon(b) + y,
    ensures
        a == b,
        x == y,
{
    let a4 = encode_player(a.verifier) + x;
    let b4 = encode_player(b.verifier) + y;
    let a3 = encode_player(a.publisher) + a4;
    let b3 = encode_player(b.publisher) + b4;
    let a2 = encode_video(a.video) + a3;
    let b2 = encode_video(b.video) + b3;
    let a1 = encode_text(a.base.name) + a2;
    let b1 = encode_text(b.base.name) + b2;
    assert(encode_demon(a) + x =~= seq![a.base.id] + (seq![a.base.position] + (seq![
        a.requirement,
    ] + a1)));
    assert(encode_demon(b) + y =~= seq![b.base.id] + (seq![b.base.position] + (seq![
        b.requirement,
    ] + b1)));
    lemma_number_unique(
        a.base.id,
        seq![a.base.position] + (seq![a.requirement] + a1),
        b.base.id,
        seq![b.base.position] + (seq![b.requirement] + b1),
    );
    lemma_number_unique(
        a.base.position,
        seq![a.requirement] + a1,
        b.base.position,
        seq![b.requirement] + b1,
    );
    lemma_number_unique(a.requirement, a1, b.requirement, b1);
    lemma_text_unique(a.base.name, a2, b.base.name, b2);
    lemma_video_unique(a.video, a3, b.video, b3);
    lemma_player_unique(a.publisher, a4, b.publisher, b4);
    lemma_player_unique(a.verifier, x, b.verifier, y);
}

/// Two entries have the same version token only if they agree in every
/// field: any change to an entry changes its token.
pub proof fn lemma_token_unique(a: FullDemonView, b: FullDemonView)
    requires
        token_of(a) == token_of(b),
    ensures
        a == b,
{
    let ta = seq![a.creators.len() as int] + encode_players(a.creators);
    let tb = seq![b.creators.len() as int] + encode_players(b.creators);
    assert(token_of(a) =~= encode_demon(a.demon) + ta);
    assert(token_of(b) =~= encode_demon(b.demon) + tb);
    lemma_demon_unique(a.demon, ta, b.demon, tb);
    lemma_number_unique(
        a.creators.len() as int,
        encode_players(a.creators),
        b.creators.len() as int,
        encode_players(b.creators),
    );
    assert(encode_players(a.creators) + Seq::<int>::empty() =~= encode_players(a.creators));
    assert(encode_players(b.creators) + Seq::<int>::empty() =~= encode_players(b.creators));
    lemma_players_unique(a.creators, Seq::empty(), b.creators, Seq::empty());
}

/// The numbers behind a token.
pub open spec fn words_of(v: Seq<i128>) -> Seq<int> {
    Seq::new(v.len(), |i: int| v[i] as int)
}

/// The version token of an entry: one value that changes whenever any field
/// of the entry or of its creators changes.
#[derive(Debug)]
pub struct VersionToken {
    pub words: Vec<i128>,
}

impl View for VersionToken {
    type V = Seq<int>;

    open spec fn view(&self) -> Seq<int> {
        words_of(self.words@)
    }
}

impl Clone for VersionToken {
    fn clone(&self) -> (t: VersionToken)
        ensures
            t@ == self@,
    {
        VersionToken { words: self.words.clone() }
    }
}

impl VersionToken {
    /// Whether the two tokens are the same.
    pub fn matches(&self, other: &VersionToken) -> (b: bool)
        ensures
            b == (self@ == other@),
    {
        if self.words.len() != other.words.len() {
            assert(self@.len() != other@.len());
            return false;
        }
        let mut i: usize = 0;
        while i < self.words.len()
            invariant
                self.words@.len() == other.words@.len(),
                i <= self.words@.len(),
                forall|j: int| 0 <= j < i ==> self.words@[j] == other.words@[j],
            decreases self.words@.len() - i,
        {
            if self.words[i] != other.words[i] {
                assert(self@[i as int] != other@[i as int]);
                return false;
            }
            i += 1;
        }
        assert(self@ =~= other@);
        true
    }
}

fn push_text(out: &mut Vec<i128>, text: &str)
    ensures
        words_of(final(out)@) == words_of(old(out)@) + encode_text(text@),
{
    let ghost start = words_of(out@);
    let mut codes: Vec<i128> = Vec::new();
    for c in it: text.chars()
        invariant
            it.seq() == text@,
            codes@.len() == it.index(),
            forall|j: int| 0 <= j < codes@.len() ==> codes@[j] == (#[trigger] it.seq()[j]) as int,
    {
        codes.push(code_of(c) as i128);
    }
    out.push(codes.len() as i128);
    let ghost head = start + seq![text@.len() as int];
    assert(words_of(out@) =~= head + Seq::new(0, |j: int| text@[j] as int));
    let mut i: usize = 0;
    while i < codes.len()
        invariant
            i <= codes@.len(),
            codes@.len() == text@.len(),
            forall|j: int| 0 <= j < codes@.len() ==> codes@[j] == (#[trigger] text@[j]) as int,
            head == start + seq![text@.len() as int],
            words_of(out@) == head + Seq::new(i as nat, |j: int| text@[j] as int),
        decreases codes@.len() - i,
    {
        let ghost prev = words_of(out@);
        out.push(codes[i]);
        assert(words_of(out@) =~= prev.push(text@[i as int] as int));
        assert(words_of(out@) =~= head + Seq::new((i + 1) as nat, |j: int| text@[j] as int));
        i += 1;
    }
    assert(words_of(out@) =~= start + encode_text(text@));
}

fn push_player(out: &mut Vec<i128>, player: &DatabasePlayer)
    ensures
        words_of(final(out)@) == words_of(old(out)@) + encode_player(player@),
{
    let ghost start = words_of(out@);
    out.push(player.id as i128);
    assert(words_of(out@) =~= start + seq![player@.id]);
    push_text(out, player.name.0.as_str());
    assert(words_of(out@) =~= start + encode_player(player@));
}

fn push_demon(out: &mut Vec<i128>, demon: &Demon)
    ensures
        words_of(final(out)@) == words_of(old(out)@) + encode_demon(demon@),
{
    let ghost start = words_of(out@);
    out.push(demon.base.id as i128);
    out.push(demon.base.position as i128);
    out.push(demon.requirement as i128);
    let ghost s1 = start + seq![demon@.base.id, demon@.base.position, demon@.requirement];
    assert(words_of(out@) =~= s1);
    push_text(out, demon.base.name.0.as_str());
    let ghost s2 = s1 + encode_text(demon@.base.name);
    match &demon.video {
        None => {
            out.push(0);
            assert(words_of(out@) =~= s2 + encode_video(demon@.video));
        },
        Some(video) => {
            out.push(1);
            assert(words_of(out@) =~= s2 + seq![1int]);
            push_text(out, video.as_str());
            assert(words_of(out@) =~= s2 + encode_video(demon@.video));
        },
    }
    push_player(out, &demon.publisher);
    push_player(out, &demon.verifier);
    assert(words_of(out@) =~= start + encode_demon(demon@));
}

impl FullDemon {
    /// The version token of the entry as it stands.
    pub fn version_token(&self) -> (t: VersionToken)
        ensures
            t@ == token_of(self@),
    {
        let mut out: Vec<i128> = Vec::new();
        assert(words_of(out@) =~= Seq::empty());
        push_demon(&mut out, &self.demon);
        out.push(self.creators.len() as i128);
        let ghost head = encode_demon(self@.demon) + seq![self@.creators.len() as int];
        assert(words_of(out@) =~= head);
        let ghost all = self@.creators;
        let mut i: usize = 0;
        assert(all.take(0) =~= Seq::empty());
        while i < self.creators.len()
            invariant
                i <= self.creators@.len(),
                all == player_rows_of(self.creators@),
                words_of(out@) == head + encode_players(all.take(i as int)),
            decreases self.creators@.len() - i,
        {
            push_player(&mut out, &self.creators[i]);
            proof {
                assert(all.take(i + 1).drop_last() =~= all.take(i as int));
                assert(all.take(i + 1).last() == self.creators@[i as int]@);
                assert(words_of(out@) =~= head + encode_players(all.take(i + 1)));
            }
            i += 1;
        }
        assert(all.take(self.creators@.len() as int) =~= all);
        VersionToken { words: out }
    }
}

/// Accepts a change to `item` only where the caller's token is the token of
/// the entry as it stands.
pub fn check_version(item: &FullDemon, expected: &VersionToken) -> (r: Result<
    (),
    PointercrateError,
>)
    ensures
        expected@ == token_of(item@) ==> r == Ok::<(), PointercrateError>(()),
        expected@ != token_of(item@) ==> r == Err::<(), PointercrateError>(
            PointercrateError::PreconditionFailed,
        ),
{
    let current = item.version_token();
    if current.matches(expected) {
        Ok(())
    } else {
        Err(PointercrateError::PreconditionFailed)
    }
}

} // verus!

//! The form of video links.

use crate::cistring::code_of;
use crate::error::PointercrateError;
use vstd::prelude::*;

verus! {

/// Whether `c` may stand in a link: neither a blank nor a control character.
pub open spec fn in_link(c: char) -> bool {
    32 < c as int && c as int != 127
}

/// The length of the `http://` or `https://` that `s` begins with, or 0.
pub open spec fn scheme_len(s: Seq<char>) -> int {
    if s.len() >= 8 && s.take(8) == seq!['h', 't', 't', 'p', 's', ':', '/', '/'] {
        8
    } else if s.len() >= 7 && s.take(7) == seq!['h', 't', 't', 'p', ':', '/', '/'] {
        7
    } else {
        0
    }
}

/// The form a video link must have: `http://` or `https://`, then at least one
/// more character, and no blank or control character anywhere.
pub open spec fn valid_video(s: Seq<char>) -> bool {
    &&& scheme_len(s) > 0
    &&& s.len() > scheme_len(s)
    &&& forall|i: int| 0 <= i < s.len() ==> in_link(#[trigger] s[i])
}

fn chars_of(text: &str) -> (out: Vec<char>)
    ensures
        out@ == text@,
{
    let mut out: Vec<char> = Vec::new();
    for c in it: text.chars()
        invariant
            it.seq() == text@,
            out@ == it.seq().take(it.index()),
    {
        out.push(c);
        assert(it.seq().take(it.index() + 1) =~= it.seq().take(it.index()).push(c));
    }
    assert(text@.take(text@.len() as int) =~= text@);
    out
}

fn scheme_of(v: &Vec<char>) -> (k: usize)
    ensures
        k == scheme_len(v@),
{
    if v.len() >= 7 && v[0] == 'h' && v[1] == 't' && v[2] == 't' && v[3] == 'p' {
        if v[4] == ':' && v[5] == '/' && v[6] == '/' {
            assert(v@.take(7) =~= seq!['h', 't', 't', 'p', ':', '/', '/']);
            assert(v@.len() >= 8 ==> v@.take(8)[4] == ':');
            return 7;
        }
        if v.len() >= 8 && v[4] == 's' && v[5] == ':' && v[6] == '/' && v[7] == '/' {
            assert(v@.take(8) =~= seq!['h', 't', 't', 'p', 's', ':', '/', '/']);
            return 8;
        }
    }
    proof {
        if v@.len() >= 8 && v@.take(8) == seq!['h', 't', 't', 'p', 's', ':', '/', '/'] {
            let t = v@.take(8);
            assert(t[0] == 'h' && t[1] == 't' && t[2] == 't' && t[3] == 'p' && t[4] == 's' && t[5]
                == ':' && t[6] == '/' && t[7] == '/');
        }
        if v@.len() >= 7 && v@.take(7) == seq!['h', 't', 't', 'p', ':', '/', '/'] {
            let t = v@.take(7);
            assert(t[0] == 'h' && t[1] == 't' && t[2] == 't' && t[3] == 'p' && t[4] == ':' && t[5]
                == '/' && t[6] == '/');
        }
    }
    0
}

/// Checks a video link against [`valid_video`] and hands it back unchanged.
pub fn validate(video: &String) -> (r: Result<String, PointercrateError>)
    ensures
        valid_video(video@) ==> (r matches Ok(v) && v@ == video@),
        !valid_video(video@) ==> r == Err::<String, PointercrateError>(
            PointercrateError::InvalidMediaLink,
        ),
{
    let v = chars_of(video.as_str());
    let k = scheme_of(&v);
    if k == 0 || v.len() <= k {
        return Err(PointercrateError::InvalidMediaLink);
    }
    let mut i: usize = 0;
    while i < v.len()
        invariant
            v@ == video@,
            k == scheme_len(v@),
            k < v@.len(),
            k > 0,
            i <= v@.len(),
            forall|j: int| 0 <= j < i ==> in_link(#[trigger] v@[j]),
        decreases v@.len() - i,
    {
        let n: u32 = code_of(v[i]);
        if n <= 32 || n == 127 {
            assert(!in_link(v@[i as int]));
            return Err(PointercrateError::InvalidMediaLink);
        }
        i += 1;
    }
    Ok(video.clone())
}

} // verus!

//! Strings that compare without regard to ASCII case.

use vstd::prelude::*;

verus! {

/// The code point of `c`, with the ASCII capitals mapped to their small letters.
pub open spec fn lower(c: char) -> int {
    let n = c as int;
    if 65 <= n <= 90 {
        n + 32
    } else {
        n
    }
}

/// The key under which a text is compared: its code points, each folded by [`lower`].
pub open spec fn ci_key(s: Seq<char>) -> Seq<int> {
    s.map_values(|c: char| lower(c))
}

/// Whether two texts are the same up to ASCII case.
pub open spec fn ci_eq(a: Seq<char>, b: Seq<char>) -> bool {
    ci_key(a) == ci_key(b)
}

/// A string that compares without regard to ASCII case and keeps the spelling
/// it was given.
#[derive(Debug)]
pub struct CiString(pub String);

impl View for CiString {
    type V = Seq<char>;

    open spec fn view(&self) -> Seq<char> {
        self.0@
    }
}

/// The code point of `c`.
pub fn code_of(c: char) -> (n: u32)
    ensures
        n == c as int,
{
    c as u32
}

fn lower_code(c: char) -> (n: u32)
    ensures
        n == lower(c),
{
    let n: u32 = c as u32;
    if 65 <= n && n <= 90 {
        n + 32
    } else {
        n
    }
}

impl CiString {
    pub fn new(text: String) -> (s: CiString)
        ensures
            s@ == text@,
    {
        CiString(text)
    }

    /// The folded code points, in order.
    pub fn folded(&self) -> (out: Vec<u32>)
        ensures
            out@.map_values(|n: u32| n as int) == ci_key(self@),
    {
        let mut out: Vec<u32> = Vec::new();
        let text = self.0.as_str();
        for c in it: text.chars()
            invariant
                it.seq() == text@,
                out@.len() == it.index(),
                forall|i: int| 0 <= i < out@.len() ==> out@[i] == lower(#[trigger] it.seq()[i]),
        {
            out.push(lower_code(c));
        }
        assert(out@.map_values(|n: u32| n as int) =~= ci_key(self@));
        out
    }
}

fn same_codes(a: &Vec<u32>, b: &Vec<u32>) -> (r: bool)
    ensures
        r == (a@ == b@),
{
    if a.len() != b.len() {
        return false;
    }
    let mut i: usize = 0;
    while i < a.len()
        invariant
            a@.len() == b@.len(),
            i <= a@.len(),
            forall|j: int| 0 <= j < i ==> a@[j] == b@[j],
        decreases a@.len() - i,
    {
        if a[i] != b[i] {
            return false;
        }
        i += 1;
    }
    assert(a@ =~= b@);
    true
}

impl Clone for CiString {
    fn clone(&self) -> (s: CiString)
        ensures
            s@ == self@,
    {
        CiString(self.0.clone())
    }
}

impl PartialEq for CiString {
    /// Equality up to ASCII case.
    fn eq(&self, other: &CiString) -> (r: bool) {
        let a = self.folded();
        let b = other.folded();
        proof {
            let f = |n: u32| n as int;
            if a@.map_values(f) == b@.map_values(f) {
                assert(a@.len() == a@.map_values(f).len());
                assert(b@.len() == b@.map_values(f).len());
                assert forall|i: int| 0 <= i < a@.len() implies a@[i] == b@[i] by {
                    assert(a@.map_values(f)[i] == b@.map_values(f)[i]);
                }
                assert(a@ =~= b@);
            }
        }
        same_codes(&a, &b)
    }
}

impl vstd::std_specs::cmp::PartialEqSpecImpl for CiString {
    open spec fn obeys_eq_spec() -> bool {
        true
    }

    open spec fn eq_spec(&self, other: &CiString) -> bool {
        ci_eq(self@, other@)
    }
}

impl Eq for CiString {

}

} // verus!

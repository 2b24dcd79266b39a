//! The last component of a path, with or without a suffix: what the name
//! of a command is read from.

use vstd::prelude::*;
use crate::text::chars_of;

verus! {

/// Where the last component of `path` begins: behind the last `sep`, or at 0.
pub open spec fn component_start(path: Seq<char>, sep: char) -> int
    decreases path.len(),
{
    if path.len() == 0 {
        0
    } else if path.last() == sep {
        path.len() as int
    } else {
        component_start(path.drop_last(), sep)
    }
}

/// What follows the last `sep` in `path`; all of `path` where it holds none.
pub open spec fn last_component(path: Seq<char>, sep: char) -> Seq<char> {
    path.skip(component_start(path, sep))
}

/// `s` without `suffix` at its end, where it ends so.
pub open spec fn strip_suffix(s: Seq<char>, suffix: Seq<char>) -> Option<Seq<char>> {
    if suffix.len() <= s.len() && s.skip(s.len() - suffix.len()) == suffix {
        Some(s.take(s.len() - suffix.len()))
    } else {
        None
    }
}

/// No separator stands in the last component, and one stands just before
/// it unless it is all of the path.
pub proof fn lemma_last_component_sound(path: Seq<char>, sep: char)
    ensures
        0 <= component_start(path, sep) <= path.len(),
        component_start(path, sep) == 0 || path[component_start(path, sep) - 1] == sep,
        forall|j: int|
            0 <= j < last_component(path, sep).len() ==> #[trigger] last_component(path, sep)[j]
                != sep,
    decreases path.len(),
{
    if path.len() > 0 && path.last() != sep {
        let t = path.drop_last();
        lemma_last_component_sound(t, sep);
        let k = component_start(path, sep);
        let last = last_component(path, sep);
        assert forall|j: int| 0 <= j < last.len() implies #[trigger] last[j] != sep by {
            if k + j < t.len() {
                assert(last_component(t, sep)[j] == t[k + j]);
            }
        }
    }
}

/// The last component begins at `k` when no separator follows `k` and one
/// stands just before it, or `k` is 0.
pub proof fn lemma_component_start(path: Seq<char>, sep: char, k: int)
    requires
        0 <= k <= path.len(),
        forall|j: int| k <= j < path.len() ==> #[trigger] path[j] != sep,
        k == 0 || path[k - 1] == sep,
    ensures
        component_start(path, sep) == k,
    decreases path.len(),
{
    if path.len() > k {
        let t = path.drop_last();
        assert forall|j: int| k <= j < t.len() implies #[trigger] t[j] != sep by {
            assert(t[j] == path[j]);
        }
        lemma_component_start(t, sep, k);
    }
}

/// The part of `path` behind its last `sep`.
pub fn path_last_component(path: &str, sep: char) -> (r: String)
    ensures
        r@ == last_component(path@, sep),
{
    let cs = chars_of(path);
    let mut k: usize = cs.len();
    while k > 0 && cs[k - 1] != sep
        invariant
            cs@ == path@,
            k <= cs.len(),
            forall|j: int| k <= j < cs.len() ==> #[trigger] path@[j] != sep,
        decreases k,
    {
        k -= 1;
    }
    proof {
        lemma_component_start(path@, sep, k as int);
    }
    path.substring_char(k, cs.len()).to_owned()
}

/// `s` without `suffix` at its end, or `None` where `s` does not end so.
pub fn path_strip_suffix(s: &str, suffix: &str) -> (r: Option<String>)
    ensures
        match r {
            Some(t) => strip_suffix(s@, suffix@) == Some(t@),
            None => strip_suffix(s@, suffix@) is None,
        },
{
    let cs = chars_of(s);
    let xs = chars_of(suffix);
    if xs.len() > cs.len() {
        return None;
    }
    let cut = cs.len() - xs.len();
    let mut i: usize = 0;
    while i < xs.len()
        invariant
            cs@ == s@,
            xs@ == suffix@,
            cut + xs.len() == cs.len(),
            i <= xs.len(),
            forall|j: int| 0 <= j < i ==> s@[cut + j] == #[trigger] suffix@[j],
        decreases xs.len() - i,
    {
        if cs[cut + i] != xs[i] {
            assert(s@.skip(cut as int)[i as int] != suffix@[i as int]);
            return None;
        }
        i += 1;
    }
    assert(s@.skip(cut as int) =~= suffix@);
    Some(s.substring_char(0, cut).to_owned())
}

} // verus!

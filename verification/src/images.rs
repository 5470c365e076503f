//! The image lister's path handling: reducing an enumerated path to its
//! file name, with either path-separator convention treated alike.

use vstd::prelude::*;

use crate::json::names_of;

verus! {

/// A path separator, in either convention.
pub open spec fn is_sep(c: char) -> bool {
    c == '/' || c == '\\'
}

/// What follows the last separator of a path: its file name.
pub open spec fn base_name(s: Seq<char>) -> Seq<char>
    decreases s.len(),
{
    if s.len() == 0 {
        Seq::empty()
    } else if is_sep(s.last()) {
        Seq::empty()
    } else {
        base_name(s.drop_last()).push(s.last())
    }
}

/// The file name is the suffix after the last separator: `k` is the last
/// separator's position, or just before the start when there is none.
pub proof fn lemma_base_name_suffix(s: Seq<char>, k: int)
    requires
        -1 <= k < s.len(),
        k >= 0 ==> is_sep(s[k]),
        forall|t: int| k < t < s.len() ==> !is_sep(#[trigger] s[t]),
    ensures
        base_name(s) == s.subrange(k + 1, s.len() as int),
    decreases s.len(),
{
    if s.len() == 0 {
        assert(base_name(s) =~= s.subrange(k + 1, s.len() as int));
    } else if k == s.len() - 1 {
        assert(s.subrange(k + 1, s.len() as int) =~= Seq::<char>::empty());
    } else {
        lemma_base_name_suffix(s.drop_last(), k);
        assert(s.drop_last().subrange(k + 1, s.len() - 1).push(s.last()) =~= s.subrange(
            k + 1,
            s.len() as int,
        ));
    }
}

/// The file names of a sequence of paths, element for element.
pub open spec fn base_names(s: Seq<Seq<char>>) -> Seq<Seq<char>> {
    s.map_values(|p: Seq<char>| base_name(p))
}

/// The file name of one path.
pub fn base_name_of(p: &Vec<char>) -> (r: Vec<char>)
    ensures
        r@ == base_name(p@),
{
    let mut cut: usize = 0;
    let mut i: usize = 0;
    while i < p.len()
        invariant
            cut <= i <= p.len(),
            cut >= 1 ==> is_sep(p@[cut - 1]),
            forall|t: int| cut <= t < i ==> !is_sep(#[trigger] p@[t]),
        decreases p.len() - i,
    {
        let c = p[i];
        if c == '/' || c == '\\' {
            cut = i + 1;
        }
        i += 1;
    }
    proof {
        lemma_base_name_suffix(p@, cut as int - 1);
    }
    let mut out: Vec<char> = Vec::new();
    let mut j: usize = cut;
    while j < p.len()
        invariant
            cut <= j <= p.len(),
            out@ == p@.subrange(cut as int, j as int),
        decreases p.len() - j,
    {
        out.push(p[j]);
        proof {
            assert(out@ =~= p@.subrange(cut as int, j as int + 1));
        }
        j += 1;
    }
    out
}

/// The file names of the enumerated image paths, in enumeration order.
pub fn list_images(paths: &Vec<Vec<char>>) -> (r: Vec<Vec<char>>)
    ensures
        names_of(r@) == base_names(names_of(paths@)),
{
    let mut out: Vec<Vec<char>> = Vec::new();
    let mut i: usize = 0;
    while i < paths.len()
        invariant
            i <= paths.len(),
            out@.len() == i,
            forall|j: int| 0 <= j < i ==> out@[j]@ == base_name(paths@[j]@),
        decreases paths.len() - i,
    {
        out.push(base_name_of(&paths[i]));
        i += 1;
    }
    proof {
        assert(names_of(out@) =~= base_names(names_of(paths@)));
    }
    out
}

} // verus!

//! Directory containment, compared component by component.
use vstd::prelude::*;
use vstd::string::*;

use crate::text::{split_on, split_text, views};

verus! {

pub open spec fn is_absolute(p: Seq<char>) -> bool {
    p.len() > 0 && p[0] == '/'
}

/// The non-empty pieces, in order.
pub open spec fn nonempty_pieces(s: Seq<Seq<char>>) -> Seq<Seq<char>>
    decreases s.len(),
{
    if s.len() == 0 {
        Seq::empty()
    } else if s.last().len() == 0 {
        nonempty_pieces(s.drop_last())
    } else {
        nonempty_pieces(s.drop_last()).push(s.last())
    }
}

/// The names along a path; repeated and trailing separators add none.
pub open spec fn components(p: Seq<char>) -> Seq<Seq<char>> {
    nonempty_pieces(split_on(p, '/'))
}

/// `dir` is `cwd` itself or one of its ancestors: both absolute or both
/// relative, and the components of `dir` begin those of `cwd`.
pub open spec fn is_within(dir: Seq<char>, cwd: Seq<char>) -> bool {
    let d = components(dir);
    let c = components(cwd);
    &&& is_absolute(dir) == is_absolute(cwd)
    &&& d.len() <= c.len()
    &&& c.subrange(0, d.len() as int) == d
}

pub fn path_is_absolute(p: &str) -> (r: bool)
    ensures
        r == is_absolute(p@),
{
    p.unicode_len() > 0 && p.get_char(0) == '/'
}

pub fn path_components(p: &str) -> (r: Vec<String>)
    ensures
        views(r@) == components(p@),
{
    let pieces = split_text(p, '/');
    let ghost all = views(pieces@);
    let mut out: Vec<String> = Vec::new();
    let mut i: usize = 0;
    assert(all.subrange(0, 0) =~= Seq::<Seq<char>>::empty());
    while i < pieces.len()
        invariant
            i <= pieces@.len(),
            all == views(pieces@),
            views(out@) == nonempty_pieces(all.subrange(0, i as int)),
        decreases pieces@.len() - i,
    {
        assert(all.subrange(0, i + 1).drop_last() =~= all.subrange(0, i as int));
        if pieces[i].unicode_len() > 0 {
            out.push(pieces[i].clone());
            assert(views(out@) =~= views(out@.drop_last()).push(all[i as int]));
        }
        i = i + 1;
    }
    assert(all.subrange(0, pieces@.len() as int) =~= all);
    out
}

/// Whether `cwd` is the directory `dir` or lies below it.
pub fn dir_contains(dir: &str, cwd: &str) -> (r: bool)
    ensures
        r == is_within(dir@, cwd@),
{
    if path_is_absolute(dir) != path_is_absolute(cwd) {
        return false;
    }
    let d = path_components(dir);
    let c = path_components(cwd);
    if d.len() > c.len() {
        return false;
    }
    let ghost dv = views(d@);
    let ghost cv = views(c@);
    let mut i: usize = 0;
    while i < d.len()
        invariant
            i <= d@.len() <= c@.len(),
            dv == views(d@),
            cv == views(c@),
            dv == components(dir@),
            cv == components(cwd@),
            is_absolute(dir@) == is_absolute(cwd@),
            cv.subrange(0, i as int) == dv.subrange(0, i as int),
        decreases d@.len() - i,
    {
        if d[i] != c[i] {
            assert(cv.subrange(0, dv.len() as int)[i as int] != dv[i as int]);
            return false;
        }
        i = i + 1;
        assert(cv.subrange(0, i as int) =~= dv.subrange(0, i as int));
    }
    assert(dv.subrange(0, dv.len() as int) =~= dv);
    true
}

} // verus!

//! Splitting text on a delimiter and joining pieces with a separator.
use vstd::prelude::*;
use vstd::string::*;

verus! {

/// The pieces of `s` between occurrences of `d`; text without `d` is one piece,
/// and the empty text is one empty piece.
pub open spec fn split_on(s: Seq<char>, d: char) -> Seq<Seq<char>>
    decreases s.len(),
{
    if s.len() == 0 {
        seq![Seq::empty()]
    } else {
        let pieces = split_on(s.drop_last(), d);
        if s.last() == d {
            pieces.push(Seq::empty())
        } else {
            pieces.update(pieces.len() - 1, pieces.last().push(s.last()))
        }
    }
}

/// The pieces written one after another with `sep` between neighbours.
pub open spec fn join_with(parts: Seq<Seq<char>>, sep: Seq<char>) -> Seq<char>
    decreases parts.len(),
{
    if parts.len() == 0 {
        Seq::empty()
    } else if parts.len() == 1 {
        parts[0]
    } else {
        join_with(parts.drop_last(), sep) + sep + parts.last()
    }
}

/// The character sequences held by a vector of strings.
pub open spec fn views(v: Seq<String>) -> Seq<Seq<char>> {
    v.map_values(|x: String| x@)
}

pub open spec fn free_of(s: Seq<char>, c: char) -> bool {
    forall|i: int| 0 <= i < s.len() ==> s[i] != c
}

pub proof fn lemma_split_nonempty(s: Seq<char>, d: char)
    ensures
        split_on(s, d).len() >= 1,
    decreases s.len(),
{
    if s.len() > 0 {
        lemma_split_nonempty(s.drop_last(), d);
    }
}

/// Text without the delimiter is a single piece.
pub proof fn lemma_split_free(s: Seq<char>, d: char)
    requires
        free_of(s, d),
    ensures
        split_on(s, d) == seq![s],
    decreases s.len(),
{
    if s.len() > 0 {
        let p = s.drop_last();
        lemma_split_free(p, d);
        assert(s.last() != d);
        assert(p.push(s.last()) == s);
        assert(split_on(s, d) == seq![p].update(0, p.push(s.last())));
        assert(split_on(s, d) =~= seq![s]);
    } else {
        assert(s =~= Seq::<char>::empty());
    }
}

/// Splitting at one delimiter splits the two sides apart.
pub proof fn lemma_split_concat(a: Seq<char>, b: Seq<char>, d: char)
    ensures
        split_on(a + seq![d] + b, d) == split_on(a, d) + split_on(b, d),
    decreases b.len(),
{
    let ad = a + seq![d];
    lemma_split_nonempty(a, d);
    if b.len() == 0 {
        assert(ad + b =~= ad);
        assert(ad.drop_last() =~= a);
        assert(split_on(a + seq![d] + b, d) =~= split_on(a, d) + split_on(b, d));
    } else {
        let b0 = b.drop_last();
        lemma_split_concat(a, b0, d);
        lemma_split_nonempty(b0, d);
        assert((ad + b).drop_last() =~= ad + b0);
        assert((ad + b).last() == b.last());
        assert(split_on(a + seq![d] + b, d) =~= split_on(a, d) + split_on(b, d));
    }
}

/// Joining pieces free of the delimiter and splitting again gives the pieces back.
pub proof fn lemma_split_join(parts: Seq<Seq<char>>, d: char)
    requires
        parts.len() >= 1,
        forall|i: int| 0 <= i < parts.len() ==> free_of(#[trigger] parts[i], d),
    ensures
        split_on(join_with(parts, seq![d]), d) == parts,
    decreases parts.len(),
{
    if parts.len() == 1 {
        lemma_split_free(parts[0], d);
        assert(seq![parts[0]] =~= parts);
    } else {
        let init = parts.drop_last();
        lemma_split_join(init, d);
        lemma_split_free(parts.last(), d);
        lemma_split_concat(join_with(init, seq![d]), parts.last(), d);
        assert(init + seq![parts.last()] =~= parts);
    }
}

/// The pieces of `s` between occurrences of `d`, as owned strings.
pub fn split_text(s: &str, d: char) -> (r: Vec<String>)
    ensures
        views(r@) == split_on(s@, d),
{
    let n = s.unicode_len();
    let mut pieces: Vec<String> = Vec::new();
    let mut start: usize = 0;
    let mut i: usize = 0;
    assert(s@.subrange(0, 0) =~= Seq::<char>::empty());
    assert(views(pieces@).push(s@.subrange(0, 0)) =~= seq![Seq::<char>::empty()]);
    while i < n
        invariant
            n == s@.len(),
            start <= i <= n,
            views(pieces@).push(s@.subrange(start as int, i as int)) == split_on(
                s@.subrange(0, i as int),
                d,
            ),
        decreases n - i,
    {
        let c = s.get_char(i);
        let ghost prefix = s@.subrange(0, i as int);
        let ghost cur = s@.subrange(start as int, i as int);
        assert(s@.subrange(0, i + 1).drop_last() =~= prefix);
        assert(s@.subrange(start as int, i + 1) =~= cur.push(c));
        if c == d {
            let piece = String::from_str(s.substring_char(start, i));
            pieces.push(piece);
            start = i + 1;
            assert(views(pieces@) =~= views(pieces@.drop_last()).push(cur));
            assert(s@.subrange(start as int, i + 1) =~= Seq::<char>::empty());
        }
        i = i + 1;
        assert(views(pieces@).push(s@.subrange(start as int, i as int)) =~= split_on(
            s@.subrange(0, i as int),
            d,
        ));
    }
    let last = String::from_str(s.substring_char(start, n));
    pieces.push(last);
    assert(s@.subrange(0, n as int) =~= s@);
    assert(views(pieces@) =~= views(pieces@.drop_last()).push(last@));
    pieces
}

/// The pieces written one after another with `sep` between neighbours.
pub fn join_text(parts: &Vec<String>, sep: &str) -> (r: String)
    ensures
        r@ == join_with(views(parts@), sep@),
{
    let mut out = String::new();
    let mut i: usize = 0;
    while i < parts.len()
        invariant
            i <= parts@.len(),
            out@ == join_with(views(parts@.subrange(0, i as int)), sep@),
        decreases parts@.len() - i,
    {
        let ghost before = views(parts@.subrange(0, i as int));
        if i > 0 {
            out.append(sep);
        }
        out.append(parts[i].as_str());
        i = i + 1;
        let ghost after = views(parts@.subrange(0, i as int));
        assert(after.drop_last() =~= before);
        assert(after.last() == parts@[i - 1]@);
        if i == 1 {
            assert(out@ =~= join_with(after, sep@));
        }
    }
    assert(parts@.subrange(0, parts@.len() as int) =~= parts@);
    out
}

/// An owned copy of each string, in order.
pub fn copy_strings(v: &Vec<String>) -> (r: Vec<String>)
    ensures
        r@ == v@,
{
    let mut out: Vec<String> = Vec::new();
    let mut i: usize = 0;
    while i < v.len()
        invariant
            i <= v@.len(),
            out@ == v@.subrange(0, i as int),
        decreases v@.len() - i,
    {
        out.push(v[i].clone());
        i = i + 1;
        assert(out@ =~= v@.subrange(0, i as int));
    }
    assert(out@ =~= v@);
    out
}

} // verus!

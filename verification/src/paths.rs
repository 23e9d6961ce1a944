//! A model of Unix paths held as strings.
//!
//! A path's components are the pieces between `/`, dropping empty pieces and
//! `.` pieces (a leading `.` of a relative path is kept), with `/` itself as
//! the first component of an absolute path. This is what `Path::components`
//! yields on Unix. Joining, prefix stripping, file names and parents are
//! defined over this model; a path whose text is normalized (no `//`, no `/./`,
//! no trailing `/`) prints back exactly as its components join.
use vstd::prelude::*;
use crate::text::{split_on, split_chars, chars_of, push_chars, string_from, lemma_split_on_nonempty};
use crate::model::chars_equal;

verus! {

pub open spec fn root_comp() -> Seq<char> {
    seq!['/']
}

pub open spec fn dot_comp() -> Seq<char> {
    seq!['.']
}

pub open spec fn dotdot_comp() -> Seq<char> {
    seq!['.', '.']
}

pub open spec fn is_absolute(p: Seq<char>) -> bool {
    p.len() > 0 && p[0] == '/'
}

pub open spec fn keep_piece(x: Seq<char>, i: int, abs: bool) -> bool {
    x.len() > 0 && (x != dot_comp() || (i == 0 && !abs))
}

pub open spec fn kept_pieces(pieces: Seq<Seq<char>>, abs: bool) -> Seq<Seq<char>>
    decreases pieces.len(),
{
    if pieces.len() == 0 {
        Seq::empty()
    } else {
        let r = kept_pieces(pieces.drop_last(), abs);
        if keep_piece(pieces.last(), pieces.len() - 1, abs) {
            r.push(pieces.last())
        } else {
            r
        }
    }
}

/// `Path::components` on Unix, each component as text.
pub open spec fn comps(p: Seq<char>) -> Seq<Seq<char>> {
    let abs = is_absolute(p);
    (if abs {
        seq![root_comp()]
    } else {
        Seq::empty()
    }) + kept_pieces(split_on(p, '/'), abs)
}

/// The components of a path.
pub fn components(p: &Vec<char>) -> (r: Vec<Vec<char>>)
    ensures
        r@.len() == comps(p@).len(),
        forall|i: int| 0 <= i < r@.len() ==> #[trigger] r@[i]@ == comps(p@)[i],
{
    let abs = p.len() > 0 && p[0] == '/';
    let pieces = split_chars(p, '/');
    let ghost sp = split_on(p@, '/');
    let mut r: Vec<Vec<char>> = Vec::new();
    if abs {
        r.push(vec!['/']);
    }
    let ghost head: Seq<Seq<char>> = if abs {
        seq![root_comp()]
    } else {
        Seq::empty()
    };
    assert(sp.take(0) == Seq::<Seq<char>>::empty());
    for i in 0..pieces.len()
        invariant
            pieces@.len() == sp.len(),
            forall|k: int| 0 <= k < pieces@.len() ==> #[trigger] pieces@[k]@ == sp[k],
            abs == is_absolute(p@),
            r@.len() == head.len() + kept_pieces(sp.take(i as int), abs).len(),
            forall|k: int| 0 <= k < r@.len() ==> #[trigger] r@[k]@ == (head + kept_pieces(sp.take(i as int), abs))[k],
    {
        assert(sp.take(i + 1).drop_last() == sp.take(i as int));
        assert(sp.take(i + 1).last() == sp[i as int]);
        let x = &pieces[i];
        let is_dot = x.len() == 1 && x[0] == '.';
        assert(is_dot == (x@ == dot_comp())) by {
            if x@.len() == 1 && x@[0] == '.' {
                assert(x@ =~= dot_comp());
            }
        }
        if x.len() > 0 && (!is_dot || (i == 0 && !abs)) {
            let c = x.clone();
            r.push(c);
        }
    }
    assert(sp.take(pieces.len() as int) == sp);
    r
}

/// Joins components back into path text.
pub open spec fn join_plain(cs: Seq<Seq<char>>) -> Seq<char>
    decreases cs.len(),
{
    if cs.len() == 0 {
        Seq::empty()
    } else if cs.len() == 1 {
        cs[0]
    } else {
        join_plain(cs.drop_last()) + seq!['/'] + cs.last()
    }
}

/// Path text of a component list (a leading root component prints as `/`).
pub open spec fn join_comps(cs: Seq<Seq<char>>) -> Seq<char> {
    if cs.len() > 0 && cs[0] == root_comp() {
        seq!['/'] + join_plain(cs.drop_first())
    } else {
        join_plain(cs)
    }
}

pub fn join_components(cs: &Vec<Vec<char>>) -> (r: Vec<char>)
    ensures
        r@ == join_comps(cs@.map_values(|c: Vec<char>| c@)),
{
    let ghost m = cs@.map_values(|c: Vec<char>| c@);
    let mut start: usize = 0;
    let mut r: Vec<char> = Vec::new();
    let rv = vec!['/'];
    assert(rv@ =~= root_comp());
    let rooted = cs.len() > 0 && chars_equal(&cs[0], &rv);
    if rooted {
        assert(m[0] == root_comp());
        start = 1;
        r.push('/');
    }
    let ghost head: Seq<char> = r@;
    let ghost rest = m.skip(start as int);
    assert(rooted == (m.len() > 0 && m[0] == root_comp()));
    assert(rooted ==> rest == m.drop_first());
    assert(!rooted ==> rest == m);
    let mut i: usize = start;
    assert(rest.take(0) == Seq::<Seq<char>>::empty());
    while i < cs.len()
        invariant
            start <= i <= cs.len(),
            m.len() == cs@.len(),
            forall|k: int| 0 <= k < cs@.len() ==> #[trigger] m[k] == cs@[k]@,
            rest == m.skip(start as int),
            r@ == head + join_plain(rest.take(i - start)),
        decreases cs.len() - i,
    {
        let ghost before = rest.take(i - start);
        assert(rest.take(i + 1 - start).drop_last() == before);
        assert(rest.take(i + 1 - start).last() == cs@[i as int]@);
        if i > start {
            r.push('/');
        }
        push_all(&mut r, &cs[i]);
        proof {
            if i == start {
                assert(rest.take(i + 1 - start).len() == 1);
                assert(before == Seq::<Seq<char>>::empty());
                assert(join_plain(before) == Seq::<char>::empty());
                assert(head + Seq::<char>::empty() + cs@[i as int]@ == head + join_plain(rest.take(i + 1 - start)));
            } else {
                assert(head + join_plain(before) + seq!['/'] + cs@[i as int]@ == head + (join_plain(before) + seq!['/'] + cs@[i as int]@));
            }
        }
        i = i + 1;
    }
    assert(rest.take(cs.len() - start) == rest);
    proof {
        if rooted {
            assert(head == seq!['/']);
        } else {
            assert(head == Seq::<char>::empty());
            assert(head + join_plain(rest) == join_plain(rest));
        }
    }
    r
}

/// Appends every character of `v` to `r`.
pub fn push_all(r: &mut Vec<char>, v: &Vec<char>)
    ensures
        final(r)@ == old(r)@ + v@,
{
    let ghost start = r@;
    for i in 0..v.len()
        invariant
            r@ == start + v@.take(i as int),
    {
        r.push(v[i]);
        assert(v@.take(i + 1) == v@.take(i as int).push(v@[i as int]));
    }
    assert(v@.take(v.len() as int) == v@);
}

/// `Path::strip_prefix`: the components after `base`, if `base`'s components
/// begin `p`'s.
pub open spec fn strip_comps(p: Seq<char>, base: Seq<char>) -> Option<Seq<Seq<char>>> {
    let a = comps(p);
    let b = comps(base);
    if b.len() <= a.len() && a.take(b.len() as int) == b {
        Some(a.skip(b.len() as int))
    } else {
        None
    }
}

/// `Path::starts_with`: `base`'s components begin `p`'s.
pub open spec fn path_starts_with(p: Seq<char>, base: Seq<char>) -> bool {
    strip_comps(p, base) is Some
}

/// The text of `p` relative to `base`, or `p` itself when `base` is not a
/// prefix (`p.strip_prefix(base).unwrap_or(p).display()`).
pub open spec fn relative_to(p: Seq<char>, base: Seq<char>) -> Seq<char> {
    match strip_comps(p, base) {
        Some(rest) => join_comps(rest),
        None => p,
    }
}

/// Whether the components of `b` begin the components list `a`.
fn comps_prefix(a: &Vec<Vec<char>>, b: &Vec<Vec<char>>) -> (r: bool)
    ensures
        r == (b@.len() <= a@.len() && a@.map_values(|c: Vec<char>| c@).take(b@.len() as int)
            == b@.map_values(|c: Vec<char>| c@)),
{
    let ghost ma = a@.map_values(|c: Vec<char>| c@);
    let ghost mb = b@.map_values(|c: Vec<char>| c@);
    if b.len() > a.len() {
        return false;
    }
    for i in 0..b.len()
        invariant
            b@.len() <= a@.len(),
            ma == a@.map_values(|c: Vec<char>| c@),
            mb == b@.map_values(|c: Vec<char>| c@),
            forall|k: int| 0 <= k < i ==> ma[k] == mb[k],
    {
        if !chars_equal(&a[i], &b[i]) {
            assert(ma.take(b@.len() as int)[i as int] != mb[i as int]);
            return false;
        }
    }
    assert(ma.take(b@.len() as int) =~= mb);
    true
}

pub proof fn lemma_map_comps(v: Seq<Vec<char>>, s: Seq<Seq<char>>)
    requires
        v.len() == s.len(),
        forall|i: int| 0 <= i < v.len() ==> #[trigger] v[i]@ == s[i],
    ensures
        v.map_values(|c: Vec<char>| c@) == s,
{
    assert(v.map_values(|c: Vec<char>| c@) =~= s);
}

/// `path.strip_prefix(base).unwrap_or(path).display()` as text.
pub fn relative_text(p: &Vec<char>, base: &Vec<char>) -> (r: Vec<char>)
    ensures
        r@ == relative_to(p@, base@),
{
    let a = components(p);
    let b = components(base);
    proof {
        lemma_map_comps(a@, comps(p@));
        lemma_map_comps(b@, comps(base@));
    }
    if comps_prefix(&a, &b) {
        let mut rest: Vec<Vec<char>> = Vec::new();
        let mut i = b.len();
        while i < a.len()
            invariant
                b@.len() <= i <= a@.len(),
                a@.len() == comps(p@).len(),
                forall|k: int| 0 <= k < a@.len() ==> #[trigger] a@[k]@ == comps(p@)[k],
                rest@.len() == i - b@.len(),
                forall|k: int| 0 <= k < rest@.len() ==> #[trigger] rest@[k]@ == comps(p@)[b@.len() + k],
            decreases a@.len() - i,
        {
            rest.push(a[i].clone());
            i = i + 1;
        }
        proof {
            lemma_map_comps(rest@, comps(p@).skip(b@.len() as int));
        }
        join_components(&rest)
    } else {
        p.clone()
    }
}

/// Whether `p` lies under `base` (`Path::starts_with`).
pub fn starts_with_path(p: &Vec<char>, base: &Vec<char>) -> (r: bool)
    ensures
        r == path_starts_with(p@, base@),
{
    let a = components(p);
    let b = components(base);
    proof {
        lemma_map_comps(a@, comps(p@));
        lemma_map_comps(b@, comps(base@));
    }
    comps_prefix(&a, &b)
}

/// A component that names a file or directory (not `/`, `.` or `..`).
pub open spec fn normal_comp(c: Seq<char>) -> bool {
    c != root_comp() && c != dot_comp() && c != dotdot_comp()
}

/// `Path::file_name`.
pub open spec fn file_name_of(p: Seq<char>) -> Option<Seq<char>> {
    let cs = comps(p);
    if cs.len() > 0 && normal_comp(cs.last()) {
        Some(cs.last())
    } else {
        None
    }
}

/// `Path::parent` followed by `Path::file_name`.
pub open spec fn parent_name_of(p: Seq<char>) -> Option<Seq<char>> {
    let cs = comps(p);
    if cs.len() >= 2 && normal_comp(cs[cs.len() - 2]) {
        Some(cs[cs.len() - 2])
    } else {
        None
    }
}

fn is_normal_comp(c: &Vec<char>) -> (r: bool)
    ensures
        r == normal_comp(c@),
{
    let rv = vec!['/'];
    let dv = vec!['.'];
    let ddv = vec!['.', '.'];
    assert(rv@ =~= root_comp());
    assert(dv@ =~= dot_comp());
    assert(ddv@ =~= dotdot_comp());
    let root = chars_equal(c, &rv);
    let dot = chars_equal(c, &dv);
    let dotdot = chars_equal(c, &ddv);
    !root && !dot && !dotdot
}

/// The file name of a path, if it has one.
pub fn file_name(p: &Vec<char>) -> (r: Option<Vec<char>>)
    ensures
        match r {
            Some(n) => file_name_of(p@) == Some(n@),
            None => file_name_of(p@) is None,
        },
{
    let cs = components(p);
    if cs.len() > 0 && is_normal_comp(&cs[cs.len() - 1]) {
        Some(cs[cs.len() - 1].clone())
    } else {
        None
    }
}

/// The name of a path's parent directory, if it has one.
pub fn parent_name(p: &Vec<char>) -> (r: Option<Vec<char>>)
    ensures
        match r {
            Some(n) => parent_name_of(p@) == Some(n@),
            None => parent_name_of(p@) is None,
        },
{
    let cs = components(p);
    if cs.len() >= 2 && is_normal_comp(&cs[cs.len() - 2]) {
        Some(cs[cs.len() - 2].clone())
    } else {
        None
    }
}

/// `PathBuf::join` on Unix: an absolute `rest` replaces `base`; otherwise a
/// `/` is inserted unless `base` is empty or already ends with one.
pub open spec fn join_path(base: Seq<char>, rest: Seq<char>) -> Seq<char> {
    if is_absolute(rest) {
        rest
    } else if base.len() == 0 || base.last() == '/' {
        base + rest
    } else {
        base + seq!['/'] + rest
    }
}

pub fn join(base: &str, rest: &str) -> (r: String)
    ensures
        r@ == join_path(base@, rest@),
{
    let b = chars_of(base);
    let x = chars_of(rest);
    if x.len() > 0 && x[0] == '/' {
        return string_from(&x);
    }
    let mut r = string_from(&b);
    if !(b.len() == 0 || b[b.len() - 1] == '/') {
        crate::text::push_char(&mut r, '/');
    }
    push_chars(&mut r, &x);
    r
}


/// Whether two paths are equal as `Path`s are: component by component, so
/// `/a/b/` equals `/a//b`.
pub fn same_path(a: &str, b: &str) -> (r: bool)
    ensures
        r == (comps(a@) == comps(b@)),
{
    let ca = components(&chars_of(a));
    let cb = components(&chars_of(b));
    if ca.len() != cb.len() {
        return false;
    }
    for i in 0..ca.len()
        invariant
            ca@.len() == cb@.len(),
            ca@.len() == comps(a@).len(),
            cb@.len() == comps(b@).len(),
            forall|k: int| 0 <= k < ca@.len() ==> #[trigger] ca@[k]@ == comps(a@)[k],
            forall|k: int| 0 <= k < cb@.len() ==> #[trigger] cb@[k]@ == comps(b@)[k],
            forall|k: int| 0 <= k < i ==> comps(a@)[k] == comps(b@)[k],
    {
        if !chars_equal(&ca[i], &cb[i]) {
            assert(comps(a@)[i as int] != comps(b@)[i as int]);
            return false;
        }
    }
    assert(comps(a@) =~= comps(b@));
    true
}

} // verus!

use vstd::prelude::*;
use crate::text::{chars_of, push_char};

verus! {

// A path is held as the sequence of its components, as `Path::components`
// yields them: `"/"` for the root, then the names, so that component-wise
// operations (prefix stripping, ordering, the first or last component)
// act as they do on a `Path`.

/// Lexicographic order of texts, character by character (code point order,
/// which is also the byte order of their UTF-8 encoding).
pub open spec fn text_lt(a: Seq<char>, b: Seq<char>) -> bool
    decreases a.len(),
{
    if a.len() == 0 {
        b.len() > 0
    } else if b.len() == 0 {
        false
    } else if a[0] != b[0] {
        (a[0] as int) < (b[0] as int)
    } else {
        text_lt(a.drop_first(), b.drop_first())
    }
}

/// Order of paths: component by component, each compared as text, a proper
/// prefix first (the order of `Path`).
pub open spec fn path_lt(a: Seq<Seq<char>>, b: Seq<Seq<char>>) -> bool
    decreases a.len(),
{
    if a.len() == 0 {
        b.len() > 0
    } else if b.len() == 0 {
        false
    } else if a[0] != b[0] {
        text_lt(a[0], b[0])
    } else {
        path_lt(a.drop_first(), b.drop_first())
    }
}

pub proof fn lemma_text_lt_irreflexive(a: Seq<char>)
    ensures
        !text_lt(a, a),
    decreases a.len(),
{
    if a.len() > 0 {
        lemma_text_lt_irreflexive(a.drop_first());
    }
}

pub proof fn lemma_text_lt_transitive(a: Seq<char>, b: Seq<char>, c: Seq<char>)
    requires
        text_lt(a, b),
        text_lt(b, c),
    ensures
        text_lt(a, c),
    decreases a.len(),
{
    if a.len() > 0 && b.len() > 0 && c.len() > 0 {
        if a[0] == b[0] && b[0] == c[0] {
            lemma_text_lt_transitive(a.drop_first(), b.drop_first(), c.drop_first());
        }
    }
}

pub proof fn lemma_text_lt_total(a: Seq<char>, b: Seq<char>)
    ensures
        a == b || text_lt(a, b) || text_lt(b, a),
    decreases a.len(),
{
    if a.len() > 0 && b.len() > 0 {
        if a[0] == b[0] {
            lemma_text_lt_total(a.drop_first(), b.drop_first());
            if a.drop_first() == b.drop_first() {
                assert(a =~= seq![a[0]] + a.drop_first());
                assert(b =~= seq![b[0]] + b.drop_first());
            }
        } else {
        }
    } else if a.len() == 0 && b.len() == 0 {
        assert(a =~= b);
    }
}

pub proof fn lemma_text_lt_asymmetric(a: Seq<char>, b: Seq<char>)
    ensures
        !(text_lt(a, b) && text_lt(b, a)),
{
    if text_lt(a, b) && text_lt(b, a) {
        lemma_text_lt_transitive(a, b, a);
        lemma_text_lt_irreflexive(a);
    }
}

/// `path_lt` is a strict order.
pub proof fn lemma_path_lt_irreflexive(a: Seq<Seq<char>>)
    ensures
        !path_lt(a, a),
    decreases a.len(),
{
    if a.len() > 0 {
        lemma_path_lt_irreflexive(a.drop_first());
    }
}

pub proof fn lemma_path_lt_transitive(a: Seq<Seq<char>>, b: Seq<Seq<char>>, c: Seq<Seq<char>>)
    requires
        path_lt(a, b),
        path_lt(b, c),
    ensures
        path_lt(a, c),
    decreases a.len(),
{
    if a.len() > 0 && b.len() > 0 && c.len() > 0 {
        if a[0] == b[0] && b[0] == c[0] {
            lemma_path_lt_transitive(a.drop_first(), b.drop_first(), c.drop_first());
        } else if a[0] == b[0] {
        } else if b[0] == c[0] {
        } else {
            lemma_text_lt_transitive(a[0], b[0], c[0]);
            if a[0] == c[0] {
                lemma_text_lt_asymmetric(a[0], b[0]);
            }
        }
    }
}

pub proof fn lemma_path_lt_total(a: Seq<Seq<char>>, b: Seq<Seq<char>>)
    ensures
        a == b || path_lt(a, b) || path_lt(b, a),
    decreases a.len(),
{
    if a.len() > 0 && b.len() > 0 {
        if a[0] == b[0] {
            lemma_path_lt_total(a.drop_first(), b.drop_first());
            if a.drop_first() == b.drop_first() {
                assert(a =~= seq![a[0]] + a.drop_first());
                assert(b =~= seq![b[0]] + b.drop_first());
            }
        } else {
            lemma_text_lt_total(a[0], b[0]);
        }
    } else if a.len() == 0 && b.len() == 0 {
        assert(a =~= b);
    }
}

pub proof fn lemma_path_lt_asymmetric(a: Seq<Seq<char>>, b: Seq<Seq<char>>)
    ensures
        !(path_lt(a, b) && path_lt(b, a)),
{
    if path_lt(a, b) && path_lt(b, a) {
        lemma_path_lt_transitive(a, b, a);
        lemma_path_lt_irreflexive(a);
    }
}

/// Compares two texts: negative, zero or positive as `a` comes before,
/// equals or comes after `b`.
pub fn compare_text(a: &str, b: &str) -> (r: i8)
    ensures
        r < 0 <==> text_lt(a@, b@),
        r == 0 <==> a@ == b@,
        r > 0 <==> text_lt(b@, a@),
{
    let x = chars_of(a);
    let y = chars_of(b);
    let mut i: usize = 0;
    assert(x@.skip(0) =~= x@);
    assert(y@.skip(0) =~= y@);
    while i < x.len() && i < y.len() && x[i] == y[i]
        invariant
            x@ == a@,
            y@ == b@,
            i <= x.len(),
            i <= y.len(),
            x@.take(i as int) == y@.take(i as int),
            text_lt(a@, b@) == text_lt(x@.skip(i as int), y@.skip(i as int)),
            text_lt(b@, a@) == text_lt(y@.skip(i as int), x@.skip(i as int)),
        decreases x.len() - i,
    {
        proof {
            assert(x@.skip(i as int).drop_first() =~= x@.skip(i + 1));
            assert(y@.skip(i as int).drop_first() =~= y@.skip(i + 1));
            assert(x@.take(i + 1) =~= x@.take(i as int).push(x@[i as int]));
            assert(y@.take(i + 1) =~= y@.take(i as int).push(y@[i as int]));
        }
        i = i + 1;
    }
    let xs = Ghost(x@.skip(i as int));
    let ys = Ghost(y@.skip(i as int));
    proof {
        lemma_text_lt_asymmetric(a@, b@);
        lemma_text_lt_irreflexive(a@);
    }
    if i == x.len() && i == y.len() {
        assert(x@ =~= x@.take(i as int));
        assert(y@ =~= y@.take(i as int));
        0
    } else if i == x.len() {
        assert(xs@.len() == 0 && ys@.len() > 0);
        -1
    } else if i == y.len() {
        assert(ys@.len() == 0 && xs@.len() > 0);
        1
    } else {
        assert(xs@[0] == x@[i as int] && ys@[0] == y@[i as int]);
        assert(x@[i as int] != y@[i as int]);
        assert(a@ != b@) by {
            if a@ == b@ {
                assert(x@[i as int] == y@[i as int]);
            }
        }
        if x[i] < y[i] {
            -1
        } else {
            1
        }
    }
}

/// Compares two paths in the order of `path_lt`.
pub fn compare_paths(a: &Vec<String>, b: &Vec<String>) -> (r: i8)
    ensures
        r < 0 <==> path_lt(a.deep_view(), b.deep_view()),
        r == 0 <==> a.deep_view() == b.deep_view(),
        r > 0 <==> path_lt(b.deep_view(), a.deep_view()),
{
    let ghost av = a.deep_view();
    let ghost bv = b.deep_view();
    let mut i: usize = 0;
    let mut c: i8 = 0;
    assert(av.skip(0) =~= av);
    assert(bv.skip(0) =~= bv);
    while i < a.len() && i < b.len() && c == 0
        invariant
            av == a.deep_view(),
            bv == b.deep_view(),
            i <= a.len(),
            i <= b.len(),
            av.take(i as int) == bv.take(i as int),
            path_lt(av, bv) == path_lt(av.skip(i as int), bv.skip(i as int)),
            path_lt(bv, av) == path_lt(bv.skip(i as int), av.skip(i as int)),
            c != 0 ==> i < a.len() && i < b.len(),
            c < 0 ==> text_lt(av[i as int], bv[i as int]),
            c > 0 ==> text_lt(bv[i as int], av[i as int]),
        decreases a.len() - i, (if c == 0 { 1int } else { 0int }),
    {
        let r = compare_text(a[i].as_str(), b[i].as_str());
        proof {
            assert(av[i as int] == a[i as int]@);
            assert(bv[i as int] == b[i as int]@);
        }
        if r == 0 {
            proof {
                assert(av.skip(i as int).drop_first() =~= av.skip(i + 1));
                assert(bv.skip(i as int).drop_first() =~= bv.skip(i + 1));
                assert(av.take(i + 1) =~= av.take(i as int).push(av[i as int]));
                assert(bv.take(i + 1) =~= bv.take(i as int).push(bv[i as int]));
            }
            i = i + 1;
        } else {
            c = r;
        }
    }
    proof {
        lemma_path_lt_asymmetric(av, bv);
        lemma_path_lt_irreflexive(av);
    }
    if c != 0 {
        assert(av.skip(i as int)[0] == av[i as int]);
        assert(bv.skip(i as int)[0] == bv[i as int]);
        proof {
            lemma_text_lt_irreflexive(av[i as int]);
        }
        assert(av != bv) by {
            if av == bv {
                assert(av[i as int] == bv[i as int]);
            }
        }
        c
    } else if i == a.len() && i == b.len() {
        assert(av =~= av.take(i as int));
        assert(bv =~= bv.take(i as int));
        0
    } else if i == a.len() {
        assert(av.skip(i as int).len() == 0);
        -1
    } else {
        assert(bv.skip(i as int).len() == 0);
        1
    }
}

/// The root component.
pub open spec fn root_component() -> Seq<char> {
    seq!['/']
}

/// The current-directory component.
pub open spec fn cur_dir_component() -> Seq<char> {
    seq!['.']
}

/// `Path::strip_prefix`: what is left of `path` after the components of
/// `base`, when `base` is a leading part of it.
pub open spec fn stripped(path: Seq<Seq<char>>, base: Seq<Seq<char>>) -> Option<Seq<Seq<char>>> {
    if base.len() <= path.len() && path.take(base.len() as int) == base {
        Some(path.skip(base.len() as int))
    } else {
        None
    }
}

/// Whether a path starts at the root.
pub open spec fn is_absolute(p: Seq<Seq<char>>) -> bool {
    p.len() > 0 && p[0] == root_component()
}

/// `base.join(p)`: an absolute `p` replaces `base`; otherwise the components
/// of `p` follow those of `base`, less a leading `.`.
pub open spec fn joined(base: Seq<Seq<char>>, p: Seq<Seq<char>>) -> Seq<Seq<char>> {
    if is_absolute(p) {
        p
    } else if p.len() > 0 && p[0] == cur_dir_component() {
        base + p.drop_first()
    } else {
        base + p
    }
}

/// Names joined by `/`.
pub open spec fn joined_names(p: Seq<Seq<char>>) -> Seq<char>
    decreases p.len(),
{
    if p.len() == 0 {
        Seq::empty()
    } else if p.len() == 1 {
        p[0]
    } else {
        joined_names(p.drop_last()) + seq!['/'] + p.last()
    }
}

/// The text of a path, as `Path::display` writes it.
pub open spec fn path_text(p: Seq<Seq<char>>) -> Seq<char> {
    if is_absolute(p) {
        seq!['/'] + joined_names(p.drop_first())
    } else {
        joined_names(p)
    }
}

/// The text of a path names every component, in order, each after a `/`
/// but the first of a relative path: one more name adds `/` and the name to
/// the text (so `deploy` then `Dockerfile` reads `deploy/Dockerfile`, and
/// the root then `srv` reads `/srv`).
pub proof fn lemma_path_text_appends(p: Seq<Seq<char>>, name: Seq<char>)
    ensures
        p.len() == 0 && name != root_component() ==> path_text(p.push(name)) == name,
        p.len() > 0 && !is_absolute(p) ==> path_text(p.push(name)) == path_text(p) + seq!['/']
            + name,
        is_absolute(p) && p.len() == 1 ==> path_text(p.push(name)) == seq!['/'] + name,
        is_absolute(p) && p.len() > 1 ==> path_text(p.push(name)) == path_text(p) + seq!['/']
            + name,
{
    let q = p.push(name);
    assert(q.drop_last() =~= p);
    if p.len() > 0 {
        assert(q[0] == p[0]);
    }
    if is_absolute(p) {
        assert(q.drop_first() =~= p.drop_first().push(name));
        assert(q.drop_first().drop_last() =~= p.drop_first());
        if p.len() == 1 {
            assert(q.drop_first() =~= seq![name]);
        } else {
            assert(path_text(q) =~= seq!['/'] + joined_names(p.drop_first()) + seq!['/'] + name);
        }
    }
}

/// Whether a text equals the given literal.
pub fn text_equals(s: &str, literal: &str) -> (r: bool)
    ensures
        r == (s@ == literal@),
{
    compare_text(s, literal) == 0
}

/// `Path::strip_prefix`.
pub fn strip_prefix(path: &Vec<String>, base: &Vec<String>) -> (r: Option<Vec<String>>)
    ensures
        match r {
            Some(rest) => stripped(path.deep_view(), base.deep_view()) == Some(rest.deep_view()),
            None => stripped(path.deep_view(), base.deep_view()) is None,
        },
{
    let ghost pv = path.deep_view();
    let ghost bv = base.deep_view();
    if base.len() > path.len() {
        return None;
    }
    let mut i: usize = 0;
    while i < base.len()
        invariant
            pv == path.deep_view(),
            bv == base.deep_view(),
            base.len() <= path.len(),
            i <= base.len(),
            pv.take(i as int) == bv.take(i as int),
        decreases base.len() - i,
    {
        if compare_text(path[i].as_str(), base[i].as_str()) != 0 {
            assert(pv[i as int] != bv[i as int]);
            assert(pv.take(bv.len() as int)[i as int] == pv[i as int]);
            return None;
        }
        assert(pv.take(i + 1) =~= pv.take(i as int).push(pv[i as int]));
        assert(bv.take(i + 1) =~= bv.take(i as int).push(bv[i as int]));
        i = i + 1;
    }
    assert(bv.take(bv.len() as int) =~= bv);
    let mut rest: Vec<String> = Vec::new();
    let mut j: usize = base.len();
    while j < path.len()
        invariant
            pv == path.deep_view(),
            base.len() <= j <= path.len(),
            rest.deep_view() == pv.subrange(base.len() as int, j as int),
        decreases path.len() - j,
    {
        let ghost before = rest.deep_view();
        rest.push(path[j].clone());
        assert(rest.deep_view() =~= before.push(pv[j as int]));
        assert(pv.subrange(base.len() as int, j + 1) =~= pv.subrange(base.len() as int, j as int).push(pv[j as int]));
        j = j + 1;
    }
    assert(pv.subrange(base.len() as int, path.len() as int) =~= pv.skip(base.len() as int));
    Some(rest)
}

/// Whether a path starts at the root.
pub fn path_is_absolute(p: &Vec<String>) -> (r: bool)
    ensures
        r == is_absolute(p.deep_view()),
{
    proof {
        reveal_strlit("/");
        assert("/"@ =~= root_component());
    }
    p.len() > 0 && text_equals(p[0].as_str(), "/")
}

/// The text of a path (`Path::display`).
pub fn path_to_text(p: &Vec<String>) -> (r: String)
    ensures
        r@ == path_text(p.deep_view()),
{
    let ghost pv = p.deep_view();
    let absolute = path_is_absolute(p);
    let start: usize = if absolute { 1 } else { 0 };
    let ghost names = if absolute { pv.drop_first() } else { pv };
    let mut out = String::new();
    if absolute {
        push_char(&mut out, '/');
    }
    let ghost lead: Seq<char> = out@;
    let mut i: usize = start;
    while i < p.len()
        invariant
            pv == p.deep_view(),
            start <= i <= p.len(),
            names == pv.skip(start as int),
            out@ == lead + joined_names(names.take(i - start)),
        decreases p.len() - i,
    {
        let ghost k = i - start;
        let ghost before = names.take(k);
        let ghost after = names.take(k + 1);
        assert(after.drop_last() =~= before);
        assert(after.last() == p[i as int]@);
        if i > start {
            push_char(&mut out, '/');
        }
        out.append(p[i].as_str());
        proof {
            if k == 0 {
                assert(before =~= Seq::<Seq<char>>::empty());
            }
        }
        assert(out@ =~= lead + joined_names(after));
        i = i + 1;
    }
    assert(names.take(p.len() - start) =~= names);
    assert(pv.skip(0) =~= pv);
    out
}

/// `base.join(p)`.
pub fn join_path(base: &Vec<String>, p: &Vec<String>) -> (r: Vec<String>)
    ensures
        r.deep_view() == joined(base.deep_view(), p.deep_view()),
{
    if path_is_absolute(p) {
        return p.clone();
    }
    proof {
        reveal_strlit(".");
        assert("."@ =~= cur_dir_component());
    }
    let skip_first = p.len() > 0 && text_equals(p[0].as_str(), ".");
    let mut out: Vec<String> = base.clone();
    let mut i: usize = if skip_first { 1 } else { 0 };
    let ghost tail = if skip_first { p.deep_view().drop_first() } else { p.deep_view() };
    let ghost s = i;
    while i < p.len()
        invariant
            s <= i <= p.len(),
            tail == p.deep_view().skip(s as int),
            out.deep_view() == base.deep_view() + tail.take(i - s),
        decreases p.len() - i,
    {
        let ghost before = out.deep_view();
        out.push(p[i].clone());
        assert(out.deep_view() =~= before.push(p.deep_view()[i as int]));
        assert(tail.take(i + 1 - s) =~= tail.take(i - s).push(p.deep_view()[i as int]));
        assert(out.deep_view() =~= base.deep_view() + tail.take(i + 1 - s));
        i = i + 1;
    }
    assert(tail.take(p.len() - s) =~= tail);
    assert(p.deep_view().skip(0) =~= p.deep_view());
    out
}

} // verus!

use vstd::prelude::*;

verus! {

/// Appends one character to a string (`String::push`): the new contents are
/// the old contents followed by `c`.
#[verifier::external_body]
pub(crate) fn push_char(s: &mut String, c: char)
    ensures
        final(s)@ == old(s)@.push(c),
{
    s.push(c);
}

/// The characters of a string, in order.
pub fn chars_of(s: &str) -> (v: Vec<char>)
    ensures
        v@ == s@,
{
    let mut v: Vec<char> = Vec::new();
    for c in it: s.chars()
        invariant
            v@ == it.seq().take(it.index()),
    {
        v.push(c);
    }
    v
}

/// The string made of the given characters, in order.
pub fn string_of(v: &Vec<char>) -> (s: String)
    ensures
        s@ == v@,
{
    let mut s = String::new();
    for i in 0..v.len()
        invariant
            s@ == v@.take(i as int),
    {
        push_char(&mut s, v[i]);
        assert(v@.take(i + 1) == v@.take(i as int).push(v@[i as int]));
    }
    assert(v@.take(v.len() as int) == v@);
    s
}

/// The characters `v[from..to]`.
pub fn char_range(v: &Vec<char>, from: usize, to: usize) -> (r: Vec<char>)
    requires
        from <= to <= v.len(),
    ensures
        r@ == v@.subrange(from as int, to as int),
{
    let mut r: Vec<char> = Vec::new();
    let mut i = from;
    while i < to
        invariant
            from <= i <= to <= v.len(),
            r@ == v@.subrange(from as int, i as int),
        decreases to - i,
    {
        r.push(v[i]);
        assert(r@ =~= v@.subrange(from as int, i + 1));
        i = i + 1;
    }
    r
}

/// Whether a character is white space within a line.
pub open spec fn is_blank_char(c: char) -> bool {
    c == ' ' || c == '\t' || c == '\r'
}

/// A text without its leading white space.
pub open spec fn trim_start(s: Seq<char>) -> Seq<char>
    decreases s.len(),
{
    if s.len() > 0 && is_blank_char(s[0]) {
        trim_start(s.drop_first())
    } else {
        s
    }
}

/// A text without its trailing white space.
pub open spec fn trim_end(s: Seq<char>) -> Seq<char>
    decreases s.len(),
{
    if s.len() > 0 && is_blank_char(s.last()) {
        trim_end(s.drop_last())
    } else {
        s
    }
}

/// A text without white space at either end.
pub open spec fn trimmed(s: Seq<char>) -> Seq<char> {
    trim_end(trim_start(s))
}

/// A text without white space at either end.
pub fn trim(v: &Vec<char>) -> (r: Vec<char>)
    ensures
        r@ == trimmed(v@),
{
    let mut a: usize = 0;
    assert(v@.skip(0) =~= v@);
    while a < v.len() && is_blank(v[a])
        invariant
            a <= v.len(),
            trim_start(v@) == trim_start(v@.skip(a as int)),
        decreases v.len() - a,
    {
        assert(v@.skip(a as int).drop_first() =~= v@.skip(a + 1));
        a = a + 1;
    }
    let ghost t = v@.skip(a as int);
    assert(trim_start(v@) == t);
    let mut b: usize = v.len();
    assert(t.take(t.len() as int) =~= t);
    while b > a && is_blank(v[b - 1])
        invariant
            a <= b <= v.len(),
            t == v@.skip(a as int),
            trim_end(t) == trim_end(t.take(b - a)),
        decreases b,
    {
        assert(t.take(b - a).drop_last() =~= t.take(b - 1 - a));
        assert(t.take(b - a).last() == v@[b - 1]);
        b = b - 1;
    }
    assert(t.take(b - a) =~= v@.subrange(a as int, b as int));
    char_range(v, a, b)
}

/// Whether a character is white space within a line.
pub fn is_blank(c: char) -> (r: bool)
    ensures
        r == is_blank_char(c),
{
    c == ' ' || c == '\t' || c == '\r'
}

/// The number of spaces a line starts with.
pub open spec fn indent_of(s: Seq<char>) -> nat
    decreases s.len(),
{
    if s.len() > 0 && s[0] == ' ' {
        1 + indent_of(s.drop_first())
    } else {
        0
    }
}

/// The number of spaces a line starts with.
pub fn leading_spaces(v: &Vec<char>) -> (r: usize)
    ensures
        r == indent_of(v@),
        r <= v.len(),
{
    let mut i: usize = 0;
    assert(v@.skip(0) =~= v@);
    while i < v.len() && v[i] == ' '
        invariant
            i <= v.len(),
            indent_of(v@) == i + indent_of(v@.skip(i as int)),
        decreases v.len() - i,
    {
        assert(v@.skip(i as int).drop_first() =~= v@.skip(i + 1));
        i = i + 1;
    }
    i
}

/// Where `c` first occurs in `s`, if it does.
pub open spec fn first_index_of(s: Seq<char>, c: char) -> Option<nat>
    decreases s.len(),
{
    if s.len() == 0 {
        None
    } else if s[0] == c {
        Some(0)
    } else {
        match first_index_of(s.drop_first(), c) {
            Some(i) => Some(i + 1),
            None => None,
        }
    }
}

pub proof fn lemma_first_index_of_skip(s: Seq<char>, c: char, i: int)
    requires
        0 <= i <= s.len(),
        forall|k: int| 0 <= k < i ==> s[k] != c,
    ensures
        first_index_of(s, c) == match first_index_of(s.skip(i), c) {
            Some(j) => Some((j + i) as nat),
            None => None::<nat>,
        },
    decreases i,
{
    if i == 0 {
        assert(s.skip(0) =~= s);
        match first_index_of(s, c) {
            Some(j) => {},
            None => {},
        }
    } else {
        lemma_first_index_of_skip(s.drop_first(), c, i - 1);
        assert(s.drop_first().skip(i - 1) =~= s.skip(i));
    }
}

/// Where `c` first occurs in `v`, if it does.
pub fn find_char(v: &Vec<char>, c: char) -> (r: Option<usize>)
    ensures
        match r {
            Some(i) => first_index_of(v@, c) == Some(i as nat) && i < v.len(),
            None => first_index_of(v@, c) is None,
        },
{
    for i in 0..v.len()
        invariant
            forall|k: int| 0 <= k < i ==> v@[k] != c,
    {
        if v[i] == c {
            proof {
                lemma_first_index_of_skip(v@, c, i as int);
            }
            return Some(i);
        }
    }
    proof {
        lemma_first_index_of_skip(v@, c, v.len() as int);
    }
    None
}

/// Whether the characters of `v` spell `literal`.
pub fn chars_equal(v: &Vec<char>, literal: &str) -> (r: bool)
    ensures
        r == (v@ == literal@),
{
    let l = chars_of(literal);
    if l.len() != v.len() {
        return false;
    }
    for i in 0..v.len()
        invariant
            l@ == literal@,
            l.len() == v.len(),
            forall|k: int| 0 <= k < i ==> v@[k] == l@[k],
    {
        if v[i] != l[i] {
            return false;
        }
    }
    assert(v@ =~= l@);
    true
}

/// `s` cut at each line feed (`str::split('\n')`): one more piece than
/// line feeds.
pub open spec fn split_lines(s: Seq<char>) -> Seq<Seq<char>>
    decreases s.len(),
{
    if s.len() == 0 {
        seq![Seq::empty()]
    } else {
        let prev = split_lines(s.drop_last());
        if s.last() == '\n' {
            prev.push(Seq::empty())
        } else {
            prev.update(prev.len() - 1, prev.last().push(s.last()))
        }
    }
}

proof fn lemma_split_lines_nonempty(s: Seq<char>)
    ensures
        split_lines(s).len() >= 1,
    decreases s.len(),
{
    if s.len() > 0 {
        lemma_split_lines_nonempty(s.drop_last());
    }
}

/// A text without a line feed is one line.
pub proof fn lemma_split_lines_single(s: Seq<char>)
    requires
        forall|i: int| 0 <= i < s.len() ==> s[i] != '\n',
    ensures
        split_lines(s) == seq![s],
    decreases s.len(),
{
    if s.len() == 0 {
        assert(s =~= Seq::<char>::empty());
    } else {
        lemma_split_lines_single(s.drop_last());
        assert(s.drop_last().push(s.last()) =~= s);
        assert(seq![s.drop_last()].update(0, s.drop_last().push(s.last())) =~= seq![s]);
    }
}

/// The lines of two texts joined by a line feed are the lines of the first
/// followed by those of the second.
pub proof fn lemma_split_lines_join(a: Seq<char>, b: Seq<char>)
    ensures
        split_lines(a + seq!['\n'] + b) == split_lines(a) + split_lines(b),
    decreases b.len(),
{
    let s = a + seq!['\n'] + b;
    if b.len() == 0 {
        assert(s.drop_last() =~= a);
        assert(split_lines(a) + split_lines(b) =~= split_lines(a).push(Seq::empty()));
    } else {
        assert(s.drop_last() =~= a + seq!['\n'] + b.drop_last());
        lemma_split_lines_join(a, b.drop_last());
        lemma_split_lines_nonempty(b.drop_last());
        let p = split_lines(a);
        let q = split_lines(b.drop_last());
        if b.last() == '\n' {
            assert(p + q.push(Seq::empty()) =~= (p + q).push(Seq::empty()));
        } else {
            assert((p + q).last() == q.last());
            assert(p + q.update(q.len() - 1, q.last().push(b.last())) =~= (p + q).update(
                (p + q).len() - 1,
                (p + q).last().push(b.last()),
            ));
        }
    }
}

/// `s` cut at each line feed.
pub fn lines_of(v: &Vec<char>) -> (r: Vec<Vec<char>>)
    ensures
        r.deep_view() == split_lines(v@),
{
    let mut lines: Vec<Vec<char>> = Vec::new();
    let mut cur: Vec<char> = Vec::new();
    for i in 0..v.len()
        invariant
            split_lines(v@.take(i as int)) == lines.deep_view().push(cur@),
    {
        proof {
            assert(v@.take(i + 1).drop_last() =~= v@.take(i as int));
            assert(v@.take(i + 1).last() == v@[i as int]);
            lemma_split_lines_nonempty(v@.take(i as int));
        }
        if v[i] == '\n' {
            let ghost before = lines.deep_view();
            let done = cur;
            assert(done.deep_view() =~= done@);
            cur = Vec::new();
            lines.push(done);
            assert(lines.deep_view() =~= before.push(done@));
            assert(lines.deep_view().push(cur@) =~= before.push(done@).push(Seq::empty()));
        } else {
            let ghost before = cur@;
            cur.push(v[i]);
            assert(lines.deep_view().push(cur@) =~= lines.deep_view().push(before).update(
                lines.deep_view().len() as int,
                before.push(v@[i as int]),
            ));
        }
    }
    assert(v@.take(v.len() as int) =~= v@);
    assert(v@.take(0) =~= Seq::<char>::empty());
    assert(lines.deep_view().push(cur@) == split_lines(v@));
    let ghost before = lines.deep_view();
    assert(cur.deep_view() =~= cur@);
    lines.push(cur);
    assert(lines.deep_view() =~= before.push(cur@));
    lines
}

/// The deep view of a vector of characters is its view.
pub proof fn lemma_chars_deep_view(v: Vec<char>)
    ensures
        v.deep_view() == v@,
{
    assert(v.deep_view() =~= v@);
}

/// Texts joined by a separator.
pub open spec fn joined_with(items: Seq<Seq<char>>, sep: Seq<char>) -> Seq<char>
    decreases items.len(),
{
    if items.len() == 0 {
        Seq::empty()
    } else if items.len() == 1 {
        items[0]
    } else {
        joined_with(items.drop_last(), sep) + sep + items.last()
    }
}

/// Texts joined by a separator (`[..].join(sep)`).
pub fn join_texts(items: &Vec<String>, sep: &str) -> (r: String)
    ensures
        r@ == joined_with(items.deep_view(), sep@),
{
    let ghost iv = items.deep_view();
    let mut out = String::new();
    for i in 0..items.len()
        invariant
            iv == items.deep_view(),
            out@ == joined_with(iv.take(i as int), sep@),
    {
        let ghost before = iv.take(i as int);
        let ghost after = iv.take(i + 1);
        assert(after.drop_last() =~= before);
        assert(after.last() == items@[i as int]@);
        if i > 0 {
            out.append(sep);
        } else {
            assert(before =~= Seq::<Seq<char>>::empty());
        }
        out.append(items[i].as_str());
        assert(out@ =~= joined_with(after, sep@));
    }
    assert(iv.take(items.len() as int) =~= iv);
    out
}

/// The digit for a number below ten.
pub open spec fn digit_char(d: nat) -> char {
    if d == 0 {
        '0'
    } else if d == 1 {
        '1'
    } else if d == 2 {
        '2'
    } else if d == 3 {
        '3'
    } else if d == 4 {
        '4'
    } else if d == 5 {
        '5'
    } else if d == 6 {
        '6'
    } else if d == 7 {
        '7'
    } else if d == 8 {
        '8'
    } else {
        '9'
    }
}

/// A number written in decimal, without leading zeros.
pub open spec fn decimal(n: nat) -> Seq<char>
    decreases n,
{
    if n < 10 {
        seq![digit_char(n)]
    } else {
        decimal(n / 10).push(digit_char(n % 10))
    }
}

fn digit(d: u64) -> (c: char)
    requires
        d < 10,
    ensures
        c == digit_char(d as nat),
{
    if d == 0 {
        '0'
    } else if d == 1 {
        '1'
    } else if d == 2 {
        '2'
    } else if d == 3 {
        '3'
    } else if d == 4 {
        '4'
    } else if d == 5 {
        '5'
    } else if d == 6 {
        '6'
    } else if d == 7 {
        '7'
    } else if d == 8 {
        '8'
    } else {
        '9'
    }
}

/// Appends a number written in decimal.
pub fn push_decimal(out: &mut String, n: u64)
    ensures
        final(out)@ == old(out)@ + decimal(n as nat),
    decreases n,
{
    if n >= 10 {
        push_decimal(out, n / 10);
    }
    push_char(out, digit(n % 10));
}

/// A text made of a fixed opening and a detail.
pub fn prefixed(prefix: &str, detail: &str) -> (r: String)
    ensures
        r@ == prefix@ + detail@,
{
    let mut r = prefix.to_owned();
    r.append(detail);
    r
}

/// A signed number written in decimal, with `-` in front of a negative one.
pub open spec fn signed_decimal(n: int) -> Seq<char> {
    if n < 0 {
        seq!['-'] + decimal((-n) as nat)
    } else {
        decimal(n as nat)
    }
}

/// Appends a signed number written in decimal.
pub fn push_signed_decimal(out: &mut String, n: i32)
    ensures
        final(out)@ == old(out)@ + signed_decimal(n as int),
{
    if n < 0 {
        push_char(out, '-');
        let magnitude: i64 = -(n as i64);
        push_decimal(out, magnitude as u64);
        assert(final(out)@ =~= old(out)@ + signed_decimal(n as int));
    } else {
        push_decimal(out, n as u64);
    }
}

} // verus!

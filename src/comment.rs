//! Javadoc comment bodies turned into AsciiDoc text.
use vstd::prelude::*;

use crate::text::{
    chars_of, first_index, is_white_space, is_white_space_char, lemma_first_index,
    lemma_first_index_at, push_char, push_chars, starts_with,
};

verus! {

/// `s` without its leading white space.
pub open spec fn trim_start(s: Seq<char>) -> Seq<char>
    decreases s.len(),
{
    if s.len() > 0 && is_white_space(s[0]) {
        trim_start(s.drop_first())
    } else {
        s
    }
}

/// `s` without its trailing white space.
pub open spec fn trim_end(s: Seq<char>) -> Seq<char>
    decreases s.len(),
{
    if s.len() > 0 && is_white_space(s.last()) {
        trim_end(s.drop_last())
    } else {
        s
    }
}

/// `s` without white space at either end.
pub open spec fn trim(s: Seq<char>) -> Seq<char> {
    trim_end(trim_start(s))
}

/// `s` with every `<p>` taken out, scanning from the left.
pub open spec fn without_paragraph_marks(s: Seq<char>) -> Seq<char>
    decreases s.len(),
{
    if s.len() == 0 {
        s
    } else if starts_with(s, seq!['<', 'p', '>']) {
        without_paragraph_marks(s.subrange(3, s.len() as int))
    } else {
        seq![s[0]] + without_paragraph_marks(s.drop_first())
    }
}

/// A line without the comment decoration it begins with (`/**`, `*/` or `*`), and without
/// the white space after it.
pub open spec fn strip_decoration(s: Seq<char>) -> Seq<char> {
    if starts_with(s, seq!['/', '*', '*']) {
        trim_start(s.subrange(3, s.len() as int))
    } else if starts_with(s, seq!['*', '/']) {
        trim_start(s.subrange(2, s.len() as int))
    } else if starts_with(s, seq!['*']) {
        trim_start(s.subrange(1, s.len() as int))
    } else {
        s
    }
}

/// A line that begins with a tag (`@name rest`) as an AsciiDoc labeled-list entry
/// (`name:: rest`); a bare tag loses its `@` only; any other line is kept.
pub open spec fn tag_to_label(s: Seq<char>) -> Seq<char> {
    if s.len() > 0 && s[0] == '@' {
        let t = s.drop_first();
        match first_index(t, ' ') {
            Some(k) => t.subrange(0, k) + seq![':', ':'] + t.subrange(k, t.len() as int),
            None => t,
        }
    } else {
        s
    }
}

/// One line of a comment as it appears in the AsciiDoc output.
pub open spec fn adoc_line(line: Seq<char>) -> Seq<char> {
    tag_to_label(strip_decoration(without_paragraph_marks(trim(line))))
}

/// The AsciiDoc text of a comment: its lines (split at `\n`, a final empty line dropped), each
/// turned by `adoc_line`, joined with `\n`.
pub open spec fn adoc_text(s: Seq<char>) -> Seq<char>
    decreases s.len(),
    via adoc_text_decreases
{
    if s.len() == 0 {
        Seq::empty()
    } else {
        match first_index(s, '\n') {
            None => adoc_line(s),
            Some(k) => if k + 1 == s.len() {
                adoc_line(s.subrange(0, k))
            } else {
                adoc_line(s.subrange(0, k)) + seq!['\n'] + adoc_text(
                    s.subrange(k + 1, s.len() as int),
                )
            },
        }
    }
}

#[via_fn]
proof fn adoc_text_decreases(s: Seq<char>) {
    lemma_first_index(s, '\n');
}

/// A line that the renderer keeps as it is: no white space at either end, no `<p>`, and no
/// leading `*`, `/**` or `@`.
pub open spec fn is_plain_line(l: Seq<char>) -> bool {
    &&& (l.len() > 0 ==> !is_white_space(l[0]) && !is_white_space(l.last()))
    &&& forall|i: int|
        0 <= i && i + 3 <= l.len() ==> !(#[trigger] l[i] == '<' && l[i + 1] == 'p' && l[i + 2]
            == '>')
    &&& !starts_with(l, seq!['/', '*', '*'])
    &&& !(l.len() > 0 && (l[0] == '*' || l[0] == '@'))
}

/// Every line of `s` (each maximal run without `\n`) is plain.
pub open spec fn is_plain_text(s: Seq<char>) -> bool {
    forall|a: int, b: int|
        0 <= a <= b <= s.len() && (a == 0 || s[a - 1] == '\n') && (b == s.len() || s[b] == '\n')
            && (forall|k: int| a <= k < b ==> s[k] != '\n') ==> is_plain_line(
            #[trigger] s.subrange(a, b),
        )
}

/// Text without `<p>` comes through `without_paragraph_marks` unchanged.
proof fn lemma_no_marks_kept(l: Seq<char>)
    requires
        forall|i: int|
            0 <= i && i + 3 <= l.len() ==> !(#[trigger] l[i] == '<' && l[i + 1] == 'p' && l[i
                + 2] == '>'),
    ensures
        without_paragraph_marks(l) == l,
    decreases l.len(),
{
    if l.len() > 0 {
        assert(!starts_with(l, seq!['<', 'p', '>'])) by {
            if starts_with(l, seq!['<', 'p', '>']) {
                assert(l.subrange(0, 3)[0] == l[0]);
                assert(l.subrange(0, 3)[1] == l[1]);
                assert(l.subrange(0, 3)[2] == l[2]);
            }
        }
        let t = l.drop_first();
        assert forall|i: int|
            0 <= i && i + 3 <= t.len() implies !(#[trigger] t[i] == '<' && t[i + 1] == 'p' && t[i
            + 2] == '>') by {
            assert(t[i] == l[i + 1]);
            assert(t[i + 1] == l[i + 2]);
            assert(t[i + 2] == l[i + 3]);
        }
        lemma_no_marks_kept(t);
        assert(seq![l[0]] + t == l);
    }
}

/// A plain line comes through `adoc_line` unchanged.
proof fn lemma_plain_line_kept(l: Seq<char>)
    requires
        is_plain_line(l),
    ensures
        adoc_line(l) == l,
{
    assert(trim_start(l) == l);
    assert(trim_end(l) == l);
    lemma_no_marks_kept(l);
    assert(!starts_with(l, seq!['*', '/'])) by {
        if starts_with(l, seq!['*', '/']) {
            assert(l.subrange(0, 2)[0] == l[0]);
        }
    }
    assert(!starts_with(l, seq!['*'])) by {
        if starts_with(l, seq!['*']) {
            assert(l.subrange(0, 1)[0] == l[0]);
        }
    }
}

/// `s` without its one final newline, if it ends in one.
pub open spec fn without_final_newline(s: Seq<char>) -> Seq<char> {
    if s.len() > 0 && s.last() == '\n' {
        s.drop_last()
    } else {
        s
    }
}

/// Rendering a comment body that is already free of decoration, `<p>` and tags gives the
/// body back, apart from one final newline that the line split drops; the rendered comment,
/// which ends in a newline, is then the body ending in exactly that newline.
pub proof fn lemma_plain_text_unchanged(s: Seq<char>)
    requires
        is_plain_text(s),
    ensures
        adoc_text(s) == without_final_newline(s),
        adoc_text(s).push('\n') == without_final_newline(s).push('\n'),
    decreases s.len(),
{
    lemma_first_index(s, '\n');
    if s.len() > 0 {
        match first_index(s, '\n') {
            None => {
                assert(s.subrange(0, s.len() as int) == s);
                lemma_plain_line_kept(s);
            },
            Some(k) => {
                lemma_plain_line_kept(s.subrange(0, k));
                if k + 1 == s.len() {
                    assert(s.subrange(0, k) == s.drop_last());
                } else {
                    let rest = s.subrange(k + 1, s.len() as int);
                    assert forall|a: int, b: int|
                        0 <= a <= b <= rest.len() && (a == 0 || rest[a - 1] == '\n') && (b
                            == rest.len() || rest[b] == '\n') && (forall|j: int|
                            a <= j < b ==> rest[j] != '\n') implies is_plain_line(
                        #[trigger] rest.subrange(a, b),
                    ) by {
                        assert(rest.subrange(a, b) == s.subrange(a + k + 1, b + k + 1));
                        assert forall|j: int| a + k + 1 <= j < b + k + 1 implies s[j] != '\n' by {
                            assert(s[j] == rest[j - k - 1]);
                        }
                        if a > 0 {
                            assert(s[a + k] == rest[a - 1]);
                        }
                        if b < rest.len() {
                            assert(s[b + k + 1] == rest[b]);
                        }
                    }
                    assert(rest.last() == s.last());
                    lemma_plain_text_unchanged(rest);
                    assert(s.subrange(0, k) + seq!['\n'] + rest == s);
                    if s.last() == '\n' {
                        assert(s.subrange(0, k) + seq!['\n'] + rest.drop_last() == s.drop_last());
                    }
                }
            },
        }
    }
}

/// Bounds `(a, b)` with `v[a..b]` the trimmed `v[lo..hi]`.
fn trim_bounds(v: &Vec<char>, lo: usize, hi: usize) -> (r: (usize, usize))
    requires
        lo <= hi <= v@.len(),
    ensures
        lo <= r.0 <= r.1 <= hi,
        v@.subrange(r.0 as int, r.1 as int) == trim(v@.subrange(lo as int, hi as int)),
{
    let mut a: usize = lo;
    while a < hi && is_white_space_char(v[a])
        invariant
            lo <= a <= hi <= v@.len(),
            trim_start(v@.subrange(lo as int, hi as int)) == trim_start(
                v@.subrange(a as int, hi as int),
            ),
        decreases hi - a,
    {
        assert(v@.subrange(a as int, hi as int).drop_first() == v@.subrange(a + 1, hi as int));
        a = a + 1;
    }
    let mut b: usize = hi;
    while b > a && is_white_space_char(v[b - 1])
        invariant
            lo <= a <= b <= hi <= v@.len(),
            trim_end(v@.subrange(a as int, hi as int)) == trim_end(
                v@.subrange(a as int, b as int),
            ),
        decreases b - a,
    {
        assert(v@.subrange(a as int, b as int).drop_last() == v@.subrange(a as int, b - 1));
        b = b - 1;
    }
    (a, b)
}

/// `v[lo..hi]` with every `<p>` taken out.
fn remove_paragraph_marks(v: &Vec<char>, lo: usize, hi: usize) -> (r: Vec<char>)
    requires
        lo <= hi <= v@.len(),
    ensures
        r@ == without_paragraph_marks(v@.subrange(lo as int, hi as int)),
{
    let mut out: Vec<char> = Vec::new();
    let mut i: usize = lo;
    while i < hi
        invariant
            lo <= i <= hi <= v@.len(),
            out@ + without_paragraph_marks(v@.subrange(i as int, hi as int))
                == without_paragraph_marks(v@.subrange(lo as int, hi as int)),
        decreases hi - i,
    {
        let ghost rest = v@.subrange(i as int, hi as int);
        if hi - i >= 3 && v[i] == '<' && v[i + 1] == 'p' && v[i + 2] == '>' {
            assert(rest.subrange(0, 3) == seq!['<', 'p', '>']);
            assert(rest.subrange(3, rest.len() as int) == v@.subrange(i + 3, hi as int));
            i = i + 3;
        } else {
            assert(!starts_with(rest, seq!['<', 'p', '>'])) by {
                if rest.len() >= 3 && rest.subrange(0, 3) == seq!['<', 'p', '>'] {
                    assert(rest.subrange(0, 3)[0] == v@[i as int]);
                    assert(rest.subrange(0, 3)[1] == v@[i + 1]);
                    assert(rest.subrange(0, 3)[2] == v@[i + 2]);
                }
            }
            assert(rest.drop_first() == v@.subrange(i + 1, hi as int));
            let ghost before = out@;
            out.push(v[i]);
            assert(out@ == before + seq![v@[i as int]]);
            assert(out@ + without_paragraph_marks(v@.subrange(i + 1, hi as int)) == before
                + without_paragraph_marks(rest));
            i = i + 1;
        }
    }
    assert(v@.subrange(hi as int, hi as int) == Seq::<char>::empty());
    assert(out@ + Seq::<char>::empty() == out@);
    out
}

/// The first index of `u` that is not white space, from `start` on.
fn skip_white_space(u: &Vec<char>, start: usize) -> (r: usize)
    requires
        start <= u@.len(),
    ensures
        start <= r <= u@.len(),
        u@.subrange(r as int, u@.len() as int) == trim_start(
            u@.subrange(start as int, u@.len() as int),
        ),
{
    let n = u.len();
    let mut a: usize = start;
    while a < n && is_white_space_char(u[a])
        invariant
            start <= a <= n == u@.len(),
            trim_start(u@.subrange(start as int, n as int)) == trim_start(
                u@.subrange(a as int, n as int),
            ),
        decreases n - a,
    {
        assert(u@.subrange(a as int, n as int).drop_first() == u@.subrange(a + 1, n as int));
        a = a + 1;
    }
    a
}

/// Where the text of `u` begins once its decoration is stripped.
fn decoration_end(u: &Vec<char>) -> (r: usize)
    ensures
        r <= u@.len(),
        u@.subrange(r as int, u@.len() as int) == strip_decoration(u@),
{
    let n = u.len();
    let ghost s = u@;
    if n >= 3 && u[0] == '/' && u[1] == '*' && u[2] == '*' {
        assert(s.subrange(0, 3) == seq!['/', '*', '*']);
        skip_white_space(u, 3)
    } else if n >= 2 && u[0] == '*' && u[1] == '/' {
        assert(s.subrange(0, 2) == seq!['*', '/']);
        assert(!starts_with(s, seq!['/', '*', '*'])) by {
            if starts_with(s, seq!['/', '*', '*']) {
                assert(s.subrange(0, 3)[0] == s[0]);
            }
        }
        skip_white_space(u, 2)
    } else if n >= 1 && u[0] == '*' {
        assert(s.subrange(0, 1) == seq!['*']);
        assert(!starts_with(s, seq!['/', '*', '*'])) by {
            if starts_with(s, seq!['/', '*', '*']) {
                assert(s.subrange(0, 3)[0] == s[0]);
            }
        }
        assert(!starts_with(s, seq!['*', '/'])) by {
            if starts_with(s, seq!['*', '/']) {
                assert(s.subrange(0, 2)[1] == s[1]);
            }
        }
        skip_white_space(u, 1)
    } else {
        assert(!starts_with(s, seq!['/', '*', '*'])) by {
            if starts_with(s, seq!['/', '*', '*']) {
                assert(s.subrange(0, 3)[0] == s[0]);
                assert(s.subrange(0, 3)[1] == s[1]);
                assert(s.subrange(0, 3)[2] == s[2]);
            }
        }
        assert(!starts_with(s, seq!['*', '/'])) by {
            if starts_with(s, seq!['*', '/']) {
                assert(s.subrange(0, 2)[0] == s[0]);
                assert(s.subrange(0, 2)[1] == s[1]);
            }
        }
        assert(!starts_with(s, seq!['*'])) by {
            if starts_with(s, seq!['*']) {
                assert(s.subrange(0, 1)[0] == s[0]);
            }
        }
        assert(s.subrange(0, n as int) == s);
        0
    }
}

/// Appends `tag_to_label(u[t..])` to `out`.
fn push_label(out: &mut String, u: &Vec<char>, t: usize)
    requires
        t <= u@.len(),
    ensures
        final(out)@ == old(out)@ + tag_to_label(u@.subrange(t as int, u@.len() as int)),
{
    let n = u.len();
    let ghost s = u@.subrange(t as int, n as int);
    if t < n && u[t] == '@' {
        let ghost rest = s.drop_first();
        assert(rest == u@.subrange(t + 1, n as int));
        let mut k: usize = t + 1;
        while k < n && u[k] != ' '
            invariant
                t + 1 <= k <= n == u@.len(),
                forall|j: int| t + 1 <= j < k ==> u@[j] != ' ',
            decreases n - k,
        {
            k = k + 1;
        }
        proof {
            lemma_first_index_at(rest, ' ', k - (t + 1));
        }
        push_chars(out, u, t + 1, k);
        if k < n {
            push_char(out, ':');
            push_char(out, ':');
            push_chars(out, u, k, n);
            assert(rest.subrange(0, k - (t + 1)) == u@.subrange(t + 1, k as int));
            assert(rest.subrange(k - (t + 1), rest.len() as int) == u@.subrange(k as int, n as int));
            assert(final(out)@ == old(out)@ + (rest.subrange(0, k - (t + 1)) + seq![':', ':']
                + rest.subrange(k - (t + 1), rest.len() as int)));
        }
    } else {
        push_chars(out, u, t, n);
    }
}

/// Appends the AsciiDoc form of the line `v[lo..hi]` to `out`.
fn push_adoc_line(out: &mut String, v: &Vec<char>, lo: usize, hi: usize)
    requires
        lo <= hi <= v@.len(),
    ensures
        final(out)@ == old(out)@ + adoc_line(v@.subrange(lo as int, hi as int)),
{
    let (a, b) = trim_bounds(v, lo, hi);
    let u = remove_paragraph_marks(v, a, b);
    let t = decoration_end(&u);
    push_label(out, &u, t);
}

/// Turns the raw text of a Javadoc comment into AsciiDoc: each line is trimmed, loses every
/// `<p>` and its leading `/**`, `*/` or `*`, and a leading `@tag rest` becomes `tag:: rest`;
/// the lines are joined with `\n`.
pub fn javadoc_to_adoc(source: &str) -> (r: String)
    ensures
        r@ == adoc_text(source@),
{
    let v = chars_of(source);
    let n = v.len();
    let mut out = String::new();
    let mut pos: usize = 0;
    assert(v@.subrange(0, n as int) == v@);
    assert(out@ + adoc_text(v@) == adoc_text(v@));
    while pos < n
        invariant
            pos <= n == v@.len(),
            v@ == source@,
            out@ + adoc_text(v@.subrange(pos as int, n as int)) == adoc_text(v@),
        decreases n - pos,
    {
        let ghost rest = v@.subrange(pos as int, n as int);
        let mut j: usize = pos;
        while j < n && v[j] != '\n'
            invariant
                pos <= j <= n == v@.len(),
                forall|i: int| pos <= i < j ==> v@[i] != '\n',
            decreases n - j,
        {
            j = j + 1;
        }
        proof {
            lemma_first_index_at(rest, '\n', j - pos);
            assert(rest.subrange(0, j - pos) == v@.subrange(pos as int, j as int));
        }
        let ghost before = out@;
        push_adoc_line(&mut out, &v, pos, j);
        if j >= n {
            assert(rest.subrange(0, j - pos) == rest);
            pos = n;
        } else if j + 1 == n {
            pos = n;
        } else {
            push_char(&mut out, '\n');
            assert(rest.subrange(j - pos + 1, rest.len() as int) == v@.subrange(j + 1, n as int));
            pos = j + 1;
        }
        assert(adoc_text(v@.subrange(n as int, n as int)) == Seq::<char>::empty());
    }
    assert(v@.subrange(0, n as int) == v@);
    assert(adoc_text(v@.subrange(n as int, n as int)) == Seq::<char>::empty()) by {
        assert(v@.subrange(n as int, n as int).len() == 0);
    }
    assert(out@ + Seq::<char>::empty() == out@);
    out
}

} // verus!

//! Character-level building blocks of the template syntax: the doubled-brace
//! markers and the whitespace that trim markers remove.

use vstd::prelude::*;

verus! {

/// First character of the opening marker `{{` (both characters are equal).
pub const OPEN: char = '{';

/// First character of the closing marker `}}` (both characters are equal).
pub const CLOSE: char = '}';

/// A marker made of two copies of `c` starts at position `i` of `t`.
pub open spec fn marker_at(t: Seq<char>, i: int, c: char) -> bool {
    0 <= i && i + 1 < t.len() && t[i] == c && t[i + 1] == c
}

/// Position of the leftmost marker made of two copies of `c` at or after
/// `from`, or `t.len()` when there is none.
pub open spec fn find_marker(t: Seq<char>, from: int, c: char) -> int
    decreases t.len() - from,
{
    if from < 0 || from + 1 >= t.len() {
        t.len() as int
    } else if t[from] == c && t[from + 1] == c {
        from
    } else {
        find_marker(t, from + 1, c)
    }
}

/// No marker made of two copies of `c` lies wholly inside `[from, to)`.
pub open spec fn no_marker_in(t: Seq<char>, from: int, to: int, c: char) -> bool {
    forall|j: int| from <= j && j + 1 < to ==> !#[trigger] marker_at(t, j, c)
}

/// `find_marker` stays within bounds, lands on a marker when it finds one,
/// and passes over no marker before it.
pub proof fn lemma_find_marker(t: Seq<char>, from: int, c: char)
    requires
        0 <= from <= t.len(),
    ensures
        from <= find_marker(t, from, c) <= t.len(),
        find_marker(t, from, c) < t.len() ==> marker_at(t, find_marker(t, from, c), c),
        no_marker_in(t, from, find_marker(t, from, c) + 1, c),
    decreases t.len() - from,
{
    if from + 1 < t.len() && !(t[from] == c && t[from + 1] == c) {
        lemma_find_marker(t, from + 1, c);
    }
}

/// Finds the leftmost marker made of two copies of `c` at or after `from`.
pub(crate) fn next_marker(t: &Vec<char>, from: usize, c: char) -> (r: usize)
    requires
        from <= t.len(),
    ensures
        r == find_marker(t@, from as int, c),
{
    let n = t.len();
    let mut i: usize = from;
    while i < n && i + 1 < n && !(t[i] == c && t[i + 1] == c)
        invariant
            from <= i <= n,
            n == t.len(),
            find_marker(t@, from as int, c) == find_marker(t@, i as int, c),
        decreases n - i,
    {
        i = i + 1;
    }
    if i < n && i + 1 < n {
        i
    } else {
        n
    }
}

/// Whitespace as Unicode's `White_Space` property defines it.
pub open spec fn is_space(c: char) -> bool {
    ||| c == ' '
    ||| ('\t' <= c && c <= '\r')
    ||| c == '\u{85}'
    ||| c == '\u{a0}'
    ||| c == '\u{1680}'
    ||| ('\u{2000}' <= c && c <= '\u{200a}')
    ||| c == '\u{2028}'
    ||| c == '\u{2029}'
    ||| c == '\u{202f}'
    ||| c == '\u{205f}'
    ||| c == '\u{3000}'
}

/// Tells whether `c` is whitespace.
pub(crate) fn space(c: char) -> (r: bool)
    ensures
        r == is_space(c),
{
    c == ' ' || ('\t' <= c && c <= '\r') || c == '\u{85}' || c == '\u{a0}' || c == '\u{1680}'
        || ('\u{2000}' <= c && c <= '\u{200a}') || c == '\u{2028}' || c == '\u{2029}'
        || c == '\u{202f}' || c == '\u{205f}' || c == '\u{3000}'
}

/// `s` without its leading whitespace.
pub open spec fn trim_start(s: Seq<char>) -> Seq<char>
    decreases s.len(),
{
    if s.len() > 0 && is_space(s[0]) {
        trim_start(s.drop_first())
    } else {
        s
    }
}

/// `s` without its trailing whitespace.
pub open spec fn trim_end(s: Seq<char>) -> Seq<char>
    decreases s.len(),
{
    if s.len() > 0 && is_space(s.last()) {
        trim_end(s.drop_last())
    } else {
        s
    }
}

/// `t[s..e]`, without its leading whitespace when `lead` holds and without
/// its trailing whitespace when `trail` holds.
pub open spec fn trimmed(t: Seq<char>, s: int, e: int, lead: bool, trail: bool) -> Seq<char> {
    let a = if lead {
        trim_start(t.subrange(s, e))
    } else {
        t.subrange(s, e)
    };
    if trail {
        trim_end(a)
    } else {
        a
    }
}

/// The bounds of `trimmed(t, s, e, lead, trail)` within `t`.
pub(crate) fn trimmed_range(t: &Vec<char>, s: usize, e: usize, lead: bool, trail: bool) -> (r: (usize, usize))
    requires
        s <= e <= t.len(),
    ensures
        s <= r.0 <= r.1 <= e,
        t@.subrange(r.0 as int, r.1 as int) == trimmed(t@, s as int, e as int, lead, trail),
{
    let mut a = s;
    if lead {
        while a < e && space(t[a])
            invariant
                s <= a <= e <= t.len(),
                trim_start(t@.subrange(s as int, e as int)) == trim_start(t@.subrange(a as int, e as int)),
            decreases e - a,
        {
            assert(t@.subrange(a as int, e as int).drop_first() =~= t@.subrange(a + 1, e as int));
            a = a + 1;
        }
    }
    let ghost front = t@.subrange(a as int, e as int);
    assert(front == if lead { trim_start(t@.subrange(s as int, e as int)) } else { t@.subrange(s as int, e as int) });
    let mut b = e;
    if trail {
        while a < b && space(t[b - 1])
            invariant
                s <= a <= b <= e <= t.len(),
                front == t@.subrange(a as int, e as int),
                trim_end(front) == trim_end(t@.subrange(a as int, b as int)),
            decreases b - a,
        {
            assert(t@.subrange(a as int, b as int).drop_last() =~= t@.subrange(a as int, b - 1));
            b = b - 1;
        }
    }
    (a, b)
}

/// Appends `t[a..b]` to `out`.
pub(crate) fn append_range(out: &mut String, t: &Vec<char>, a: usize, b: usize)
    requires
        a <= b <= t.len(),
    ensures
        final(out)@ == old(out)@ + t@.subrange(a as int, b as int),
{
    let mut i = a;
    while i < b
        invariant
            a <= i <= b <= t.len(),
            out@ == old(out)@ + t@.subrange(a as int, i as int),
        decreases b - i,
    {
        push_char(out, t[i]);
        assert(t@.subrange(a as int, i + 1) =~= t@.subrange(a as int, i as int).push(t@[i as int]));
        i = i + 1;
    }
}

/// The chars of a string slice, in order.
pub(crate) fn chars_of(s: &str) -> (r: Vec<char>)
    ensures
        r@ == s@,
{
    let mut r: Vec<char> = Vec::new();
    for c in it: s.chars()
        invariant
            r@ == it.seq().subrange(0, it.index() as int),
    {
        r.push(c);
    }
    r
}

/// Relies on `String::push`: appends one char.
#[verifier::external_body]
pub(crate) fn push_char(s: &mut String, c: char)
    ensures
        final(s)@ == old(s)@.push(c),
{
    s.push(c)
}

} // verus!

//! Splitting template text into literal runs and embedded commands.

use vstd::prelude::*;
use crate::syntax::{chars_of, find_marker, lemma_find_marker, marker_at, next_marker, CLOSE, OPEN};

verus! {

/// Why a template could not be split into segments.
#[derive(Debug, Clone, Copy, PartialEq, Eq, Structural)]
pub enum Error {
    /// An opening marker has no closing marker before the next opening marker
    /// or the end of the text.
    MissingEndBraces,
    /// A closing marker stands in literal text, outside any command.
    UnexpectedEndBrances,
}

/// Which neighbouring literal whitespace a command removes.
#[derive(Debug, Clone, Copy, PartialEq, Eq, Structural)]
pub struct WhitespaceTrimming {
    /// Remove the trailing whitespace of the literal text before the command.
    pub trim_before: bool,
    /// Remove the leading whitespace of the literal text after the command.
    pub trim_after: bool,
}

#[derive(Debug, Clone, Copy, PartialEq, Eq, Structural)]
pub enum SegmentKind {
    /// Literal text, copied to the output.
    Raw,
    /// A Bud statement, emitted on a line of its own.
    Statement(WhitespaceTrimming),
    /// A Bud expression whose value is appended to the output; `safe`
    /// expressions bypass the encoder.
    Expression { trimming: WhitespaceTrimming, safe: bool },
}

/// A classified run of the template text: `start..end` counts chars.
#[derive(Debug, Clone, Copy, PartialEq, Eq, Structural)]
pub struct Segment {
    pub kind: SegmentKind,
    pub start: usize,
    pub end: usize,
}

/// A segment as a mathematical value.
pub struct SegmentView {
    pub kind: SegmentKind,
    pub start: int,
    pub end: int,
}

impl View for Segment {
    type V = SegmentView;

    open spec fn view(&self) -> SegmentView {
        SegmentView { kind: self.kind, start: self.start as int, end: self.end as int }
    }
}

/// The views of a sequence of segments.
pub open spec fn views(s: Seq<Segment>) -> Seq<SegmentView> {
    s.map_values(|x: Segment| x@)
}

/// A literal segment over `start..end`.
pub open spec fn raw(start: int, end: int) -> SegmentView {
    SegmentView { kind: SegmentKind::Raw, start, end }
}

/// The command `t[s..c]` starts with the prefix `=`.
pub open spec fn has_eq_prefix(t: Seq<char>, s: int, c: int) -> bool {
    s < c && t[s] == '='
}

/// The command `t[s..c]` starts with the prefix `:=`.
pub open spec fn has_colon_eq_prefix(t: Seq<char>, s: int, c: int) -> bool {
    !has_eq_prefix(t, s, c) && s + 1 < c && t[s] == ':' && t[s + 1] == '='
}

/// Where the command `t[s..c]` continues after its prefix.
pub open spec fn after_prefix(t: Seq<char>, s: int, c: int) -> int {
    if has_eq_prefix(t, s, c) {
        s + 1
    } else if has_colon_eq_prefix(t, s, c) {
        s + 2
    } else {
        s
    }
}

/// The trimming requested by the command `t[s..c]`: a `-` right after the
/// prefix, and a `-` right before the closing marker.
pub open spec fn command_trimming(t: Seq<char>, s: int, c: int) -> WhitespaceTrimming {
    let a = after_prefix(t, s, c);
    let before = a < c && t[a] == '-';
    let a2 = if before { a + 1 } else { a };
    WhitespaceTrimming { trim_before: before, trim_after: a2 < c && t[c - 1] == '-' }
}

/// The segment for the command `t[s..c]`: its kind, and the range of its
/// body once prefix and trim markers are removed.
pub open spec fn command_segment(t: Seq<char>, s: int, c: int) -> SegmentView {
    let trimming = command_trimming(t, s, c);
    let a = after_prefix(t, s, c);
    let start = if trimming.trim_before { a + 1 } else { a };
    let end = if trimming.trim_after { c - 1 } else { c };
    let kind = if has_eq_prefix(t, s, c) {
        SegmentKind::Expression { trimming, safe: false }
    } else if has_colon_eq_prefix(t, s, c) {
        SegmentKind::Expression { trimming, safe: true }
    } else {
        SegmentKind::Statement(trimming)
    };
    SegmentView { kind, start, end }
}

/// `r` with `prefix` put in front of its segments, or the same error.
pub open spec fn prepend(
    prefix: Seq<SegmentView>,
    r: Result<Seq<SegmentView>, Error>,
) -> Result<Seq<SegmentView>, Error> {
    match r {
        Ok(rest) => Ok(prefix + rest),
        Err(e) => Err(e),
    }
}

/// The segments of the text from the opening marker at `p` on: each piece up
/// to the next opening marker is a command up to its first closing marker,
/// then literal text that holds no further closing marker.
pub open spec fn split_pieces(t: Seq<char>, p: int) -> Result<Seq<SegmentView>, Error>
    decreases t.len() - p,
{
    if !marker_at(t, p, OPEN) {
        Ok(Seq::empty())
    } else {
        let s = p + 2;
        let q = find_marker(t, s, OPEN);
        let c = find_marker(t, s, CLOSE);
        proof {
            lemma_find_marker(t, s, OPEN);
        }
        if c + 1 >= q {
            Err(Error::MissingEndBraces)
        } else if find_marker(t, c + 2, CLOSE) + 1 < q {
            Err(Error::UnexpectedEndBrances)
        } else {
            prepend(seq![command_segment(t, s, c), raw(c + 2, q)], split_pieces(t, q))
        }
    }
}

/// The segments of template text `t`: the literal text before the first
/// opening marker, then the pieces that follow it.
pub open spec fn split_template(t: Seq<char>) -> Result<Seq<SegmentView>, Error> {
    let p = find_marker(t, 0, OPEN);
    if find_marker(t, 0, CLOSE) + 1 < p {
        Err(Error::UnexpectedEndBrances)
    } else {
        prepend(seq![raw(0, p)], split_pieces(t, p))
    }
}

/// The text that introduces a command of this kind: the opening marker, the
/// expression prefix, and the leading trim marker.
pub open spec fn opening(kind: SegmentKind) -> Seq<char> {
    match kind {
        SegmentKind::Raw => Seq::empty(),
        SegmentKind::Statement(tr) => seq!['{', '{'] + dash(tr.trim_before),
        SegmentKind::Expression { trimming, safe } => seq!['{', '{'] + (if safe {
            seq![':', '=']
        } else {
            seq!['=']
        }) + dash(trimming.trim_before),
    }
}

/// The text that ends a command of this kind: the trailing trim marker and
/// the closing marker.
pub open spec fn closing(kind: SegmentKind) -> Seq<char> {
    match kind {
        SegmentKind::Raw => Seq::empty(),
        SegmentKind::Statement(tr) => dash(tr.trim_after) + seq!['}', '}'],
        SegmentKind::Expression { trimming, .. } => dash(trimming.trim_after) + seq!['}', '}'],
    }
}

pub open spec fn dash(present: bool) -> Seq<char> {
    if present {
        seq!['-']
    } else {
        Seq::empty()
    }
}

/// The text a segment stands for, markers included.
pub open spec fn segment_text(t: Seq<char>, v: SegmentView) -> Seq<char> {
    opening(v.kind) + t.subrange(v.start, v.end) + closing(v.kind)
}

/// The segments' texts joined in order.
pub open spec fn reassemble(t: Seq<char>, segs: Seq<SegmentView>) -> Seq<char>
    decreases segs.len(),
{
    if segs.len() == 0 {
        Seq::empty()
    } else {
        segment_text(t, segs[0]) + reassemble(t, segs.drop_first())
    }
}

proof fn lemma_reassemble_concat(t: Seq<char>, a: Seq<SegmentView>, b: Seq<SegmentView>)
    ensures
        reassemble(t, a + b) == reassemble(t, a) + reassemble(t, b),
    decreases a.len(),
{
    if a.len() == 0 {
        assert(a + b =~= b);
    } else {
        assert((a + b).drop_first() =~= a.drop_first() + b);
        lemma_reassemble_concat(t, a.drop_first(), b);
        assert(reassemble(t, a + b) =~= segment_text(t, a[0]) + (reassemble(t, a.drop_first())
            + reassemble(t, b)));
    }
}

proof fn lemma_command_text(t: Seq<char>, p: int, c: int)
    requires
        marker_at(t, p, OPEN),
        marker_at(t, c, CLOSE),
        p + 2 <= c,
    ensures
        segment_text(t, command_segment(t, p + 2, c)) =~= t.subrange(p, c + 2),
{
    let s = p + 2;
    let v = command_segment(t, s, c);
    let a = after_prefix(t, s, c);
    let tr = command_trimming(t, s, c);
    assert(t.subrange(p, c + 2) =~= t.subrange(p, s) + t.subrange(s, a) + t.subrange(a, v.start)
        + t.subrange(v.start, v.end) + t.subrange(v.end, c) + t.subrange(c, c + 2));
    assert(t.subrange(p, s) =~= seq!['{', '{']);
    assert(t.subrange(c, c + 2) =~= seq!['}', '}']);
    assert(t.subrange(a, v.start) =~= dash(tr.trim_before));
    assert(t.subrange(v.end, c) =~= dash(tr.trim_after));
    if has_eq_prefix(t, s, c) {
        assert(t.subrange(s, a) =~= seq!['=']);
    } else if has_colon_eq_prefix(t, s, c) {
        assert(t.subrange(s, a) =~= seq![':', '=']);
    } else {
        assert(t.subrange(s, a) =~= Seq::<char>::empty());
    }
}

proof fn lemma_pieces_reassemble(t: Seq<char>, p: int)
    requires
        0 <= p <= t.len(),
        p == t.len() || marker_at(t, p, OPEN),
        split_pieces(t, p) is Ok,
    ensures
        reassemble(t, split_pieces(t, p)->Ok_0) =~= t.subrange(p, t.len() as int),
    decreases t.len() - p,
{
    if marker_at(t, p, OPEN) {
        let s = p + 2;
        let q = find_marker(t, s, OPEN);
        let c = find_marker(t, s, CLOSE);
        lemma_find_marker(t, s, OPEN);
        lemma_find_marker(t, s, CLOSE);
        lemma_pieces_reassemble(t, q);
        let head = seq![command_segment(t, s, c), raw(c + 2, q)];
        let rest = split_pieces(t, q)->Ok_0;
        lemma_reassemble_concat(t, head, rest);
        lemma_command_text(t, p, c);
        assert(head.drop_first().drop_first() =~= Seq::<SegmentView>::empty());
        assert(segment_text(t, raw(c + 2, q)) =~= t.subrange(c + 2, q));
        reveal_with_fuel(reassemble, 3);
        assert(reassemble(t, head) =~= t.subrange(p, c + 2) + t.subrange(c + 2, q));
    }
}

/// Reconstruction: joining the segments of a template that splits, each with
/// the markers that were removed from it put back, gives the template text.
pub proof fn lemma_reconstruction(t: Seq<char>)
    requires
        split_template(t) is Ok,
    ensures
        reassemble(t, split_template(t)->Ok_0) == t,
{
    let p = find_marker(t, 0, OPEN);
    lemma_find_marker(t, 0, OPEN);
    lemma_pieces_reassemble(t, p);
    let head = seq![raw(0, p)];
    lemma_reassemble_concat(t, head, split_pieces(t, p)->Ok_0);
    assert(head.drop_first() =~= Seq::<SegmentView>::empty());
    assert(segment_text(t, raw(0, p)) =~= t.subrange(0, p));
    reveal_with_fuel(reassemble, 2);
    assert(reassemble(t, head) =~= t.subrange(0, p));
    assert(t.subrange(0, p) + t.subrange(p, t.len() as int) =~= t);
}

/// Splitting depends on the text alone: equal texts split into equal
/// segment sequences, or fail with the same error.
pub proof fn lemma_split_deterministic(a: Seq<char>, b: Seq<char>)
    requires
        a == b,
    ensures
        split_template(a) == split_template(b),
{
}

/// Every range lies within the text, literal segments stand at even
/// positions and commands at odd ones, and the count is odd.
pub open spec fn well_formed(t: Seq<char>, segs: Seq<SegmentView>) -> bool {
    &&& segs.len() % 2 == 1
    &&& forall|i: int|
        0 <= i < segs.len() ==> 0 <= #[trigger] segs[i].start <= segs[i].end <= t.len() && ((
        segs[i].kind is Raw) <==> i % 2 == 0)
}

proof fn lemma_pieces_well_formed(t: Seq<char>, p: int)
    requires
        0 <= p <= t.len(),
        split_pieces(t, p) is Ok,
    ensures
        ({
            let x = split_pieces(t, p)->Ok_0;
            &&& x.len() % 2 == 0
            &&& forall|i: int|
                0 <= i < x.len() ==> p <= #[trigger] x[i].start <= x[i].end <= t.len() && ((
                x[i].kind is Raw) <==> i % 2 == 1)
        }),
    decreases t.len() - p,
{
    if marker_at(t, p, OPEN) {
        let s = p + 2;
        let q = find_marker(t, s, OPEN);
        let c = find_marker(t, s, CLOSE);
        lemma_find_marker(t, s, OPEN);
        lemma_find_marker(t, s, CLOSE);
        lemma_pieces_well_formed(t, q);
        let x = split_pieces(t, p)->Ok_0;
        let rest = split_pieces(t, q)->Ok_0;
        assert forall|i: int| 0 <= i < x.len() implies p <= #[trigger] x[i].start <= x[i].end
            <= t.len() && ((x[i].kind is Raw) <==> i % 2 == 1) by {
            if i >= 2 {
                assert(x[i] == rest[i - 2]);
            }
        }
    }
}

/// A template that splits gives well-formed segments.
pub proof fn lemma_split_well_formed(t: Seq<char>)
    requires
        split_template(t) is Ok,
    ensures
        well_formed(t, split_template(t)->Ok_0),
{
    let p = find_marker(t, 0, OPEN);
    lemma_find_marker(t, 0, OPEN);
    lemma_pieces_well_formed(t, p);
    let x = split_template(t)->Ok_0;
    let rest = split_pieces(t, p)->Ok_0;
    assert forall|i: int| 0 <= i < x.len() implies 0 <= #[trigger] x[i].start <= x[i].end
        <= t.len() && ((x[i].kind is Raw) <==> i % 2 == 0) by {
        if i >= 1 {
            assert(x[i] == rest[i - 1]);
        }
    }
}

/// A template with an opening marker and no closing marker anywhere fails
/// with `MissingEndBraces`.
pub proof fn lemma_missing_close(t: Seq<char>, p: int)
    requires
        marker_at(t, p, OPEN),
        forall|i: int| !#[trigger] marker_at(t, i, CLOSE),
    ensures
        split_template(t) == Err::<Seq<SegmentView>, Error>(Error::MissingEndBraces),
{
    let first = find_marker(t, 0, OPEN);
    lemma_find_marker(t, 0, OPEN);
    lemma_find_marker(t, 0, CLOSE);
    assert(!marker_at(t, find_marker(t, 0, CLOSE), CLOSE));
    assert(first <= p) by {
        if first > p {
            assert(!marker_at(t, p, OPEN));
        }
    }
    lemma_find_marker(t, first + 2, CLOSE);
    assert(!marker_at(t, find_marker(t, first + 2, CLOSE), CLOSE));
    lemma_find_marker(t, first + 2, OPEN);
}

/// A template with a closing marker and no opening marker anywhere fails
/// with `UnexpectedEndBrances`.
pub proof fn lemma_stray_close(t: Seq<char>, c: int)
    requires
        marker_at(t, c, CLOSE),
        forall|i: int| !#[trigger] marker_at(t, i, OPEN),
    ensures
        split_template(t) == Err::<Seq<SegmentView>, Error>(Error::UnexpectedEndBrances),
{
    lemma_find_marker(t, 0, OPEN);
    lemma_find_marker(t, 0, CLOSE);
    assert(!marker_at(t, find_marker(t, 0, OPEN), OPEN));
    assert(find_marker(t, 0, CLOSE) <= c) by {
        if find_marker(t, 0, CLOSE) > c {
            assert(!marker_at(t, c, CLOSE));
        }
    }
}

proof fn lemma_prepend_assoc(a: Seq<SegmentView>, b: Seq<SegmentView>, r: Result<Seq<SegmentView>, Error>)
    ensures
        prepend(a, prepend(b, r)) == prepend(a + b, r),
{
    if let Ok(x) = r {
        assert(a + (b + x) =~= (a + b) + x);
    }
}

fn classify(t: &Vec<char>, s: usize, c: usize) -> (r: Segment)
    requires
        s <= c <= t.len(),
    ensures
        r@ == command_segment(t@, s as int, c as int),
{
    let (kind_eq, kind_colon, a) = if s < c && t[s] == '=' {
        (true, false, s + 1)
    } else if s < c && s + 1 < c && t[s] == ':' && t[s + 1] == '=' {
        (false, true, s + 2)
    } else {
        (false, false, s)
    };
    let trim_before = a < c && t[a] == '-';
    let start = if trim_before { a + 1 } else { a };
    let trim_after = start < c && t[c - 1] == '-';
    let end = if trim_after { c - 1 } else { c };
    let trimming = WhitespaceTrimming { trim_before, trim_after };
    let kind = if kind_eq {
        SegmentKind::Expression { trimming, safe: false }
    } else if kind_colon {
        SegmentKind::Expression { trimming, safe: true }
    } else {
        SegmentKind::Statement(trimming)
    };
    Segment { kind, start, end }
}

/// Splits template text into segments.
pub fn split(source: &str) -> (r: Result<Vec<Segment>, Error>)
    ensures
        match r {
            Ok(segs) => split_template(source@) == Ok::<Seq<SegmentView>, Error>(views(segs@)),
            Err(e) => split_template(source@) == Err::<Seq<SegmentView>, Error>(e),
        },
{
    let t = chars_of(source);
    let n = t.len();
    let first_open = next_marker(&t, 0, OPEN);
    let first_close = next_marker(&t, 0, CLOSE);
    proof {
        lemma_find_marker(t@, 0, OPEN);
        lemma_find_marker(t@, 0, CLOSE);
    }
    if first_close < first_open && first_close + 1 < first_open {
        return Err(Error::UnexpectedEndBrances);
    }
    let mut segs: Vec<Segment> = Vec::new();
    segs.push(Segment { kind: SegmentKind::Raw, start: 0, end: first_open });
    let mut p = first_open;
    assert(views(segs@) =~= seq![raw(0, first_open as int)]);
    while p < n
        invariant
            n == t.len(),
            t@ == source@,
            p <= n,
            p < n ==> marker_at(t@, p as int, OPEN),
            split_template(t@) == prepend(views(segs@), split_pieces(t@, p as int)),
        decreases n - p,
    {
        let s = p + 2;
        let q = next_marker(&t, s, OPEN);
        let c = next_marker(&t, s, CLOSE);
        proof {
            lemma_find_marker(t@, s as int, OPEN);
            lemma_find_marker(t@, s as int, CLOSE);
        }
        if c >= q || c + 1 >= q {
            return Err(Error::MissingEndBraces);
        }
        let stray = next_marker(&t, c + 2, CLOSE);
        proof {
            lemma_find_marker(t@, c + 2, CLOSE);
        }
        if stray < q && stray + 1 < q {
            return Err(Error::UnexpectedEndBrances);
        }
        let cmd = classify(&t, s, c);
        let ghost before = segs@;
        segs.push(cmd);
        segs.push(Segment { kind: SegmentKind::Raw, start: c + 2, end: q });
        proof {
            assert(views(segs@) =~= views(before) + seq![
                command_segment(t@, s as int, c as int),
                raw(c + 2, q as int),
            ]);
            lemma_prepend_assoc(
                views(before),
                seq![command_segment(t@, s as int, c as int), raw(c + 2, q as int)],
                split_pieces(t@, q as int),
            );
        }
        p = q;
    }
    proof {
        assert(views(segs@) + Seq::<SegmentView>::empty() =~= views(segs@));
    }
    Ok(segs)
}

} // verus!

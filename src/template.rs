//! Templates, their segments, and the Bud function generated from them.

use vstd::prelude::*;
use vstd::string::*;
use crate::segment::{
    lemma_split_well_formed, raw, split, split_pieces, split_template, views, well_formed, Error, Segment, SegmentKind,
    SegmentView,
};
use crate::syntax::{
    append_range, chars_of, find_marker, lemma_find_marker, marker_at, push_char, trimmed, trimmed_range, CLOSE, OPEN,
};

verus! {

/// Template text: literal output interleaved with `{{ ... }}` commands.
#[derive(Debug)]
pub struct Template {
    source: String,
}

impl Clone for Template {
    fn clone(&self) -> (r: Template)
        ensures
            r@ == self@,
    {
        Template { source: self.source.clone() }
    }
}

impl PartialEq for Template {
    fn eq(&self, other: &Template) -> (r: bool) {
        self.source == other.source
    }
}

impl vstd::std_specs::cmp::PartialEqSpecImpl for Template {
    open spec fn obeys_eq_spec() -> bool {
        true
    }

    open spec fn eq_spec(&self, other: &Template) -> bool {
        self@ == other@
    }
}

impl Eq for Template {
}

impl View for Template {
    type V = Seq<char>;

    closed spec fn view(&self) -> Seq<char> {
        self.source@
    }
}

impl Template {
    /// A template over a copy of `template`.
    pub fn from_str(template: &str) -> (r: Self)
        ensures
            r@ == template@,
    {
        Template { source: template.to_owned() }
    }

    /// A template that takes ownership of `template`.
    pub fn from_string(template: String) -> (r: Self)
        ensures
            r@ == template@,
    {
        Template { source: template }
    }

    /// The template text.
    pub fn source(&self) -> (r: &str)
        ensures
            r@ == self@,
    {
        self.source.as_str()
    }

    /// Splits the template into literal text and commands.
    pub fn parse(&self) -> (r: Result<ParsedTemplate<'_>, Error>)
        ensures
            match r {
                Ok(p) => p.text() == self@ && split_template(self@) == Ok::<
                    Seq<SegmentView>,
                    Error,
                >(p.segment_views()),
                Err(e) => split_template(self@) == Err::<Seq<SegmentView>, Error>(e),
            },
    {
        let source = self.source.as_str();
        match split(source) {
            Ok(segments) => Ok(ParsedTemplate { source, segments }),
            Err(e) => Err(e),
        }
    }
}

/// A template with its segments: literal runs at even positions, commands at
/// odd ones, as `split_template` gives them.
pub struct ParsedTemplate<'a> {
    source: &'a str,
    segments: Vec<Segment>,
}

/// The trim flag that a command sets towards the text before it.
pub open spec fn trims_before(kind: SegmentKind) -> bool {
    match kind {
        SegmentKind::Raw => false,
        SegmentKind::Statement(tr) => tr.trim_before,
        SegmentKind::Expression { trimming, .. } => trimming.trim_before,
    }
}

/// The trim flag that a command sets towards the text after it.
pub open spec fn trims_after(kind: SegmentKind) -> bool {
    match kind {
        SegmentKind::Raw => false,
        SegmentKind::Statement(tr) => tr.trim_after,
        SegmentKind::Expression { trimming, .. } => trimming.trim_after,
    }
}

/// The literal text that segment `i` contributes: its range of `t`, trimmed
/// towards the neighbouring commands that ask for it.
pub open spec fn literal(t: Seq<char>, segs: Seq<SegmentView>, i: int) -> Seq<char> {
    trimmed(
        t,
        segs[i].start,
        segs[i].end,
        i > 0 && trims_after(segs[i - 1].kind),
        i + 1 < segs.len() && trims_before(segs[i + 1].kind),
    )
}

/// No literal text or expression has been appended since the last statement
/// (or the start) when segment `i` is reached.
pub open spec fn at_line_start(segs: Seq<SegmentView>, i: int) -> bool
    decreases i,
{
    if i <= 0 {
        true
    } else {
        match segs[i - 1].kind {
            SegmentKind::Statement(_) => true,
            SegmentKind::Raw => segs[i - 1].start == segs[i - 1].end && at_line_start(segs, i - 1),
            SegmentKind::Expression { .. } => false,
        }
    }
}

/// The chars of a string slice (used for literals in specifications).
pub open spec fn str_seq(s: &str) -> Seq<char> {
    s@
}

/// How the term for segment `i` joins the output expression.
pub open spec fn joiner(segs: Seq<SegmentView>, i: int) -> Seq<char> {
    if at_line_start(segs, i) {
        str_seq("output := output + ")
    } else {
        str_seq(" + ")
    }
}

/// The Bud code emitted for segment `i`; `spellings[k]` is the Bud string
/// literal for the literal text of segment `2 * k`.
pub open spec fn emitted(t: Seq<char>, segs: Seq<SegmentView>, spellings: Seq<Seq<char>>, i: int) -> Seq<char> {
    let v = segs[i];
    match v.kind {
        SegmentKind::Raw => if v.start == v.end {
            Seq::empty()
        } else {
            joiner(segs, i) + spellings[i / 2]
        },
        SegmentKind::Statement(_) => (if at_line_start(segs, i) {
            Seq::empty()
        } else {
            seq!['\n']
        }) + trimmed(t, v.start, v.end, true, true) + seq!['\n'],
        SegmentKind::Expression { safe, .. } => joiner(segs, i) + (if safe {
            str_seq("((")
        } else {
            str_seq("encode((")
        }) + trimmed(t, v.start, v.end, true, true) + str_seq(") as String)"),
    }
}

/// The code emitted for the first `n` segments.
pub open spec fn body(t: Seq<char>, segs: Seq<SegmentView>, spellings: Seq<Seq<char>>, n: int) -> Seq<char>
    decreases n,
{
    if n <= 0 {
        Seq::empty()
    } else {
        body(t, segs, spellings, n - 1) + emitted(t, segs, spellings, n - 1)
    }
}

/// The parameter names separated by `, `.
pub open spec fn joined(names: Seq<Seq<char>>) -> Seq<char>
    decreases names.len(),
{
    if names.len() == 0 {
        Seq::empty()
    } else if names.len() == 1 {
        names[0]
    } else {
        joined(names.drop_last()) + str_seq(", ") + names.last()
    }
}

/// The Bud function `name(parameters)` that renders the template: it builds
/// `output` from the segments and returns it.
pub open spec fn program(
    name: Seq<char>,
    parameters: Seq<Seq<char>>,
    t: Seq<char>,
    segs: Seq<SegmentView>,
    spellings: Seq<Seq<char>>,
) -> Seq<char> {
    str_seq("function ") + name + seq!['('] + joined(parameters) + str_seq(")\noutput := \"\"\n")
        + body(t, segs, spellings, segs.len() as int) + str_seq("\noutput\nend")
}

/// The char sequences of a sequence of strings.
pub open spec fn string_views(v: Seq<String>) -> Seq<Seq<char>> {
    v.map_values(|s: String| s@)
}

impl<'a> ParsedTemplate<'a> {
    #[verifier::type_invariant]
    closed spec fn inv(&self) -> bool {
        split_template(self.source@) == Ok::<Seq<SegmentView>, Error>(views(self.segments@))
    }

    /// The text the template was parsed from.
    pub closed spec fn text(&self) -> Seq<char> {
        self.source@
    }

    /// The segments, as values.
    pub closed spec fn segment_views(&self) -> Seq<SegmentView> {
        views(self.segments@)
    }

    /// The text the template was parsed from.
    pub fn source(&self) -> (r: &str)
        ensures
            r@ == self.text(),
    {
        self.source
    }

    /// A copy of the segments.
    pub fn segments(&self) -> (r: Vec<Segment>)
        ensures
            views(r@) == self.segment_views(),
    {
        self.segments.clone()
    }

    /// The literal text of each literal segment, in order, trimmed as the
    /// neighbouring commands ask: entry `k` belongs to segment `2 * k`.
    pub fn literals(&self) -> (r: Vec<String>)
        ensures
            2 * r.len() == self.segment_views().len() + 1,
            forall|k: int|
                0 <= k < r.len() ==> #[trigger] r@[k]@ == literal(
                    self.text(),
                    self.segment_views(),
                    2 * k,
                ),
    {
        proof {
            use_type_invariant(self);
            lemma_split_well_formed(self.source@);
        }
        let t = chars_of(self.source);
        let segs = &self.segments;
        let ghost sv = views(segs@);
        let mut r: Vec<String> = Vec::new();
        let mut i: usize = 0;
        while i < segs.len()
            invariant
                t@ == self.text(),
                sv == self.segment_views(),
                segs@ == self.segments@,
                sv.len() == segs.len(),
                well_formed(t@, sv),
                i % 2 == 0 || i == segs.len(),
                i <= segs.len(),
                r.len() == (i + 1) / 2,
                forall|k: int| 0 <= k < r.len() ==> #[trigger] r@[k]@ == literal(t@, sv, 2 * k),
            decreases segs.len() - i,
        {
            assert(sv[i as int] == segs@[i as int]@);
            assert(0 <= i < sv.len());
            assert(sv[i as int].start <= sv[i as int].end);
            assert(sv[i as int].end <= t@.len());
            let lead = i > 0 && kind_trims_after(&segs[i - 1].kind);
            let trail = i + 1 < segs.len() && kind_trims_before(&segs[i + 1].kind);
            let (a, b) = trimmed_range(&t, segs[i].start, segs[i].end, lead, trail);
            let mut text = String::new();
            append_range(&mut text, &t, a, b);
            r.push(text);
            let next = i + 1;
            i = if next < segs.len() { next + 1 } else { next };
        }
        r
    }

    /// The Bud function `name(parameters)` that renders the template, where
    /// `spellings[k]` is the Bud string literal for `self.literals()[k]`.
    pub fn to_bud_source(&self, name: &str, parameters: &Vec<String>, spellings: &Vec<String>) -> (r: String)
        requires
            2 * spellings.len() == self.segment_views().len() + 1,
        ensures
            r@ == program(
                name@,
                string_views(parameters@),
                self.text(),
                self.segment_views(),
                string_views(spellings@),
            ),
    {
        proof {
            use_type_invariant(self);
            lemma_split_well_formed(self.source@);
            reveal_strlit("function ");
            reveal_strlit(", ");
            reveal_strlit(")\noutput := \"\"\n");
            reveal_strlit("\noutput\nend");
        }
        let t = chars_of(self.source);
        let segs = &self.segments;
        let ghost sv = views(segs@);
        let ghost sp = string_views(spellings@);
        let ghost ps = string_views(parameters@);
        let mut out = String::new();
        out.append("function ");
        out.append(name);
        out.append("(");
        let ghost head = out@;
        proof {
            reveal_strlit("(");
            assert(head =~= str_seq("function ") + name@ + seq!['(']);
        }
        let mut j: usize = 0;
        while j < parameters.len()
            invariant
                ps == string_views(parameters@),
                j <= parameters.len(),
                out@ == head + joined(ps.subrange(0, j as int)),
            decreases parameters.len() - j,
        {
            proof {
                assert(ps.subrange(0, j + 1).drop_last() =~= ps.subrange(0, j as int));
            }
            if j > 0 {
                out.append(", ");
            }
            out.append(parameters[j].as_str());
            proof {
                if j == 0 {
                    assert(out@ =~= head + joined(ps.subrange(0, 1)));
                } else {
                    assert(out@ =~= head + joined(ps.subrange(0, j + 1)));
                }
            }
            j = j + 1;
        }
        proof {
            assert(ps.subrange(0, parameters.len() as int) =~= ps);
        }
        out.append(")\noutput := \"\"\n");
        let ghost top = out@;
        let mut line_start = true;
        let mut i: usize = 0;
        while i < segs.len()
            invariant
                t@ == self.text(),
                sv == self.segment_views(),
                segs@ == self.segments@,
                sv.len() == segs.len(),
                sp == string_views(spellings@),
                2 * spellings.len() == sv.len() + 1,
                well_formed(t@, sv),
                i <= segs.len(),
                line_start == at_line_start(sv, i as int),
                out@ == top + body(t@, sv, sp, i as int),
            decreases segs.len() - i,
        {
            assert(sv[i as int] == segs@[i as int]@);
            assert(0 <= i < sv.len());
            assert(sv[i as int].start <= sv[i as int].end);
            assert(sv[i as int].end <= t@.len());
            let ghost before = out@;
            let seg = &segs[i];
            match seg.kind {
                SegmentKind::Raw => {
                    if seg.start != seg.end {
                        join_term(&mut out, line_start);
                        out.append(spellings[i / 2].as_str());
                        line_start = false;
                    }
                },
                SegmentKind::Statement(_) => {
                    if !line_start {
                        push_char(&mut out, '\n');
                    }
                    let (a, b) = trimmed_range(&t, seg.start, seg.end, true, true);
                    append_range(&mut out, &t, a, b);
                    push_char(&mut out, '\n');
                    line_start = true;
                },
                SegmentKind::Expression { safe, .. } => {
                    join_term(&mut out, line_start);
                    if safe {
                        out.append("((");
                    } else {
                        out.append("encode((");
                    }
                    let (a, b) = trimmed_range(&t, seg.start, seg.end, true, true);
                    append_range(&mut out, &t, a, b);
                    out.append(") as String)");
                    line_start = false;
                },
            }
            proof {
                reveal_strlit("((");
                reveal_strlit("encode((");
                reveal_strlit(") as String)");
                reveal_strlit("output := output + ");
                reveal_strlit(" + ");
                assert(out@ =~= before + emitted(t@, sv, sp, i as int));
            }
            i = i + 1;
        }
        out.append("\noutput\nend");
        proof {
            assert(out@ =~= program(name@, ps, t@, sv, sp));
        }
        out
    }
}

/// A template without markers is one literal segment whose text is the whole
/// template, emitted as a single literal (nothing at all when it is empty).
pub proof fn lemma_literal_template(t: Seq<char>, spellings: Seq<Seq<char>>)
    requires
        forall|i: int| !#[trigger] marker_at(t, i, OPEN),
        forall|i: int| !#[trigger] marker_at(t, i, CLOSE),
        spellings.len() == 1,
    ensures
        split_template(t) == Ok::<Seq<SegmentView>, Error>(seq![raw(0, t.len() as int)]),
        literal(t, seq![raw(0, t.len() as int)], 0) == t,
        body(t, seq![raw(0, t.len() as int)], spellings, 1) == if t.len() == 0 {
            Seq::<char>::empty()
        } else {
            str_seq("output := output + ") + spellings[0]
        },
{
    lemma_find_marker(t, 0, OPEN);
    lemma_find_marker(t, 0, CLOSE);
    assert(!marker_at(t, find_marker(t, 0, OPEN), OPEN));
    assert(!marker_at(t, find_marker(t, 0, CLOSE), CLOSE));
    assert(split_pieces(t, t.len() as int) == Ok::<Seq<SegmentView>, Error>(Seq::empty()));
    let segs = seq![raw(0, t.len() as int)];
    assert(segs + Seq::<SegmentView>::empty() =~= segs);
    assert(t.subrange(0, t.len() as int) =~= t);
    reveal_with_fuel(body, 2);
    assert(body(t, segs, spellings, 0) + emitted(t, segs, spellings, 0) =~= emitted(t, segs, spellings, 0));
}

/// Starts the term for the next literal or expression.
fn join_term(out: &mut String, line_start: bool)
    ensures
        final(out)@ == old(out)@ + (if line_start {
            str_seq("output := output + ")
        } else {
            str_seq(" + ")
        }),
{
    if line_start {
        out.append("output := output + ");
    } else {
        out.append(" + ");
    }
}

fn kind_trims_before(kind: &SegmentKind) -> (r: bool)
    ensures
        r == trims_before(*kind),
{
    match kind {
        SegmentKind::Raw => false,
        SegmentKind::Statement(tr) => tr.trim_before,
        SegmentKind::Expression { trimming, .. } => trimming.trim_before,
    }
}

fn kind_trims_after(kind: &SegmentKind) -> (r: bool)
    ensures
        r == trims_after(*kind),
{
    match kind {
        SegmentKind::Raw => false,
        SegmentKind::Statement(tr) => tr.trim_after,
        SegmentKind::Expression { trimming, .. } => trimming.trim_after,
    }
}

} // verus!

//! Transforms applied to the value of an encoded expression before it joins
//! the output.

use vstd::prelude::*;
use vstd::string::*;
use crate::syntax::push_char;

verus! {

/// A single-pass transform of text, applied to expression output.
pub trait Encoder: Clone + Sized {
    /// What `encode` appends for `input`.
    spec fn encoded(&self, input: Seq<char>) -> Seq<char>;

    /// Appends the encoding of `input` to `output`.
    fn encode(&self, input: &str, output: &mut String)
        ensures
            final(output)@ == old(output)@ + self.encoded(input@),
    ;
}

/// Copies text unchanged.
#[derive(Debug, Clone, Copy, PartialEq, Eq, Structural)]
pub struct NoEncoding;

impl Encoder for NoEncoding {
    open spec fn encoded(&self, input: Seq<char>) -> Seq<char> {
        input
    }

    fn encode(&self, input: &str, output: &mut String) {
        output.append(input);
    }
}

/// Replaces the five characters that are special in HTML by entity references.
#[derive(Debug, Clone, Copy, PartialEq, Eq, Structural)]
pub struct HtmlEncoding;

/// The HTML spelling of one char.
pub open spec fn html_entity(c: char) -> Seq<char> {
    if c == '&' {
        seq!['&', 'a', 'm', 'p', ';']
    } else if c == '<' {
        seq!['&', 'l', 't', ';']
    } else if c == '>' {
        seq!['&', 'g', 't', ';']
    } else if c == '"' {
        seq!['&', 'q', 'u', 'o', 't', ';']
    } else if c == '\'' {
        seq!['&', '#', '3', '9', ';']
    } else {
        seq![c]
    }
}

/// The text with each char replaced by its HTML spelling.
pub open spec fn html_escape(s: Seq<char>) -> Seq<char>
    decreases s.len(),
{
    if s.len() == 0 {
        Seq::empty()
    } else {
        html_escape(s.drop_last()) + html_entity(s.last())
    }
}

impl Encoder for HtmlEncoding {
    open spec fn encoded(&self, input: Seq<char>) -> Seq<char> {
        html_escape(input)
    }

    fn encode(&self, input: &str, output: &mut String) {
        let ghost start = output@;
        for c in it: input.chars()
            invariant
                it.seq() == input@,
                output@ == start + html_escape(input@.subrange(0, it.index() as int)),
        {
            let ghost done = input@.subrange(0, it.index() as int);
            proof {
                let next = input@.subrange(0, it.index() + 1);
                assert(next.drop_last() =~= done);
                assert(next.last() == c);
            }
            if c == '&' {
                output.append("&amp;");
            } else if c == '<' {
                output.append("&lt;");
            } else if c == '>' {
                output.append("&gt;");
            } else if c == '"' {
                output.append("&quot;");
            } else if c == '\'' {
                output.append("&#39;");
            } else {
                push_char(output, c);
            }
            proof {
                reveal_strlit("&amp;");
                reveal_strlit("&lt;");
                reveal_strlit("&gt;");
                reveal_strlit("&quot;");
                reveal_strlit("&#39;");
                assert(output@ =~= start + (html_escape(done) + html_entity(c)));
            }
        }
        proof {
            assert(input@.subrange(0, input@.len() as int) =~= input@);
        }
    }
}

} // verus!

//! Rendering settings: the encoder for expression output, and trimming.

use vstd::prelude::*;
use crate::encoding::{Encoder, HtmlEncoding, NoEncoding};

verus! {

/// How templates are rendered.
pub struct Configuration<Enc> {
    /// Applied to the value of each `{{= ... }}` expression.
    pub encoder: Enc,
    /// Reserved: no trimming decision reads it yet.
    pub auto_trim: bool,
}

impl Default for Configuration<NoEncoding> {
    fn default() -> (r: Self)
        ensures
            r.encoder == NoEncoding,
            !r.auto_trim,
    {
        Configuration { encoder: NoEncoding, auto_trim: false }
    }
}

impl Configuration<HtmlEncoding> {
    /// Expression output escaped for HTML.
    pub fn for_html() -> (r: Self)
        ensures
            r.encoder == HtmlEncoding,
            !r.auto_trim,
    {
        Configuration { encoder: HtmlEncoding, auto_trim: false }
    }
}

impl<Enc: Encoder> Configuration<Enc> {
    /// The same configuration with `auto_trim` set.
    pub fn auto_trim(self) -> (r: Self)
        ensures
            r.auto_trim,
            r.encoder == self.encoder,
    {
        Configuration { encoder: self.encoder, auto_trim: true }
    }

    /// The same configuration with another encoder.
    pub fn with_encoder<NewEnc>(self, encoder: NewEnc) -> (r: Configuration<NewEnc>)
        ensures
            r.encoder == encoder,
            r.auto_trim == self.auto_trim,
    {
        Configuration { encoder, auto_trim: self.auto_trim }
    }
}

} // verus!

//! The glyph alphabets a bar is drawn with.

use vstd::prelude::*;

verus! {

/// The look of a bar's glyph region.
///
/// Every style is a glyph alphabet: its first character fills finished cells,
/// its last one pads the cells still to do, and those in between mark the
/// progress inside the cell where the filled part ends.
#[derive(Debug, Clone)]
pub enum Style {
    /// `|######7             |`
    ASCII,
    /// `|███████             |`
    Block,
    /// `|******@             |`
    Balloon,
    /// A glyph alphabet of the caller's own, at least two characters long.
    Custom(String),
}

/// The alphabet of the `ASCII` style: `"#0123456789 "`.
pub open spec fn ascii_glyphs() -> Seq<char> {
    seq!['#', '0', '1', '2', '3', '4', '5', '6', '7', '8', '9', ' ']
}

/// The alphabet of the `Block` style: a full block, then the blank and the
/// seven left-aligned eighth blocks, then a blank.
pub open spec fn block_glyphs() -> Seq<char> {
    seq!['█', ' ', '▏', '▎', '▍', '▌', '▋', '▊', '▉', ' ']
}

/// The alphabet of the `Balloon` style: `"*.oO@ "`.
pub open spec fn balloon_glyphs() -> Seq<char> {
    seq!['*', '.', 'o', 'O', '@', ' ']
}

impl Style {
    /// The glyph alphabet of this style.
    pub open spec fn glyphs_spec(&self) -> Seq<char> {
        match self {
            Style::ASCII => ascii_glyphs(),
            Style::Block => block_glyphs(),
            Style::Balloon => balloon_glyphs(),
            Style::Custom(s) => s@,
        }
    }

    /// A style can draw a bar when its alphabet has a filled and a background glyph.
    pub open spec fn wf(&self) -> bool {
        self.glyphs_spec().len() >= 2
    }

    /// The glyph alphabet of this style, one entry per character.
    pub fn glyphs(&self) -> (r: Vec<char>)
        ensures
            r@ == self.glyphs_spec(),
    {
        match self {
            Style::ASCII => {
                let r = vec!['#', '0', '1', '2', '3', '4', '5', '6', '7', '8', '9', ' '];
                assert(r@ =~= ascii_glyphs());
                r
            },
            Style::Block => {
                let r = vec!['█', ' ', '▏', '▎', '▍', '▌', '▋', '▊', '▉', ' '];
                assert(r@ =~= block_glyphs());
                r
            },
            Style::Balloon => {
                let r = vec!['*', '.', 'o', 'O', '@', ' '];
                assert(r@ =~= balloon_glyphs());
                r
            },
            Style::Custom(s) => {
                let mut r: Vec<char> = Vec::new();
                push_str_chars(&mut r, s.as_str());
                assert(r@ =~= s@);
                r
            },
        }
    }

    /// A copy of this style, equal to it.
    pub fn duplicate(&self) -> (r: Style)
        ensures
            r == *self,
    {
        match self {
            Style::ASCII => Style::ASCII,
            Style::Block => Style::Block,
            Style::Balloon => Style::Balloon,
            Style::Custom(s) => Style::Custom(s.clone()),
        }
    }
}

/// Appends the characters of `s`, in order.
pub fn push_str_chars(out: &mut Vec<char>, s: &str)
    ensures
        final(out)@ == old(out)@ + s@,
{
    let len = s.unicode_len();
    let mut i: usize = 0;
    while i < len
        invariant
            len == s@.len(),
            i <= len,
            out@ == old(out)@ + s@.subrange(0, i as int),
        decreases len - i,
    {
        let c = s.get_char(i);
        out.push(c);
        assert(s@.subrange(0, i + 1) =~= s@.subrange(0, i as int).push(c));
        i = i + 1;
    }
    assert(s@.subrange(0, len as int) =~= s@);
}

} // verus!

use vstd::prelude::*;

verus! {

/// The three preset glyph ramps, ordered from emptiest to densest.
#[derive(Clone, Copy, Debug, PartialEq, Eq)]
pub enum AsciiPattern {
    Acerola,
    Me,
    Custom,
}

impl AsciiPattern {
    /// The glyphs of the ramp, index 0 darkest.
    pub open spec fn ramp(self) -> Seq<char> {
        match self {
            AsciiPattern::Acerola => seq![' ', '.', ';', 'c', '?', 'o', 'P', '#', '@', '\u{2588}'],
            AsciiPattern::Me => seq![' ', '.', '-', '+', '*', '%', '#', '&', '@', '\u{2588}'],
            AsciiPattern::Custom => seq![' ', '.', '-', '+', '*', '%', '#', '?', '&', '@', '\u{2588}'],
        }
    }

    pub fn pattern(&self) -> (r: Vec<char>)
        ensures
            r@ == self.ramp(),
            2 <= r@.len() <= 11,
    {
        let r = match self {
            AsciiPattern::Acerola => vec![' ', '.', ';', 'c', '?', 'o', 'P', '#', '@', '\u{2588}'],
            AsciiPattern::Me => vec![' ', '.', '-', '+', '*', '%', '#', '&', '@', '\u{2588}'],
            AsciiPattern::Custom => vec![' ', '.', '-', '+', '*', '%', '#', '?', '&', '@', '\u{2588}'],
        };
        assert(r@ =~= self.ramp());
        r
    }
}

} // verus!

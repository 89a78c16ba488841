//! Border weights and the horizontal lines drawn with them.
use vstd::prelude::*;

verus! {

/// A weight of line.
#[derive(Clone, Copy, Debug, PartialEq, Eq, Structural)]
pub enum Border {
    /// The light border: `┌───┐`, `│`, `└───┘`.
    Light,
    /// The heavy border: `┏━━━┓`, `┃`, `┗━━━┛`.
    Heavy,
}

/// `n` copies of `glyph`.
pub open spec fn rule(glyph: char, n: nat) -> Seq<char> {
    Seq::new(n, |i: int| glyph)
}

impl Border {
    /// The glyph of a horizontal line of this weight.
    pub open spec fn bar(self) -> char {
        match self {
            Border::Heavy => '━',
            Border::Light => '─',
        }
    }

    /// The glyph of a vertical side of this weight.
    pub open spec fn side(self) -> char {
        match self {
            Border::Heavy => '┃',
            Border::Light => '│',
        }
    }

    /// The top line: a space, the left corner, `width` bars, the right corner.
    pub open spec fn head_view(self, width: nat) -> Seq<char> {
        match self {
            Border::Heavy => seq![' ', '┏'] + rule('━', width) + seq!['┓'],
            Border::Light => seq![' ', '┌'] + rule('─', width) + seq!['┐'],
        }
    }

    /// The bottom line: a space, the left corner, `width` bars, the right corner.
    pub open spec fn end_view(self, width: nat) -> Seq<char> {
        match self {
            Border::Heavy => seq![' ', '┗'] + rule('━', width) + seq!['┛'],
            Border::Light => seq![' ', '└'] + rule('─', width) + seq!['┘'],
        }
    }

    /// The glyph of a vertical side, as an executable value.
    pub fn side_glyph(&self) -> (r: char)
        ensures
            r == self.side(),
    {
        match self {
            Border::Heavy => '┃',
            Border::Light => '│',
        }
    }

    /// The characters of a line of `width` bars.
    pub fn bar_chars(&self, width: usize) -> (r: Vec<char>)
        ensures
            r@ == rule(self.bar(), width as nat),
    {
        let glyph = match self {
            Border::Heavy => '━',
            Border::Light => '─',
        };
        let mut r: Vec<char> = Vec::new();
        let mut i: usize = 0;
        while i < width
            invariant
                i <= width,
                glyph == self.bar(),
                r@ == rule(glyph, i as nat),
            decreases width - i,
        {
            r.push(glyph);
            i = i + 1;
            assert(r@ =~= rule(glyph, i as nat));
        }
        r
    }

    /// The characters of the top line of a card `width` columns wide.
    pub fn head_chars(&self, width: usize) -> (r: Vec<char>)
        ensures
            r@ == self.head_view(width as nat),
    {
        let (left, right) = match self {
            Border::Heavy => ('┏', '┓'),
            Border::Light => ('┌', '┐'),
        };
        let bars = self.bar_chars(width);
        let mut r: Vec<char> = Vec::new();
        r.push(' ');
        r.push(left);
        crate::text::append_chars(&mut r, &bars);
        r.push(right);
        assert(r@ =~= self.head_view(width as nat));
        r
    }

    /// The characters of the bottom line of a card `width` columns wide.
    pub fn end_chars(&self, width: usize) -> (r: Vec<char>)
        ensures
            r@ == self.end_view(width as nat),
    {
        let (left, right) = match self {
            Border::Heavy => ('┗', '┛'),
            Border::Light => ('└', '┘'),
        };
        let bars = self.bar_chars(width);
        let mut r: Vec<char> = Vec::new();
        r.push(' ');
        r.push(left);
        crate::text::append_chars(&mut r, &bars);
        r.push(right);
        assert(r@ =~= self.end_view(width as nat));
        r
    }

    /// A horizontal line of `width` bars of this weight.
    pub fn line(&self, width: usize) -> (r: String)
        ensures
            r@ == rule(self.bar(), width as nat),
    {
        let v = self.bar_chars(width);
        crate::text::text_from(&v)
    }

    /// The top line of a card `width` columns wide.
    pub fn head(&self, width: usize) -> (r: String)
        ensures
            r@ == self.head_view(width as nat),
    {
        let v = self.head_chars(width);
        crate::text::text_from(&v)
    }

    /// The bottom line of a card `width` columns wide, ending the card with
    /// a line feed.
    pub fn end(&self, width: usize) -> (r: String)
        ensures
            r@ == self.end_view(width as nat) + seq!['\n'],
    {
        let mut v = self.end_chars(width);
        v.push('\n');
        crate::text::text_from(&v)
    }
}

} // verus!

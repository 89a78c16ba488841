//! Display width: terminal columns taken by a string once its style
//! sequences are removed.
use vstd::prelude::*;
use crate::pattern::{closes_style, compile, erase_matches, strip_from, unstyled, STYLE_PATTERN};
use crate::text::{spaces, text_chars};

verus! {

/// The column count that unicode-width's tables give to a character at or
/// above U+00A0.
pub uninterp spec fn table_columns(c: char) -> usize;

/// Columns of one character: printable ASCII takes one, other control
/// characters have none, the rest is looked up in the tables.
pub open spec fn glyph_columns(c: char) -> Option<usize> {
    if (c as u32) < 0x7f {
        if (c as u32) >= 0x20 {
            Some(1)
        } else {
            None
        }
    } else if (c as u32) >= 0xa0 {
        Some(table_columns(c))
    } else {
        None
    }
}

/// Columns of one character in a text: a control character takes one
/// column, as other ASCII characters do, except a line feed, which takes none.
pub open spec fn columns(c: char) -> nat {
    match glyph_columns(c) {
        Some(n) => n as nat,
        None => if c == '\n' {
            0
        } else {
            1
        },
    }
}

/// Columns of a sequence of characters, nothing stripped.
pub open spec fn cells(s: Seq<char>) -> nat
    decreases s.len(),
{
    if s.len() == 0 {
        0
    } else {
        cells(s.drop_last()) + columns(s.last())
    }
}

/// Display width: the columns of `s` once its style sequences are removed.
pub open spec fn display_cells(s: Seq<char>) -> nat {
    cells(unstyled(s))
}

/// Relies on unicode-width's `UnicodeWidthChar::width`: `None` below U+0020
/// and from U+007F to U+009F, one column for the rest of ASCII, otherwise
/// the table value, which is at most three. Characters of East Asian Width
/// Ambiguous count as one column; the box-drawing characters U+2500 to
/// U+254B and the bullet U+2022 are such characters.
#[verifier::external_body]
pub(crate) fn char_width(c: char) -> (r: Option<usize>)
    ensures
        (c as u32) < 0x20 ==> r is None,
        0x20 <= (c as u32) < 0x7f ==> r == Some(1usize),
        0x7f <= (c as u32) < 0xa0 ==> r is None,
        (c as u32) >= 0xa0 ==> r == Some(table_columns(c)),
        r matches Some(n) ==> n <= 3,
        (0x2500 <= (c as u32) <= 0x254b || (c as u32) == 0x2022) ==> r == Some(1usize),
{
    unicode_width::UnicodeWidthChar::width(c)
}

pub proof fn lemma_cells_append(a: Seq<char>, b: Seq<char>)
    ensures
        cells(a + b) == cells(a) + cells(b),
    decreases b.len(),
{
    if b.len() == 0 {
        assert(a + b =~= a);
    } else {
        assert((a + b).drop_last() =~= a + b.drop_last());
        lemma_cells_append(a, b.drop_last());
    }
}

pub proof fn lemma_cells_short(a: char, b: char, c: char)
    ensures
        cells(seq![a]) == columns(a),
        cells(seq![a, b]) == columns(a) + columns(b),
        cells(seq![a, b, c]) == columns(a) + columns(b) + columns(c),
{
    assert(cells(Seq::<char>::empty()) == 0);
    assert(seq![a].drop_last() =~= Seq::<char>::empty());
    assert(seq![a].last() == a);
    assert(cells(seq![a]) == columns(a));
    assert(seq![a, b].drop_last() =~= seq![a]);
    assert(seq![a, b].last() == b);
    assert(cells(seq![a, b]) == columns(a) + columns(b));
    assert(seq![a, b, c].drop_last() =~= seq![a, b]);
    assert(seq![a, b, c].last() == c);
}

pub proof fn lemma_cells_spaces(n: nat)
    ensures
        cells(spaces(n)) == n,
    decreases n,
{
    if n > 0 {
        assert(spaces(n).drop_last() =~= spaces((n - 1) as nat));
        lemma_cells_spaces((n - 1) as nat);
    }
}

/// `s` holds no escape character.
pub open spec fn no_escape(s: Seq<char>) -> bool {
    forall|i: int| 0 <= i < s.len() ==> s[i] != '\x1b'
}

/// `s` holds neither an escape character nor an `m`: appended to any text it
/// can neither begin nor end a style sequence.
pub open spec fn inert(s: Seq<char>) -> bool {
    forall|i: int| 0 <= i < s.len() ==> s[i] != '\x1b' && s[i] != 'm'
}

/// The parameters of a style sequence: no `m` and no line feed.
pub open spec fn style_params(p: Seq<char>) -> bool {
    forall|i: int| 0 <= i < p.len() ==> p[i] != 'm' && p[i] != '\n'
}

/// The style sequence `ESC [ p m`.
pub open spec fn style_seq(p: Seq<char>) -> Seq<char> {
    seq!['\x1b', '['] + p + seq!['m']
}

/// The style sequences of `ps`, one after the other.
pub open spec fn style_run(ps: Seq<Seq<char>>) -> Seq<char>
    decreases ps.len(),
{
    if ps.len() == 0 {
        Seq::empty()
    } else {
        style_seq(ps[0]) + style_run(ps.drop_first())
    }
}

pub proof fn lemma_closes_append(b: Seq<char>, c: Seq<char>)
    requires
        forall|i: int| 0 <= i < c.len() ==> c[i] != 'm',
    ensures
        closes_style(b + c) == closes_style(b),
    decreases b.len() + c.len(),
{
    if b.len() == 0 {
        assert(b + c =~= c);
        if c.len() > 0 {
            lemma_closes_append(b, c.drop_first());
            assert(b + c.drop_first() =~= c.drop_first());
        }
    } else {
        assert((b + c).drop_first() =~= b.drop_first() + c);
        lemma_closes_append(b.drop_first(), c);
    }
}

pub proof fn lemma_strip_plain(s: Seq<char>)
    requires
        no_escape(s),
    ensures
        strip_from(s, false) == s,
    decreases s.len(),
{
    if s.len() > 0 {
        lemma_strip_plain(s.drop_first());
        assert(s =~= seq![s[0]] + s.drop_first());
    }
}

/// A prefix without escape characters passes through unchanged.
pub proof fn lemma_unstyled_plain_prefix(a: Seq<char>, b: Seq<char>)
    requires
        no_escape(a),
    ensures
        unstyled(a + b) == a + unstyled(b),
    decreases a.len(),
{
    if a.len() == 0 {
        assert(a + b =~= b);
    } else {
        assert((a + b).drop_first() =~= a.drop_first() + b);
        lemma_unstyled_plain_prefix(a.drop_first(), b);
        assert(a =~= seq![a[0]] + a.drop_first());
        assert((a + b)[0] == a[0]);
    }
}

/// An inert suffix passes through unchanged, whatever precedes it.
pub proof fn lemma_strip_inert_suffix(b: Seq<char>, c: Seq<char>, inside: bool)
    requires
        inert(c),
        inside ==> closes_style(b),
    ensures
        strip_from(b + c, inside) == strip_from(b, inside) + c,
    decreases b.len(),
{
    if b.len() == 0 {
        assert(b + c =~= c);
        lemma_strip_plain(c);
        assert(Seq::<char>::empty() + c =~= c);
    } else {
        let bc = b + c;
        assert(bc.drop_first() =~= b.drop_first() + c);
        assert(bc[0] == b[0]);
        if inside {
            if b[0] != 'm' {
                assert(closes_style(b.drop_first()));
            }
            lemma_strip_inert_suffix(b.drop_first(), c, b[0] != 'm');
        } else {
            if b.len() >= 2 {
                assert(bc.subrange(2, bc.len() as int) =~= b.subrange(2, b.len() as int) + c);
                lemma_closes_append(b.subrange(2, b.len() as int), c);
            } else {
                if bc.len() >= 2 {
                    assert(bc.subrange(2, bc.len() as int) =~= Seq::<char>::empty() + c.subrange(1, c.len() as int));
                    lemma_closes_append(Seq::<char>::empty(), c.subrange(1, c.len() as int));
                }
            }
            let opens = b.len() >= 2 && b[0] == '\x1b' && b[1] == '[' && closes_style(b.subrange(2, b.len() as int));
            if opens {
                assert(b.drop_first().subrange(1, b.drop_first().len() as int) =~= b.subrange(2, b.len() as int));
                assert(closes_style(b.drop_first()));
                lemma_strip_inert_suffix(b.drop_first(), c, true);
            } else {
                lemma_strip_inert_suffix(b.drop_first(), c, false);
                assert(seq![b[0]] + (strip_from(b.drop_first(), false) + c) =~= (seq![b[0]] + strip_from(b.drop_first(), false)) + c);
            }
        }
    }
}

pub proof fn lemma_unstyled_inert_suffix(b: Seq<char>, c: Seq<char>)
    requires
        inert(c),
    ensures
        unstyled(b + c) == unstyled(b) + c,
{
    lemma_strip_inert_suffix(b, c, false);
}

/// Inside a style sequence, everything up to and including its `m` is dropped.
proof fn lemma_strip_params(p: Seq<char>, rest: Seq<char>)
    requires
        style_params(p),
    ensures
        strip_from(p + seq!['m'] + rest, true) == strip_from(rest, false),
    decreases p.len(),
{
    let s = p + seq!['m'] + rest;
    if p.len() == 0 {
        assert(s.drop_first() =~= rest);
    } else {
        assert(s.drop_first() =~= p.drop_first() + seq!['m'] + rest);
        lemma_strip_params(p.drop_first(), rest);
    }
}

proof fn lemma_params_close(p: Seq<char>, rest: Seq<char>)
    requires
        style_params(p),
    ensures
        closes_style(p + seq!['m'] + rest),
    decreases p.len(),
{
    let s = p + seq!['m'] + rest;
    if p.len() > 0 {
        assert(s.drop_first() =~= p.drop_first() + seq!['m'] + rest);
        lemma_params_close(p.drop_first(), rest);
    }
}

/// A leading style sequence is removed entirely.
pub proof fn lemma_unstyled_style_prefix(p: Seq<char>, rest: Seq<char>)
    requires
        style_params(p),
    ensures
        unstyled(style_seq(p) + rest) == unstyled(rest),
{
    let s = style_seq(p) + rest;
    assert(s.subrange(2, s.len() as int) =~= p + seq!['m'] + rest);
    lemma_params_close(p, rest);
    assert(s.drop_first() =~= seq!['['] + (p + seq!['m'] + rest));
    assert(s.drop_first().drop_first() =~= p + seq!['m'] + rest);
    lemma_strip_params(p, rest);
    assert(s[0] == '\x1b' && s[1] == '[');
    assert(strip_from(s, false) == strip_from(s.drop_first(), true));
    assert(s.drop_first()[0] == '[');
    assert(strip_from(s.drop_first(), true) == strip_from(s.drop_first().drop_first(), true));
}

pub proof fn lemma_unstyled_style_run(ps: Seq<Seq<char>>, rest: Seq<char>)
    requires
        forall|k: int| 0 <= k < ps.len() ==> style_params(#[trigger] ps[k]),
    ensures
        unstyled(style_run(ps) + rest) == unstyled(rest),
    decreases ps.len(),
{
    if ps.len() > 0 {
        assert(style_run(ps) + rest =~= style_seq(ps[0]) + (style_run(ps.drop_first()) + rest));
        lemma_unstyled_style_prefix(ps[0], style_run(ps.drop_first()) + rest);
        lemma_unstyled_style_run(ps.drop_first(), rest);
    }
}

/// Styling does not change the width: plain text wrapped in any style
/// sequences, before and after it, has the display width of the text alone.
pub proof fn lemma_styling_keeps_width(t: Seq<char>, before: Seq<Seq<char>>, after: Seq<Seq<char>>)
    requires
        no_escape(t),
        forall|k: int| 0 <= k < before.len() ==> style_params(#[trigger] before[k]),
        forall|k: int| 0 <= k < after.len() ==> style_params(#[trigger] after[k]),
    ensures
        display_cells(style_run(before) + t + style_run(after)) == display_cells(t),
{
    assert(style_run(before) + t + style_run(after) =~= style_run(before) + (t + style_run(after)));
    lemma_unstyled_style_run(before, t + style_run(after));
    lemma_unstyled_plain_prefix(t, style_run(after));
    assert(style_run(after) =~= style_run(after) + Seq::<char>::empty());
    lemma_unstyled_style_run(after, Seq::<char>::empty());
    assert(unstyled(Seq::<char>::empty()) =~= Seq::<char>::empty());
    assert(t + Seq::<char>::empty() =~= t);
    lemma_strip_plain(t);
}

/// Columns of a plain character sequence, summed in a wide integer so that
/// no length can overflow it.
fn count_cells(s: &Vec<char>) -> (r: u128)
    ensures
        r == cells(s@),
{
    let mut total: u128 = 0;
    let mut i: usize = 0;
    while i < s.len()
        invariant
            i <= s.len(),
            total == cells(s@.subrange(0, i as int)),
            total <= 3 * i,
        decreases s.len() - i,
    {
        let w = char_width(s[i]);
        assert(s@.subrange(0, i + 1 as int).drop_last() =~= s@.subrange(0, i as int));
        match w {
            Some(n) => {
                total = total + n as u128;
            },
            None => {
                if s[i] != '\n' {
                    total = total + 1;
                }
            },
        }
        i = i + 1;
    }
    assert(s@.subrange(0, s@.len() as int) =~= s@);
    total
}

/// Display width of `s`, exact.
pub(crate) fn measure(s: &str) -> (r: u128)
    ensures
        r == display_cells(s@),
{
    match compile(STYLE_PATTERN) {
        Ok(p) => {
            let plain = erase_matches(&p, s);
            let chars = text_chars(plain.as_str());
            count_cells(&chars)
        },
        Err(_) => 0,
    }
}

/// Display width of `s`: its style sequences count for nothing and each
/// other character for its terminal columns. A width beyond `usize::MAX`
/// comes out as `usize::MAX`.
pub fn terminal_string_width(s: &str) -> (r: usize)
    ensures
        display_cells(s@) <= usize::MAX ==> r == display_cells(s@),
        display_cells(s@) > usize::MAX ==> r == usize::MAX,
{
    let w = measure(s);
    if w > usize::MAX as u128 {
        usize::MAX
    } else {
        w as usize
    }
}

} // verus!

//! Layout primitives: padding, expansion at a marker, word wrapping and
//! bulleted lists, each measured in display width.
use vstd::prelude::*;
use crate::text::{append_chars, append_spaces, spaces, text_chars, text_from};
use crate::width::{
    display_cells, lemma_cells_append, lemma_cells_spaces, lemma_strip_plain,
    lemma_unstyled_inert_suffix, lemma_unstyled_plain_prefix, measure, no_escape,
};

verus! {

/// Where padding goes.
#[derive(Clone, Copy, Debug, PartialEq, Eq, Structural)]
pub enum Alignment {
    /// Text first, spaces after it.
    Left,
    /// Spaces first, text after them.
    Right,
    /// Spaces on both sides, the smaller half before the text.
    Center,
}

/// `s` padded with spaces to display width `width`; unchanged when it is
/// already that wide or wider.
pub open spec fn padded(s: Seq<char>, width: nat, align: Alignment) -> Seq<char> {
    if display_cells(s) >= width {
        s
    } else {
        let gap = (width - display_cells(s)) as nat;
        match align {
            Alignment::Left => s + spaces(gap),
            Alignment::Right => spaces(gap) + s,
            Alignment::Center => spaces(gap / 2) + s + spaces((gap - gap / 2) as nat),
        }
    }
}

/// Spaces around a text add their count to its display width.
pub proof fn lemma_width_around_spaces(a: nat, s: Seq<char>, b: nat)
    ensures
        display_cells(spaces(a) + s + spaces(b)) == a + display_cells(s) + b,
{
    lemma_unstyled_inert_suffix(spaces(a) + s, spaces(b));
    lemma_unstyled_plain_prefix(spaces(a), s);
    lemma_cells_append(spaces(a) + crate::pattern::unstyled(s), spaces(b));
    lemma_cells_append(spaces(a), crate::pattern::unstyled(s));
    lemma_cells_spaces(a);
    lemma_cells_spaces(b);
}

/// Padding reaches the width exactly, or leaves a wider text as it is:
/// `display_width(pad(s, w, a)) == max(w, display_width(s))`.
pub proof fn lemma_padded_width(s: Seq<char>, width: nat, align: Alignment)
    ensures
        display_cells(padded(s, width, align)) == if display_cells(s) >= width {
            display_cells(s)
        } else {
            width
        },
{
    if display_cells(s) < width {
        let gap = (width - display_cells(s)) as nat;
        match align {
            Alignment::Left => {
                assert(s + spaces(gap) =~= spaces(0) + s + spaces(gap));
                lemma_width_around_spaces(0, s, gap);
            },
            Alignment::Right => {
                assert(spaces(gap) + s =~= spaces(gap) + s + spaces(0));
                lemma_width_around_spaces(gap, s, 0);
            },
            Alignment::Center => {
                lemma_width_around_spaces(gap / 2, s, (gap - gap / 2) as nat);
            },
        }
    }
}

/// Padding twice is padding once: `pad(pad(s, w, a), w, a) == pad(s, w, a)`.
pub proof fn lemma_pad_idempotent(s: Seq<char>, width: nat, align: Alignment)
    ensures
        padded(padded(s, width, align), width, align) == padded(s, width, align),
{
    lemma_padded_width(s, width, align);
}

/// The characters of `s` padded to display width `width`.
pub fn pad_chars(s: &str, width: usize, align: Alignment) -> (r: Vec<char>)
    ensures
        r@ == padded(s@, width as nat, align),
{
    let w = measure(s);
    let chars = text_chars(s);
    if w >= width as u128 {
        return chars;
    }
    let gap: usize = width - w as usize;
    let mut r: Vec<char> = Vec::new();
    match align {
        Alignment::Left => {
            append_chars(&mut r, &chars);
            append_spaces(&mut r, gap);
        },
        Alignment::Right => {
            append_spaces(&mut r, gap);
            append_chars(&mut r, &chars);
        },
        Alignment::Center => {
            append_spaces(&mut r, gap / 2);
            append_chars(&mut r, &chars);
            append_spaces(&mut r, gap - gap / 2);
        },
    }
    assert(r@ =~= padded(s@, width as nat, align));
    r
}

/// Pads `s` with spaces to display width `width`, placing them as `align`
/// says; a text already that wide or wider is returned unchanged.
pub fn pad(s: &str, width: usize, align: Alignment) -> (r: String)
    ensures
        r@ == padded(s@, width as nat, align),
{
    let v = pad_chars(s, width, align);
    text_from(&v)
}

/// Index of the first expansion marker `{}` at or after `i`, or the length
/// of `s` when there is none.
pub open spec fn marker_from(s: Seq<char>, i: nat) -> nat
    decreases s.len() - i,
{
    if i + 1 >= s.len() {
        s.len()
    } else if s[i as int] == '{' && s[i + 1 as int] == '}' {
        i
    } else {
        marker_from(s, i + 1)
    }
}

/// `s` without any expansion marker, markers found from the left.
pub open spec fn without_markers(s: Seq<char>) -> Seq<char>
    decreases s.len(),
{
    if s.len() == 0 {
        s
    } else if s.len() >= 2 && s[0] == '{' && s[1] == '}' {
        without_markers(s.subrange(2, s.len() as int))
    } else {
        seq![s[0]] + without_markers(s.drop_first())
    }
}

/// The text before the first marker; all of `s` when it has none.
pub open spec fn before_marker(s: Seq<char>) -> Seq<char> {
    s.subrange(0, marker_from(s, 0) as int)
}

/// The text after the first marker, further markers dropped; empty when
/// `s` has no marker.
pub open spec fn after_marker(s: Seq<char>) -> Seq<char> {
    let m = marker_from(s, 0);
    if m + 2 <= s.len() {
        without_markers(s.subrange(m + 2 as int, s.len() as int))
    } else {
        Seq::empty()
    }
}

/// `text` expanded at its first marker to display width `width`: spaces in
/// place of the marker push the rest to the right edge. A text without a
/// marker is padded on the right; one too wide loses its markers and
/// nothing else.
pub open spec fn expanded(text: Seq<char>, width: nat) -> Seq<char> {
    let left = before_marker(text);
    let right = after_marker(text);
    if display_cells(left) + display_cells(right) > width {
        left + right
    } else {
        left + spaces((width - display_cells(left) - display_cells(right)) as nat) + right
    }
}

proof fn lemma_marker_bound(s: Seq<char>, i: nat)
    ensures
        i <= marker_from(s, i) <= s.len() || (i >= s.len() && marker_from(s, i) == s.len()),
        marker_from(s, i) < s.len() ==> marker_from(s, i) + 2 <= s.len(),
    decreases s.len() - i,
{
    if i + 1 < s.len() && !(s[i as int] == '{' && s[i + 1 as int] == '}') {
        lemma_marker_bound(s, i + 1);
    }
}

/// `s` holds no expansion marker.
pub open spec fn marker_free(s: Seq<char>) -> bool {
    forall|i: int| 0 <= i < s.len() - 1 ==> !(#[trigger] s[i] == '{' && s[i + 1] == '}')
}

/// Style sequences of `s` are all complete: whatever follows `s` is
/// stripped as it would be on its own.
pub open spec fn style_closed(s: Seq<char>) -> bool {
    forall|x: Seq<char>| #[trigger] crate::pattern::unstyled(s + x) == crate::pattern::unstyled(s)
        + crate::pattern::unstyled(x)
}

proof fn lemma_marker_after_prefix(left: Seq<char>, rest: Seq<char>, i: nat)
    requires
        marker_free(left),
        i <= left.len(),
        rest.len() >= 2,
        rest[0] == '{',
        rest[1] == '}',
    ensures
        marker_from(left + rest, i) == left.len(),
    decreases left.len() - i,
{
    let s = left + rest;
    if i < left.len() {
        assert(s[i as int] == left[i as int]);
        if i + 1 < left.len() {
            assert(s[i + 1 as int] == left[i + 1 as int]);
        } else {
            assert(s[i + 1 as int] == '{');
        }
        lemma_marker_after_prefix(left, rest, i + 1);
    }
}

proof fn lemma_without_markers_free(s: Seq<char>)
    requires
        marker_free(s),
    ensures
        without_markers(s) == s,
    decreases s.len(),
{
    if s.len() > 0 {
        assert(marker_free(s.drop_first()));
        lemma_without_markers_free(s.drop_first());
        assert(s =~= seq![s[0]] + s.drop_first());
    }
}

/// Expansion is exact: a line made of `left`, one marker and `right`, whose
/// parts fit in `width` together, expands to exactly `width` columns.
pub proof fn lemma_expand_exact(left: Seq<char>, right: Seq<char>, width: nat)
    requires
        marker_free(left),
        marker_free(right),
        style_closed(left),
        display_cells(left) + display_cells(right) <= width,
    ensures
        display_cells(expanded(left + seq!['{', '}'] + right, width)) == width,
{
    let text = left + seq!['{', '}'] + right;
    assert(text =~= left + (seq!['{', '}'] + right));
    lemma_marker_after_prefix(left, seq!['{', '}'] + right, 0);
    assert(before_marker(text) =~= left);
    assert(text.subrange(left.len() + 2 as int, text.len() as int) =~= right);
    lemma_without_markers_free(right);
    let gap = (width - display_cells(left) - display_cells(right)) as nat;
    let sp = spaces(gap);
    assert(expanded(text, width) =~= left + (sp + right));
    lemma_unstyled_plain_prefix(sp, right);
    lemma_cells_append(sp, crate::pattern::unstyled(right));
    lemma_cells_append(crate::pattern::unstyled(left), sp + crate::pattern::unstyled(right));
    lemma_cells_spaces(gap);
}

/// A line whose parts fit expands to exactly `width` columns.
pub proof fn lemma_expanded_width(text: Seq<char>, width: nat)
    requires
        style_closed(before_marker(text)),
        display_cells(before_marker(text)) + display_cells(after_marker(text)) <= width,
    ensures
        display_cells(expanded(text, width)) == width,
{
    let left = before_marker(text);
    let right = after_marker(text);
    let gap = (width - display_cells(left) - display_cells(right)) as nat;
    let sp = spaces(gap);
    assert(expanded(text, width) =~= left + (sp + right));
    lemma_unstyled_plain_prefix(sp, right);
    lemma_cells_append(sp, crate::pattern::unstyled(right));
    lemma_cells_append(crate::pattern::unstyled(left), sp + crate::pattern::unstyled(right));
    lemma_cells_spaces(gap);
}

/// Index of the first marker in `s`, or its length.
fn find_marker(s: &Vec<char>) -> (r: usize)
    ensures
        r == marker_from(s@, 0),
{
    let mut i: usize = 0;
    while i < s.len() && i + 1 < s.len()
        invariant
            i <= s.len(),
            marker_from(s@, 0) == marker_from(s@, i as nat),
        decreases s.len() - i,
    {
        if s[i] == '{' && s[i + 1] == '}' {
            return i;
        }
        i = i + 1;
    }
    s.len()
}

/// The characters of `s` from `start` on, markers dropped.
fn strip_markers(s: &Vec<char>, start: usize) -> (r: Vec<char>)
    requires
        start <= s.len(),
    ensures
        r@ == without_markers(s@.subrange(start as int, s.len() as int)),
{
    let mut r: Vec<char> = Vec::new();
    let mut i: usize = start;
    let n = s.len();
    while i < n
        invariant
            start <= i <= n,
            n == s.len(),
            r@ + without_markers(s@.subrange(i as int, n as int)) == without_markers(
                s@.subrange(start as int, n as int),
            ),
        decreases n - i,
    {
        let rest = Ghost(s@.subrange(i as int, n as int));
        if i + 1 < n && s[i] == '{' && s[i + 1] == '}' {
            assert(rest@.subrange(2, rest@.len() as int) =~= s@.subrange(i + 2, n as int));
            i = i + 2;
        } else {
            assert(rest@.drop_first() =~= s@.subrange(i + 1, n as int));
            r.push(s[i]);
            i = i + 1;
            assert(r@ + without_markers(s@.subrange(i as int, n as int)) =~= r@.drop_last() + (seq![
                rest@[0],
            ] + without_markers(rest@.drop_first())));
        }
    }
    assert(s@.subrange(n as int, n as int) =~= Seq::<char>::empty());
    assert(r@ + Seq::<char>::empty() =~= r@);
    r
}

/// Expands `text` at its first `{}` marker to display width `width`: the
/// text before the marker stays at the left, the text after it moves to the
/// right edge, further markers are dropped. Without a marker the text is
/// padded on the right. When the two parts together are wider than
/// `width`, they are returned joined, without markers and unpadded.
pub fn expand(text: &str, width: usize) -> (r: String)
    ensures
        r@ == expanded(text@, width as nat),
{
    let chars = text_chars(text);
    let m = find_marker(&chars);
    proof {
        lemma_marker_bound(chars@, 0);
    }
    let mut left: Vec<char> = Vec::new();
    let mut i: usize = 0;
    while i < m
        invariant
            i <= m <= chars.len(),
            left@ == chars@.subrange(0, i as int),
        decreases m - i,
    {
        left.push(chars[i]);
        i = i + 1;
    }
    let right = if m < chars.len() {
        strip_markers(&chars, m + 2)
    } else {
        Vec::new()
    };
    let left_text = text_from(&left);
    let right_text = text_from(&right);
    let lw = measure(left_text.as_str());
    let rw = measure(right_text.as_str());
    let mut out: Vec<char> = Vec::new();
    append_chars(&mut out, &left);
    if lw <= width as u128 && rw <= width as u128 - lw {
        append_spaces(&mut out, (width as u128 - lw - rw) as usize);
    }
    append_chars(&mut out, &right);
    assert(out@ =~= expanded(text@, width as nat));
    text_from(&out)
}

/// The lines textwrap breaks `text` into at `width` columns.
pub uninterp spec fn wrapped_lines(text: Seq<char>, width: usize) -> Seq<Seq<char>>;

/// Relies on `textwrap::wrap` with first-fit breaking, words separated at
/// ASCII spaces and never split at hyphens: which lines come out depends on
/// the text and the width alone, and there is always at least one (each
/// line of the text gives at least one).
#[verifier::external_body]
fn break_lines(text: &str, width: usize) -> (r: Vec<String>)
    requires
        width > 0,
    ensures
        r@.len() == wrapped_lines(text@, width).len(),
        r@.len() >= 1,
        forall|i: int| 0 <= i < r@.len() ==> #[trigger] r@[i]@ == wrapped_lines(text@, width)[i],
{
    let options = textwrap::Options::new(width)
        .wrap_algorithm(textwrap::WrapAlgorithm::FirstFit)
        .word_separator(textwrap::WordSeparator::AsciiSpace)
        .word_splitter(textwrap::WordSplitter::NoHyphenation);
    textwrap::wrap(text, options).into_iter().map(|line| line.into_owned()).collect()
}

/// The character sequences of `rows`.
pub open spec fn row_views(rows: Seq<Vec<char>>) -> Seq<Seq<char>> {
    rows.map_values(|v: Vec<char>| v@)
}

/// Each row between `left` and `right`.
pub open spec fn framed(rows: Seq<Seq<char>>, left: Seq<char>, right: Seq<char>) -> Seq<Seq<char>> {
    rows.map_values(|r: Seq<char>| left + r + right)
}

/// The rows joined by line feeds.
pub open spec fn joined(rows: Seq<Seq<char>>) -> Seq<char>
    decreases rows.len(),
{
    if rows.len() == 0 {
        Seq::empty()
    } else if rows.len() == 1 {
        rows[0]
    } else {
        joined(rows.drop_last()) + seq!['\n'] + rows.last()
    }
}

/// Each row of a wrapped paragraph is at least `width` columns wide, and
/// exactly `width` wide wherever the wrapped line it holds fits in `width`.
pub proof fn lemma_text_rows_width(text: Seq<char>, width: usize)
    ensures
        forall|k: int|
            0 <= k < text_rows(text, width).len() ==> display_cells(#[trigger] text_rows(text, width)[k])
                >= width,
        forall|k: int|
            0 <= k < text_rows(text, width).len() && (text.len() == 0 || display_cells(
                wrapped_lines(text, width)[k],
            ) <= width) ==> display_cells(#[trigger] text_rows(text, width)[k]) == width,
{
    let rows = text_rows(text, width);
    assert forall|k: int| 0 <= k < rows.len() implies display_cells(#[trigger] rows[k]) >= width && ((
    text.len() == 0 || display_cells(wrapped_lines(text, width)[k]) <= width) ==> display_cells(rows[k])
        == width) by {
        if text.len() == 0 {
            assert(no_escape(spaces(width as nat)));
            lemma_strip_plain(spaces(width as nat));
            lemma_cells_spaces(width as nat);
        } else {
            lemma_padded_width(wrapped_lines(text, width)[k], width as nat, Alignment::Left);
        }
    }
}

/// The rows a paragraph takes at `width` columns: its wrapped lines, each
/// padded to the width; an empty paragraph takes one blank row.
pub open spec fn text_rows(text: Seq<char>, width: usize) -> Seq<Seq<char>> {
    if text.len() == 0 {
        seq![spaces(width as nat)]
    } else {
        wrapped_lines(text, width).map_values(|l: Seq<char>| padded(l, width as nat, Alignment::Left))
    }
}

/// The rows of `text` wrapped and padded to `width` columns.
pub fn wrap_rows(text: &str, width: usize) -> (r: Vec<Vec<char>>)
    requires
        width > 0,
    ensures
        row_views(r@) == text_rows(text@, width),
{
    let mut rows: Vec<Vec<char>> = Vec::new();
    if text.is_empty() {
        let mut blank: Vec<char> = Vec::new();
        append_spaces(&mut blank, width);
        rows.push(blank);
        assert(row_views(rows@) =~= text_rows(text@, width));
        return rows;
    }
    let lines = break_lines(text, width);
    let ghost expected = text_rows(text@, width);
    let mut i: usize = 0;
    while i < lines.len()
        invariant
            i <= lines.len(),
            lines@.len() == wrapped_lines(text@, width).len(),
            forall|k: int| 0 <= k < lines@.len() ==> #[trigger] lines@[k]@ == wrapped_lines(text@, width)[k],
            text@.len() > 0,
            expected == text_rows(text@, width),
            row_views(rows@) == expected.subrange(0, i as int),
        decreases lines.len() - i,
    {
        let row = pad_chars(lines[i].as_str(), width, Alignment::Left);
        assert(lines@[i as int]@ == wrapped_lines(text@, width)[i as int]);
        assert(row@ == expected[i as int]);
        let ghost prev = rows@;
        rows.push(row);
        assert(row_views(rows@) =~= row_views(prev).push(row@));
        i = i + 1;
        assert(row_views(rows@) =~= expected.subrange(0, i as int));
    }
    assert(expected.subrange(0, i as int) =~= expected);
    rows
}

/// The rows framed between `left` and `right` and joined by line feeds.
pub fn join_framed(rows: &Vec<Vec<char>>, left: &Vec<char>, right: &Vec<char>) -> (r: String)
    ensures
        r@ == joined(framed(row_views(rows@), left@, right@)),
{
    let ghost all = framed(row_views(rows@), left@, right@);
    let mut out: Vec<char> = Vec::new();
    let mut i: usize = 0;
    while i < rows.len()
        invariant
            i <= rows.len(),
            all == framed(row_views(rows@), left@, right@),
            out@ == joined(all.subrange(0, i as int)),
        decreases rows.len() - i,
    {
        if i > 0 {
            out.push('\n');
        }
        append_chars(&mut out, left);
        append_chars(&mut out, &rows[i]);
        append_chars(&mut out, right);
        i = i + 1;
        assert(all.subrange(0, i as int).drop_last() =~= all.subrange(0, i - 1 as int));
        assert(out@ =~= joined(all.subrange(0, i as int)));
    }
    assert(all.subrange(0, i as int) =~= all);
    text_from(&out)
}

/// Word-wraps `text` at `width` columns, pads each line to that width, puts
/// `border` on both sides of it and joins the lines by line feeds. An empty
/// text gives one blank line.
pub fn wrap(text: &str, width: usize, border: &str) -> (r: String)
    requires
        width > 0,
    ensures
        r@ == joined(framed(text_rows(text@, width), border@, border@)),
{
    let rows = wrap_rows(text, width);
    let b = text_chars(border);
    join_framed(&rows, &b, &b)
}

/// The rows of one list item at `width` columns: its lines wrapped two
/// columns narrower, the first after the bullet and a space, the others
/// after two spaces.
pub open spec fn item_rows(item: Seq<char>, bullet: char, width: usize) -> Seq<Seq<char>> {
    let lines = wrapped_lines(item, (width - 2) as usize);
    Seq::new(
        lines.len(),
        |k: int|
            (if k == 0 {
                seq![bullet, ' ']
            } else {
                seq![' ', ' ']
            }) + padded(lines[k], (width - 2) as nat, Alignment::Left),
    )
}

/// The rows of all items, in order.
pub open spec fn items_rows(items: Seq<Seq<char>>, bullet: char, width: usize) -> Seq<Seq<char>>
    decreases items.len(),
{
    if items.len() == 0 {
        Seq::empty()
    } else {
        items_rows(items.drop_last(), bullet, width) + item_rows(items.last(), bullet, width)
    }
}

/// The rows of a bulleted list; a list without rows takes one blank row.
pub open spec fn list_rows(items: Seq<Seq<char>>, bullet: char, width: usize) -> Seq<Seq<char>> {
    let rows = items_rows(items, bullet, width);
    if rows.len() == 0 {
        seq![spaces(width as nat)]
    } else {
        rows
    }
}

/// The views of a list of strings.
pub open spec fn string_views(items: Seq<String>) -> Seq<Seq<char>> {
    items.map_values(|s: String| s@)
}

/// The rows of a bulleted list of `items` at `width` columns.
pub fn list_rows_of(items: &Vec<String>, bullet: char, width: usize) -> (r: Vec<Vec<char>>)
    requires
        width > 2,
    ensures
        row_views(r@) == list_rows(string_views(items@), bullet, width),
{
    let inner: usize = width - 2;
    let ghost views = string_views(items@);
    let mut rows: Vec<Vec<char>> = Vec::new();
    let mut i: usize = 0;
    while i < items.len()
        invariant
            i <= items.len(),
            inner == width - 2,
            inner > 0,
            views == string_views(items@),
            row_views(rows@) == items_rows(views.subrange(0, i as int), bullet, width),
        decreases items.len() - i,
    {
        let lines = break_lines(items[i].as_str(), inner);
        let ghost before = row_views(rows@);
        let ghost item_view = items@[i as int]@;
        let mut k: usize = 0;
        while k < lines.len()
            invariant
                k <= lines.len(),
                i < items.len(),
                inner == width - 2,
                inner > 0,
                item_view == items@[i as int]@,
                lines@.len() == wrapped_lines(item_view, inner).len(),
                forall|j: int| 0 <= j < lines@.len() ==> #[trigger] lines@[j]@ == wrapped_lines(item_view, inner)[j],
                row_views(rows@) == before + item_rows(item_view, bullet, width).subrange(0, k as int),
            decreases lines.len() - k,
        {
            let mut row: Vec<char> = Vec::new();
            if k == 0 {
                row.push(bullet);
                row.push(' ');
            } else {
                row.push(' ');
                row.push(' ');
            }
            let body = pad_chars(lines[k].as_str(), inner, Alignment::Left);
            append_chars(&mut row, &body);
            assert(lines@[k as int]@ == wrapped_lines(item_view, inner)[k as int]);
            assert(row@ =~= item_rows(item_view, bullet, width)[k as int]);
            let ghost prev = rows@;
            rows.push(row);
            assert(row_views(rows@) =~= row_views(prev).push(row@));
            k = k + 1;
            assert(row_views(rows@) =~= before + item_rows(item_view, bullet, width).subrange(0, k as int));
        }
        i = i + 1;
        assert(views.subrange(0, i as int).drop_last() =~= views.subrange(0, i - 1 as int));
        assert(item_rows(item_view, bullet, width).subrange(0, k as int) =~= item_rows(item_view, bullet, width));
    }
    assert(views.subrange(0, i as int) =~= views);
    if rows.len() == 0 {
        let mut blank: Vec<char> = Vec::new();
        append_spaces(&mut blank, width);
        rows.push(blank);
        assert(row_views(rows@) =~= list_rows(views, bullet, width));
    }
    rows
}

/// A bulleted list of `items`, each word-wrapped two columns narrower than
/// `width`: its first line after `bullet` and a space, the next ones after
/// two spaces, all padded and put between two `border`s, joined by line
/// feeds. A list without items gives one blank line.
pub fn listify(items: &Vec<String>, bullet: char, width: usize, border: &str) -> (r: String)
    requires
        width > 2,
    ensures
        r@ == joined(framed(list_rows(string_views(items@), bullet, width), border@, border@)),
{
    let rows = list_rows_of(items, bullet, width);
    let b = text_chars(border);
    join_framed(&rows, &b, &b)
}

/// The items joined by `sep`, a separator being put only once something
/// non-empty has been written.
pub open spec fn concatenated(items: Seq<Seq<char>>, sep: Seq<char>) -> Seq<char>
    decreases items.len(),
{
    if items.len() == 0 {
        Seq::empty()
    } else {
        let acc = concatenated(items.drop_last(), sep);
        if acc.len() > 0 {
            acc + sep + items.last()
        } else {
            items.last()
        }
    }
}

/// Concatenates `items`, putting `sep` before each item once the result so
/// far is not empty.
pub fn concat(items: &Vec<String>, sep: &str) -> (r: String)
    ensures
        r@ == concatenated(string_views(items@), sep@),
{
    let ghost views = string_views(items@);
    let sep_chars = text_chars(sep);
    let mut out: Vec<char> = Vec::new();
    let mut i: usize = 0;
    while i < items.len()
        invariant
            i <= items.len(),
            views == string_views(items@),
            sep_chars@ == sep@,
            out@ == concatenated(views.subrange(0, i as int), sep@),
        decreases items.len() - i,
    {
        let item = text_chars(items[i].as_str());
        if out.len() > 0 {
            append_chars(&mut out, &sep_chars);
        }
        append_chars(&mut out, &item);
        i = i + 1;
        assert(views.subrange(0, i as int).drop_last() =~= views.subrange(0, i - 1 as int));
        assert(out@ =~= concatenated(views.subrange(0, i as int), sep@));
    }
    assert(views.subrange(0, i as int) =~= views);
    text_from(&out)
}

/// What `char::to_uppercase` turns `c` into.
pub uninterp spec fn uppercase(c: char) -> Seq<char>;

/// Relies on std's `char::to_uppercase`: the upper case of a character, one
/// or more characters, depending on the character alone.
#[verifier::external_body]
fn upper(c: char) -> (r: String)
    ensures
        r@ == uppercase(c),
{
    c.to_uppercase().collect()
}

/// `s` with its first character in upper case.
pub open spec fn capitalized(s: Seq<char>) -> Seq<char> {
    if s.len() == 0 {
        s
    } else {
        uppercase(s[0]) + s.drop_first()
    }
}

/// Puts the first character of `s` in upper case, which may give several
/// characters; the rest stays as it is.
pub fn capitalize(s: &str) -> (r: String)
    ensures
        r@ == capitalized(s@),
{
    let chars = text_chars(s);
    if chars.len() == 0 {
        return String::new();
    }
    let head = upper(chars[0]);
    let mut out = text_chars(head.as_str());
    let mut i: usize = 1;
    while i < chars.len()
        invariant
            1 <= i <= chars.len(),
            chars@ == s@,
            out@ == uppercase(s@[0]) + s@.subrange(1, i as int),
        decreases chars.len() - i,
    {
        out.push(chars[i]);
        i = i + 1;
        assert(out@ =~= uppercase(s@[0]) + s@.subrange(1, i as int));
    }
    assert(s@.subrange(1, s@.len() as int) =~= s@.drop_first());
    text_from(&out)
}

} // verus!

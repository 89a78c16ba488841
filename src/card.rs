//! Cards: a border, a width and an ordered list of elements, rendered as a
//! box-drawn block of text.
//!
//! ```text
//!  ┏━━━━━━━━━━━━━━━━━━━━━━━━━━━━━━━━━━━━━━━━┓
//!  ┃ +bonus                                 ┃
//!  ┣━━━━━━━━━━━━━━━━━━━━━━━━━━━━━━━━━━━━━━━━┫
//!  ┃ It modifies your effectiveness in a    ┃
//!  ┃ specified situation.                   ┃
//!  ┗━━━━━━━━━━━━━━━━━━━━━━━━━━━━━━━━━━━━━━━━┛
//! ```
use vstd::prelude::*;
use crate::border::{rule, Border};
use crate::layout::{
    after_marker, before_marker, expand, expanded, framed, item_rows, items_rows, join_framed,
    joined, lemma_expanded_width, lemma_padded_width, list_rows, list_rows_of, padded, row_views,
    string_views, style_closed, text_rows, wrap_rows, wrapped_lines, Alignment,
};
use crate::text::{append_chars, spaces, text_chars};
use crate::width::{
    cells, columns, display_cells, lemma_cells_append, lemma_cells_short, lemma_cells_spaces,
    lemma_strip_plain, lemma_unstyled_inert_suffix, lemma_unstyled_plain_prefix, no_escape,
    table_columns,
};

verus! {

/// An element of a card.
#[derive(Clone, Debug, PartialEq, Eq)]
pub enum Element {
    /// A light rule across the card: `┠───┨`.
    LightLine,
    /// A heavy rule across the card: `┣━━━┫`.
    HeavyLine,
    /// A paragraph, word-wrapped to the card's interior.
    Text(String),
    /// A single line, expanded at its `{}` marker to the card's interior.
    Line(String),
    /// Items shown as a bulleted list.
    List(Vec<String>),
}

/// What an element holds, as sequences of characters.
pub enum ElementView {
    LightLine,
    HeavyLine,
    Text(Seq<char>),
    Line(Seq<char>),
    List(Seq<Seq<char>>),
}

impl View for Element {
    type V = ElementView;

    open spec fn view(&self) -> ElementView {
        match self {
            Element::LightLine => ElementView::LightLine,
            Element::HeavyLine => ElementView::HeavyLine,
            Element::Text(s) => ElementView::Text(s@),
            Element::Line(s) => ElementView::Line(s@),
            Element::List(v) => ElementView::List(string_views(v@)),
        }
    }
}

/// A card under construction or ready to render.
#[derive(Clone, Debug, PartialEq, Eq)]
pub struct Card {
    elements: Vec<Element>,
    border: Border,
    width: usize,
}

/// The bullet of card lists.
pub const BULLET: char = '•';

/// What `str::trim` leaves of `s`.
pub uninterp spec fn trimmed(s: Seq<char>) -> Seq<char>;

/// Relies on std's `str::trim`: `s` without its leading and trailing white
/// space, which depends on `s` alone.
#[verifier::external_body]
fn trim_text(s: &str) -> (r: String)
    ensures
        r@ == trimmed(s@),
{
    s.trim().to_string()
}

/// The left side of a content row: a space, the side glyph, a space.
pub open spec fn left_side(border: Border) -> Seq<char> {
    seq![' ', border.side(), ' ']
}

/// The right side of a content row: a space and the side glyph.
pub open spec fn right_side(border: Border) -> Seq<char> {
    seq![' ', border.side()]
}

/// Some element is a list.
pub open spec fn holds_list(elements: Seq<ElementView>) -> bool {
    exists|i: int| 0 <= i < elements.len() && (#[trigger] elements[i]) is List
}

/// The rows one element takes on a card of `width` columns.
pub open spec fn element_rows(e: ElementView, border: Border, width: usize) -> Seq<Seq<char>> {
    let inner = (width - 2) as usize;
    match e {
        ElementView::LightLine => seq![seq![' ', '┠'] + rule('─', width as nat) + seq!['┨']],
        ElementView::HeavyLine => seq![seq![' ', '┣'] + rule('━', width as nat) + seq!['┫']],
        ElementView::Text(s) => framed(text_rows(s, inner), left_side(border), right_side(border)),
        ElementView::Line(l) => seq![left_side(border) + expanded(l, inner as nat) + right_side(border)],
        ElementView::List(v) => framed(
            list_rows(v, BULLET, inner),
            left_side(border),
            right_side(border),
        ),
    }
}

/// The rows of all elements, in order.
pub open spec fn body_rows(elements: Seq<ElementView>, border: Border, width: usize) -> Seq<Seq<char>>
    decreases elements.len(),
{
    if elements.len() == 0 {
        Seq::empty()
    } else {
        body_rows(elements.drop_last(), border, width) + element_rows(elements.last(), border, width)
    }
}

/// The rows of a card of `elements`: top line, elements, bottom line.
pub open spec fn card_rows(elements: Seq<ElementView>, border: Border, width: usize) -> Seq<Seq<char>> {
    seq![border.head_view(width as nat)] + body_rows(elements, border, width) + seq![
        border.end_view(width as nat),
    ]
}

impl Card {
    /// The elements, in order.
    pub closed spec fn elements_view(&self) -> Seq<ElementView> {
        self.elements@.map_values(|e: Element| e@)
    }

    /// The border weight.
    pub closed spec fn border_view(&self) -> Border {
        self.border
    }

    /// The width: columns between the two vertical sides.
    pub closed spec fn width_view(&self) -> usize {
        self.width
    }

    /// A card is at least three columns wide, and five when it holds a list:
    /// an interior with room for a bullet, its space and one column.
    pub open spec fn wf(&self) -> bool {
        &&& self.width_view() >= 3
        &&& holds_list(self.elements_view()) ==> self.width_view() >= 5
    }

    /// The rows of the rendered card: top line, elements, bottom line.
    pub open spec fn rows(&self) -> Seq<Seq<char>> {
        card_rows(self.elements_view(), self.border_view(), self.width_view())
    }

    /// An empty card with the heavy border, 40 columns wide.
    pub fn new() -> (r: Self)
        ensures
            r.wf(),
            r.elements_view().len() == 0,
            r.border_view() == Border::Heavy,
            r.width_view() == 40,
    {
        Card { elements: Vec::new(), border: Border::Heavy, width: 40 }
    }

    /// The elements, in order.
    pub fn elements(&self) -> (r: &Vec<Element>)
        ensures
            r@.map_values(|e: Element| e@) == self.elements_view(),
    {
        &self.elements
    }

    /// The border weight.
    pub fn border(&self) -> (r: Border)
        ensures
            r == self.border_view(),
    {
        self.border
    }

    /// The width.
    pub fn width(&self) -> (r: usize)
        ensures
            r == self.width_view(),
    {
        self.width
    }

    /// The same card, `width` columns wide.
    pub fn with_width(self, width: usize) -> (r: Self)
        requires
            width >= 3,
            holds_list(self.elements_view()) ==> width >= 5,
        ensures
            r.wf(),
            r.elements_view() == self.elements_view(),
            r.border_view() == self.border_view(),
            r.width_view() == width,
    {
        Card { width, ..self }
    }

    /// The same card with the light border.
    pub fn with_light_border(self) -> (r: Self)
        ensures
            self.wf() ==> r.wf(),
            r.elements_view() == self.elements_view(),
            r.border_view() == Border::Light,
            r.width_view() == self.width_view(),
    {
        Card { border: Border::Light, ..self }
    }

    /// The same card with the heavy border.
    pub fn with_heavy_border(self) -> (r: Self)
        ensures
            self.wf() ==> r.wf(),
            r.elements_view() == self.elements_view(),
            r.border_view() == Border::Heavy,
            r.width_view() == self.width_view(),
    {
        Card { border: Border::Heavy, ..self }
    }

    /// The same card with `e` appended.
    fn push(self, e: Element) -> (r: Self)
        ensures
            r.elements_view() == self.elements_view().push(e@),
            holds_list(r.elements_view()) == (holds_list(self.elements_view()) || e@ is List),
            r.border_view() == self.border_view(),
            r.width_view() == self.width_view(),
    {
        let mut c = self;
        c.elements.push(e);
        assert(c.elements@.map_values(|e: Element| e@) =~= self.elements@.map_values(|e: Element| e@).push(e@));
        proof {
            let before = self.elements_view();
            let after = c.elements_view();
            if holds_list(after) {
                let i = choose|i: int| 0 <= i < after.len() && (#[trigger] after[i]) is List;
                if i < before.len() {
                    assert(before[i] == after[i]);
                }
            }
            if holds_list(before) {
                let i = choose|i: int| 0 <= i < before.len() && (#[trigger] before[i]) is List;
                assert(after[i] == before[i]);
            }
            if e@ is List {
                assert(after[before.len() as int] == e@);
            }
        }
        c
    }

    /// Appends a light rule.
    pub fn light_line(self) -> (r: Self)
        ensures
            self.wf() ==> r.wf(),
            r.elements_view() == self.elements_view().push(ElementView::LightLine),
            r.border_view() == self.border_view(),
            r.width_view() == self.width_view(),
    {
        self.push(Element::LightLine)
    }

    /// Appends a light rule when `pred` holds.
    pub fn light_line_if(self, pred: bool) -> (r: Self)
        ensures
            self.wf() ==> r.wf(),
            r.elements_view() == if pred {
                self.elements_view().push(ElementView::LightLine)
            } else {
                self.elements_view()
            },
            r.border_view() == self.border_view(),
            r.width_view() == self.width_view(),
    {
        if pred {
            self.light_line()
        } else {
            self
        }
    }

    /// Appends a heavy rule.
    pub fn heavy_line(self) -> (r: Self)
        ensures
            self.wf() ==> r.wf(),
            r.elements_view() == self.elements_view().push(ElementView::HeavyLine),
            r.border_view() == self.border_view(),
            r.width_view() == self.width_view(),
    {
        self.push(Element::HeavyLine)
    }

    /// Appends a paragraph: `s` without leading and trailing white space.
    pub fn text(self, s: &str) -> (r: Self)
        ensures
            self.wf() ==> r.wf(),
            r.elements_view() == self.elements_view().push(ElementView::Text(trimmed(s@))),
            r.border_view() == self.border_view(),
            r.width_view() == self.width_view(),
    {
        let t = trim_text(s);
        self.push(Element::Text(t))
    }

    /// Appends a paragraph when `pred` holds.
    pub fn text_if(self, s: &str, pred: bool) -> (r: Self)
        ensures
            self.wf() ==> r.wf(),
            !pred ==> r.elements_view() == self.elements_view(),
            pred ==> r.elements_view() == self.elements_view().push(ElementView::Text(trimmed(s@))),
            r.border_view() == self.border_view(),
            r.width_view() == self.width_view(),
    {
        if pred {
            self.text(s)
        } else {
            self
        }
    }

    /// Appends a single line, expanded at its `{}` marker when rendered.
    pub fn line(self, s: &str) -> (r: Self)
        ensures
            self.wf() ==> r.wf(),
            r.elements_view() == self.elements_view().push(ElementView::Line(s@)),
            r.border_view() == self.border_view(),
            r.width_view() == self.width_view(),
    {
        self.push(Element::Line(s.to_owned()))
    }

    /// Appends a single line when `pred` holds.
    pub fn line_if(self, s: &str, pred: bool) -> (r: Self)
        ensures
            self.wf() ==> r.wf(),
            !pred ==> r.elements_view() == self.elements_view(),
            pred ==> r.elements_view() == self.elements_view().push(ElementView::Line(s@)),
            r.border_view() == self.border_view(),
            r.width_view() == self.width_view(),
    {
        if pred {
            self.line(s)
        } else {
            self
        }
    }

    /// Appends a bulleted list of `list`.
    pub fn list(self, list: Vec<String>) -> (r: Self)
        requires
            self.width_view() >= 5,
        ensures
            self.wf() ==> r.wf(),
            r.elements_view() == self.elements_view().push(ElementView::List(string_views(list@))),
            r.border_view() == self.border_view(),
            r.width_view() == self.width_view(),
    {
        self.push(Element::List(list))
    }
}

/// Appends each of `src` between `left` and `right` to `rows`.
fn push_framed(rows: &mut Vec<Vec<char>>, src: &Vec<Vec<char>>, left: &Vec<char>, right: &Vec<char>)
    ensures
        row_views(final(rows)@) == row_views(old(rows)@) + framed(row_views(src@), left@, right@),
{
    let ghost start = row_views(rows@);
    let ghost all = framed(row_views(src@), left@, right@);
    let mut i: usize = 0;
    while i < src.len()
        invariant
            i <= src.len(),
            all == framed(row_views(src@), left@, right@),
            row_views(rows@) == start + all.subrange(0, i as int),
        decreases src.len() - i,
    {
        let mut row: Vec<char> = Vec::new();
        append_chars(&mut row, left);
        append_chars(&mut row, &src[i]);
        append_chars(&mut row, right);
        let ghost prev = rows@;
        rows.push(row);
        assert(row_views(rows@) =~= row_views(prev).push(row@));
        i = i + 1;
        assert(row_views(rows@) =~= start + all.subrange(0, i as int));
    }
    assert(all.subrange(0, i as int) =~= all);
}

/// Appends one row to `rows`.
fn push_row(rows: &mut Vec<Vec<char>>, row: Vec<char>)
    ensures
        row_views(final(rows)@) == row_views(old(rows)@).push(row@),
{
    let ghost prev = rows@;
    rows.push(row);
    assert(row_views(rows@) =~= row_views(prev).push(row@));
}

impl Card {
    /// Renders the card: the top line, each element's rows in order, the
    /// bottom line, joined by line feeds. Content rows stand between a space,
    /// the side glyph and a space on the left, and a space and the side glyph
    /// on the right.
    pub fn to_display_string(&self) -> (r: String)
        requires
            self.wf(),
        ensures
            r@ == joined(self.rows()),
    {
        let width = self.width;
        let inner: usize = width - 2;
        let side = self.border.side_glyph();
        let mut left: Vec<char> = Vec::new();
        left.push(' ');
        left.push(side);
        left.push(' ');
        let mut right: Vec<char> = Vec::new();
        right.push(' ');
        right.push(side);
        assert(left@ =~= left_side(self.border));
        assert(right@ =~= right_side(self.border));
        let mut rows: Vec<Vec<char>> = Vec::new();
        push_row(&mut rows, self.border.head_chars(width));
        let ghost head = seq![self.border.head_view(width as nat)];
        let mut i: usize = 0;
        while i < self.elements.len()
            invariant
                i <= self.elements.len(),
                self.wf(),
                width == self.width,
                inner == width - 2,
                left@ == left_side(self.border),
                right@ == right_side(self.border),
                head == seq![self.border.head_view(width as nat)],
                row_views(rows@) == head + body_rows(
                    self.elements_view().subrange(0, i as int),
                    self.border,
                    width,
                ),
            decreases self.elements.len() - i,
        {
            let ghost before = row_views(rows@);
            match &self.elements[i] {
                Element::LightLine => {
                    let mut row: Vec<char> = Vec::new();
                    row.push(' ');
                    row.push('┠');
                    let bars = Border::Light.bar_chars(width);
                    append_chars(&mut row, &bars);
                    row.push('┨');
                    assert(row@ =~= seq![' ', '┠'] + rule('─', width as nat) + seq!['┨']);
                    push_row(&mut rows, row);
                    assert(row_views(rows@) =~= before + element_rows(self.elements@[i as int]@, self.border, width));
                },
                Element::HeavyLine => {
                    let mut row: Vec<char> = Vec::new();
                    row.push(' ');
                    row.push('┣');
                    let bars = Border::Heavy.bar_chars(width);
                    append_chars(&mut row, &bars);
                    row.push('┫');
                    assert(row@ =~= seq![' ', '┣'] + rule('━', width as nat) + seq!['┫']);
                    push_row(&mut rows, row);
                    assert(row_views(rows@) =~= before + element_rows(self.elements@[i as int]@, self.border, width));
                },
                Element::Text(s) => {
                    let body = wrap_rows(s.as_str(), inner);
                    push_framed(&mut rows, &body, &left, &right);
                    assert(row_views(rows@) =~= before + element_rows(self.elements@[i as int]@, self.border, width));
                },
                Element::Line(l) => {
                    let body = expand(l.as_str(), inner);
                    let mut row: Vec<char> = Vec::new();
                    append_chars(&mut row, &left);
                    let chars = text_chars(body.as_str());
                    append_chars(&mut row, &chars);
                    append_chars(&mut row, &right);
                    push_row(&mut rows, row);
                    assert(row@ =~= left_side(self.border) + expanded(l@, inner as nat) + right_side(self.border));
                    assert(row_views(rows@) =~= before + element_rows(self.elements@[i as int]@, self.border, width));
                },
                Element::List(v) => {
                    assert(self.elements_view()[i as int] == self.elements@[i as int]@);
                    assert(holds_list(self.elements_view()));
                    let body = list_rows_of(v, crate::card::BULLET, inner);
                    push_framed(&mut rows, &body, &left, &right);
                    assert(row_views(rows@) =~= before + element_rows(self.elements@[i as int]@, self.border, width));
                },
            }
            proof {
                assert(self.elements_view().subrange(0, i + 1 as int).drop_last() =~= self.elements_view().subrange(
                    0,
                    i as int,
                ));
                assert(self.elements_view()[i as int] == self.elements@[i as int]@);
            }
            i = i + 1;
        }
        assert(self.elements_view().subrange(0, i as int) =~= self.elements_view());
        push_row(&mut rows, self.border.end_chars(width));
        let empty: Vec<char> = Vec::new();
        let out = join_framed(&rows, &empty, &empty);
        assert(framed(row_views(rows@), empty@, empty@) =~= self.rows());
        out
    }
}

/// The frame glyphs and the bullet take one column each, as unicode-width's
/// tables have it for box-drawing characters and the bullet.
pub open spec fn frame_glyphs_narrow() -> bool {
    &&& table_columns('┏') == 1 && table_columns('┓') == 1
    &&& table_columns('┗') == 1 && table_columns('┛') == 1
    &&& table_columns('┌') == 1 && table_columns('┐') == 1
    &&& table_columns('└') == 1 && table_columns('┘') == 1
    &&& table_columns('━') == 1 && table_columns('─') == 1
    &&& table_columns('┃') == 1 && table_columns('│') == 1
    &&& table_columns('┠') == 1 && table_columns('┨') == 1
    &&& table_columns('┣') == 1 && table_columns('┫') == 1
    &&& table_columns(BULLET) == 1
}

/// Measures the frame glyphs and the bullet: afterwards each is known to
/// take one column, as `lemma_rows_uniform` asks.
pub fn confirm_frame_glyphs()
    ensures
        frame_glyphs_narrow(),
{
    crate::width::char_width('┏');
    crate::width::char_width('┓');
    crate::width::char_width('┗');
    crate::width::char_width('┛');
    crate::width::char_width('┌');
    crate::width::char_width('┐');
    crate::width::char_width('└');
    crate::width::char_width('┘');
    crate::width::char_width('━');
    crate::width::char_width('─');
    crate::width::char_width('┃');
    crate::width::char_width('│');
    crate::width::char_width('┠');
    crate::width::char_width('┨');
    crate::width::char_width('┣');
    crate::width::char_width('┫');
    crate::width::char_width(BULLET);
}

/// Every line is at most `width` columns wide.
pub open spec fn lines_fit(lines: Seq<Seq<char>>, width: nat) -> bool {
    forall|k: int| 0 <= k < lines.len() ==> display_cells(#[trigger] lines[k]) <= width
}

/// The content of `e` fits the interior of a card `width` columns wide:
/// wrapped lines fit, a single line's parts fit together and its first part
/// leaves no style sequence open, list items fit beside their bullet.
pub open spec fn element_fits(e: ElementView, width: usize) -> bool {
    let inner = (width - 2) as usize;
    match e {
        ElementView::Text(s) => s.len() == 0 || lines_fit(wrapped_lines(s, inner), inner as nat),
        ElementView::Line(l) => style_closed(before_marker(l)) && display_cells(before_marker(l))
            + display_cells(after_marker(l)) <= inner,
        ElementView::List(v) => inner >= 3 && forall|i: int|
            0 <= i < v.len() ==> lines_fit(
                wrapped_lines(#[trigger] v[i], (inner - 2) as usize),
                (inner - 2) as nat,
            ),
        _ => true,
    }
}

impl Card {
    /// Every element's content fits the interior.
    pub open spec fn fits(&self) -> bool {
        forall|i: int| 0 <= i < self.elements_view().len() ==> element_fits(
            #[trigger] self.elements_view()[i],
            self.width_view(),
        )
    }
}

proof fn lemma_cells_rule(g: char, n: nat)
    ensures
        cells(rule(g, n)) == n * columns(g),
    decreases n,
{
    if n > 0 {
        assert(rule(g, n).drop_last() =~= rule(g, (n - 1) as nat));
        assert(rule(g, n).last() == g);
        lemma_cells_rule(g, (n - 1) as nat);
        let m = (n - 1) as nat;
        assert(cells(rule(g, n)) == cells(rule(g, m)) + columns(g));
        assert(n * columns(g) == m * columns(g) + columns(g)) by (nonlinear_arith)
            requires
                n == m + 1,
        ;
    } else {
        assert(cells(rule(g, n)) == 0);
    }
}

/// A line of a corner or junction, `n` bars and another one is `n + 3` wide.
proof fn lemma_bar_row_width(a: char, bar: char, b: char, n: nat)
    requires
        columns(a) == 1,
        columns(bar) == 1,
        columns(b) == 1,
        a != '\x1b',
        bar != '\x1b',
        b != '\x1b',
    ensures
        display_cells(seq![' ', a] + rule(bar, n) + seq![b]) == n + 3,
{
    let row = seq![' ', a] + rule(bar, n) + seq![b];
    assert(no_escape(row)) by {
        assert forall|i: int| 0 <= i < row.len() implies row[i] != '\x1b' by {
            if i >= 2 && i < n + 2 {
                assert(row[i] == rule(bar, n)[i - 2]);
            }
        }
    }
    lemma_strip_plain(row);
    lemma_cells_append(seq![' ', a] + rule(bar, n), seq![b]);
    lemma_cells_append(seq![' ', a], rule(bar, n));
    lemma_cells_rule(bar, n);
    lemma_cells_short(' ', a, b);
    lemma_cells_short(b, a, a);
}

/// A content row is as wide as its content plus five columns of frame.
proof fn lemma_content_row_width(border: Border, x: Seq<char>)
    requires
        frame_glyphs_narrow(),
    ensures
        display_cells(left_side(border) + x + right_side(border)) == display_cells(x) + 5,
{
    let l = left_side(border);
    let r = right_side(border);
    lemma_unstyled_inert_suffix(l + x, r);
    lemma_unstyled_plain_prefix(l, x);
    let u = crate::pattern::unstyled(x);
    lemma_cells_append(l + u, r);
    lemma_cells_append(l, u);
    lemma_cells_short(' ', border.side(), ' ');
}

proof fn lemma_spaces_width(n: nat)
    ensures
        display_cells(spaces(n)) == n,
{
    assert(no_escape(spaces(n)));
    lemma_strip_plain(spaces(n));
    lemma_cells_spaces(n);
}

proof fn lemma_item_rows_width(item: Seq<char>, width: usize)
    requires
        frame_glyphs_narrow(),
        width >= 3,
        lines_fit(wrapped_lines(item, (width - 2) as usize), (width - 2) as nat),
    ensures
        forall|k: int| 0 <= k < item_rows(item, BULLET, width).len() ==> display_cells(
            #[trigger] item_rows(item, BULLET, width)[k],
        ) == width,
{
    let lines = wrapped_lines(item, (width - 2) as usize);
    assert forall|k: int| 0 <= k < item_rows(item, BULLET, width).len() implies display_cells(
        #[trigger] item_rows(item, BULLET, width)[k],
    ) == width by {
        let p = padded(lines[k], (width - 2) as nat, Alignment::Left);
        let prefix = if k == 0 {
            seq![BULLET, ' ']
        } else {
            seq![' ', ' ']
        };
        assert(item_rows(item, BULLET, width)[k] == prefix + p);
        assert(display_cells(lines[k]) <= (width - 2) as nat);
        lemma_padded_width(lines[k], (width - 2) as nat, Alignment::Left);
        lemma_unstyled_plain_prefix(prefix, p);
        lemma_cells_append(prefix, crate::pattern::unstyled(p));
        lemma_cells_short(BULLET, ' ', ' ');
        lemma_cells_short(' ', ' ', ' ');
    }
}

proof fn lemma_items_rows_width(items: Seq<Seq<char>>, width: usize)
    requires
        frame_glyphs_narrow(),
        width >= 3,
        forall|i: int| 0 <= i < items.len() ==> lines_fit(
            wrapped_lines(#[trigger] items[i], (width - 2) as usize),
            (width - 2) as nat,
        ),
    ensures
        forall|k: int| 0 <= k < items_rows(items, BULLET, width).len() ==> display_cells(
            #[trigger] items_rows(items, BULLET, width)[k],
        ) == width,
    decreases items.len(),
{
    if items.len() > 0 {
        let init = items.drop_last();
        assert forall|i: int| 0 <= i < init.len() implies lines_fit(
            wrapped_lines(#[trigger] init[i], (width - 2) as usize),
            (width - 2) as nat,
        ) by {
            assert(init[i] == items[i]);
        }
        lemma_items_rows_width(init, width);
        assert(lines_fit(wrapped_lines(items[items.len() - 1], (width - 2) as usize), (width - 2) as nat));
        lemma_item_rows_width(items.last(), width);
        let a = items_rows(init, BULLET, width);
        let b = item_rows(items.last(), BULLET, width);
        assert forall|k: int| 0 <= k < items_rows(items, BULLET, width).len() implies display_cells(
            #[trigger] items_rows(items, BULLET, width)[k],
        ) == width by {
            if k < a.len() {
                assert(items_rows(items, BULLET, width)[k] == a[k]);
            } else {
                assert(items_rows(items, BULLET, width)[k] == b[k - a.len()]);
            }
        }
    }
}

/// Every row of an element that fits is `width + 3` columns wide.
proof fn lemma_element_rows_width(e: ElementView, border: Border, width: usize)
    requires
        frame_glyphs_narrow(),
        width >= 3,
        element_fits(e, width),
    ensures
        forall|k: int| 0 <= k < element_rows(e, border, width).len() ==> display_cells(
            #[trigger] element_rows(e, border, width)[k],
        ) == width + 3,
{
    let inner = (width - 2) as usize;
    let rows = element_rows(e, border, width);
    assert forall|k: int| 0 <= k < rows.len() implies display_cells(#[trigger] rows[k]) == width + 3 by {
        match e {
            ElementView::LightLine => {
                lemma_bar_row_width('┠', '─', '┨', width as nat);
            },
            ElementView::HeavyLine => {
                lemma_bar_row_width('┣', '━', '┫', width as nat);
            },
            ElementView::Text(s) => {
                let tr = text_rows(s, inner);
                assert(rows[k] == left_side(border) + tr[k] + right_side(border));
                lemma_content_row_width(border, tr[k]);
                if s.len() == 0 {
                    lemma_spaces_width(inner as nat);
                } else {
                    let lines = wrapped_lines(s, inner);
                    assert(display_cells(lines[k]) <= inner);
                    lemma_padded_width(lines[k], inner as nat, Alignment::Left);
                }
            },
            ElementView::Line(l) => {
                lemma_expanded_width(l, inner as nat);
                lemma_content_row_width(border, expanded(l, inner as nat));
            },
            ElementView::List(v) => {
                let items = v;
                let lr = list_rows(items, BULLET, inner);
                assert(rows[k] == left_side(border) + lr[k] + right_side(border));
                lemma_content_row_width(border, lr[k]);
                if items_rows(items, BULLET, inner).len() == 0 {
                    lemma_spaces_width(inner as nat);
                } else {
                    assert forall|i: int| 0 <= i < items.len() implies lines_fit(
                        wrapped_lines(#[trigger] items[i], (inner - 2) as usize),
                        (inner - 2) as nat,
                    ) by {
                    }
                    lemma_items_rows_width(items, inner);
                }
            },
        }
    }
}

proof fn lemma_body_rows_width(elements: Seq<ElementView>, border: Border, width: usize)
    requires
        frame_glyphs_narrow(),
        width >= 3,
        forall|i: int| 0 <= i < elements.len() ==> element_fits(#[trigger] elements[i], width),
    ensures
        forall|k: int| 0 <= k < body_rows(elements, border, width).len() ==> display_cells(
            #[trigger] body_rows(elements, border, width)[k],
        ) == width + 3,
    decreases elements.len(),
{
    if elements.len() > 0 {
        let init = elements.drop_last();
        assert forall|i: int| 0 <= i < init.len() implies element_fits(#[trigger] init[i], width) by {
            assert(init[i] == elements[i]);
        }
        lemma_body_rows_width(init, border, width);
        assert(element_fits(elements[elements.len() - 1], width));
        lemma_element_rows_width(elements.last(), border, width);
        let a = body_rows(init, border, width);
        let b = element_rows(elements.last(), border, width);
        assert forall|k: int| 0 <= k < body_rows(elements, border, width).len() implies display_cells(
            #[trigger] body_rows(elements, border, width)[k],
        ) == width + 3 by {
            if k < a.len() {
                assert(body_rows(elements, border, width)[k] == a[k]);
            } else {
                assert(body_rows(elements, border, width)[k] == b[k - a.len()]);
            }
        }
    }
}

/// Every row of a rendered card has the same display width, the card's
/// width plus three, when its content fits and the frame glyphs take one
/// column each (which `confirm_frame_glyphs` establishes).
pub proof fn lemma_rows_uniform(card: Card)
    requires
        card.wf(),
        card.fits(),
        frame_glyphs_narrow(),
    ensures
        forall|i: int, j: int|
            0 <= i < card.rows().len() && 0 <= j < card.rows().len() ==> display_cells(
                #[trigger] card.rows()[i],
            ) == display_cells(#[trigger] card.rows()[j]),
        forall|i: int| 0 <= i < card.rows().len() ==> display_cells(#[trigger] card.rows()[i])
            == card.width_view() + 3,
{
    let w = card.width_view();
    let b = card.border_view();
    lemma_body_rows_width(card.elements_view(), b, w);
    match b {
        Border::Heavy => {
            lemma_bar_row_width('┏', '━', '┓', w as nat);
            lemma_bar_row_width('┗', '━', '┛', w as nat);
        },
        Border::Light => {
            lemma_bar_row_width('┌', '─', '┐', w as nat);
            lemma_bar_row_width('└', '─', '┘', w as nat);
        },
    }
    let body = body_rows(card.elements_view(), b, w);
    let rows = card.rows();
    assert forall|i: int| 0 <= i < rows.len() implies display_cells(#[trigger] rows[i]) == w + 3 by {
        if i == 0 {
            assert(rows[i] == b.head_view(w as nat));
        } else if i <= body.len() {
            assert(rows[i] == body[i - 1]);
        } else {
            assert(rows[i] == b.end_view(w as nat));
        }
    }
}

} // verus!

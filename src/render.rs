//! The cards of records: which fields become which elements, and how
//! names and labels are styled.
use vstd::prelude::*;
use colored::Colorize;
use crate::border::Border;
use crate::card::{card_rows, trimmed, Card, ElementView};
use crate::layout::{capitalize, capitalized, concatenated, joined, string_views};
use crate::records::{Attack, Item, ItemTag, Monster, Move, Tag};
use crate::text::{append_decimal, append_text, decimal_text, same_text, text_from};
use crate::width::{no_escape, style_params, style_seq};

verus! {

/// `out` is `text` as the `colored` crate prints it: unchanged when coloring
/// is off, otherwise between one style sequence and the reset sequence.
pub open spec fn painted(out: Seq<char>, text: Seq<char>) -> bool {
    ||| out == text
    ||| exists|p: Seq<char>| style_params(p) && out == style_seq(p) + text + style_seq(seq!['0'])
}

/// Relies on colored's `bold`, `yellow` and the `Display` of `ColoredString`:
/// the text alone when coloring is off, else `ESC [` codes (digits and `;`)
/// `m`, the text, `ESC [0m`; a text without escape characters is not changed.
#[verifier::external_body]
fn paint_heading(text: &str) -> (r: String)
    ensures
        no_escape(text@) ==> painted(r@, text@),
{
    text.bold().yellow().to_string()
}

/// Relies on colored's `on_red` and the `Display` of `ColoredString`, as for
/// headings.
#[verifier::external_body]
fn paint_on_red(text: &str) -> (r: String)
    ensures
        no_escape(text@) ==> painted(r@, text@),
{
    text.on_red().to_string()
}

/// Relies on colored's `on_blue` and the `Display` of `ColoredString`, as for
/// headings.
#[verifier::external_body]
fn paint_on_blue(text: &str) -> (r: String)
    ensures
        no_escape(text@) ==> painted(r@, text@),
{
    text.on_blue().to_string()
}

/// Relies on colored's `on_bright_white`, `black` and the `Display` of
/// `ColoredString`, as for headings.
#[verifier::external_body]
fn paint_badge(text: &str) -> (r: String)
    ensures
        no_escape(text@) ==> painted(r@, text@),
{
    text.on_bright_white().black().to_string()
}

/// Relies on colored's `on_red`, `black` and the `Display` of
/// `ColoredString`, as for headings.
#[verifier::external_body]
fn paint_alert(text: &str) -> (r: String)
    ensures
        no_escape(text@) ==> painted(r@, text@),
{
    text.on_red().black().to_string()
}

/// Each text capitalized.
pub open spec fn all_capitalized(items: Seq<Seq<char>>) -> Seq<Seq<char>> {
    items.map_values(|s: Seq<char>| capitalized(s))
}

/// Capitalizes each of `items`.
fn capitalize_all(items: &Vec<String>) -> (r: Vec<String>)
    ensures
        string_views(r@) == all_capitalized(string_views(items@)),
{
    let mut r: Vec<String> = Vec::new();
    let mut i: usize = 0;
    while i < items.len()
        invariant
            i <= items.len(),
            string_views(r@) == all_capitalized(string_views(items@)).subrange(0, i as int),
        decreases items.len() - i,
    {
        let c = capitalize(items[i].as_str());
        let ghost prev = r@;
        r.push(c);
        assert(string_views(r@) =~= string_views(prev).push(c@));
        i = i + 1;
        assert(string_views(r@) =~= all_capitalized(string_views(items@)).subrange(0, i as int));
    }
    assert(all_capitalized(string_views(items@)).subrange(0, i as int) =~= all_capitalized(
        string_views(items@),
    ));
    r
}

/// The rows of a card of `elements` rendered with the heavy border.
pub open spec fn heavy_rows(elements: Seq<ElementView>, width: usize) -> Seq<Seq<char>> {
    card_rows(elements, Border::Heavy, width)
}

// ---------------------------------------------------------------- tags

/// The elements of a tag's card under `heading`.
pub open spec fn tag_elements(heading: Seq<char>, tag: Tag) -> Seq<ElementView> {
    seq![ElementView::Line(heading), ElementView::HeavyLine, ElementView::Text(trimmed(tag.description@))]
}

impl Tag {
    /// The card of this tag under `heading`: 40 columns, heavy border.
    pub fn card_with(&self, heading: &str) -> (r: Card)
        ensures
            r.wf(),
            r.border_view() == Border::Heavy,
            r.width_view() == 40,
            r.elements_view() == tag_elements(heading@, *self),
    {
        let c = Card::new().with_width(40).line(heading).heavy_line().text(self.description.as_str());
        assert(c.elements_view() =~= tag_elements(heading@, *self));
        c
    }

    /// The card of this tag, its capitalized name styled as the heading.
    pub fn card(&self) -> (r: Card)
        ensures
            r.wf(),
            r.border_view() == Border::Heavy,
            r.width_view() == 40,
            exists|h: Seq<char>|
                (no_escape(capitalized(self.name@)) ==> painted(h, capitalized(self.name@)))
                    && r.elements_view() == tag_elements(h, *self),
    {
        let name = capitalize(self.name.as_str());
        let heading = paint_heading(name.as_str());
        self.card_with(heading.as_str())
    }

    /// The rendered card of this tag.
    pub fn render(&self) -> (r: String)
        ensures
            exists|h: Seq<char>|
                (no_escape(capitalized(self.name@)) ==> painted(h, capitalized(self.name@)))
                    && r@ == joined(heavy_rows(#[trigger] tag_elements(h, *self), 40)),
    {
        let c = self.card();
        let r = c.to_display_string();
        proof {
            let h = choose|h: Seq<char>|
                (no_escape(capitalized(self.name@)) ==> painted(h, capitalized(self.name@)))
                    && c.elements_view() == tag_elements(h, *self);
            assert(r@ == joined(heavy_rows(tag_elements(h, *self), 40)));
            assert((no_escape(capitalized(self.name@)) ==> painted(h, capitalized(self.name@)))
                && r@ == joined(heavy_rows(tag_elements(h, *self), 40)));
        }
        r
    }
}

// ---------------------------------------------------------------- monsters

/// The line of an attack: name, damage in parentheses, the marker, its
/// capitalized tags.
pub open spec fn attack_line(a: Attack) -> Seq<char> {
    a.name@ + " ("@ + a.damage@ + ") {} "@ + concatenated(all_capitalized(string_views(a.tags@)), ", "@)
}

/// The capitalized tags of a monster, comma separated.
pub open spec fn monster_tags(m: Monster) -> Seq<char> {
    concatenated(all_capitalized(string_views(m.tags@)), ", "@)
}

/// Each move of a monster followed by a full stop.
pub open spec fn monster_moves(m: Monster) -> Seq<Seq<char>> {
    string_views(m.moves@).map_values(|s: Seq<char>| s + seq!['.'])
}

/// `elements` when `cond` holds, nothing otherwise.
pub open spec fn when(cond: bool, elements: Seq<ElementView>) -> Seq<ElementView> {
    if cond {
        elements
    } else {
        Seq::empty()
    }
}

/// One line for each attack, in order.
pub open spec fn attack_lines(attacks: Seq<Attack>) -> Seq<ElementView> {
    attacks.map_values(|a: Attack| ElementView::Line(attack_line(a)))
}

/// The elements of a monster's card under `title`, its instinct after
/// `label`: the title, its attacks, its tags, its description, its
/// instinct, each present part followed by a light rule, then its moves.
pub open spec fn monster_elements(m: Monster, title: Seq<char>, label: Seq<char>) -> Seq<ElementView> {
    seq![ElementView::Line(title), ElementView::HeavyLine] + attack_lines(m.attacks@) + when(
        m.attacks@.len() > 0,
        seq![ElementView::LightLine],
    ) + when(
        monster_tags(m).len() > 0,
        seq![ElementView::Line(" {}"@ + monster_tags(m)), ElementView::LightLine],
    ) + when(
        m.description@.len() > 0,
        seq![ElementView::Text(trimmed(m.description@)), ElementView::LightLine],
    ) + when(
        m.instinct@.len() > 0,
        seq![ElementView::Line(label + " "@ + m.instinct@ + "!"@), ElementView::LightLine],
    ) + seq![ElementView::List(monster_moves(m))]
}

impl Attack {
    /// The line of this attack on a monster's card.
    pub fn line(&self) -> (r: String)
        ensures
            r@ == attack_line(*self),
    {
        let tags = capitalize_all(&self.tags);
        let joined_tags = crate::layout::concat(&tags, ", ");
        let mut v: Vec<char> = Vec::new();
        append_text(&mut v, self.name.as_str());
        append_text(&mut v, " (");
        append_text(&mut v, self.damage.as_str());
        append_text(&mut v, ") {} ");
        append_text(&mut v, joined_tags.as_str());
        assert(v@ =~= attack_line(*self));
        text_from(&v)
    }
}

/// Each of `items` followed by a full stop.
fn with_full_stops(items: &Vec<String>) -> (r: Vec<String>)
    ensures
        string_views(r@) == string_views(items@).map_values(|s: Seq<char>| s + seq!['.']),
{
    let mut r: Vec<String> = Vec::new();
    let mut i: usize = 0;
    while i < items.len()
        invariant
            i <= items.len(),
            string_views(r@) == string_views(items@).map_values(|s: Seq<char>| s + seq!['.']).subrange(
                0,
                i as int,
            ),
        decreases items.len() - i,
    {
        let mut v: Vec<char> = Vec::new();
        append_text(&mut v, items[i].as_str());
        v.push('.');
        assert(v@ == string_views(items@)[i as int] + seq!['.']);
        let s = text_from(&v);
        let ghost prev = r@;
        r.push(s);
        assert(string_views(r@) =~= string_views(prev).push(s@));
        i = i + 1;
        assert(string_views(r@) =~= string_views(items@).map_values(|s: Seq<char>| s + seq!['.']).subrange(
            0,
            i as int,
        ));
    }
    assert(string_views(items@).map_values(|s: Seq<char>| s + seq!['.']).subrange(0, i as int)
        =~= string_views(items@).map_values(|s: Seq<char>| s + seq!['.']));
    r
}

/// The hit points badge text of a monster.
pub open spec fn hp_text(m: Monster) -> Seq<char> {
    " "@ + decimal_text(m.hp as nat) + " HP "@
}

/// The armor badge text of a monster.
pub open spec fn armor_text(m: Monster) -> Seq<char> {
    " "@ + decimal_text(m.armor as nat) + " Armor "@
}

/// The title of a monster's card: its heading, the marker, then the hit
/// points and armor badges.
pub open spec fn monster_title(heading: Seq<char>, hp: Seq<char>, armor: Seq<char>) -> Seq<char> {
    heading + " {} "@ + hp + " "@ + armor
}

proof fn lemma_decimal_plain(n: nat)
    ensures
        no_escape(decimal_text(n)),
    decreases n,
{
    if n >= 10 {
        lemma_decimal_plain(n / 10);
    }
}

proof fn lemma_badge_texts_plain(m: Monster)
    ensures
        no_escape(hp_text(m)),
        no_escape(armor_text(m)),
        no_escape(" Instinct "@),
{
    reveal_strlit(" ");
    reveal_strlit(" HP ");
    reveal_strlit(" Armor ");
    reveal_strlit(" Instinct ");
    lemma_decimal_plain(m.hp as nat);
    lemma_decimal_plain(m.armor as nat);
}

impl Monster {
    /// The card of this monster under `title`, its instinct after `label`:
    /// 60 columns, heavy border.
    pub fn card_with(&self, title: &str, label: &str) -> (r: Card)
        ensures
            r.wf(),
            r.border_view() == Border::Heavy,
            r.width_view() == 60,
            r.elements_view() == monster_elements(*self, title@, label@),
    {
        let has_attack = self.attacks.len() > 0;
        let tags = capitalize_all(&self.tags);
        let tag_text = crate::layout::concat(&tags, ", ");
        let has_tags = !tag_text.as_str().is_empty();
        let mut tag_line: Vec<char> = Vec::new();
        append_text(&mut tag_line, " {}");
        append_text(&mut tag_line, tag_text.as_str());
        let tag_line = text_from(&tag_line);
        let has_description = !self.description.as_str().is_empty();
        let has_instinct = !self.instinct.as_str().is_empty();
        let mut instinct: Vec<char> = Vec::new();
        append_text(&mut instinct, label);
        append_text(&mut instinct, " ");
        append_text(&mut instinct, self.instinct.as_str());
        append_text(&mut instinct, "!");
        let instinct = text_from(&instinct);
        let moves = with_full_stops(&self.moves);
        let mut c = Card::new().with_heavy_border().with_width(60).line(title).heavy_line();
        let ghost head = c.elements_view();
        let mut k: usize = 0;
        while k < self.attacks.len()
            invariant
                k <= self.attacks@.len(),
                c.wf(),
                c.width_view() == 60,
                c.border_view() == Border::Heavy,
                c.elements_view() == head + attack_lines(self.attacks@.subrange(0, k as int)),
            decreases self.attacks.len() - k,
        {
            let line = self.attacks[k].line();
            c = c.line(line.as_str());
            k = k + 1;
            assert(c.elements_view() =~= head + attack_lines(self.attacks@.subrange(0, k as int)));
        }
        assert(self.attacks@.subrange(0, k as int) =~= self.attacks@);
        let c = c.light_line_if(has_attack);
        let c = c.line_if(tag_line.as_str(), has_tags).light_line_if(has_tags);
        let c = c.text_if(self.description.as_str(), has_description).light_line_if(has_description);
        let c = c.line_if(instinct.as_str(), has_instinct).light_line_if(has_instinct);
        let c = c.list(moves);
        assert(c.elements_view() =~= monster_elements(*self, title@, label@));
        c
    }

    /// The card of this monster: its name styled as the heading, its hit
    /// points and armor as badges, its instinct after a badge.
    pub fn card(&self) -> (r: Card)
        ensures
            r.wf(),
            r.border_view() == Border::Heavy,
            r.width_view() == 60,
            exists|h: Seq<char>, hp: Seq<char>, armor: Seq<char>, label: Seq<char>|
                (no_escape(self.name@) ==> painted(h, self.name@)) && painted(hp, hp_text(*self))
                    && painted(armor, armor_text(*self)) && painted(label, " Instinct "@)
                    && r.elements_view() == #[trigger] monster_elements(
                    *self,
                    monster_title(h, hp, armor),
                    label,
                ),
    {
        proof {
            lemma_badge_texts_plain(*self);
        }
        let mut hp: Vec<char> = Vec::new();
        append_text(&mut hp, " ");
        append_decimal(&mut hp, self.hp as u64);
        append_text(&mut hp, " HP ");
        let hp = text_from(&hp);
        let mut armor: Vec<char> = Vec::new();
        append_text(&mut armor, " ");
        append_decimal(&mut armor, self.armor as u64);
        append_text(&mut armor, " Armor ");
        let armor = text_from(&armor);
        let heading = paint_heading(self.name.as_str());
        let hp = paint_on_red(hp.as_str());
        let armor = paint_on_blue(armor.as_str());
        let mut title: Vec<char> = Vec::new();
        append_text(&mut title, heading.as_str());
        append_text(&mut title, " {} ");
        append_text(&mut title, hp.as_str());
        append_text(&mut title, " ");
        append_text(&mut title, armor.as_str());
        let title = text_from(&title);
        let label = paint_badge(" Instinct ");
        assert(title@ == monster_title(heading@, hp@, armor@));
        self.card_with(title.as_str(), label.as_str())
    }

    /// The rendered card of this monster.
    pub fn render(&self) -> (r: String)
        ensures
            exists|h: Seq<char>, hp: Seq<char>, armor: Seq<char>, label: Seq<char>|
                (no_escape(self.name@) ==> painted(h, self.name@)) && painted(hp, hp_text(*self))
                    && painted(armor, armor_text(*self)) && painted(label, " Instinct "@) && r@
                    == joined(
                    heavy_rows(
                        #[trigger] monster_elements(*self, monster_title(h, hp, armor), label),
                        60,
                    ),
                ),
    {
        let c = self.card();
        let r = c.to_display_string();
        proof {
            let (h, hp, armor, label) = choose|h: Seq<char>, hp: Seq<char>, armor: Seq<char>, label: Seq<char>|
                (no_escape(self.name@) ==> painted(h, self.name@)) && painted(hp, hp_text(*self))
                    && painted(armor, armor_text(*self)) && painted(label, " Instinct "@)
                    && c.elements_view() == #[trigger] monster_elements(
                    *self,
                    monster_title(h, hp, armor),
                    label,
                );
            assert(r@ == joined(heavy_rows(monster_elements(*self, monster_title(h, hp, armor), label), 60)));
        }
        r
    }
}

// ---------------------------------------------------------------- moves

/// The elements of a move's card under `title`, its prerequisite after
/// `required` and the move it replaces after `replaced`.
pub open spec fn move_elements(
    m: Move,
    title: Seq<char>,
    required: Seq<char>,
    replaced: Seq<char>,
) -> Seq<ElementView> {
    let has_req = m.prerequisite@.len() > 0;
    let has_rep = m.replaces@.len() > 0;
    seq![ElementView::Line(title), ElementView::HeavyLine] + when(
        has_req,
        seq![ElementView::Line(required + " "@ + m.prerequisite@)],
    ) + when(has_rep, seq![ElementView::Line(replaced + " "@ + m.replaces@)]) + when(
        has_req || has_rep,
        seq![ElementView::LightLine],
    ) + seq![ElementView::Text(trimmed(m.description@))] + when(
        m.explanation@.len() > 0,
        seq![ElementView::LightLine, ElementView::Text(trimmed(m.explanation@))],
    )
}

/// The badge text of a class: capitalized, between spaces.
pub open spec fn class_text(class: Seq<char>) -> Seq<char> {
    " "@ + capitalized(class) + " "@
}

/// `badges` are the classes painted as badges, one for one.
pub open spec fn class_badges_of(badges: Seq<Seq<char>>, classes: Seq<Seq<char>>) -> bool {
    &&& badges.len() == classes.len()
    &&& forall|i: int|
        0 <= i < badges.len() && no_escape(class_text(classes[i])) ==> painted(
            #[trigger] badges[i],
            class_text(classes[i]),
        )
}

/// The title of a move's card: its heading, the marker, its class badges.
pub open spec fn move_title(heading: Seq<char>, badges: Seq<Seq<char>>) -> Seq<char> {
    heading + "{}"@ + concatenated(badges, ", "@)
}

/// The classes of a move, each capitalized between spaces and styled as a
/// badge.
fn class_badges(classes: &Vec<String>) -> (r: Vec<String>)
    ensures
        class_badges_of(string_views(r@), string_views(classes@)),
{
    let mut r: Vec<String> = Vec::new();
    let mut i: usize = 0;
    while i < classes.len()
        invariant
            i <= classes.len(),
            r@.len() == i,
            forall|j: int|
                0 <= j < i && no_escape(class_text(classes@[j]@)) ==> painted(
                    #[trigger] r@[j]@,
                    class_text(classes@[j]@),
                ),
        decreases classes.len() - i,
    {
        let name = capitalize(classes[i].as_str());
        let mut v: Vec<char> = Vec::new();
        append_text(&mut v, " ");
        append_text(&mut v, name.as_str());
        append_text(&mut v, " ");
        let text = text_from(&v);
        assert(text@ == class_text(classes@[i as int]@));
        r.push(paint_badge(text.as_str()));
        i = i + 1;
    }
    assert(class_badges_of(string_views(r@), string_views(classes@))) by {
        assert forall|j: int|
            0 <= j < string_views(r@).len() && no_escape(class_text(string_views(classes@)[j]))
                implies painted(#[trigger] string_views(r@)[j], class_text(string_views(classes@)[j])) by {
            assert(string_views(r@)[j] == r@[j]@);
            assert(string_views(classes@)[j] == classes@[j]@);
        }
    }
    r
}

impl Move {
    /// The card of this move under `title`: 40 columns, heavy border.
    pub fn card_with(&self, title: &str, required: &str, replaced: &str) -> (r: Card)
        ensures
            r.wf(),
            r.border_view() == Border::Heavy,
            r.width_view() == 40,
            r.elements_view() == move_elements(*self, title@, required@, replaced@),
    {
        let has_req = !self.prerequisite.as_str().is_empty();
        let has_rep = !self.replaces.as_str().is_empty();
        let has_explanation = !self.explanation.as_str().is_empty();
        let mut req: Vec<char> = Vec::new();
        append_text(&mut req, required);
        append_text(&mut req, " ");
        append_text(&mut req, self.prerequisite.as_str());
        let req = text_from(&req);
        let mut rep: Vec<char> = Vec::new();
        append_text(&mut rep, replaced);
        append_text(&mut rep, " ");
        append_text(&mut rep, self.replaces.as_str());
        let rep = text_from(&rep);
        let c = Card::new().with_width(40).with_heavy_border().line(title).heavy_line();
        let c = c.line_if(req.as_str(), has_req).line_if(rep.as_str(), has_rep);
        let c = c.light_line_if(has_req || has_rep).text(self.description.as_str());
        let c = c.light_line_if(has_explanation).text_if(self.explanation.as_str(), has_explanation);
        assert(c.elements_view() =~= move_elements(*self, title@, required@, replaced@));
        c
    }

    /// The card of this move: its name styled as the heading, its classes
    /// as badges at the right edge.
    pub fn card(&self) -> (r: Card)
        ensures
            r.wf(),
            r.border_view() == Border::Heavy,
            r.width_view() == 40,
            exists|h: Seq<char>, badges: Seq<Seq<char>>, required: Seq<char>, replaced: Seq<char>|
                (no_escape(self.name@) ==> painted(h, self.name@)) && class_badges_of(
                    badges,
                    string_views(self.classes@),
                ) && painted(required, " Requires "@) && painted(replaced, " Replaces "@)
                    && r.elements_view() == #[trigger] move_elements(
                    *self,
                    move_title(h, badges),
                    required,
                    replaced,
                ),
    {
        proof {
            reveal_strlit(" Requires ");
            reveal_strlit(" Replaces ");
        }
        let heading = paint_heading(self.name.as_str());
        let badges = class_badges(&self.classes);
        let classes = crate::layout::concat(&badges, ", ");
        let mut title: Vec<char> = Vec::new();
        append_text(&mut title, heading.as_str());
        append_text(&mut title, "{}");
        append_text(&mut title, classes.as_str());
        let title = text_from(&title);
        let required = paint_alert(" Requires ");
        let replaced = paint_badge(" Replaces ");
        assert(title@ == move_title(heading@, string_views(badges@)));
        self.card_with(title.as_str(), required.as_str(), replaced.as_str())
    }

    /// The rendered card of this move.
    pub fn render(&self) -> (r: String)
        ensures
            exists|h: Seq<char>, badges: Seq<Seq<char>>, required: Seq<char>, replaced: Seq<char>|
                (no_escape(self.name@) ==> painted(h, self.name@)) && class_badges_of(
                    badges,
                    string_views(self.classes@),
                ) && painted(required, " Requires "@) && painted(replaced, " Replaces "@) && r@
                    == joined(
                    heavy_rows(
                        #[trigger] move_elements(*self, move_title(h, badges), required, replaced),
                        40,
                    ),
                ),
    {
        let c = self.card();
        let r = c.to_display_string();
        proof {
            let (h, badges, required, replaced) = choose|
                h: Seq<char>,
                badges: Seq<Seq<char>>,
                required: Seq<char>,
                replaced: Seq<char>,
            |
                (no_escape(self.name@) ==> painted(h, self.name@)) && class_badges_of(
                    badges,
                    string_views(self.classes@),
                ) && painted(required, " Requires "@) && painted(replaced, " Replaces "@)
                    && c.elements_view() == #[trigger] move_elements(
                    *self,
                    move_title(h, badges),
                    required,
                    replaced,
                );
            assert(r@ == joined(
                heavy_rows(move_elements(*self, move_title(h, badges), required, replaced), 40),
            ));
        }
        r
    }
}

// ---------------------------------------------------------------- items

/// The label of an item's valued tag: the value and the capitalized key, a
/// weight as the value and `KG`; a plain tag capitalized.
pub open spec fn item_tag_label(t: ItemTag) -> Seq<char> {
    match t {
        ItemTag::Count { key, amount } => if key@ == "weight"@ {
            decimal_text(amount as nat) + " KG"@
        } else {
            decimal_text(amount as nat) + " "@ + capitalized(key@)
        },
        ItemTag::Value { key, text } => if key@ == "weight"@ {
            text@ + " KG"@
        } else {
            text@ + " "@ + capitalized(key@)
        },
        ItemTag::Tag(s) => capitalized(s@),
        ItemTag::Empty => "BUG WITH TAGS"@,
    }
}

impl ItemTag {
    /// The label of this tag on an item's card.
    pub fn label(&self) -> (r: String)
        ensures
            r@ == item_tag_label(*self),
    {
        let mut v: Vec<char> = Vec::new();
        match self {
            ItemTag::Count { key, amount } => {
                append_decimal(&mut v, *amount as u64);
                if same_text(key.as_str(), "weight") {
                    append_text(&mut v, " KG");
                } else {
                    append_text(&mut v, " ");
                    let k = capitalize(key.as_str());
                    append_text(&mut v, k.as_str());
                }
            },
            ItemTag::Value { key, text } => {
                append_text(&mut v, text.as_str());
                if same_text(key.as_str(), "weight") {
                    append_text(&mut v, " KG");
                } else {
                    append_text(&mut v, " ");
                    let k = capitalize(key.as_str());
                    append_text(&mut v, k.as_str());
                }
            },
            ItemTag::Tag(s) => {
                let k = capitalize(s.as_str());
                append_text(&mut v, k.as_str());
            },
            ItemTag::Empty => {
                append_text(&mut v, "BUG WITH TAGS");
            },
        }
        assert(v@ =~= item_tag_label(*self));
        text_from(&v)
    }
}

/// The labels of an item's tags, comma separated.
pub open spec fn item_tags_text(item: Item) -> Seq<char> {
    concatenated(item.tags@.map_values(|t: ItemTag| item_tag_label(t)), ", "@)
}

/// The elements of an item's card under `heading`.
pub open spec fn item_elements(heading: Seq<char>, item: Item) -> Seq<ElementView> {
    seq![
        ElementView::Line(heading),
        ElementView::HeavyLine,
        ElementView::Line(item_tags_text(item)),
        ElementView::LightLine,
        ElementView::Text(trimmed(item.description@)),
    ]
}

impl Item {
    /// The card of this item under `heading`: 40 columns, heavy border.
    pub fn card_with(&self, heading: &str) -> (r: Card)
        ensures
            r.wf(),
            r.border_view() == Border::Heavy,
            r.width_view() == 40,
            r.elements_view() == item_elements(heading@, *self),
    {
        let mut labels: Vec<String> = Vec::new();
        let mut i: usize = 0;
        while i < self.tags.len()
            invariant
                i <= self.tags.len(),
                string_views(labels@) == self.tags@.map_values(|t: ItemTag| item_tag_label(t)).subrange(
                    0,
                    i as int,
                ),
            decreases self.tags.len() - i,
        {
            let l = self.tags[i].label();
            let ghost prev = labels@;
            labels.push(l);
            assert(string_views(labels@) =~= string_views(prev).push(l@));
            i = i + 1;
            assert(string_views(labels@) =~= self.tags@.map_values(|t: ItemTag| item_tag_label(t)).subrange(
                0,
                i as int,
            ));
        }
        assert(self.tags@.map_values(|t: ItemTag| item_tag_label(t)).subrange(0, i as int)
            =~= self.tags@.map_values(|t: ItemTag| item_tag_label(t)));
        let tags = crate::layout::concat(&labels, ", ");
        let c = Card::new().with_width(40).with_heavy_border().line(heading).heavy_line();
        let c = c.line(tags.as_str()).light_line().text(self.description.as_str());
        assert(c.elements_view() =~= item_elements(heading@, *self));
        c
    }

    /// The card of this item, its name styled as the heading.
    pub fn card(&self) -> (r: Card)
        ensures
            r.wf(),
            r.border_view() == Border::Heavy,
            r.width_view() == 40,
            exists|h: Seq<char>|
                (no_escape(self.name@) ==> painted(h, self.name@)) && r.elements_view()
                    == item_elements(h, *self),
    {
        let heading = paint_heading(self.name.as_str());
        self.card_with(heading.as_str())
    }

    /// The rendered card of this item.
    pub fn render(&self) -> (r: String)
        ensures
            exists|h: Seq<char>|
                (no_escape(self.name@) ==> painted(h, self.name@)) && r@ == joined(
                    heavy_rows(#[trigger] item_elements(h, *self), 40),
                ),
    {
        let c = self.card();
        let r = c.to_display_string();
        proof {
            let h = choose|h: Seq<char>|
                (no_escape(self.name@) ==> painted(h, self.name@)) && c.elements_view()
                    == item_elements(h, *self);
            assert(r@ == joined(heavy_rows(item_elements(h, *self), 40)));
            assert((no_escape(self.name@) ==> painted(h, self.name@)) && r@ == joined(
                heavy_rows(item_elements(h, *self), 40)));
        }
        r
    }
}

} // verus!

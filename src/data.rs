//! The whole data set, and the decisions of the command line around it:
//! completion, listing by category, and dice expressions.
use vstd::prelude::*;
use crate::completion::{
    has_prefix, name_completion, starts_with, trim_prefixes, trim_start_matches, words_extending,
    Named,
};
use crate::layout::string_views;
use crate::pattern::{compile, compiles, finds_match, is_match, Pattern};
use crate::records::{Items, Monsters, Moves, Tags};
use crate::search::{insensitive, insensitive_source, SearchError};
use crate::text::{same_text, text_chars, text_from};

verus! {

/// Monsters, moves, tags and items.
pub struct Data {
    /// The monsters.
    pub monsters: Monsters,
    /// The moves.
    pub moves: Moves,
    /// The tags.
    pub tags: Tags,
    /// The items.
    pub items: Items,
}

/// Completion of a line that names a kind of record: the names of that kind
/// after the command word and a space.
pub open spec fn data_completion(d: Data, line: Seq<char>, pos: usize) -> (int, Seq<Seq<char>>) {
    if starts_with(line, "move "@) {
        name_completion(d.moves.view(), line, pos, "move "@)
    } else if starts_with(line, "monster "@) {
        name_completion(d.monsters.view(), line, pos, "monster "@)
    } else if starts_with(line, "tag "@) {
        name_completion(d.tags.view(), line, pos, "tag "@)
    } else if starts_with(line, "item "@) {
        name_completion(d.items.view(), line, pos, "item "@)
    } else {
        (pos as int, Seq::empty())
    }
}

/// The words that start a command.
pub open spec fn command_words() -> Seq<Seq<char>> {
    seq!["help"@, "info"@, "quit"@, "item"@, "monster"@, "move"@, "tag"@, "list"@]
}

/// The categories that can be listed.
pub open spec fn category_words() -> Seq<Seq<char>> {
    seq!["monsters"@, "moves"@, "items"@, "tags"@]
}

/// Completion of a command line: command words that extend it, else the
/// names after a record command, else the categories after `list `.
pub open spec fn command_completion(d: Data, line: Seq<char>, pos: usize) -> (int, Seq<Seq<char>>) {
    let top = words_extending(command_words(), line);
    if top.len() > 0 {
        (0, top)
    } else if starts_with(line, "item "@) {
        name_completion(d.items.view(), line, pos, "item "@)
    } else if starts_with(line, "monster "@) {
        name_completion(d.monsters.view(), line, pos, "monster "@)
    } else if starts_with(line, "move "@) {
        name_completion(d.moves.view(), line, pos, "move "@)
    } else if starts_with(line, "tag "@) {
        name_completion(d.tags.view(), line, pos, "tag "@)
    } else if starts_with(line, "list "@) {
        (5, words_extending(category_words(), trim_prefixes(line, "list "@)))
    } else {
        (0, Seq::empty())
    }
}

/// Whether `line` begins with `prefix`.
fn line_starts(line: &Vec<char>, prefix: &str) -> (r: bool)
    ensures
        r == starts_with(line@, prefix@),
{
    let p = text_chars(prefix);
    has_prefix(line, &p)
}

impl Data {
    /// The data set of these collections.
    pub fn new(monsters: Monsters, moves: Moves, tags: Tags, items: Items) -> (r: Self)
        ensures
            r.monsters == monsters,
            r.moves == moves,
            r.tags == tags,
            r.items == items,
    {
        Data { monsters, moves, tags, items }
    }

    /// Completes the name of a record after its command word.
    pub fn complete(&self, line: &str, pos: usize) -> (r: (usize, Vec<String>))
        ensures
            (r.0 as int, string_views(r.1@)) == data_completion(*self, line@, pos),
    {
        let l = text_chars(line);
        if line_starts(&l, "move ") {
            self.moves.complete(line, pos)
        } else if line_starts(&l, "monster ") {
            self.monsters.complete(line, pos)
        } else if line_starts(&l, "tag ") {
            self.tags.complete(line, pos)
        } else if line_starts(&l, "item ") {
            self.items.complete(line, pos)
        } else {
            (pos, Vec::new())
        }
    }
}

/// Completes a command line at `pos`: first the command words that extend
/// it, then record names after a record command, then the categories after
/// `list `.
pub fn complete_command(data: &Data, line: &str, pos: usize) -> (r: (usize, Vec<String>))
    ensures
        (r.0 as int, string_views(r.1@)) == command_completion(*data, line@, pos),
{
    let l = text_chars(line);
    let mut words: Vec<&str> = Vec::new();
    words.push("help");
    words.push("info");
    words.push("quit");
    words.push("item");
    words.push("monster");
    words.push("move");
    words.push("tag");
    words.push("list");
    assert(words@.map_values(|w: &str| w@) =~= command_words());
    let top = crate::completion::extending_words(&words, &l);
    if top.len() > 0 {
        (0, top)
    } else if line_starts(&l, "item ") {
        data.items.complete(line, pos)
    } else if line_starts(&l, "monster ") {
        data.monsters.complete(line, pos)
    } else if line_starts(&l, "move ") {
        data.moves.complete(line, pos)
    } else if line_starts(&l, "tag ") {
        data.tags.complete(line, pos)
    } else if line_starts(&l, "list ") {
        let mut categories: Vec<&str> = Vec::new();
        categories.push("monsters");
        categories.push("moves");
        categories.push("items");
        categories.push("tags");
        assert(categories@.map_values(|w: &str| w@) =~= category_words());
        let list_word = text_chars("list ");
        let rest = trim_start_matches(&l, &list_word);
        (5, crate::completion::extending_words(&categories, &rest))
    } else {
        (0, Vec::new())
    }
}

/// The names of `records` that `pattern` matches, in order.
pub open spec fn names_matching<R: Named>(records: Seq<R>, pattern: Seq<char>) -> Seq<Seq<char>>
    decreases records.len(),
{
    if records.len() == 0 {
        Seq::empty()
    } else {
        let rest = names_matching(records.drop_last(), pattern);
        if finds_match(pattern, records.last().name_view()) {
            rest.push(records.last().name_view())
        } else {
            rest
        }
    }
}

/// The names of `records` that `re` matches, case-insensitively.
pub fn matching_names<R: Named>(records: &Vec<R>, re: &str) -> (r: Result<Vec<String>, SearchError>)
    ensures
        r is Err <==> !compiles(insensitive(re@)),
        r matches Ok(names) ==> string_views(names@) == names_matching(records@, insensitive(re@)),
{
    let source = insensitive_source(re);
    let p: Pattern = match compile(source.as_str()) {
        Ok(p) => p,
        Err(_) => {
            return Err(SearchError::InvalidPattern);
        },
    };
    let mut found: Vec<String> = Vec::new();
    let mut i: usize = 0;
    while i < records.len()
        invariant
            i <= records.len(),
            p.source() == insensitive(re@),
            string_views(found@) == names_matching(records@.subrange(0, i as int), p.source()),
        decreases records.len() - i,
    {
        let name = records[i].name_text();
        assert(records@.subrange(0, i + 1 as int).drop_last() =~= records@.subrange(0, i as int));
        if is_match(&p, name.as_str()) {
            let s = name.clone();
            let ghost prev = found@;
            found.push(s);
            assert(string_views(found@) =~= string_views(prev).push(s@));
        }
        i = i + 1;
    }
    assert(records@.subrange(0, i as int) =~= records@);
    Ok(found)
}

impl Tags {
    /// The names of the tags that `re` matches, case-insensitively, in order.
    pub fn list(&self, re: &str) -> (r: Result<Vec<String>, SearchError>)
        ensures
            r is Err <==> !compiles(insensitive(re@)),
            r matches Ok(names) ==> string_views(names@) == names_matching(self.view(), insensitive(re@)),
    {
        matching_names(self.records(), re)
    }
}

impl Monsters {
    /// The names of the monsters that `re` matches, case-insensitively, in order.
    pub fn list(&self, re: &str) -> (r: Result<Vec<String>, SearchError>)
        ensures
            r is Err <==> !compiles(insensitive(re@)),
            r matches Ok(names) ==> string_views(names@) == names_matching(self.view(), insensitive(re@)),
    {
        matching_names(self.records(), re)
    }
}

impl Moves {
    /// The names of the moves that `re` matches, case-insensitively, in order.
    pub fn list(&self, re: &str) -> (r: Result<Vec<String>, SearchError>)
        ensures
            r is Err <==> !compiles(insensitive(re@)),
            r matches Ok(names) ==> string_views(names@) == names_matching(self.view(), insensitive(re@)),
    {
        matching_names(self.records(), re)
    }
}

impl Items {
    /// The names of the items that `re` matches, case-insensitively, in order.
    pub fn list(&self, re: &str) -> (r: Result<Vec<String>, SearchError>)
        ensures
            r is Err <==> !compiles(insensitive(re@)),
            r matches Ok(names) ==> string_views(names@) == names_matching(self.view(), insensitive(re@)),
    {
        matching_names(self.records(), re)
    }
}

/// A kind of record that can be listed.
#[derive(Clone, Copy, Debug, PartialEq, Eq, Structural)]
pub enum Category {
    Monsters,
    Moves,
    Items,
    Tags,
}

/// What listing `category` with `regex` shows: the named category, or all
/// of them for `all`; a category that is none of these is taken as the
/// pattern for all categories when the pattern is `.*`; otherwise nothing,
/// and the help is due.
pub open spec fn listing(category: Seq<char>, regex: Seq<char>) -> Option<(Seq<Category>, Seq<char>)> {
    if category == "monsters"@ {
        Some((seq![Category::Monsters], regex))
    } else if category == "moves"@ {
        Some((seq![Category::Moves], regex))
    } else if category == "items"@ {
        Some((seq![Category::Items], regex))
    } else if category == "tags"@ {
        Some((seq![Category::Tags], regex))
    } else if category == "all"@ || regex == ".*"@ {
        Some((
            seq![Category::Monsters, Category::Moves, Category::Items, Category::Tags],
            if category == "all"@ {
                regex
            } else {
                category
            },
        ))
    } else {
        None
    }
}

/// The categories to list and the pattern to list them with; `None` when
/// the help should be shown instead.
pub fn plan_listing(category: &str, regex: &str) -> (r: Option<(Vec<Category>, String)>)
    ensures
        match listing(category@, regex@) {
            None => r is None,
            Some((cats, pattern)) => r matches Some((v, s)) && v@ == cats && s@ == pattern,
        },
{
    let mut one: Vec<Category> = Vec::new();
    if same_text(category, "monsters") {
        one.push(Category::Monsters);
        return Some((one, regex.to_owned()));
    }
    if same_text(category, "moves") {
        one.push(Category::Moves);
        return Some((one, regex.to_owned()));
    }
    if same_text(category, "items") {
        one.push(Category::Items);
        return Some((one, regex.to_owned()));
    }
    if same_text(category, "tags") {
        one.push(Category::Tags);
        return Some((one, regex.to_owned()));
    }
    let is_all = same_text(category, "all");
    if is_all || same_text(regex, ".*") {
        let mut all: Vec<Category> = Vec::new();
        all.push(Category::Monsters);
        all.push(Category::Moves);
        all.push(Category::Items);
        all.push(Category::Tags);
        let pattern = if is_all {
            regex.to_owned()
        } else {
            category.to_owned()
        };
        assert(all@ =~= seq![Category::Monsters, Category::Moves, Category::Items, Category::Tags]);
        return Some((all, pattern));
    }
    None
}

/// The dice expression of `s`: a leading `d` gets a count of one in front.
pub open spec fn dice_text(s: Seq<char>) -> Seq<char> {
    if s.len() > 0 && s[0] == 'd' {
        seq!['1'] + s
    } else {
        s
    }
}

/// Normalizes a dice expression: `d6` becomes `1d6`, anything else stays.
pub fn dice_expression(s: &str) -> (r: String)
    ensures
        r@ == dice_text(s@),
{
    let chars = text_chars(s);
    let mut out: Vec<char> = Vec::new();
    if chars.len() > 0 && chars[0] == 'd' {
        out.push('1');
    }
    crate::text::append_chars(&mut out, &chars);
    assert(out@ =~= dice_text(s@));
    text_from(&out)
}

} // verus!

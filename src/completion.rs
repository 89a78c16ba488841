//! Completion of command lines: command words, categories, and record names
//! by a case-insensitive prefix.
use vstd::prelude::*;
use crate::layout::string_views;
use crate::records::{Item, Items, Monster, Monsters, Move, Moves, Tag, Tags};
use crate::text::text_chars;

verus! {

/// What `str::to_lowercase` turns `s` into.
pub uninterp spec fn lower_of(s: Seq<char>) -> Seq<char>;

/// Relies on std's `str::to_lowercase`: the lower case of a text, which
/// depends on the text alone.
#[verifier::external_body]
fn lowercase(s: &str) -> (r: String)
    ensures
        r@ == lower_of(s@),
{
    s.to_lowercase()
}

/// `s` begins with `p`.
pub open spec fn starts_with(s: Seq<char>, p: Seq<char>) -> bool {
    p.len() <= s.len() && s.subrange(0, p.len() as int) == p
}

/// `s` without every leading repetition of a non-empty `p`.
pub open spec fn trim_prefixes(s: Seq<char>, p: Seq<char>) -> Seq<char>
    decreases s.len(),
{
    if p.len() > 0 && starts_with(s, p) {
        trim_prefixes(s.subrange(p.len() as int, s.len() as int), p)
    } else {
        s
    }
}

/// Whether `s` begins with `p`.
pub fn has_prefix(s: &Vec<char>, p: &Vec<char>) -> (r: bool)
    ensures
        r == starts_with(s@, p@),
{
    if p.len() > s.len() {
        return false;
    }
    let mut i: usize = 0;
    while i < p.len()
        invariant
            i <= p.len() <= s.len(),
            forall|j: int| 0 <= j < i ==> s@[j] == p@[j],
        decreases p.len() - i,
    {
        if s[i] != p[i] {
            assert(s@.subrange(0, p@.len() as int)[i as int] != p@[i as int]);
            return false;
        }
        i = i + 1;
    }
    assert(s@.subrange(0, p@.len() as int) =~= p@);
    true
}

/// `s` without every leading repetition of `p`.
pub fn trim_start_matches(s: &Vec<char>, p: &Vec<char>) -> (r: Vec<char>)
    ensures
        r@ == trim_prefixes(s@, p@),
{
    let mut start: usize = 0;
    let n = s.len();
    let mut rest: Vec<char> = s.clone();
    assert(rest@ =~= s@.subrange(0, n as int));
    while p.len() > 0 && has_prefix(&rest, p)
        invariant
            start <= n == s.len(),
            rest@ == s@.subrange(start as int, n as int),
            trim_prefixes(s@, p@) == trim_prefixes(rest@, p@),
        decreases n - start,
    {
        let mut next: Vec<char> = Vec::new();
        let mut i: usize = p.len();
        while i < rest.len()
            invariant
                p.len() <= i <= rest.len(),
                next@ == rest@.subrange(p.len() as int, i as int),
            decreases rest.len() - i,
        {
            next.push(rest[i]);
            i = i + 1;
            assert(next@ =~= rest@.subrange(p.len() as int, i as int));
        }
        assert(next@ =~= s@.subrange(start + p.len() as int, n as int));
        start = start + p.len();
        rest = next;
    }
    rest
}

/// The words of `words` that begin with `prefix`, in order.
pub open spec fn words_extending(words: Seq<Seq<char>>, prefix: Seq<char>) -> Seq<Seq<char>>
    decreases words.len(),
{
    if words.len() == 0 {
        Seq::empty()
    } else {
        let rest = words_extending(words.drop_last(), prefix);
        if starts_with(words.last(), prefix) {
            rest.push(words.last())
        } else {
            rest
        }
    }
}

/// The words of `words` that begin with `prefix`.
pub fn extending_words(words: &Vec<&str>, prefix: &Vec<char>) -> (r: Vec<String>)
    ensures
        string_views(r@) == words_extending(words@.map_values(|w: &str| w@), prefix@),
{
    let ghost views = words@.map_values(|w: &str| w@);
    let mut r: Vec<String> = Vec::new();
    let mut i: usize = 0;
    while i < words.len()
        invariant
            i <= words.len(),
            views == words@.map_values(|w: &str| w@),
            string_views(r@) == words_extending(views.subrange(0, i as int), prefix@),
        decreases words.len() - i,
    {
        let w = text_chars(words[i]);
        assert(views.subrange(0, i + 1 as int).drop_last() =~= views.subrange(0, i as int));
        if has_prefix(&w, prefix) {
            let s = words[i].to_owned();
            let ghost prev = r@;
            r.push(s);
            assert(string_views(r@) =~= string_views(prev).push(s@));
        }
        i = i + 1;
    }
    assert(views.subrange(0, i as int) =~= views);
    r
}

/// A record offered for completion by its name.
pub trait Named {
    /// The name of this record.
    spec fn name_view(&self) -> Seq<char>;

    /// The name of this record.
    fn name_text(&self) -> (r: &String)
        ensures
            r@ == self.name_view(),
    ;
}

impl Named for Tag {
    open spec fn name_view(&self) -> Seq<char> {
        self.name@
    }

    fn name_text(&self) -> (r: &String) {
        &self.name
    }
}

impl Named for Monster {
    open spec fn name_view(&self) -> Seq<char> {
        self.name@
    }

    fn name_text(&self) -> (r: &String) {
        &self.name
    }
}

impl Named for Move {
    open spec fn name_view(&self) -> Seq<char> {
        self.name@
    }

    fn name_text(&self) -> (r: &String) {
        &self.name
    }
}

impl Named for Item {
    open spec fn name_view(&self) -> Seq<char> {
        self.name@
    }

    fn name_text(&self) -> (r: &String) {
        &self.name
    }
}

/// The names of `records` whose lower case begins with `part`, in order.
pub open spec fn names_starting<R: Named>(records: Seq<R>, part: Seq<char>) -> Seq<Seq<char>>
    decreases records.len(),
{
    if records.len() == 0 {
        Seq::empty()
    } else {
        let rest = names_starting(records.drop_last(), part);
        if starts_with(lower_of(records.last().name_view()), part) {
            rest.push(records.last().name_view())
        } else {
            rest
        }
    }
}

/// Completion of `line` at `pos` after `command`: the names whose lower case
/// begins with the lower case of what follows the command, replacing from
/// the end of the command; nothing when the line does not begin with the
/// command or the cursor stands inside it.
pub open spec fn name_completion<R: Named>(
    records: Seq<R>,
    line: Seq<char>,
    pos: usize,
    command: Seq<char>,
) -> (int, Seq<Seq<char>>) {
    if starts_with(line, command) && pos >= command.len() {
        (command.len() as int, names_starting(records, lower_of(trim_prefixes(line, command))))
    } else {
        (pos as int, Seq::empty())
    }
}

/// Completes `line` at `pos` with the names of `records`, after `command`.
pub fn complete_names<R: Named>(records: &Vec<R>, line: &str, pos: usize, command: &str) -> (r: (
    usize,
    Vec<String>,
))
    ensures
        (r.0 as int, string_views(r.1@)) == name_completion(records@, line@, pos, command@),
{
    let l = text_chars(line);
    let c = text_chars(command);
    if !(has_prefix(&l, &c) && pos >= c.len()) {
        return (pos, Vec::new());
    }
    let rest = crate::text::text_from(&trim_start_matches(&l, &c));
    let part_text = lowercase(rest.as_str());
    let part = text_chars(part_text.as_str());
    let mut found: Vec<String> = Vec::new();
    let mut i: usize = 0;
    while i < records.len()
        invariant
            i <= records.len(),
            part@ == lower_of(trim_prefixes(line@, command@)),
            string_views(found@) == names_starting(records@.subrange(0, i as int), part@),
        decreases records.len() - i,
    {
        let name = records[i].name_text();
        let lower = lowercase(name.as_str());
        let lower_chars = text_chars(lower.as_str());
        assert(records@.subrange(0, i + 1 as int).drop_last() =~= records@.subrange(0, i as int));
        if has_prefix(&lower_chars, &part) {
            let s = name.clone();
            let ghost prev = found@;
            found.push(s);
            assert(string_views(found@) =~= string_views(prev).push(s@));
        }
        i = i + 1;
    }
    assert(records@.subrange(0, i as int) =~= records@);
    (c.len(), found)
}

impl Tags {
    /// Completes the name of a tag after `tag `.
    pub fn complete(&self, line: &str, pos: usize) -> (r: (usize, Vec<String>))
        ensures
            (r.0 as int, string_views(r.1@)) == name_completion(self.view(), line@, pos, "tag "@),
    {
        complete_names(self.records(), line, pos, "tag ")
    }
}

impl Monsters {
    /// Completes the name of a monster after `monster `.
    pub fn complete(&self, line: &str, pos: usize) -> (r: (usize, Vec<String>))
        ensures
            (r.0 as int, string_views(r.1@)) == name_completion(self.view(), line@, pos, "monster "@),
    {
        complete_names(self.records(), line, pos, "monster ")
    }
}

impl Moves {
    /// Completes the name of a move after `move `.
    pub fn complete(&self, line: &str, pos: usize) -> (r: (usize, Vec<String>))
        ensures
            (r.0 as int, string_views(r.1@)) == name_completion(self.view(), line@, pos, "move "@),
    {
        complete_names(self.records(), line, pos, "move ")
    }
}

impl Items {
    /// Completes the name of an item after `item `.
    pub fn complete(&self, line: &str, pos: usize) -> (r: (usize, Vec<String>))
        ensures
            (r.0 as int, string_views(r.1@)) == name_completion(self.view(), line@, pos, "item "@),
    {
        complete_names(self.records(), line, pos, "item ")
    }
}

} // verus!

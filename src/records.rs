//! Records (monsters, moves, tags, items) and the collections they are
//! looked up in.
use vstd::prelude::*;
use crate::pattern::{compiles, finds_match, is_match, Pattern};
use crate::search::{chosen, find_in, insensitive, is_best, ranks, Rank, SearchError, Searchable};

verus! {

/// A tag: a named rule term with its description.
#[derive(Clone, Debug, PartialEq, Eq)]
pub struct Tag {
    /// Name of the tag.
    pub name: String,
    /// Unique identifier.
    pub key: String,
    /// What the tag means.
    pub description: String,
}

/// An attack of a monster.
#[derive(Clone, Debug, PartialEq, Eq)]
pub struct Attack {
    /// Name of the attack.
    pub name: String,
    /// Damage dice.
    pub damage: String,
    /// Tags of the attack.
    pub tags: Vec<String>,
}

/// A monster.
#[derive(Clone, Debug, PartialEq, Eq)]
pub struct Monster {
    /// Unique identifier.
    pub key: String,
    /// Name of the monster.
    pub name: String,
    /// Tags of the monster.
    pub tags: Vec<String>,
    /// Armor points.
    pub armor: u8,
    /// Hit points.
    pub hp: u8,
    /// Basic instinct.
    pub instinct: String,
    /// Moves common to the monster.
    pub moves: Vec<String>,
    /// Description of the monster.
    pub description: String,
    /// Attacks the monster can make.
    pub attacks: Vec<Attack>,
}

/// A move a character can make.
#[derive(Clone, Debug, PartialEq, Eq)]
pub struct Move {
    /// Name of the move.
    pub name: String,
    /// Unique identifier.
    pub key: String,
    /// What the move does.
    pub description: String,
    /// Classes that may have this move.
    pub classes: Vec<String>,
    /// A short explanation.
    pub explanation: String,
    /// The move this one replaces: a key before resolution, a name after it.
    pub replaces: String,
    /// The move this one builds on: a key before resolution, a name after it.
    pub prerequisite: String,
}

/// A valued tag of an item.
#[derive(Clone, Debug, PartialEq, Eq)]
pub enum ItemTag {
    /// A tag with a number, such as a weight.
    Count { key: String, amount: u16 },
    /// A tag with a text value.
    Value { key: String, text: String },
    /// A plain tag.
    Tag(String),
    /// A valued tag without any entry.
    Empty,
}

/// An item.
#[derive(Clone, Debug, PartialEq, Eq)]
pub struct Item {
    /// Name of the item.
    pub name: String,
    /// Plural form of the name, when it is not the default one.
    pub plural_name: String,
    /// Unique identifier.
    pub key: String,
    /// Description of the item.
    pub description: String,
    /// Valued tags of the item.
    pub tags: Vec<ItemTag>,
}

/// The rank of a record with a name and a description only.
pub open spec fn name_or_description(pattern: Seq<char>, name: Seq<char>, description: Seq<char>) -> Rank {
    if finds_match(pattern, name) {
        Rank::Name
    } else if finds_match(pattern, description) {
        Rank::Description
    } else {
        Rank::NoMatch
    }
}

/// The rank of a record with a name and a description, matched only as far
/// as it can beat `floor`.
fn rank_name_or_description(p: &Pattern, name: &str, description: &str, floor: Rank) -> (r: Rank)
    ensures
        name_or_description(p.source(), name@, description@).level() > floor.level() ==> r
            == name_or_description(p.source(), name@, description@),
        name_or_description(p.source(), name@, description@).level() <= floor.level() ==> r.level()
            <= floor.level(),
{
    if is_match(p, name) {
        Rank::Name
    } else if floor.level_of() < 2 && is_match(p, description) {
        Rank::Description
    } else {
        Rank::NoMatch
    }
}

impl Searchable for Tag {
    open spec fn rank_for(&self, pattern: Seq<char>) -> Rank {
        name_or_description(pattern, self.name@, self.description@)
    }

    fn rank_above(&self, p: &Pattern, floor: Rank) -> (r: Rank) {
        rank_name_or_description(p, self.name.as_str(), self.description.as_str(), floor)
    }
}

impl Searchable for Monster {
    open spec fn rank_for(&self, pattern: Seq<char>) -> Rank {
        name_or_description(pattern, self.name@, self.description@)
    }

    fn rank_above(&self, p: &Pattern, floor: Rank) -> (r: Rank) {
        rank_name_or_description(p, self.name.as_str(), self.description.as_str(), floor)
    }
}

impl Searchable for Item {
    open spec fn rank_for(&self, pattern: Seq<char>) -> Rank {
        name_or_description(pattern, self.name@, self.description@)
    }

    fn rank_above(&self, p: &Pattern, floor: Rank) -> (r: Rank) {
        rank_name_or_description(p, self.name.as_str(), self.description.as_str(), floor)
    }
}

impl Searchable for Move {
    open spec fn rank_for(&self, pattern: Seq<char>) -> Rank {
        if finds_match(pattern, self.name@) {
            Rank::Name
        } else if finds_match(pattern, self.description@) {
            Rank::Description
        } else if exists|k: int| 0 <= k < self.classes@.len() && finds_match(pattern, #[trigger] self.classes@[k]@) {
            Rank::Class
        } else {
            Rank::NoMatch
        }
    }

    fn rank_above(&self, p: &Pattern, floor: Rank) -> (r: Rank) {
        if is_match(p, self.name.as_str()) {
            return Rank::Name;
        }
        if floor.level_of() < 2 && is_match(p, self.description.as_str()) {
            return Rank::Description;
        }
        if floor.level_of() < 1 {
            let mut k: usize = 0;
            while k < self.classes.len()
                invariant
                    k <= self.classes@.len(),
                    floor.level() < 1,
                    !finds_match(p.source(), self.name@),
                    !finds_match(p.source(), self.description@),
                    forall|j: int| 0 <= j < k ==> !finds_match(p.source(), #[trigger] self.classes@[j]@),
                decreases self.classes.len() - k,
            {
                if is_match(p, self.classes[k].as_str()) {
                    assert(finds_match(p.source(), self.classes@[k as int]@));
                    return Rank::Class;
                }
                k = k + 1;
            }
        }
        Rank::NoMatch
    }
}

/// The record `found` is the best match among `records` for `pattern`, or
/// there is none and no record matched.
pub open spec fn found_best<R: Searchable>(records: Seq<R>, pattern: Seq<char>, found: Option<&R>) -> bool {
    match found {
        Some(x) => exists|i: int| is_best(ranks(records, pattern), i) && records[i] == *x,
        None => chosen(ranks(records, pattern), None),
    }
}

/// The best match for `re` among `records`, by reference.
fn find_record<'a, R: Searchable>(records: &'a Vec<R>, re: &str) -> (r: Result<Option<&'a R>, SearchError>)
    ensures
        r is Err <==> !compiles(insensitive(re@)),
        r matches Ok(found) ==> found_best(records@, insensitive(re@), found),
{
    match find_in(records, re) {
        Err(e) => Err(e),
        Ok(None) => Ok(None),
        Ok(Some(i)) => {
            let x = &records[i];
            assert(is_best(ranks(records@, insensitive(re@)), i as int) && records@[i as int] == *x);
            Ok(Some(x))
        },
    }
}

/// The tags.
pub struct Tags {
    data: Vec<Tag>,
}

/// The monsters.
pub struct Monsters {
    data: Vec<Monster>,
}

/// The moves.
pub struct Moves {
    data: Vec<Move>,
}

/// The items.
pub struct Items {
    data: Vec<Item>,
}

impl Tags {
    /// The tags, in order.
    pub closed spec fn view(&self) -> Seq<Tag> {
        self.data@
    }

    /// A collection of `data`, in this order.
    pub fn new(data: Vec<Tag>) -> (r: Self)
        ensures
            r.view() == data@,
    {
        Tags { data }
    }

    /// The tags, in order.
    pub fn records(&self) -> (r: &Vec<Tag>)
        ensures
            r@ == self.view(),
    {
        &self.data
    }

    /// The tag whose name matches `re`, case-insensitively, first in order;
    /// failing that the first whose description matches.
    pub fn find(&self, re: &str) -> (r: Result<Option<&Tag>, SearchError>)
        ensures
            r is Err <==> !compiles(insensitive(re@)),
            r matches Ok(found) ==> found_best(self.view(), insensitive(re@), found),
    {
        find_record(&self.data, re)
    }
}

impl Monsters {
    /// The monsters, in order.
    pub closed spec fn view(&self) -> Seq<Monster> {
        self.data@
    }

    /// A collection of `data`, in this order.
    pub fn new(data: Vec<Monster>) -> (r: Self)
        ensures
            r.view() == data@,
    {
        Monsters { data }
    }

    /// The monsters, in order.
    pub fn records(&self) -> (r: &Vec<Monster>)
        ensures
            r@ == self.view(),
    {
        &self.data
    }

    /// The monster whose name matches `re`, case-insensitively, first in
    /// order; failing that the first whose description matches.
    pub fn find(&self, re: &str) -> (r: Result<Option<&Monster>, SearchError>)
        ensures
            r is Err <==> !compiles(insensitive(re@)),
            r matches Ok(found) ==> found_best(self.view(), insensitive(re@), found),
    {
        find_record(&self.data, re)
    }
}

impl Items {
    /// The items, in order.
    pub closed spec fn view(&self) -> Seq<Item> {
        self.data@
    }

    /// A collection of `data`, in this order.
    pub fn new(data: Vec<Item>) -> (r: Self)
        ensures
            r.view() == data@,
    {
        Items { data }
    }

    /// The items, in order.
    pub fn records(&self) -> (r: &Vec<Item>)
        ensures
            r@ == self.view(),
    {
        &self.data
    }

    /// The item whose name matches `re`, case-insensitively, first in order;
    /// failing that the first whose description matches.
    pub fn find(&self, re: &str) -> (r: Result<Option<&Item>, SearchError>)
        ensures
            r is Err <==> !compiles(insensitive(re@)),
            r matches Ok(found) ==> found_best(self.view(), insensitive(re@), found),
    {
        find_record(&self.data, re)
    }
}

/// Index `i` holds the first move of `data` with key `key`.
pub open spec fn first_with_key(data: Seq<Move>, key: Seq<char>, i: int) -> bool {
    &&& 0 <= i < data.len()
    &&& data[i].key@ == key
    &&& forall|j: int| 0 <= j < i ==> (#[trigger] data[j]).key@ != key
}

/// A reference is empty or the key of some move of `data`.
pub open spec fn known(data: Seq<Move>, reference: Seq<char>) -> bool {
    reference.len() == 0 || exists|i: int| 0 <= i < data.len() && (#[trigger] data[i]).key@ == reference
}

/// `out` is what `reference` resolves to: empty stays empty, a key becomes
/// the name of the first move with that key.
pub open spec fn resolves_to(data: Seq<Move>, reference: Seq<char>, out: Seq<char>) -> bool {
    if reference.len() == 0 {
        out.len() == 0
    } else {
        exists|i: int| first_with_key(data, reference, i) && out == data[i].name@
    }
}

/// `m` is `unresolved` with its references resolved in `data`.
pub open spec fn resolved_move(data: Seq<Move>, unresolved: Move, m: Move) -> bool {
    &&& m.name == unresolved.name
    &&& m.key == unresolved.key
    &&& m.description == unresolved.description
    &&& m.classes@ == unresolved.classes@
    &&& m.explanation == unresolved.explanation
    &&& resolves_to(data, unresolved.replaces@, m.replaces@)
    &&& resolves_to(data, unresolved.prerequisite@, m.prerequisite@)
}

/// Copies of the strings of `v`.
fn clone_strings(v: &Vec<String>) -> (r: Vec<String>)
    ensures
        r@ == v@,
{
    let mut r: Vec<String> = Vec::new();
    let mut i: usize = 0;
    while i < v.len()
        invariant
            i <= v.len(),
            r@ == v@.subrange(0, i as int),
        decreases v.len() - i,
    {
        r.push(v[i].clone());
        i = i + 1;
        assert(r@ =~= v@.subrange(0, i as int));
    }
    assert(v@.subrange(0, i as int) =~= v@);
    r
}

/// Index of the first move of `data` with key `key`.
fn index_of_key(data: &Vec<Move>, key: &String) -> (r: Option<usize>)
    ensures
        r matches Some(i) ==> first_with_key(data@, key@, i as int),
        r is None ==> forall|j: int| 0 <= j < data@.len() ==> (#[trigger] data@[j]).key@ != key@,
{
    let mut i: usize = 0;
    while i < data.len()
        invariant
            i <= data.len(),
            forall|j: int| 0 <= j < i ==> (#[trigger] data@[j]).key@ != key@,
        decreases data.len() - i,
    {
        if data[i].key == *key {
            return Some(i);
        }
        i = i + 1;
    }
    None
}

/// What `reference` resolves to in `data`; `None` when no move has it as key.
fn resolve_reference(data: &Vec<Move>, reference: &String) -> (r: Option<String>)
    ensures
        r is Some <==> known(data@, reference@),
        r matches Some(out) ==> resolves_to(data@, reference@, out@),
{
    if reference.as_str().is_empty() {
        return Some(String::new());
    }
    match index_of_key(data, reference) {
        Some(i) => Some(data[i].name.clone()),
        None => None,
    }
}

impl Moves {
    /// The moves, in order.
    pub closed spec fn view(&self) -> Seq<Move> {
        self.data@
    }

    /// A collection of `data`, in this order, references left as they are.
    pub fn new(data: Vec<Move>) -> (r: Self)
        ensures
            r.view() == data@,
    {
        Moves { data }
    }

    /// The moves, in order.
    pub fn records(&self) -> (r: &Vec<Move>)
        ensures
            r@ == self.view(),
    {
        &self.data
    }

    /// A collection of `data` whose `replaces` and `requires` keys are
    /// replaced by the names of the first moves with those keys. A key that
    /// no move has is returned as the error.
    pub fn resolve(data: Vec<Move>) -> (r: Result<Moves, String>)
        ensures
            r is Ok <==> forall|i: int|
                0 <= i < data@.len() ==> known(data@, (#[trigger] data@[i]).replaces@) && known(
                    data@,
                    data@[i].prerequisite@,
                ),
            r matches Ok(m) ==> m.view().len() == data@.len() && forall|i: int|
                0 <= i < data@.len() ==> resolved_move(data@, #[trigger] data@[i], m.view()[i]),
            r matches Err(k) ==> !known(data@, k@) && exists|i: int|
                0 <= i < data@.len() && (k@ == (#[trigger] data@[i]).replaces@ || k@ == data@[i].prerequisite@),
    {
        let mut out: Vec<Move> = Vec::new();
        let mut i: usize = 0;
        while i < data.len()
            invariant
                i <= data.len(),
                out@.len() == i,
                forall|j: int| 0 <= j < i ==> known(data@, (#[trigger] data@[j]).replaces@) && known(
                    data@,
                    data@[j].prerequisite@,
                ),
                forall|j: int| 0 <= j < i ==> resolved_move(data@, #[trigger] data@[j], out@[j]),
            decreases data.len() - i,
        {
            let m = &data[i];
            let replaces = match resolve_reference(&data, &m.replaces) {
                Some(s) => s,
                None => {
                    return Err(m.replaces.clone());
                },
            };
            let prerequisite = match resolve_reference(&data, &m.prerequisite) {
                Some(s) => s,
                None => {
                    return Err(m.prerequisite.clone());
                },
            };
            let linked = Move {
                name: m.name.clone(),
                key: m.key.clone(),
                description: m.description.clone(),
                classes: clone_strings(&m.classes),
                explanation: m.explanation.clone(),
                replaces,
                prerequisite,
            };
            out.push(linked);
            i = i + 1;
        }
        Ok(Moves { data: out })
    }

    /// The first move with key `key`.
    pub fn get(&self, key: &str) -> (r: Option<&Move>)
        ensures
            r matches Some(m) ==> exists|i: int| #[trigger] first_with_key(self.view(), key@, i) && *m == self.view()[i],
            r is None ==> forall|j: int| 0 <= j < self.view().len() ==> (#[trigger] self.view()[j]).key@ != key@,
    {
        let k = key.to_owned();
        match index_of_key(&self.data, &k) {
            Some(i) => {
                let m = &self.data[i];
                assert(self.view() == self.data@);
                assert(k@ == key@);
                assert(first_with_key(self.view(), key@, i as int));
                assert(*m == self.view()[i as int]);
                Some(m)
            },
            None => None,
        }
    }

    /// The move whose name matches `re`, case-insensitively, first in order;
    /// failing that the first whose description matches; failing that the
    /// first with a matching class.
    pub fn find(&self, re: &str) -> (r: Result<Option<&Move>, SearchError>)
        ensures
            r is Err <==> !compiles(insensitive(re@)),
            r matches Ok(found) ==> found_best(self.view(), insensitive(re@), found),
    {
        find_record(&self.data, re)
    }
}

} // verus!

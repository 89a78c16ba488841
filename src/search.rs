//! Ranked lookup: the record whose most important field matches a pattern,
//! the first in collection order among equals.
use vstd::prelude::*;
use crate::pattern::{compile, compiles, Pattern};
use crate::text::{push_char, text_chars};

verus! {

/// Which field of a record matched, from least to most important.
#[derive(Clone, Copy, Debug, PartialEq, Eq, Structural)]
pub enum Rank {
    /// No field matched.
    NoMatch,
    /// A class or tag matched.
    Class,
    /// The description matched.
    Description,
    /// The name matched.
    Name,
}

impl Rank {
    /// The importance of this rank.
    pub open spec fn level(self) -> int {
        match self {
            Rank::NoMatch => 0,
            Rank::Class => 1,
            Rank::Description => 2,
            Rank::Name => 3,
        }
    }

    /// The importance of this rank, as an executable value.
    pub fn level_of(&self) -> (r: u8)
        ensures
            r == self.level(),
    {
        match self {
            Rank::NoMatch => 0,
            Rank::Class => 1,
            Rank::Description => 2,
            Rank::Name => 3,
        }
    }
}

/// A record that a pattern is matched against, field by field.
pub trait Searchable {
    /// The rank of this record for the regular expression `pattern`.
    spec fn rank_for(&self, pattern: Seq<char>) -> Rank;

    /// The rank of this record for `p` where it is above `floor`; otherwise
    /// some rank not above `floor`, fields below it left unmatched.
    fn rank_above(&self, p: &Pattern, floor: Rank) -> (r: Rank)
        ensures
            self.rank_for(p.source()).level() > floor.level() ==> r == self.rank_for(p.source()),
            self.rank_for(p.source()).level() <= floor.level() ==> r.level() <= floor.level(),
    ;
}

/// The ranks of `records` for `pattern`, in order.
pub open spec fn ranks<R: Searchable>(records: Seq<R>, pattern: Seq<char>) -> Seq<Rank> {
    records.map_values(|x: R| x.rank_for(pattern))
}

/// Index `i` holds the best match: it matched, no rank is above it, and every
/// record before it ranks lower.
pub open spec fn is_best(ranks: Seq<Rank>, i: int) -> bool {
    &&& 0 <= i < ranks.len()
    &&& ranks[i] != Rank::NoMatch
    &&& forall|j: int| 0 <= j < ranks.len() ==> (#[trigger] ranks[j]).level() <= ranks[i].level()
    &&& forall|j: int| 0 <= j < i ==> (#[trigger] ranks[j]).level() < ranks[i].level()
}

/// `found` is the best match, or there is none and nothing matched.
pub open spec fn chosen(ranks: Seq<Rank>, found: Option<usize>) -> bool {
    match found {
        Some(i) => is_best(ranks, i as int),
        None => forall|j: int| 0 <= j < ranks.len() ==> ranks[j] == Rank::NoMatch,
    }
}

/// A search pattern made case-insensitive.
pub open spec fn insensitive(pattern: Seq<char>) -> Seq<char> {
    seq!['(', '?', 'i', ')'] + pattern
}

/// Why a search could not run.
#[derive(Clone, Copy, Debug, PartialEq, Eq, Structural)]
pub enum SearchError {
    /// The search pattern is not a valid regular expression.
    InvalidPattern,
}

/// The index of the best match among `records`, scanning them once in
/// order and stopping at the first name that matches.
pub fn find_best<R: Searchable>(records: &Vec<R>, p: &Pattern) -> (r: Option<usize>)
    ensures
        chosen(ranks(records@, p.source()), r),
{
    let ghost rs = ranks(records@, p.source());
    let mut best: Option<usize> = None;
    let mut floor = Rank::NoMatch;
    let mut i: usize = 0;
    while i < records.len()
        invariant
            i <= records.len(),
            rs == ranks(records@, p.source()),
            rs.len() == records@.len(),
            forall|j: int| 0 <= j < i ==> (#[trigger] rs[j]) != Rank::Name,
            forall|j: int| 0 <= j < i ==> (#[trigger] rs[j]).level() <= floor.level(),
            match best {
                None => floor == Rank::NoMatch,
                Some(b) => b < i && rs[b as int] == floor && floor != Rank::NoMatch && forall|j: int|
                    0 <= j < b ==> (#[trigger] rs[j]).level() < floor.level(),
            },
        decreases records.len() - i,
    {
        let r = records[i].rank_above(p, floor);
        assert(rs[i as int] == records@[i as int].rank_for(p.source()));
        if r == Rank::Name {
            assert(is_best(rs, i as int));
            return Some(i);
        }
        if r.level_of() > floor.level_of() {
            best = Some(i);
            floor = r;
        }
        i = i + 1;
    }
    proof {
        match best {
            Some(b) => {
                assert(is_best(rs, b as int));
            },
            None => {
                assert forall|j: int| 0 <= j < rs.len() implies rs[j] == Rank::NoMatch by {
                    assert(rs[j].level() <= 0);
                }
            },
        }
    }
    best
}

/// `pattern` prefixed with the case-insensitive flag.
pub(crate) fn insensitive_source(pattern: &str) -> (r: String)
    ensures
        r@ == insensitive(pattern@),
{
    let mut r = String::new();
    push_char(&mut r, '(');
    push_char(&mut r, '?');
    push_char(&mut r, 'i');
    push_char(&mut r, ')');
    let chars = text_chars(pattern);
    let mut i: usize = 0;
    while i < chars.len()
        invariant
            i <= chars.len(),
            chars@ == pattern@,
            r@ == seq!['(', '?', 'i', ')'] + pattern@.subrange(0, i as int),
        decreases chars.len() - i,
    {
        push_char(&mut r, chars[i]);
        i = i + 1;
        assert(r@ =~= seq!['(', '?', 'i', ')'] + pattern@.subrange(0, i as int));
    }
    assert(pattern@.subrange(0, pattern@.len() as int) =~= pattern@);
    r
}

/// Finds the best match for `pattern`, matched case-insensitively, among
/// `records`: the first whose name matches, else the first whose
/// description matches, else the first with a matching class.
pub fn find_in<R: Searchable>(records: &Vec<R>, pattern: &str) -> (r: Result<Option<usize>, SearchError>)
    ensures
        r is Err <==> !compiles(insensitive(pattern@)),
        r matches Ok(found) ==> chosen(ranks(records@, insensitive(pattern@)), found),
{
    let source = insensitive_source(pattern);
    match compile(source.as_str()) {
        Ok(p) => Ok(find_best(records, &p)),
        Err(_) => Err(SearchError::InvalidPattern),
    }
}

/// A name match wins: when exactly one record's name matches, it is the
/// best match wherever it stands, before or after records matching in
/// other fields.
pub proof fn lemma_name_wins(ranks: Seq<Rank>, i: int)
    requires
        0 <= i < ranks.len(),
        ranks[i] == Rank::Name,
        forall|j: int| 0 <= j < ranks.len() && j != i ==> ranks[j] != Rank::Name,
    ensures
        forall|k: int| is_best(ranks, k) <==> k == i,
{
    assert(is_best(ranks, i));
    assert forall|k: int| is_best(ranks, k) implies k == i by {
        assert(ranks[k].level() >= ranks[i].level());
    }
}

/// Among description matches the first wins: with no name matching, the
/// first record whose description matches is the best match, ahead of any
/// later one that matches the same way.
pub proof fn lemma_first_description_wins(ranks: Seq<Rank>, i: int)
    requires
        0 <= i < ranks.len(),
        ranks[i] == Rank::Description,
        forall|j: int| 0 <= j < ranks.len() ==> ranks[j] != Rank::Name,
        forall|j: int| 0 <= j < i ==> ranks[j] != Rank::Description,
    ensures
        forall|k: int| is_best(ranks, k) <==> k == i,
{
    assert forall|j: int| 0 <= j < ranks.len() implies (#[trigger] ranks[j]).level() <= ranks[i].level() by {
        assert(ranks[j] != Rank::Name);
    }
    assert forall|j: int| 0 <= j < i implies (#[trigger] ranks[j]).level() < ranks[i].level() by {
        assert(ranks[j] != Rank::Name && ranks[j] != Rank::Description);
    }
    assert(is_best(ranks, i));
    assert forall|k: int| is_best(ranks, k) implies k == i by {
        if k < i {
            assert(ranks[k].level() < ranks[i].level());
        } else if k > i {
            assert(ranks[i].level() < ranks[k].level());
        }
    }
}

} // verus!

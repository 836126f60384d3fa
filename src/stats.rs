//! Counting over the command names of a history.
use vstd::prelude::*;
use crate::history::{name_of, HistoryEntry};
use crate::text::{in_list, same_text, texts};

verus! {

/// The command names of the entries, in order.
pub open spec fn names_of(es: Seq<HistoryEntry>) -> Seq<Seq<char>> {
    es.map_values(|e: HistoryEntry| name_of(e.command@))
}

/// How many names belong to the list.
pub open spec fn count_member(names: Seq<Seq<char>>, list: Seq<Seq<char>>) -> int
    decreases names.len(),
{
    if names.len() == 0 {
        0
    } else {
        count_member(names.drop_last(), list) + if list.contains(names.last()) {
            1int
        } else {
            0
        }
    }
}

/// How many names equal the given one.
pub open spec fn count_eq(names: Seq<Seq<char>>, name: Seq<char>) -> int
    decreases names.len(),
{
    if names.len() == 0 {
        0
    } else {
        count_eq(names.drop_last(), name) + if names.last() == name {
            1int
        } else {
            0
        }
    }
}

/// How many distinct names there are.
pub open spec fn count_distinct(names: Seq<Seq<char>>) -> int
    decreases names.len(),
{
    if names.len() == 0 {
        0
    } else {
        count_distinct(names.drop_last()) + if names.drop_last().contains(names.last()) {
            0
        } else {
            1int
        }
    }
}

pub proof fn lemma_count_member_bounds(names: Seq<Seq<char>>, list: Seq<Seq<char>>)
    ensures
        0 <= count_member(names, list) <= names.len(),
    decreases names.len(),
{
    if names.len() > 0 {
        lemma_count_member_bounds(names.drop_last(), list);
    }
}

pub proof fn lemma_count_eq_bounds(names: Seq<Seq<char>>, name: Seq<char>)
    ensures
        0 <= count_eq(names, name) <= names.len(),
    decreases names.len(),
{
    if names.len() > 0 {
        lemma_count_eq_bounds(names.drop_last(), name);
    }
}

pub proof fn lemma_count_distinct_bounds(names: Seq<Seq<char>>)
    ensures
        0 <= count_distinct(names) <= names.len(),
        names.len() > 0 ==> count_distinct(names) >= 1,
    decreases names.len(),
{
    if names.len() > 0 {
        lemma_count_distinct_bounds(names.drop_last());
    }
}

/// The command names of the entries.
pub fn command_names(entries: &[HistoryEntry]) -> (r: Vec<&str>)
    ensures
        texts(r@) == names_of(entries@),
{
    let mut r: Vec<&str> = Vec::new();
    let mut i: usize = 0;
    while i < entries.len()
        invariant
            i <= entries@.len(),
            r@.len() == i,
            texts(r@) == names_of(entries@.subrange(0, i as int)),
        decreases entries.len() - i,
    {
        let name = entries[i].command_name();
        let ghost before = r@;
        r.push(name);
        assert forall|k: int| 0 <= k < r@.len() implies #[trigger] texts(r@)[k] == names_of(
            entries@.subrange(0, i + 1),
        )[k] by {
            if k < i {
                assert(texts(before)[k] == names_of(entries@.subrange(0, i as int))[k]);
            }
        }
        assert(texts(r@) =~= names_of(entries@.subrange(0, i + 1)));
        i = i + 1;
    }
    assert(entries@.subrange(0, i as int) =~= entries@);
    r
}

/// How many of the names belong to the list.
pub fn count_members(names: &Vec<&str>, list: &[&str]) -> (r: usize)
    ensures
        r as int == count_member(texts(names@), texts(list@)),
{
    let mut count: usize = 0;
    let mut i: usize = 0;
    while i < names.len()
        invariant
            i <= names@.len(),
            count as int == count_member(texts(names@.subrange(0, i as int)), texts(list@)),
        decreases names.len() - i,
    {
        assert(texts(names@.subrange(0, i + 1)).drop_last() =~= texts(
            names@.subrange(0, i as int),
        ));
        proof {
            lemma_count_member_bounds(texts(names@.subrange(0, i as int)), texts(list@));
        }
        if in_list(names[i], list) {
            count = count + 1;
        }
        i = i + 1;
    }
    assert(names@.subrange(0, i as int) =~= names@);
    count
}

/// How many of the names equal the given one.
pub fn count_equal(names: &Vec<&str>, name: &str) -> (r: usize)
    ensures
        r as int == count_eq(texts(names@), name@),
{
    let mut count: usize = 0;
    let mut i: usize = 0;
    while i < names.len()
        invariant
            i <= names@.len(),
            count as int == count_eq(texts(names@.subrange(0, i as int)), name@),
        decreases names.len() - i,
    {
        assert(texts(names@.subrange(0, i + 1)).drop_last() =~= texts(
            names@.subrange(0, i as int),
        ));
        proof {
            lemma_count_eq_bounds(texts(names@.subrange(0, i as int)), name@);
        }
        if same_text(names[i], name) {
            count = count + 1;
        }
        i = i + 1;
    }
    assert(names@.subrange(0, i as int) =~= names@);
    count
}

fn appears_before(names: &Vec<&str>, i: usize) -> (r: bool)
    requires
        i < names@.len(),
    ensures
        r == texts(names@.subrange(0, i as int)).contains(names@[i as int]@),
{
    let ghost prefix = texts(names@.subrange(0, i as int));
    let mut j: usize = 0;
    while j < i
        invariant
            j <= i < names@.len(),
            prefix == texts(names@.subrange(0, i as int)),
            forall|k: int| 0 <= k < j ==> prefix[k] != names@[i as int]@,
        decreases i - j,
    {
        if same_text(names[j], names[i]) {
            assert(prefix[j as int] == names@[i as int]@);
            return true;
        }
        j = j + 1;
    }
    false
}

/// How many distinct names there are.
pub fn count_unique(names: &Vec<&str>) -> (r: usize)
    ensures
        r as int == count_distinct(texts(names@)),
{
    let mut count: usize = 0;
    let mut i: usize = 0;
    while i < names.len()
        invariant
            i <= names@.len(),
            count as int == count_distinct(texts(names@.subrange(0, i as int))),
        decreases names.len() - i,
    {
        let ghost prefix = texts(names@.subrange(0, i as int));
        assert(texts(names@.subrange(0, i + 1)).drop_last() =~= prefix);
        proof {
            lemma_count_distinct_bounds(prefix);
        }
        let seen = appears_before(names, i);
        if !seen {
            count = count + 1;
        }
        i = i + 1;
    }
    assert(names@.subrange(0, i as int) =~= names@);
    count
}

} // verus!

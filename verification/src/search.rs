//! Finding the lines of a text that hold a query.

use crate::config::Config;
use crate::text::{contains, lines, lowercase, occurs_in, split_lines, to_lowercase, views};
use vstd::prelude::*;

verus! {

/// The lines among `lines` whose key holds `needle`, in their order. Each
/// line has its key at the same place in `keys`.
pub open spec fn selected(lines: Seq<Seq<char>>, keys: Seq<Seq<char>>, needle: Seq<char>) -> Seq<
    Seq<char>,
>
    decreases lines.len(),
{
    if lines.len() == 0 || keys.len() != lines.len() {
        Seq::empty()
    } else {
        let before = selected(lines.drop_last(), keys.drop_last(), needle);
        if occurs_in(needle, keys.last()) {
            before.push(lines.last())
        } else {
            before
        }
    }
}

/// Selecting by keys that were made from the lines is filtering the lines.
pub proof fn lemma_selected_is_filter(
    lines: Seq<Seq<char>>,
    key: spec_fn(Seq<char>) -> Seq<char>,
    needle: Seq<char>,
)
    ensures
        selected(lines, lines.map_values(key), needle) == lines.filter(
            |line: Seq<char>| occurs_in(needle, key(line)),
        ),
    decreases lines.len(),
{
    let keep = |line: Seq<char>| occurs_in(needle, key(line));
    reveal(Seq::filter);
    if lines.len() > 0 {
        assert(lines.map_values(key).drop_last() =~= lines.drop_last().map_values(key));
        lemma_selected_is_filter(lines.drop_last(), key, needle);
    }
}

/// The lines of `contents` that hold `query`, in their order.
pub fn search<'a>(query: &str, contents: &'a str) -> (found: Vec<&'a str>)
    ensures
        views(found@) == lines(contents@).filter(|line: Seq<char>| occurs_in(query@, line)),
{
    let all = split_lines(contents);
    let ghost keep = |line: Seq<char>| occurs_in(query@, line);
    let mut found: Vec<&'a str> = Vec::new();
    let mut i: usize = 0;
    proof {
        reveal(Seq::filter);
        assert(views(all@).take(0) =~= Seq::empty());
        assert(views(found@) =~= Seq::empty());
    }
    while i < all.len()
        invariant
            i <= all@.len(),
            views(all@) == lines(contents@),
            keep == |line: Seq<char>| occurs_in(query@, line),
            views(found@) == views(all@).take(i as int).filter(keep),
        decreases all@.len() - i,
    {
        let line = all[i];
        let ghost before = found@;
        if contains(line, query) {
            found.push(line);
        }
        proof {
            reveal(Seq::filter);
            let seen = views(all@).take(i + 1);
            assert(seen.drop_last() =~= views(all@).take(i as int));
            assert(seen.last() == line@);
            assert(views(before.push(line)) =~= views(before).push(line@));
        }
        i = i + 1;
    }
    proof {
        assert(views(all@).take(i as int) =~= views(all@));
    }
    found
}

/// The lines among `lines` whose key holds `needle`, in their order. The key
/// of a line stands at the same place in `keys`.
pub fn select_by_key<'a>(lines: &Vec<&'a str>, keys: &Vec<String>, needle: &str) -> (found: Vec<
    &'a str,
>)
    requires
        keys@.len() == lines@.len(),
    ensures
        views(found@) == selected(
            views(lines@),
            keys@.map_values(|key: String| key@),
            needle@,
        ),
{
    let ghost key_views = keys@.map_values(|key: String| key@);
    let mut found: Vec<&'a str> = Vec::new();
    let mut i: usize = 0;
    proof {
        assert(views(found@) =~= Seq::empty());
    }
    while i < lines.len()
        invariant
            i <= lines@.len(),
            keys@.len() == lines@.len(),
            key_views == keys@.map_values(|key: String| key@),
            views(found@) == selected(
                views(lines@).take(i as int),
                key_views.take(i as int),
                needle@,
            ),
        decreases lines@.len() - i,
    {
        let line = lines[i];
        let ghost before = found@;
        if contains(keys[i].as_str(), needle) {
            found.push(line);
        }
        proof {
            let seen = views(lines@).take(i + 1);
            let seen_keys = key_views.take(i + 1);
            assert(seen.drop_last() =~= views(lines@).take(i as int));
            assert(seen_keys.drop_last() =~= key_views.take(i as int));
            assert(seen.last() == line@);
            assert(seen_keys.last() == keys@[i as int]@);
            assert(views(before.push(line)) =~= views(before).push(line@));
        }
        i = i + 1;
    }
    proof {
        assert(views(lines@).take(i as int) =~= views(lines@));
        assert(key_views.take(i as int) =~= key_views);
    }
    found
}

/// The lines of `contents` that hold `query` once both are in lower case,
/// in their order and as they stand in `contents`.
pub fn search_case_insensitive<'a>(query: &str, contents: &'a str) -> (found: Vec<&'a str>)
    ensures
        views(found@) == lines(contents@).filter(
            |line: Seq<char>| occurs_in(lowercase(query@), lowercase(line)),
        ),
{
    let lowered = to_lowercase(query);
    let all = split_lines(contents);
    let mut keys: Vec<String> = Vec::new();
    let mut i: usize = 0;
    while i < all.len()
        invariant
            i <= all@.len(),
            keys@.len() == i,
            forall|k: int| 0 <= k < i ==> (#[trigger] keys@[k])@ == lowercase(all@[k]@),
        decreases all@.len() - i,
    {
        keys.push(to_lowercase(all[i]));
        i = i + 1;
    }
    let found = select_by_key(&all, &keys, lowered.as_str());
    proof {
        let fold = |line: Seq<char>| lowercase(line);
        assert(keys@.map_values(|key: String| key@) =~= views(all@).map_values(fold));
        lemma_selected_is_filter(views(all@), fold, lowered@);
        assert((|line: Seq<char>| occurs_in(lowered@, fold(line))) =~= (|line: Seq<char>|
            occurs_in(lowercase(query@), lowercase(line))));
    }
    found
}

/// The lines of `contents` that the search of `config` finds: those that
/// hold its query, as it is written or without regard to case.
pub fn matching_lines<'a>(config: &Config, contents: &'a str) -> (found: Vec<&'a str>)
    ensures
        config.case_sensitive ==> views(found@) == lines(contents@).filter(
            |line: Seq<char>| occurs_in(config.query@, line),
        ),
        !config.case_sensitive ==> views(found@) == lines(contents@).filter(
            |line: Seq<char>| occurs_in(lowercase(config.query@), lowercase(line)),
        ),
{
    if config.case_sensitive {
        search(config.query.as_str(), contents)
    } else {
        search_case_insensitive(config.query.as_str(), contents)
    }
}

} // verus!

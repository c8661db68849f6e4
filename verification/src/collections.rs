//! Counting the words of a text.

use crate::counting::{lemma_occurrences_contains, lemma_occurrences_prefix, occurrences};
use crate::text::{split_whitespace, views, words};
use vstd::prelude::*;

verus! {

/// How often each word occurs among `words`: a word that does not occur has
/// no entry.
pub open spec fn word_counts(words: Seq<Seq<char>>) -> Map<Seq<char>, int> {
    Map::new(|word: Seq<char>| words.contains(word), |word: Seq<char>| occurrences(words, word) as int)
}

/// Whether no word stands twice among `pairs`.
pub open spec fn distinct_words(pairs: Seq<(Seq<char>, int)>) -> bool {
    forall|i: int, j: int|
        0 <= i < pairs.len() && 0 <= j < pairs.len() && i != j ==> (#[trigger] pairs[i]).0 != (
        #[trigger] pairs[j]).0
}

/// Whether `word` stands at the place `i` of `pairs`.
pub open spec fn stands_at(pairs: Seq<(Seq<char>, int)>, word: Seq<char>, i: int) -> bool {
    0 <= i < pairs.len() && pairs[i].0 == word
}

/// The map that pairs of a word and a number stand for.
pub open spec fn to_map(pairs: Seq<(Seq<char>, int)>) -> Map<Seq<char>, int> {
    Map::new(
        |word: Seq<char>| exists|i: int| stands_at(pairs, word, i),
        |word: Seq<char>| pairs[choose|i: int| stands_at(pairs, word, i)].1,
    )
}

/// Words with the number of times that each was seen, in the order in which
/// they were first seen.
pub struct WordCount {
    entries: Vec<(String, i32)>,
}

impl View for WordCount {
    type V = Map<Seq<char>, int>;

    open spec fn view(&self) -> Map<Seq<char>, int> {
        to_map(self.pairs())
    }
}

impl WordCount {
    /// The words and their numbers, as they are kept.
    pub closed spec fn pairs(self) -> Seq<(Seq<char>, int)> {
        self.entries@.map_values(|entry: (String, i32)| (entry.0@, entry.1 as int))
    }

    /// The invariant: no word is kept twice.
    pub open spec fn wf(self) -> bool {
        distinct_words(self.pairs())
    }

    /// Nothing counted yet.
    pub fn new() -> (counts: WordCount)
        ensures
            counts.wf(),
            counts.pairs() == Seq::<(Seq<char>, int)>::empty(),
            counts@ == Map::<Seq<char>, int>::empty(),
    {
        let counts = WordCount { entries: Vec::new() };
        assert(counts.pairs() =~= Seq::empty());
        assert(counts@ =~= Map::empty());
        counts
    }

    /// The place at which `word` is kept, if it is.
    fn find(&self, word: &String) -> (at: Option<usize>)
        ensures
            at matches Some(i) ==> stands_at(self.pairs(), word@, i as int),
            at is None ==> forall|i: int| !stands_at(self.pairs(), word@, i),
    {
        let mut i: usize = 0;
        while i < self.entries.len()
            invariant
                i <= self.entries@.len(),
                forall|j: int| 0 <= j < i ==> !stands_at(self.pairs(), word@, j),
            decreases self.entries@.len() - i,
        {
            if self.entries[i].0 == *word {
                return Some(i);
            }
            i = i + 1;
        }
        None
    }

    /// How often `word` was seen, if it was.
    pub fn get(&self, word: &str) -> (count: Option<i32>)
        requires
            self.wf(),
        ensures
            count is Some <==> self@.dom().contains(word@),
            count matches Some(n) ==> self@[word@] == n,
    {
        let key = word.to_owned();
        match self.find(&key) {
            Some(i) => {
                proof {
                    let chosen = choose|j: int| stands_at(self.pairs(), word@, j);
                    assert(stands_at(self.pairs(), word@, i as int));
                    assert(chosen == i);
                }
                Some(self.entries[i].1)
            },
            None => None,
        }
    }

    /// The words and their numbers, in the order in which the words were
    /// first seen.
    pub fn into_entries(self) -> (entries: Vec<(String, i32)>)
        ensures
            entries@.map_values(|entry: (String, i32)| (entry.0@, entry.1 as int)) == self.pairs(),
    {
        self.entries
    }
}

/// What the pairs stand for once the word at `at` was seen once more.
proof fn lemma_counted_again(
    before: Seq<(Seq<char>, int)>,
    after: Seq<(Seq<char>, int)>,
    seen: Seq<Seq<char>>,
    word: Seq<char>,
    at: int,
)
    requires
        distinct_words(before),
        to_map(before) == word_counts(seen),
        stands_at(before, word, at),
        after == before.update(at, (word, before[at].1 + 1)),
    ensures
        distinct_words(after),
        to_map(after) == word_counts(seen.push(word)),
{
    let all = seen.push(word);
    assert(all.drop_last() =~= seen);
    assert forall|w: Seq<char>| #[trigger] to_map(after).dom().contains(w) == word_counts(
        all,
    ).dom().contains(w) by {
        lemma_occurrences_contains(all, w);
        lemma_occurrences_contains(seen, w);
        if to_map(after).dom().contains(w) {
            let i = choose|i: int| stands_at(after, w, i);
            assert(stands_at(before, w, i));
            assert(to_map(before).dom().contains(w));
        }
        if word_counts(all).dom().contains(w) {
            if w == word {
                assert(stands_at(after, w, at));
            } else {
                assert(to_map(before).dom().contains(w));
                let i = choose|i: int| stands_at(before, w, i);
                assert(stands_at(after, w, i));
            }
        }
    }
    assert forall|w: Seq<char>| to_map(after).dom().contains(w) implies #[trigger] to_map(after)[w]
        == word_counts(all)[w] by {
        let i = choose|i: int| stands_at(after, w, i);
        assert(stands_at(before, w, i));
        let j = choose|j: int| stands_at(before, w, j);
        assert(i == j);
        assert(to_map(before).dom().contains(w));
        assert(to_map(before)[w] == before[j].1);
        assert(to_map(before)[w] == word_counts(seen)[w]);
        assert(to_map(after)[w] == after[i].1);
        assert(all.last() == word);
        assert(occurrences(all, w) == occurrences(seen, w) + if w == word {
            1nat
        } else {
            0nat
        });
        if w == word {
            assert(i == at);
        }
    }
    assert(to_map(after) =~= word_counts(all));
}

/// What the pairs stand for once a word was seen for the first time.
proof fn lemma_counted_first(
    before: Seq<(Seq<char>, int)>,
    seen: Seq<Seq<char>>,
    word: Seq<char>,
)
    requires
        distinct_words(before),
        to_map(before) == word_counts(seen),
        forall|i: int| !stands_at(before, word, i),
    ensures
        distinct_words(before.push((word, 1))),
        to_map(before.push((word, 1))) == word_counts(seen.push(word)),
{
    let after = before.push((word, 1int));
    let all = seen.push(word);
    assert(all.drop_last() =~= seen);
    assert(!to_map(before).dom().contains(word));
    lemma_occurrences_contains(seen, word);
    assert forall|i: int, j: int|
        0 <= i < after.len() && 0 <= j < after.len() && i != j implies (#[trigger] after[i]).0 != (
    #[trigger] after[j]).0 by {
        if i == before.len() {
            assert(!stands_at(before, word, j));
        } else if j == before.len() {
            assert(!stands_at(before, word, i));
        } else {
            assert(before[i].0 != before[j].0);
        }
    }
    assert forall|w: Seq<char>| #[trigger] to_map(after).dom().contains(w) == word_counts(
        all,
    ).dom().contains(w) by {
        lemma_occurrences_contains(all, w);
        lemma_occurrences_contains(seen, w);
        if to_map(after).dom().contains(w) {
            let i = choose|i: int| stands_at(after, w, i);
            if i < before.len() {
                assert(stands_at(before, w, i));
                assert(to_map(before).dom().contains(w));
            }
        }
        if word_counts(all).dom().contains(w) {
            if w == word {
                assert(stands_at(after, w, before.len() as int));
            } else {
                assert(to_map(before).dom().contains(w));
                let i = choose|i: int| stands_at(before, w, i);
                assert(stands_at(after, w, i));
            }
        }
    }
    assert forall|w: Seq<char>| to_map(after).dom().contains(w) implies #[trigger] to_map(after)[w]
        == word_counts(all)[w] by {
        let i = choose|i: int| stands_at(after, w, i);
        assert(to_map(after)[w] == after[i].1);
        assert(all.last() == word);
        assert(occurrences(all, w) == occurrences(seen, w) + if w == word {
            1nat
        } else {
            0nat
        });
        if i < before.len() {
            assert(stands_at(before, w, i));
            let j = choose|j: int| stands_at(before, w, j);
            assert(i == j);
            assert(to_map(before).dom().contains(w));
            assert(to_map(before)[w] == before[j].1);
            assert(to_map(before)[w] == word_counts(seen)[w]);
        } else {
            assert(w == word);
        }
    }
    assert(to_map(after) =~= word_counts(all));
}

/// The number that is kept with a word is the number of times that the word
/// was seen.
proof fn lemma_pair_holds_count(
    pairs: Seq<(Seq<char>, int)>,
    seen: Seq<Seq<char>>,
    word: Seq<char>,
    at: int,
)
    requires
        distinct_words(pairs),
        to_map(pairs) == word_counts(seen),
        stands_at(pairs, word, at),
    ensures
        pairs[at].1 == occurrences(seen, word),
        seen.contains(word),
{
    let chosen = choose|i: int| stands_at(pairs, word, i);
    assert(chosen == at);
    assert(to_map(pairs).dom().contains(word));
    assert(to_map(pairs)[word] == pairs[at].1);
    assert(word_counts(seen).dom().contains(word));
    assert(word_counts(seen)[word] == occurrences(seen, word));
}

/// Counts how often each of `words` occurs among them. There is no count
/// where one of them occurs more often than the largest count can say.
pub fn count_words(words: &Vec<&str>) -> (counts: Option<WordCount>)
    ensures
        counts is Some <==> forall|word: Seq<char>|
            #[trigger] occurrences(views(words@), word) <= i32::MAX,
        counts matches Some(c) ==> c.wf() && c@ == word_counts(views(words@)),
{
    let mut counts = WordCount::new();
    let mut i: usize = 0;
    proof {
        assert(views(words@).take(0) =~= Seq::empty());
        assert(word_counts(Seq::empty()) =~= Map::empty());
    }
    while i < words.len()
        invariant
            i <= words@.len(),
            counts.wf(),
            counts@ == word_counts(views(words@).take(i as int)),
        decreases words@.len() - i,
    {
        let word = words[i].to_owned();
        let ghost seen = views(words@).take(i as int);
        let ghost before = counts.pairs();
        proof {
            assert(views(words@).take(i + 1) =~= seen.push(word@));
            assert(seen.push(word@).drop_last() =~= seen);
        }
        match counts.find(&word) {
            Some(at) => {
                proof {
                    lemma_pair_holds_count(before, seen, word@, at as int);
                }
                if counts.entries[at].1 == i32::MAX {
                    proof {
                        lemma_occurrences_prefix(views(words@), i + 1, word@);
                        assert(occurrences(seen.push(word@), word@) == occurrences(seen, word@) + 1);
                        assert(occurrences(views(words@), word@) > i32::MAX);
                    }
                    return None;
                }
                counts.entries[at].1 = counts.entries[at].1 + 1;
                proof {
                    assert(counts.pairs() =~= before.update(at as int, (word@, before[at as int].1 + 1)));
                    lemma_counted_again(before, counts.pairs(), seen, word@, at as int);
                }
            },
            None => {
                counts.entries.push((word, 1));
                proof {
                    assert(counts.pairs() =~= before.push((word@, 1int)));
                    lemma_counted_first(before, seen, word@);
                }
            },
        }
        i = i + 1;
    }
    proof {
        let all = views(words@);
        assert(all.take(i as int) =~= all);
        assert forall|word: Seq<char>| #[trigger] occurrences(all, word) <= i32::MAX by {
            lemma_occurrences_contains(all, word);
            if all.contains(word) {
                assert(word_counts(all).dom().contains(word));
                assert(to_map(counts.pairs()).dom().contains(word));
                let at = choose|at: int| stands_at(counts.pairs(), word, at);
                lemma_pair_holds_count(counts.pairs(), all, word, at);
            }
        }
    }
    Some(counts)
}

/// Counts how often each word of `text` occurs in it, where white space sets
/// the words apart. There is no count where one word occurs more often than
/// the largest count can say.
pub fn word_count(text: &str) -> (counts: Option<WordCount>)
    ensures
        counts is Some <==> forall|word: Seq<char>|
            #[trigger] occurrences(words(text@), word) <= i32::MAX,
        counts matches Some(c) ==> c.wf() && c@ == word_counts(words(text@)),
{
    let found = split_whitespace(text);
    count_words(&found)
}

} // verus!

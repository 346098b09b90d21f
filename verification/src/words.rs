//! Word statistics over a text.

use vstd::prelude::*;
use crate::text::{split_words, texts, words_of};

verus! {

/// Number of times `w` occurs among `words`.
pub open spec fn occurrences(words: Seq<Seq<char>>, w: Seq<char>) -> nat
    decreases words.len(),
{
    if words.len() == 0 {
        0
    } else {
        occurrences(words.drop_last(), w) + if words.last() == w {
            1nat
        } else {
            0nat
        }
    }
}

/// Number of times the word at position `j` has occurred up to and
/// including that position.
pub open spec fn running(words: Seq<Seq<char>>, j: int) -> nat {
    occurrences(words.take(j + 1), words[j])
}

/// Whether `word`, with `count` occurrences, is the most frequent word of
/// `words`: no word occurs more often, and among the words that occur as
/// often it is the one whose `count`-th occurrence comes first. A text
/// without words has the empty word, zero times.
pub open spec fn most_frequent(words: Seq<Seq<char>>, word: Seq<char>, count: nat) -> bool {
    if words.len() == 0 {
        word.len() == 0 && count == 0
    } else {
        &&& count == occurrences(words, word)
        &&& forall|w: Seq<char>| #[trigger] occurrences(words, w) <= count
        &&& exists|j: int|
            {
                &&& 0 <= j < words.len()
                &&& words[j] == word
                &&& #[trigger] running(words, j) == count
                &&& forall|i: int| 0 <= i < j ==> #[trigger] running(words, i) < count
            }
    }
}

/// A word occurs at most as often as there are words.
pub proof fn lemma_occurrences_bounded(words: Seq<Seq<char>>, w: Seq<char>)
    ensures
        occurrences(words, w) <= words.len(),
    decreases words.len(),
{
    if words.len() > 0 {
        lemma_occurrences_bounded(words.drop_last(), w);
    }
}

/// A longer prefix holds at least as many occurrences of a word.
pub proof fn lemma_occurrences_monotone(words: Seq<Seq<char>>, a: int, b: int, w: Seq<char>)
    requires
        0 <= a <= b <= words.len(),
    ensures
        occurrences(words.take(a), w) <= occurrences(words.take(b), w),
    decreases b - a,
{
    if a < b {
        assert(words.take(b).drop_last() =~= words.take(b - 1));
        lemma_occurrences_monotone(words, a, b - 1, w);
    }
}

/// At most one pair of word and count is the most frequent of `words`.
pub proof fn lemma_most_frequent_unique(
    words: Seq<Seq<char>>,
    word1: Seq<char>,
    count1: nat,
    word2: Seq<char>,
    count2: nat,
)
    requires
        most_frequent(words, word1, count1),
        most_frequent(words, word2, count2),
    ensures
        word1 == word2,
        count1 == count2,
{
    if words.len() == 0 {
        assert(word1 =~= word2);
    } else {
        assert(occurrences(words, word1) <= count2);
        assert(occurrences(words, word2) <= count1);
        let j1 = choose|j: int|
            {
                &&& 0 <= j < words.len()
                &&& words[j] == word1
                &&& #[trigger] running(words, j) == count1
                &&& forall|i: int| 0 <= i < j ==> #[trigger] running(words, i) < count1
            };
        let j2 = choose|j: int|
            {
                &&& 0 <= j < words.len()
                &&& words[j] == word2
                &&& #[trigger] running(words, j) == count2
                &&& forall|i: int| 0 <= i < j ==> #[trigger] running(words, i) < count2
            };
        if j1 < j2 {
            assert(running(words, j1) < count2);
        } else if j2 < j1 {
            assert(running(words, j2) < count1);
        }
    }
}

/// Finds the most frequent word of `text`, where words are separated by
/// white space, and the number of times it occurs.
pub fn most_frequent_word(text: &str) -> (best: (String, usize))
    ensures
        most_frequent(words_of(text@), best.0@, best.1 as nat),
{
    let words = split_words(text);
    let ghost all = texts(words@);
    let mut unique: Vec<String> = Vec::new();
    let mut counts: Vec<usize> = Vec::new();
    let mut max_word = String::new();
    let mut max_count: usize = 0;
    let mut k: usize = 0;
    while k < words.len()
        invariant
            k <= words.len(),
            all == texts(words@),
            unique.len() == counts.len(),
            forall|i: int|
                0 <= i < unique.len() ==> #[trigger] counts[i] == occurrences(
                    all.take(k as int),
                    texts(unique@)[i],
                ),
            forall|i: int, j: int|
                0 <= i < j < unique.len() ==> #[trigger] texts(unique@)[i] != #[trigger] texts(
                    unique@,
                )[j],
            forall|w: Seq<char>| #[trigger]
                occurrences(all.take(k as int), w) > 0 ==> texts(unique@).contains(w),
            forall|w: Seq<char>| #[trigger] occurrences(all.take(k as int), w) <= max_count,
            k == 0 ==> max_count == 0 && max_word@.len() == 0,
            k > 0 ==> exists|j: int|
                {
                    &&& 0 <= j < k
                    &&& all[j] == max_word@
                    &&& #[trigger] running(all, j) == max_count
                    &&& forall|i: int| 0 <= i < j ==> #[trigger] running(all, i) < max_count
                },
        decreases words.len() - k,
    {
        let ghost seen = all.take(k as int);
        let ghost next = all.take(k + 1);
        let ghost word = all[k as int];
        let ghost uniq = texts(unique@);
        let ghost old_max = max_count;
        let ghost old_word = max_word@;
        proof {
            assert(next.drop_last() =~= seen);
            assert(next.last() == word);
            assert(words@[k as int]@ == word);
            lemma_occurrences_bounded(seen, word);
            assert forall|i: int| 0 <= i < k implies #[trigger] running(all, i) <= old_max by {
                lemma_occurrences_monotone(all, i + 1, k as int, all[i]);
            }
        }
        let mut found: Option<usize> = None;
        let mut i: usize = 0;
        while i < unique.len()
            invariant_except_break
                found is None,
                forall|j: int| 0 <= j < i ==> uniq[j] != word,
            invariant
                i <= unique.len(),
                k < words.len(),
                all == texts(words@),
                word == all[k as int],
                uniq == texts(unique@),
            ensures
                match found {
                    Some(at) => at < unique.len() && uniq[at as int] == word,
                    None => !uniq.contains(word),
                },
            decreases unique.len() - i,
        {
            if unique[i] == words[k] {
                found = Some(i);
                break;
            }
            i += 1;
        }
        match found {
            Some(at) => {
                let bumped = counts[at] + 1;
                counts.set(at, bumped);
                if bumped > max_count {
                    max_count = bumped;
                    max_word = words[k].clone();
                }
                proof {
                    assert forall|i: int| 0 <= i < unique.len() implies #[trigger] counts[i]
                        == occurrences(next, texts(unique@)[i]) by {
                        assert(uniq[i] == word <==> i == at);
                    }
                }
            },
            None => {
                proof {
                    if occurrences(seen, word) > 0 {
                        assert(uniq.contains(word));
                    }
                }
                unique.push(words[k].clone());
                counts.push(1);
                if max_count == 0 {
                    max_count = 1;
                    max_word = words[k].clone();
                }
                proof {
                    assert(texts(unique@) =~= uniq.push(word));
                    assert forall|i: int| 0 <= i < unique.len() implies #[trigger] counts[i]
                        == occurrences(next, texts(unique@)[i]) by {
                        if i < uniq.len() {
                            assert(uniq[i] != word) by {
                                if uniq[i] == word {
                                    assert(uniq.contains(word));
                                }
                            }
                        }
                    }
                    assert forall|i: int, j: int| 0 <= i < j < unique.len() implies #[trigger] texts(
                        unique@,
                    )[i] != #[trigger] texts(unique@)[j] by {
                        if j == uniq.len() {
                            if uniq[i] == word {
                                assert(uniq.contains(word));
                            }
                        } else {
                            assert(uniq[i] != uniq[j]);
                        }
                    }
                }
            },
        }
        proof {
            assert forall|w: Seq<char>| #[trigger] occurrences(next, w) > 0 implies texts(
                unique@,
            ).contains(w) by {
                if w == word {
                    match found {
                        Some(at) => {
                            assert(texts(unique@)[at as int] == word);
                        },
                        None => {
                            assert(texts(unique@)[uniq.len() as int] == word);
                        },
                    }
                } else {
                    assert(occurrences(seen, w) > 0);
                    assert(uniq.contains(w));
                    let j = choose|j: int| 0 <= j < uniq.len() && uniq[j] == w;
                    assert(texts(unique@)[j] == w);
                }
            }
            assert forall|w: Seq<char>| #[trigger] occurrences(next, w) <= max_count by {
                assert(occurrences(seen, w) <= old_max);
            }
            assert(running(all, k as int) == occurrences(seen, word) + 1);
            if max_count != old_max {
                assert(running(all, k as int) == max_count);
                assert(all[k as int] == max_word@);
            } else if k > 0 {
                let j = choose|j: int|
                    {
                        &&& 0 <= j < k
                        &&& all[j] == old_word
                        &&& #[trigger] running(all, j) == old_max
                        &&& forall|i: int| 0 <= i < j ==> #[trigger] running(all, i) < old_max
                    };
                assert(running(all, j) == max_count);
            }
        }
        k += 1;
    }
    proof {
        assert(all.take(k as int) =~= all);
        assert(words_of(text@) == all);
        if k > 0 {
            let j = choose|j: int|
                {
                    &&& 0 <= j < k
                    &&& all[j] == max_word@
                    &&& #[trigger] running(all, j) == max_count
                    &&& forall|i: int| 0 <= i < j ==> #[trigger] running(all, i) < max_count
                };
            lemma_occurrences_monotone(all, j + 1, k as int, max_word@);
        }
    }
    (max_word, max_count)
}

} // verus!

//! Character-level helpers shared by the text-handling modules.

use vstd::prelude::*;
use vstd::string::{StrSliceExecFns, StringExecFns};

verus! {

/// The texts of a sequence of strings.
pub open spec fn texts(items: Seq<String>) -> Seq<Seq<char>> {
    Seq::new(items.len(), |i: int| items[i]@)
}

/// Whether `c` is white space, as `char::is_whitespace` tells it.
pub uninterp spec fn white_space(c: char) -> bool;

/// `char::is_whitespace` is a function of the character alone; its result
/// goes by the name [`white_space`].
pub assume_specification[ char::is_whitespace ](c: char) -> (r: bool)
    ensures
        r == white_space(c),
;

/// Length of the longest prefix of `s` that holds no white space.
pub open spec fn word_len(s: Seq<char>) -> nat
    decreases s.len(),
{
    if s.len() == 0 || white_space(s[0]) {
        0
    } else {
        1 + word_len(s.drop_first())
    }
}

/// The words of `s`: its maximal runs of characters that are not white
/// space, from left to right.
pub open spec fn words_of(s: Seq<char>) -> Seq<Seq<char>>
    decreases s.len(),
{
    if s.len() == 0 {
        Seq::empty()
    } else if white_space(s[0]) {
        words_of(s.drop_first())
    } else {
        proof {
            lemma_word_len_bounds(s);
        }
        seq![s.take(word_len(s) as int)] + words_of(s.skip(word_len(s) as int))
    }
}

/// A word is no longer than the text it starts.
pub proof fn lemma_word_len_bounds(s: Seq<char>)
    ensures
        word_len(s) <= s.len(),
        s.len() > 0 && !white_space(s[0]) ==> word_len(s) >= 1,
    decreases s.len(),
{
    if s.len() > 0 && !white_space(s[0]) {
        lemma_word_len_bounds(s.drop_first());
    }
}

/// A run of `k` characters free of white space that ends at white space or
/// at the end of the text is the first word in full.
pub proof fn lemma_word_len_is(s: Seq<char>, k: nat)
    requires
        k <= s.len(),
        forall|j: int| 0 <= j < k ==> !white_space(s[j]),
        k == s.len() || white_space(s[k as int]),
    ensures
        word_len(s) == k,
    decreases k,
{
    if k > 0 {
        let rest = s.drop_first();
        assert forall|j: int| 0 <= j < k - 1 implies !white_space(rest[j]) by {
            assert(rest[j] == s[j + 1]);
        }
        lemma_word_len_is(rest, (k - 1) as nat);
    }
}

/// The characters of `s`, in order.
pub fn chars_of(s: &str) -> (out: Vec<char>)
    ensures
        out@ == s@,
{
    let mut out: Vec<char> = Vec::new();
    for c in it: s.chars()
        invariant
            it.seq() == s@,
            out@ == s@.take(it.index() as int),
    {
        out.push(c);
        assert(out@ =~= s@.take(it.index() + 1));
    }
    assert(out@ =~= s@);
    out
}

/// Splits `text` at white space into its words.
pub fn split_words(text: &str) -> (words: Vec<String>)
    ensures
        texts(words@) == words_of(text@),
{
    let chars = chars_of(text);
    let n = chars.len();
    let mut words: Vec<String> = Vec::new();
    let mut i: usize = 0;
    assert(text@.skip(0) =~= text@);
    assert(texts(words@) + words_of(text@) =~= words_of(text@));
    while i < n
        invariant
            i <= n,
            n == chars.len(),
            chars@ == text@,
            words_of(text@) == texts(words@) + words_of(text@.skip(i as int)),
        decreases n - i,
    {
        let ghost rest = text@.skip(i as int);
        if chars[i].is_whitespace() {
            assert(rest.drop_first() =~= text@.skip(i + 1));
            i += 1;
        } else {
            let start = i;
            let mut end = i + 1;
            while end < n && !chars[end].is_whitespace()
                invariant
                    start < end <= n,
                    n == chars.len(),
                    forall|j: int| start <= j < end ==> !white_space(chars@[j]),
                decreases n - end,
            {
                end += 1;
            }
            proof {
                assert forall|j: int| 0 <= j < end - start implies !white_space(rest[j]) by {
                    assert(rest[j] == chars@[start + j]);
                }
                lemma_word_len_is(rest, (end - start) as nat);
                assert(rest.take(end - start) =~= text@.subrange(start as int, end as int));
                assert(rest.skip(end - start) =~= text@.skip(end as int));
            }
            let word = text.substring_char(start, end).to_owned();
            let ghost before = texts(words@);
            words.push(word);
            assert(texts(words@) =~= before + seq![word@]);
            assert(texts(words@) + words_of(text@.skip(end as int)) =~= before + (seq![word@]
                + words_of(text@.skip(end as int))));
            i = end;
        }
    }
    assert(text@.skip(n as int) =~= Seq::<char>::empty());
    assert(texts(words@) + Seq::<Seq<char>>::empty() =~= texts(words@));
    words
}

/// `s` without the white space it starts with.
pub open spec fn trim_start(s: Seq<char>) -> Seq<char>
    decreases s.len(),
{
    if s.len() > 0 && white_space(s[0]) {
        trim_start(s.drop_first())
    } else {
        s
    }
}

/// `s` without the white space it ends with.
pub open spec fn trim_end(s: Seq<char>) -> Seq<char>
    decreases s.len(),
{
    if s.len() > 0 && white_space(s.last()) {
        trim_end(s.drop_last())
    } else {
        s
    }
}

/// `s` without the white space at either end.
pub open spec fn trimmed(s: Seq<char>) -> Seq<char> {
    trim_end(trim_start(s))
}

/// Skipping `k` leading white-space characters up to a character that is
/// none, or up to the end, trims the start.
pub proof fn lemma_trim_start_is(s: Seq<char>, k: int)
    requires
        0 <= k <= s.len(),
        forall|j: int| 0 <= j < k ==> white_space(s[j]),
        k == s.len() || !white_space(s[k]),
    ensures
        trim_start(s) == s.skip(k),
    decreases k,
{
    if k == 0 {
        assert(s.skip(0) =~= s);
    } else {
        let rest = s.drop_first();
        assert forall|j: int| 0 <= j < k - 1 implies white_space(rest[j]) by {
            assert(rest[j] == s[j + 1]);
        }
        lemma_trim_start_is(rest, k - 1);
        assert(rest.skip(k - 1) =~= s.skip(k));
    }
}

/// Keeping the first `k` characters, where all after them are white space
/// and the last kept is none, trims the end.
pub proof fn lemma_trim_end_is(s: Seq<char>, k: int)
    requires
        0 <= k <= s.len(),
        forall|j: int| k <= j < s.len() ==> white_space(s[j]),
        k == 0 || !white_space(s[k - 1]),
    ensures
        trim_end(s) == s.take(k),
    decreases s.len() - k,
{
    if k == s.len() {
        assert(s.take(k) =~= s);
    } else {
        let rest = s.drop_last();
        lemma_trim_end_is(rest, k);
        assert(rest.take(k) =~= s.take(k));
    }
}

/// `text` without the white space at either end.
pub fn trim(text: &str) -> (inner: &str)
    ensures
        inner@ == trimmed(text@),
{
    let chars = chars_of(text);
    let n = chars.len();
    let mut start: usize = 0;
    while start < n && chars[start].is_whitespace()
        invariant
            start <= n,
            n == chars.len(),
            forall|j: int| 0 <= j < start ==> white_space(chars@[j]),
        decreases n - start,
    {
        start += 1;
    }
    let mut end: usize = n;
    while end > start && chars[end - 1].is_whitespace()
        invariant
            start <= end <= n,
            n == chars.len(),
            forall|j: int| end <= j < n ==> white_space(chars@[j]),
        decreases end,
    {
        end -= 1;
    }
    proof {
        lemma_trim_start_is(text@, start as int);
        let tail = text@.skip(start as int);
        assert forall|j: int| end - start <= j < tail.len() implies white_space(tail[j]) by {
            assert(tail[j] == chars@[start + j]);
        }
        if end > start {
            assert(tail[end - start - 1] == chars@[end - 1]);
        }
        lemma_trim_end_is(tail, end - start);
        assert(tail.take(end - start) =~= text@.subrange(start as int, end as int));
    }
    text.substring_char(start, end)
}

/// The character that stands for the digit `d`.
pub open spec fn digit_char(d: nat) -> char {
    if d == 0 {
        '0'
    } else if d == 1 {
        '1'
    } else if d == 2 {
        '2'
    } else if d == 3 {
        '3'
    } else if d == 4 {
        '4'
    } else if d == 5 {
        '5'
    } else if d == 6 {
        '6'
    } else if d == 7 {
        '7'
    } else if d == 8 {
        '8'
    } else {
        '9'
    }
}

/// The decimal digits of `n`, most significant first, without leading
/// zeros.
pub open spec fn decimal_digits(n: nat) -> Seq<char>
    decreases n,
{
    if n < 10 {
        seq![digit_char(n)]
    } else {
        decimal_digits(n / 10).push(digit_char(n % 10))
    }
}

/// The decimal text of `n`, with a minus sign in front when it is negative.
pub open spec fn decimal(n: int) -> Seq<char> {
    if n < 0 {
        seq!['-'] + decimal_digits((-n) as nat)
    } else {
        decimal_digits(n as nat)
    }
}

/// `count` copies of the character `c`.
pub open spec fn repeated(c: char, count: nat) -> Seq<char> {
    Seq::new(count, |i: int| c)
}

/// Appends the digit `d` to `out`.
fn push_digit(out: &mut String, d: u8)
    requires
        d < 10,
    ensures
        final(out)@ == old(out)@.push(digit_char(d as nat)),
{
    proof {
        reveal_strlit("0");
        reveal_strlit("1");
        reveal_strlit("2");
        reveal_strlit("3");
        reveal_strlit("4");
        reveal_strlit("5");
        reveal_strlit("6");
        reveal_strlit("7");
        reveal_strlit("8");
        reveal_strlit("9");
    }
    let text = match d {
        0 => "0",
        1 => "1",
        2 => "2",
        3 => "3",
        4 => "4",
        5 => "5",
        6 => "6",
        7 => "7",
        8 => "8",
        _ => "9",
    };
    assert(text@ =~= seq![digit_char(d as nat)]);
    out.append(text);
    assert(out@ =~= old(out)@.push(digit_char(d as nat)));
}

/// The decimal text of `n`.
pub fn unsigned_text(n: u128) -> (text: String)
    ensures
        text@ == decimal_digits(n as nat),
{
    let mut low: Vec<u8> = Vec::new();
    let mut rest = n;
    let ghost mut tail: Seq<char> = Seq::empty();
    assert(decimal_digits(rest as nat) + tail =~= decimal_digits(n as nat));
    while rest >= 10
        invariant
            decimal_digits(n as nat) == decimal_digits(rest as nat) + tail,
            tail.len() == low.len(),
            forall|i: int| 0 <= i < low.len() ==> low[i] < 10,
            forall|i: int|
                0 <= i < low.len() ==> #[trigger] tail[i] == digit_char(
                    low[low.len() - 1 - i] as nat,
                ),
        decreases rest,
    {
        let d = (rest % 10) as u8;
        let ghost c = digit_char(d as nat);
        let ghost old_tail = tail;
        let ghost old_low = low@;
        proof {
            tail = seq![c] + tail;
            assert(decimal_digits(rest as nat) == decimal_digits((rest / 10) as nat).push(c));
            assert(decimal_digits((rest / 10) as nat).push(c) + old_tail =~= decimal_digits(
                (rest / 10) as nat,
            ) + tail);
        }
        low.push(d);
        rest = rest / 10;
        proof {
            assert forall|i: int| 0 <= i < low.len() implies #[trigger] tail[i] == digit_char(
                low[low.len() - 1 - i] as nat,
            ) by {
                if i > 0 {
                    assert(tail[i] == old_tail[i - 1]);
                    assert(low[low.len() - 1 - i] == old_low[old_low.len() - 1 - (i - 1)]);
                }
            }
        }
    }
    let mut text = String::new();
    push_digit(&mut text, rest as u8);
    let ghost head = text@;
    assert(head =~= decimal_digits(rest as nat));
    let mut left: usize = low.len();
    assert(head + tail.take(0) =~= head);
    while left > 0
        invariant
            left <= low.len(),
            tail.len() == low.len(),
            forall|i: int| 0 <= i < low.len() ==> low[i] < 10,
            forall|i: int|
                0 <= i < low.len() ==> #[trigger] tail[i] == digit_char(
                    low[low.len() - 1 - i] as nat,
                ),
            text@ == head + tail.take(low.len() - left),
        decreases left,
    {
        left -= 1;
        let ghost at = low.len() - 1 - left;
        let ghost before = text@;
        push_digit(&mut text, low[left]);
        assert(tail[at] == digit_char(low[left as int] as nat));
        assert(before.push(tail[at]) =~= head + tail.take(at + 1));
    }
    assert(tail.take(low.len() as int) =~= tail);
    text
}

/// The decimal text of `n`.
pub fn signed_text(n: i32) -> (text: String)
    ensures
        text@ == decimal(n as int),
{
    if n < 0 {
        let magnitude: u128 = (-(n as i64)) as u128;
        let digits = unsigned_text(magnitude);
        proof {
            reveal_strlit("-");
        }
        let text = "-".to_owned().concat(digits.as_str());
        assert(text@ =~= decimal(n as int));
        text
    } else {
        unsigned_text(n as u128)
    }
}

} // verus!

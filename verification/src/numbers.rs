//! Small integer predicates.

use vstd::prelude::*;

verus! {

/// Whether `n` is a multiple of two.
pub open spec fn even(n: int) -> bool {
    n % 2 == 0
}

/// How a guess stands against the secret: `0` on a hit, `1` when the guess is
/// too high, `-1` when it is too low.
pub open spec fn guess_verdict(guess: int, secret: int) -> int {
    if guess == secret {
        0
    } else if guess > secret {
        1
    } else {
        -1
    }
}

/// Tells whether `n` is even.
pub fn is_even(n: i32) -> (r: bool)
    ensures
        r == even(n as int),
{
    n % 2 == 0
}

/// Compares a guess with the secret number.
pub fn check_guess(guess: i32, secret: i32) -> (r: i32)
    ensures
        r == guess_verdict(guess as int, secret as int),
{
    if guess == secret {
        0
    } else if guess > secret {
        1
    } else {
        -1
    }
}

/// The FizzBuzz word of `n`: `FizzBuzz` for a multiple of fifteen, `Fizz`
/// for another multiple of three, `Buzz` for another multiple of five, and
/// no word otherwise.
pub open spec fn fizz_buzz_word(n: int) -> Seq<char> {
    if n % 3 == 0 && n % 5 == 0 {
        "FizzBuzz"@
    } else if n % 3 == 0 {
        "Fizz"@
    } else if n % 5 == 0 {
        "Buzz"@
    } else {
        ""@
    }
}

/// The sum of `numbers`.
pub open spec fn sum_of(numbers: Seq<i32>) -> int
    decreases numbers.len(),
{
    if numbers.len() == 0 {
        0
    } else {
        sum_of(numbers.drop_last()) + numbers.last()
    }
}

/// Whether `m` is the largest of `numbers`: one of them, and none is
/// larger.
pub open spec fn is_largest(numbers: Seq<i32>, m: i32) -> bool {
    &&& numbers.contains(m)
    &&& forall|i: int| 0 <= i < numbers.len() ==> numbers[i] <= m
}

/// A sum of `i32` numbers stays within their count times the bounds of
/// `i32`.
pub proof fn lemma_sum_bounded(numbers: Seq<i32>)
    ensures
        numbers.len() * i32::MIN <= sum_of(numbers) <= numbers.len() * i32::MAX,
    decreases numbers.len(),
{
    if numbers.len() > 0 {
        lemma_sum_bounded(numbers.drop_last());
    }
}

/// The word that says whether `n` is even or odd.
pub fn parity_word(n: i32) -> (word: &'static str)
    ensures
        word@ == if even(n as int) {
            "Even"@
        } else {
            "Odd"@
        },
{
    if is_even(n) {
        "Even"
    } else {
        "Odd"
    }
}

/// The FizzBuzz word of `n`.
pub fn fizz_buzz(n: i32) -> (word: &'static str)
    ensures
        word@ == fizz_buzz_word(n as int),
{
    if n % 3 == 0 && n % 5 == 0 {
        "FizzBuzz"
    } else if n % 3 == 0 {
        "Fizz"
    } else if n % 5 == 0 {
        "Buzz"
    } else {
        ""
    }
}

/// Adds up `numbers`.
pub fn sum(numbers: &[i32]) -> (total: i128)
    ensures
        total == sum_of(numbers@),
{
    let mut total: i128 = 0;
    let mut i: usize = 0;
    assert(numbers@.take(0) =~= Seq::<i32>::empty());
    while i < numbers.len()
        invariant
            i <= numbers.len(),
            total == sum_of(numbers@.take(i as int)),
        decreases numbers.len() - i,
    {
        proof {
            lemma_sum_bounded(numbers@.take(i as int));
            assert(numbers@.take(i + 1).drop_last() =~= numbers@.take(i as int));
            assert(i * i32::MIN >= usize::MAX * i32::MIN) by (nonlinear_arith)
                requires
                    0 <= i <= usize::MAX,
            ;
            assert(i * i32::MAX <= usize::MAX * i32::MAX) by (nonlinear_arith)
                requires
                    0 <= i <= usize::MAX,
            ;
        }
        total = total + numbers[i] as i128;
        i += 1;
    }
    assert(numbers@.take(i as int) =~= numbers@);
    total
}

/// Finds the largest of `numbers`, of which there is at least one.
pub fn largest(numbers: &[i32]) -> (m: i32)
    requires
        numbers.len() > 0,
    ensures
        is_largest(numbers@, m),
{
    let mut m = numbers[0];
    let mut i: usize = 1;
    while i < numbers.len()
        invariant
            1 <= i <= numbers.len(),
            exists|j: int| 0 <= j < i && numbers[j] == m,
            forall|j: int| 0 <= j < i ==> numbers[j] <= m,
        decreases numbers.len() - i,
    {
        if numbers[i] > m {
            m = numbers[i];
        }
        i += 1;
    }
    m
}

} // verus!

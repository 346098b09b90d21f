use sitecheck::numbers::{check_guess, fizz_buzz, is_even, largest, parity_word, sum};

#[test]
fn even_numbers_are_even() {
    assert!(is_even(0));
    assert!(is_even(8));
    assert!(is_even(-4));
    assert!(!is_even(3));
    assert!(!is_even(-7));
    assert!(is_even(i32::MIN));
    assert!(!is_even(i32::MAX));
}

#[test]
fn guess_is_compared_with_secret() {
    assert_eq!(check_guess(42, 42), 0);
    assert_eq!(check_guess(43, 42), 1);
    assert_eq!(check_guess(26, 42), -1);
    assert_eq!(check_guess(i32::MIN, i32::MAX), -1);
    assert_eq!(check_guess(i32::MAX, i32::MIN), 1);
}

#[test]
fn guessing_upwards_from_26_takes_17_guesses() {
    let secret = 42;
    let mut attempts = 0;
    loop {
        attempts += 1;
        let guess = 25 + attempts;
        let verdict = check_guess(guess, secret);
        if verdict == 0 {
            break;
        }
        assert_eq!(verdict, -1);
    }
    assert_eq!(attempts, 17);
}

#[test]
fn parity_words() {
    assert_eq!(parity_word(12), "Even");
    assert_eq!(parity_word(21), "Odd");
    assert_eq!(parity_word(-3), "Odd");
}

#[test]
fn fizz_buzz_words() {
    let numbers = [3, 5, 8, 12, 15, 21, 25, 30, 42, 50];
    let words: Vec<&str> = numbers.iter().map(|n| fizz_buzz(*n)).collect();
    assert_eq!(
        words,
        vec!["Fizz", "Buzz", "", "Fizz", "FizzBuzz", "Fizz", "Buzz", "FizzBuzz", "Fizz", "Buzz"]
    );
    assert_eq!(fizz_buzz(0), "FizzBuzz");
    assert_eq!(fizz_buzz(-9), "Fizz");
    assert_eq!(fizz_buzz(-10), "Buzz");
    assert_eq!(fizz_buzz(-7), "");
}

#[test]
fn sum_and_largest_of_the_sample() {
    let numbers = [3, 5, 8, 12, 15, 21, 25, 30, 42, 50];
    assert_eq!(sum(&numbers), 211);
    assert_eq!(largest(&numbers), 50);
}

#[test]
fn sum_does_not_overflow() {
    assert_eq!(sum(&[]), 0);
    assert_eq!(sum(&[i32::MAX, i32::MAX, 1]), 2 * (i32::MAX as i128) + 1);
    assert_eq!(sum(&[i32::MIN, i32::MIN]), 2 * (i32::MIN as i128));
}

#[test]
fn largest_with_negatives_and_repeats() {
    assert_eq!(largest(&[-5]), -5);
    assert_eq!(largest(&[-5, -2, -9, -2]), -2);
    assert_eq!(largest(&[7, 7, 7]), 7);
    assert_eq!(largest(&[i32::MIN, i32::MAX]), i32::MAX);
}

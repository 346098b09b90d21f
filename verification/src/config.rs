//! The configuration of a run and how it is read from command-line
//! arguments.

use vstd::prelude::*;
use crate::text::{chars_of, texts};

verus! {

/// The settings of one run. They are fixed before the run starts.
#[derive(Clone, Copy, Debug, PartialEq, Eq)]
pub struct Config {
    /// Number of concurrent workers.
    pub workers: usize,
    /// Time limit of a single attempt, in milliseconds.
    pub timeout_ms: u64,
    /// Attempts allowed beyond the first.
    pub max_retries: u32,
    /// Whether the report is structured rather than a table.
    pub json: bool,
}

/// The settings in force when no argument says otherwise: 16 workers, five
/// seconds per attempt, no retries, a table as report.
pub open spec fn default_config() -> Config {
    Config { workers: 16, timeout_ms: 5000, max_retries: 0, json: false }
}

impl Default for Config {
    fn default() -> (config: Config)
        ensures
            config == default_config(),
    {
        Config { workers: 16, timeout_ms: 5000, max_retries: 0, json: false }
    }
}

/// Whether `c` is a decimal digit.
pub open spec fn is_digit(c: char) -> bool {
    '0' <= c <= '9'
}

/// The number that a sequence of decimal digits denotes.
pub open spec fn digits_value(digits: Seq<char>) -> nat
    decreases digits.len(),
{
    if digits.len() == 0 {
        0
    } else {
        digits_value(digits.drop_last()) * 10 + (digits.last() as nat - '0' as nat) as nat
    }
}

/// The digits of a number text: the text without a leading plus sign.
pub open spec fn unsigned_digits(text: Seq<char>) -> Seq<char> {
    if text.len() > 0 && text[0] == '+' {
        text.drop_first()
    } else {
        text
    }
}

/// The number that `text` denotes, if it is one or more decimal digits,
/// with or without a plus sign in front, and the number is at most `max`.
pub open spec fn parsed_unsigned(text: Seq<char>, max: nat) -> Option<nat> {
    let digits = unsigned_digits(text);
    if digits.len() > 0 && (forall|i: int| 0 <= i < digits.len() ==> is_digit(#[trigger] digits[i]))
        && digits_value(digits) <= max {
        Some(digits_value(digits))
    } else {
        None
    }
}

/// The value of a number never falls when digits are appended.
pub proof fn lemma_digits_value_grows(digits: Seq<char>, n: int)
    requires
        0 <= n <= digits.len(),
        forall|i: int| 0 <= i < digits.len() ==> is_digit(#[trigger] digits[i]),
    ensures
        digits_value(digits.take(n)) <= digits_value(digits),
    decreases digits.len() - n,
{
    if n == digits.len() {
        assert(digits.take(n) =~= digits);
    } else {
        let longer = digits.take(n + 1);
        assert(longer.drop_last() =~= digits.take(n));
        assert(is_digit(digits[n]));
        assert(digits_value(digits.take(n)) <= digits_value(longer)) by (nonlinear_arith)
            requires
                digits_value(longer) == digits_value(digits.take(n)) * 10 + (digits[n] as nat
                    - '0' as nat) as nat,
        ;
        lemma_digits_value_grows(digits, n + 1);
    }
}

/// Reads an unsigned decimal number of at most `max` from `text`.
pub fn parse_unsigned(text: &str, max: u64) -> (value: Option<u64>)
    ensures
        value matches Some(v) ==> parsed_unsigned(text@, max as nat) == Some(v as nat),
        value is None ==> parsed_unsigned(text@, max as nat) is None,
{
    let chars = chars_of(text);
    let start: usize = if chars.len() > 0 && chars[0] == '+' { 1 } else { 0 };
    let ghost digits = unsigned_digits(text@);
    assert(digits =~= text@.skip(start as int));
    if start == chars.len() {
        return None;
    }
    let mut value: u64 = 0;
    let mut i: usize = start;
    while i < chars.len()
        invariant
            start <= i <= chars.len(),
            chars@ == text@,
            digits == text@.skip(start as int),
            digits == unsigned_digits(text@),
            forall|j: int| 0 <= j < i - start ==> is_digit(#[trigger] digits[j]),
            value == digits_value(digits.take(i - start)),
            value <= max,
        decreases chars.len() - i,
    {
        let c = chars[i];
        assert(c == digits[i - start]);
        if !(c >= '0' && c <= '9') {
            assert(!is_digit(digits[i - start]));
            return None;
        }
        let d: u64 = (c as u32 - '0' as u32) as u64;
        proof {
            assert(digits.take(i - start + 1).drop_last() =~= digits.take(i - start));
        }
        let ghost next = digits_value(digits.take(i - start + 1));
        assert(next == value * 10 + d);
        let grown = match value.checked_mul(10) {
            Some(tens) => tens.checked_add(d),
            None => None,
        };
        let fits = match grown {
            Some(n) => n <= max,
            None => false,
        };
        if !fits {
            proof {
                assert(next > max);
                if forall|j: int| 0 <= j < digits.len() ==> is_digit(#[trigger] digits[j]) {
                    lemma_digits_value_grows(digits, i - start + 1);
                }
            }
            return None;
        }
        value = grown.unwrap();
        i += 1;
    }
    assert(digits.take(i - start) =~= digits);
    Some(value)
}

/// Whether `arg` is the flag that sets the number of workers.
pub open spec fn is_workers_flag(arg: Seq<char>) -> bool {
    arg == "-w"@ || arg == "--workers"@
}

/// Whether `arg` is the flag that sets the time limit of an attempt.
pub open spec fn is_timeout_flag(arg: Seq<char>) -> bool {
    arg == "-t"@ || arg == "--timeout"@
}

/// Whether `arg` is the flag that sets the number of retries.
pub open spec fn is_retries_flag(arg: Seq<char>) -> bool {
    arg == "-r"@ || arg == "--retries"@
}

/// Whether `arg` is the flag that asks for a structured report.
pub open spec fn is_json_flag(arg: Seq<char>) -> bool {
    arg == "--json"@
}

/// `config` with the number of workers that `value` denotes, if it
/// denotes one that fits.
pub open spec fn with_workers(config: Config, value: Seq<char>) -> Config {
    match parsed_unsigned(value, usize::MAX as nat) {
        Some(n) => Config { workers: n as usize, ..config },
        None => config,
    }
}

/// `config` with the time limit that `value` denotes, if it denotes one
/// that fits.
pub open spec fn with_timeout(config: Config, value: Seq<char>) -> Config {
    match parsed_unsigned(value, u64::MAX as nat) {
        Some(n) => Config { timeout_ms: n as u64, ..config },
        None => config,
    }
}

/// `config` with the number of retries that `value` denotes, if it denotes
/// one that fits.
pub open spec fn with_retries(config: Config, value: Seq<char>) -> Config {
    match parsed_unsigned(value, u32::MAX as nat) {
        Some(n) => Config { max_retries: n as u32, ..config },
        None => config,
    }
}

/// The settings that the arguments from position `from` on turn `config`
/// into, read from left to right. A value flag takes the argument after it
/// as its value, whatever that is, and changes the setting only if the
/// value is a number that fits; a value flag in last place changes nothing.
/// Arguments that are no flag are passed over.
pub open spec fn parse_from(args: Seq<Seq<char>>, from: int, config: Config) -> Config
    decreases args.len() - from,
{
    if from < 0 || from >= args.len() {
        config
    } else if is_workers_flag(args[from]) {
        if from + 1 < args.len() {
            parse_from(args, from + 2, with_workers(config, args[from + 1]))
        } else {
            config
        }
    } else if is_timeout_flag(args[from]) {
        if from + 1 < args.len() {
            parse_from(args, from + 2, with_timeout(config, args[from + 1]))
        } else {
            config
        }
    } else if is_retries_flag(args[from]) {
        if from + 1 < args.len() {
            parse_from(args, from + 2, with_retries(config, args[from + 1]))
        } else {
            config
        }
    } else if is_json_flag(args[from]) {
        parse_from(args, from + 1, Config { json: true, ..config })
    } else {
        parse_from(args, from + 1, config)
    }
}

/// The settings that a list of arguments asks for.
pub open spec fn parsed_args(args: Seq<Seq<char>>) -> Config {
    parse_from(args, 0, default_config())
}

/// Reads the settings of a run from the program's arguments (without the
/// program's name). Settings that no argument names keep their defaults.
pub fn parse_args(args: &Vec<String>) -> (config: Config)
    ensures
        config == parsed_args(texts(args@)),
{
    let workers_short = "-w".to_owned();
    let workers_long = "--workers".to_owned();
    let timeout_short = "-t".to_owned();
    let timeout_long = "--timeout".to_owned();
    let retries_short = "-r".to_owned();
    let retries_long = "--retries".to_owned();
    let json_long = "--json".to_owned();
    let ghost all = texts(args@);
    let mut config = Config::default();
    let mut i: usize = 0;
    while i < args.len()
        invariant
            i <= args.len(),
            all == texts(args@),
            workers_short@ == "-w"@,
            workers_long@ == "--workers"@,
            timeout_short@ == "-t"@,
            timeout_long@ == "--timeout"@,
            retries_short@ == "-r"@,
            retries_long@ == "--retries"@,
            json_long@ == "--json"@,
            parsed_args(all) == parse_from(all, i as int, config),
        decreases args.len() - i,
    {
        assert(all[i as int] == args@[i as int]@);
        let arg = &args[i];
        let has_value = i + 1 < args.len();
        if has_value {
            assert(all[i + 1] == args@[i + 1]@);
        }
        if *arg == workers_short || *arg == workers_long {
            if has_value {
                match parse_unsigned(args[i + 1].as_str(), usize::MAX as u64) {
                    Some(n) => {
                        config.workers = n as usize;
                    },
                    None => {},
                }
                i += 1;
            }
        } else if *arg == timeout_short || *arg == timeout_long {
            if has_value {
                match parse_unsigned(args[i + 1].as_str(), u64::MAX) {
                    Some(n) => {
                        config.timeout_ms = n;
                    },
                    None => {},
                }
                i += 1;
            }
        } else if *arg == retries_short || *arg == retries_long {
            if has_value {
                match parse_unsigned(args[i + 1].as_str(), u32::MAX as u64) {
                    Some(n) => {
                        config.max_retries = n as u32;
                    },
                    None => {},
                }
                i += 1;
            }
        } else if *arg == json_long {
            config.json = true;
        }
        i += 1;
    }
    config
}

} // verus!

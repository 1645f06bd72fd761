//! Logging decisions: which level the log filter runs at, parsed
//! case-insensitively from the environment's value with `Info` as the
//! default, and which level the application units' own log variable is given
//! when the environment leaves it unset. Reading and writing the
//! environment stays with the caller.

use vstd::prelude::*;

verus! {

/// A log level, coarsest first.
#[derive(Clone, Copy, Debug, PartialEq, Eq, Structural)]
pub enum LogLevel {
    Error,
    Warn,
    Info,
    Debug,
    Trace,
}

/// The environment names no known log level.
#[derive(Clone, Copy, Debug, PartialEq, Eq, Structural)]
pub struct LevelParseError;

/// Whether two characters are equal up to ASCII case.
pub open spec fn spec_eq_ignore_ascii_case(a: char, b: char) -> bool {
    ||| a as u32 == b as u32
    ||| (65 <= a as u32 <= 90 && a as u32 + 32 == b as u32)
    ||| (65 <= b as u32 <= 90 && b as u32 + 32 == a as u32)
}

/// Whether two words are equal up to ASCII case.
pub open spec fn spec_eq_word(s: Seq<char>, word: Seq<char>) -> bool {
    s.len() == word.len() && (forall|i: int|
        0 <= i < s.len() ==> spec_eq_ignore_ascii_case(s[i], word[i]))
}

/// The level a word names, compared without regard to ASCII case.
pub open spec fn spec_level_of(s: Seq<char>) -> Option<LogLevel> {
    if spec_eq_word(s, "error"@) {
        Some(LogLevel::Error)
    } else if spec_eq_word(s, "warn"@) {
        Some(LogLevel::Warn)
    } else if spec_eq_word(s, "info"@) {
        Some(LogLevel::Info)
    } else if spec_eq_word(s, "debug"@) {
        Some(LogLevel::Debug)
    } else if spec_eq_word(s, "trace"@) {
        Some(LogLevel::Trace)
    } else {
        None
    }
}

fn eq_ignore_ascii_case(a: char, b: char) -> (r: bool)
    ensures
        r == spec_eq_ignore_ascii_case(a, b),
{
    let x = a as u32;
    let y = b as u32;
    x == y || (65 <= x && x <= 90 && x + 32 == y) || (65 <= y && y <= 90 && y + 32 == x)
}

fn eq_word(s: &str, word: &str) -> (r: bool)
    ensures
        r == spec_eq_word(s@, word@),
{
    let n = s.unicode_len();
    let m = word.unicode_len();
    if n != m {
        return false;
    }
    let mut i: usize = 0;
    while i < n
        invariant
            i <= n,
            n == s@.len(),
            n == word@.len(),
            forall|j: int| 0 <= j < i ==> spec_eq_ignore_ascii_case(s@[j], word@[j]),
        decreases n - i,
    {
        if !eq_ignore_ascii_case(s.get_char(i), word.get_char(i)) {
            return false;
        }
        i = i + 1;
    }
    true
}

/// The level the log filter is to run at, from the environment's value for
/// it: absent means `Info`; a present value must name a level, up to ASCII
/// case, or it is refused.
pub fn log_level(env_value: Option<String>) -> (level: Result<LogLevel, LevelParseError>)
    ensures
        env_value is None ==> level == Ok::<LogLevel, LevelParseError>(LogLevel::Info),
        env_value matches Some(s) ==> level == (match spec_level_of(s@) {
            Some(l) => Ok::<LogLevel, LevelParseError>(l),
            None => Err::<LogLevel, LevelParseError>(LevelParseError),
        }),
{
    match env_value {
        None => Ok(LogLevel::Info),
        Some(s) => {
            let text = s.as_str();
            if eq_word(text, "error") {
                Ok(LogLevel::Error)
            } else if eq_word(text, "warn") {
                Ok(LogLevel::Warn)
            } else if eq_word(text, "info") {
                Ok(LogLevel::Info)
            } else if eq_word(text, "debug") {
                Ok(LogLevel::Debug)
            } else if eq_word(text, "trace") {
                Ok(LogLevel::Trace)
            } else {
                Err(LevelParseError)
            }
        },
    }
}

/// The value to give the application units' own log variable: left alone
/// when the environment already sets it, `info` otherwise.
pub fn wasm_level_to_set(current: Option<String>) -> (value: Option<String>)
    ensures
        current is Some ==> value is None,
        current is None ==> (value matches Some(v) && v@ == "info"@),
{
    match current {
        Some(_) => None,
        None => Some(String::from_str("info")),
    }
}

} // verus!

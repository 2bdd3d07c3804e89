use vstd::prelude::*;
use vstd::string::*;

verus! {

/// Whether `c` is one of the ASCII digits `0`..=`9`.
pub open spec fn is_decimal_digit(c: char) -> bool {
    '0' <= c && c <= '9'
}

/// The value of an ASCII decimal digit.
pub open spec fn digit_value(c: char) -> int {
    (c as int) - ('0' as int)
}

/// Whether every character of `s` is an ASCII decimal digit.
pub open spec fn all_decimal_digits(s: Seq<char>) -> bool {
    forall|i: int| 0 <= i < s.len() ==> #[trigger] is_decimal_digit(s[i])
}

/// The number that a string of decimal digits denotes, most significant first.
pub open spec fn decimal_value(s: Seq<char>) -> nat
    decreases s.len(),
{
    if s.len() == 0 {
        0
    } else {
        (decimal_value(s.drop_last()) * 10 + digit_value(s.last())) as nat
    }
}

/// The digits of an unsigned decimal literal: the text without one leading `+`.
pub open spec fn unsigned_digits(s: Seq<char>) -> Seq<char> {
    if s.len() > 0 && s[0] == '+' {
        s.drop_first()
    } else {
        s
    }
}

/// What `str::parse::<u64>` gives: the value of an optional `+` followed by
/// at least one ASCII digit, when it fits in 64 bits; nothing otherwise.
pub open spec fn spec_parse_u64(s: Seq<char>) -> Option<u64> {
    let d = unsigned_digits(s);
    if d.len() > 0 && all_decimal_digits(d) && decimal_value(d) <= u64::MAX {
        Some(decimal_value(d) as u64)
    } else {
        None
    }
}

/// A decimal value never shrinks when more digits are appended.
pub proof fn lemma_decimal_value_prefix(s: Seq<char>, k: int)
    requires
        0 <= k <= s.len(),
        all_decimal_digits(s),
    ensures
        decimal_value(s.subrange(0, k)) <= decimal_value(s),
    decreases s.len(),
{
    if k < s.len() {
        assert(s.drop_last().subrange(0, k) =~= s.subrange(0, k));
        assert(is_decimal_digit(s[s.len() - 1]));
        lemma_decimal_value_prefix(s.drop_last(), k);
    } else {
        assert(s.subrange(0, k) =~= s);
    }
}

/// The ASCII digit of a value below ten.
pub open spec fn digit_char(d: nat) -> char {
    ((('0' as int) + d) as u32) as char
}

/// The decimal rendering of a number, without sign or leading zeros.
pub open spec fn decimal_text(n: nat) -> Seq<char>
    decreases n,
{
    if n < 10 {
        seq![digit_char(n)]
    } else {
        decimal_text(n / 10).push(digit_char(n % 10))
    }
}

/// A decimal rendering is made of digits and denotes the number rendered.
pub proof fn lemma_decimal_text(n: nat)
    ensures
        decimal_text(n).len() > 0,
        all_decimal_digits(decimal_text(n)),
        decimal_value(decimal_text(n)) == n,
        decimal_text(n)[0] != '+',
    decreases n,
{
    if n < 10 {
        assert(decimal_text(n).drop_last() =~= Seq::<char>::empty());
        assert(digit_value(digit_char(n)) == n);
        assert(decimal_value(decimal_text(n)) == decimal_value(Seq::<char>::empty()) * 10 + digit_value(
            digit_char(n),
        ));
    } else {
        lemma_decimal_text(n / 10);
        let t = decimal_text(n / 10);
        assert(decimal_text(n).drop_last() =~= t);
        assert(decimal_text(n)[0] == t[0]);
        assert(digit_value(digit_char(n % 10)) == n % 10);
        assert((n / 10) * 10 + n % 10 == n) by (nonlinear_arith);
        assert(decimal_value(decimal_text(n)) == decimal_value(t) * 10 + digit_value(
            digit_char(n % 10),
        ));
    }
}

/// Every `u64` written in decimal parses back to itself, so setting
/// `JOB_DAA_INTERVAL_SECONDS` to the decimal text of `n` sets the tick
/// interval to `n`.
pub proof fn lemma_interval_from_decimal_text(n: u64)
    ensures
        spec_parse_u64(decimal_text(n as nat)) == Some(n),
{
    lemma_decimal_text(n as nat);
    assert(unsigned_digits(decimal_text(n as nat)) == decimal_text(n as nat));
}

/// Parses an unsigned decimal number as `str::parse::<u64>` does.
pub fn parse_u64(text: &str) -> (r: Option<u64>)
    ensures
        r == spec_parse_u64(text@),
{
    let ghost s = text@;
    let ghost start: int = if s.len() > 0 && s[0] == '+' { 1 } else { 0 };
    let mut value: u64 = 0;
    let mut at_start = true;
    let mut saw_digit = false;
    for c in it: text.chars()
        invariant
            it.seq() == s,
            s == text@,
            start == (if s.len() > 0 && s[0] == '+' { 1int } else { 0int }),
            at_start == (it.index() == 0),
            saw_digit == (it.index() > start),
            it.index() <= start ==> value == 0,
            it.index() >= start ==> all_decimal_digits(s.subrange(start, it.index())),
            it.index() >= start ==> value as nat == decimal_value(s.subrange(start, it.index())),
    {
        let ghost idx = it.index();
        assert(s[idx] == c);
        if at_start && c == '+' {
            at_start = false;
        } else {
            at_start = false;
            if !('0' <= c && c <= '9') {
                assert(!all_decimal_digits(unsigned_digits(s))) by {
                    let ds = unsigned_digits(s);
                    if start == 1 {
                        assert(ds =~= s.drop_first());
                    } else {
                        assert(ds =~= s);
                    }
                    assert(ds[idx - start] == c);
                    assert(!is_decimal_digit(ds[idx - start]));
                }
                return None;
            }
            let ghost prefix = s.subrange(start, idx);
            let ghost next = s.subrange(start, idx + 1);
            assert(next.drop_last() =~= prefix);
            proof {
                let ds = unsigned_digits(s);
                if start == 1 {
                    assert(ds =~= s.drop_first());
                } else {
                    assert(ds =~= s);
                }
                assert(ds.subrange(0, idx + 1 - start) =~= next);
                if all_decimal_digits(ds) {
                    lemma_decimal_value_prefix(ds, idx + 1 - start);
                }
            }
            let d: u64 = (c as u32 - '0' as u32) as u64;
            match value.checked_mul(10) {
                Some(m) => match m.checked_add(d) {
                    Some(v) => {
                        value = v;
                    },
                    None => {
                        return None;
                    },
                },
                None => {
                    return None;
                },
            }
            saw_digit = true;
        }
    }
    assert(unsigned_digits(s) =~= s.subrange(start, s.len() as int));
    if !saw_digit {
        return None;
    }
    Some(value)
}

/// What `str::parse::<bool>` gives: exactly `"true"` and `"false"` are booleans.
pub open spec fn spec_parse_bool(s: Seq<char>) -> Option<bool> {
    if s == "true"@ {
        Some(true)
    } else if s == "false"@ {
        Some(false)
    } else {
        None
    }
}

/// Parses a boolean as `str::parse::<bool>` does.
pub fn parse_bool(text: &str) -> (r: Option<bool>)
    ensures
        r == spec_parse_bool(text@),
{
    let owned = text.to_owned();
    if owned == String::from_str("true") {
        Some(true)
    } else if owned == String::from_str("false") {
        Some(false)
    } else {
        None
    }
}

/// The tick interval used when none is configured.
pub const DEFAULT_DAA_INTERVAL_SECONDS: u64 = 900;

/// Configuration for the daily-active-accounts job.
#[derive(Debug, Clone)]
pub struct DaaJobConfig {
    pub enabled: bool,
    pub interval_seconds: u64,
}

/// Whether the job runs, given the text of `JOB_DAA_ENABLED` (absent when
/// the variable is unset or not Unicode): it runs unless that text parses
/// as `false`.
pub open spec fn spec_enabled_from_env(enabled: Option<&str>) -> bool {
    match enabled {
        Some(t) => match spec_parse_bool(t@) {
            Some(b) => b,
            None => true,
        },
        None => true,
    }
}

/// The job is disabled exactly when `JOB_DAA_ENABLED` reads `false`; an
/// unset, non-Unicode or unparsable value leaves it enabled.
pub proof fn lemma_enabled_unless_false(enabled: Option<&str>)
    ensures
        spec_enabled_from_env(enabled) == !(enabled matches Some(t) && t@ == "false"@),
{
    reveal_strlit("true");
    reveal_strlit("false");
    assert("false"@.len() != "true"@.len());
}

/// The tick interval, given the text of `JOB_DAA_INTERVAL_SECONDS`: its
/// value when it parses as a `u64`, the default otherwise.
pub open spec fn spec_interval_from_env(interval: Option<&str>) -> u64 {
    match interval {
        Some(t) => match spec_parse_u64(t@) {
            Some(n) => n,
            None => DEFAULT_DAA_INTERVAL_SECONDS,
        },
        None => DEFAULT_DAA_INTERVAL_SECONDS,
    }
}

/// Whatever text parses as a `u64` sets the tick interval to that value,
/// every `u64` written in decimal included; any other text, or none, leaves
/// the default of 900 seconds.
pub proof fn lemma_interval_from_env(text: &str, n: u64)
    ensures
        spec_parse_u64(text@) == Some(n) ==> spec_interval_from_env(Some(text)) == n,
        text@ == decimal_text(n as nat) ==> spec_interval_from_env(Some(text)) == n,
        spec_parse_u64(text@) is None ==> spec_interval_from_env(Some(text)) == 900,
        spec_interval_from_env(None) == 900,
{
    lemma_interval_from_decimal_text(n);
}

impl DaaJobConfig {
    /// The configuration that the environment gives, from the text of
    /// `JOB_DAA_ENABLED` and `JOB_DAA_INTERVAL_SECONDS` (each `None` when
    /// the variable is unset or not Unicode).
    pub fn from_env_values(enabled: Option<&str>, interval_seconds: Option<&str>) -> (config: Self)
        ensures
            config.enabled == spec_enabled_from_env(enabled),
            config.interval_seconds == spec_interval_from_env(interval_seconds),
            interval_seconds matches Some(t) ==> (spec_parse_u64(t@) matches Some(n)
                ==> config.interval_seconds == n),
            interval_seconds matches Some(t) ==> (spec_parse_u64(t@) is None
                ==> config.interval_seconds == 900),
            interval_seconds is None ==> config.interval_seconds == 900,
            enabled matches Some(t) && t@ == "false"@ ==> !config.enabled,
            !(enabled matches Some(t) && t@ == "false"@) ==> config.enabled,
    {
        let enabled_flag = match enabled {
            Some(t) => match parse_bool(t) {
                Some(b) => b,
                None => true,
            },
            None => true,
        };
        let interval = match interval_seconds {
            Some(t) => match parse_u64(t) {
                Some(n) => n,
                None => DEFAULT_DAA_INTERVAL_SECONDS,
            },
            None => DEFAULT_DAA_INTERVAL_SECONDS,
        };
        proof {
            lemma_enabled_unless_false(enabled);
        }
        DaaJobConfig { enabled: enabled_flag, interval_seconds: interval }
    }

    /// How often the job runs: `None` when it is disabled and never runs,
    /// otherwise the configured tick interval in seconds.
    pub fn tick_interval_seconds(&self) -> (interval: Option<u64>)
        ensures
            interval == (if self.enabled {
                Some(self.interval_seconds)
            } else {
                None
            }),
    {
        if !self.enabled {
            None
        } else {
            Some(self.interval_seconds)
        }
    }
}

} // verus!

//! The builder's configuration, and the byte counts and durations in it.

use vstd::prelude::*;

use crate::collections::StrMap;
use crate::error;
use crate::error::Error;
use crate::text;
use crate::text::{
    chars_of, concat2, digit_char, digits_value_of, lowered_chars, same_text, string_of, trim_chars,
};
use vstd::slice::slice_subrange;

verus! {

pub const DEFAULT_MAX_BUILD_TIME: &'static str = "30m";

pub const DEFAULT_MAX_UPLOAD_BYTES: &'static str = "20G";

pub const DEFAULT_MAX_CONCURRENT_BUILDS: usize = 1;

pub const DEFAULT_RECENT_BUILDS_LIMIT: usize = 20;

pub const MAX_AUTO_CACHE_FILLS: usize = 16;

// ---------------------------------------------------------------------------
// Numbers with a suffix
// ---------------------------------------------------------------------------

/// How many digits a text starts with.
pub open spec fn leading_digits(s: Seq<char>) -> nat
    decreases s.len(),
{
    if s.len() > 0 && text::is_digit(s[0]) {
        1 + leading_digits(s.skip(1))
    } else {
        0
    }
}

/// A number and what follows it, in lower case and without white space.
pub open spec fn number_and_suffix(value: Seq<char>) -> Result<
    (int, Seq<char>),
    Seq<Seq<char>>,
> {
    let trimmed = text::trim(value);
    let n = leading_digits(trimmed) as int;
    if trimmed.len() == 0 {
        Err(seq!["empty value"@])
    } else if n == 0 {
        Err(seq!["invalid number: "@ + trimmed])
    } else if text::digits_value(trimmed.take(n)) > u64::MAX {
        Err(seq!["parse number: "@ + trimmed, text::u64_error_of(trimmed.take(n))])
    } else {
        Ok(
            (
                text::digits_value(trimmed.take(n)),
                text::lowered(text::trim(trimmed.skip(n))),
            ),
        )
    }
}

/// How many bytes a suffix stands for.
pub open spec fn byte_unit(suffix: Seq<char>) -> Option<int> {
    if suffix == ""@ || suffix == "b"@ {
        Some(1)
    } else if suffix == "k"@ || suffix == "kb"@ || suffix == "kib"@ {
        Some(1024)
    } else if suffix == "m"@ || suffix == "mb"@ || suffix == "mib"@ {
        Some(1024int * 1024)
    } else if suffix == "g"@ || suffix == "gb"@ || suffix == "gib"@ {
        Some(1024int * 1024 * 1024)
    } else if suffix == "t"@ || suffix == "tb"@ || suffix == "tib"@ {
        Some(1024int * 1024 * 1024 * 1024)
    } else {
        None
    }
}

/// How many seconds a suffix stands for.
pub open spec fn time_unit(suffix: Seq<char>) -> Option<int> {
    if suffix == ""@ || suffix == "s"@ || suffix == "sec"@ || suffix == "secs"@ || suffix
        == "second"@ || suffix == "seconds"@ {
        Some(1)
    } else if suffix == "m"@ || suffix == "min"@ || suffix == "mins"@ || suffix == "minute"@
        || suffix == "minutes"@ {
        Some(60)
    } else if suffix == "h"@ || suffix == "hr"@ || suffix == "hrs"@ || suffix == "hour"@ || suffix
        == "hours"@ {
        Some(60int * 60)
    } else {
        None
    }
}

/// The bytes that a byte count stands for.
pub open spec fn byte_count(value: Seq<char>) -> Result<u64, Seq<Seq<char>>> {
    match number_and_suffix(value) {
        Err(e) => Err(e),
        Ok((number, suffix)) => match byte_unit(suffix) {
            None => Err(seq!["unknown byte count suffix: "@ + value]),
            Some(unit) => if number * unit <= u64::MAX {
                Ok((number * unit) as u64)
            } else {
                Err(seq!["byte count overflow: "@ + value])
            },
        },
    }
}

/// The seconds that a duration stands for.
pub open spec fn duration_seconds(value: Seq<char>) -> Result<u64, Seq<Seq<char>>> {
    match number_and_suffix(value) {
        Err(e) => Err(e),
        Ok((number, suffix)) => match time_unit(suffix) {
            None => Err(seq!["unknown duration suffix: "@ + value]),
            Some(unit) => if number * unit <= u64::MAX {
                Ok((number * unit) as u64)
            } else {
                Err(seq!["duration overflow: "@ + value])
            },
        },
    }
}

proof fn lemma_leading_digits(s: Seq<char>)
    ensures
        leading_digits(s) <= s.len(),
        text::all_digits(s.take(leading_digits(s) as int)),
    decreases s.len(),
{
    if s.len() > 0 && text::is_digit(s[0]) {
        let rest = s.skip(1);
        lemma_leading_digits(rest);
        let n = leading_digits(s) as int;
        assert forall|i: int| 0 <= i < n implies text::is_digit(#[trigger] s.take(n)[i]) by {
            if i > 0 {
                assert(s.take(n)[i] == rest.take(n - 1)[i - 1]);
            }
        }
    }
}

fn count_leading_digits(s: &[char]) -> (n: usize)
    ensures
        n == leading_digits(s@),
        n <= s.len(),
{
    let mut n: usize = 0;
    assert(s@.skip(0) =~= s@);
    while n < s.len() && digit_char(s[n])
        invariant
            n <= s.len(),
            leading_digits(s@) == n + leading_digits(s@.skip(n as int)),
        decreases s.len() - n,
    {
        assert(s@.skip(n as int).skip(1) =~= s@.skip(n + 1));
        n = n + 1;
    }
    n
}

/// Reads a number and its suffix.
pub fn parse_number_and_suffix(value: &str) -> (r: Result<(u64, String), Error>)
    ensures
        match r {
            Ok((number, suffix)) => number_and_suffix(value@) == Ok::<
                (int, Seq<char>),
                Seq<Seq<char>>,
            >((number as int, suffix@)),
            Err(e) => number_and_suffix(value@) == Err::<(int, Seq<char>), Seq<Seq<char>>>(e@),
        },
{
    let chars: Vec<char> = chars_of(value);
    let trimmed: &[char] = trim_chars(chars.as_slice());
    if trimmed.len() == 0 {
        return Err(Error::of("empty value"));
    }
    let n: usize = count_leading_digits(trimmed);
    if n == 0 {
        return Err(Error::new(concat2("invalid number: ", string_of(trimmed).as_str())));
    }
    let digits: &[char] = slice_subrange(trimmed, 0, n);
    let rest: &[char] = slice_subrange(trimmed, n, trimmed.len());
    proof {
        lemma_leading_digits(trimmed@);
        assert(digits@ =~= trimmed@.take(n as int));
        assert(rest@ =~= trimmed@.skip(n as int));
    }
    match digits_value_of(digits, u64::MAX) {
        Some(number) => {
            let suffix: Vec<char> = lowered_chars(trim_chars(rest));
            Ok((number, string_of(suffix.as_slice())))
        },
        None => {
            proof {
                assert(text::is_digit(digits@[0]));
            }
            let why: String = text::u64_error(string_of(digits).as_str());
            Err(Error::caused(concat2("parse number: ", string_of(trimmed).as_str()), why))
        },
    }
}

fn byte_multiplier(suffix: &str) -> (r: Option<u64>)
    ensures
        match r {
            Some(unit) => byte_unit(suffix@) == Some(unit as int),
            None => byte_unit(suffix@) is None,
        },
{
    if same_text(suffix, "") || same_text(suffix, "b") {
        Some(1)
    } else if same_text(suffix, "k") || same_text(suffix, "kb") || same_text(suffix, "kib") {
        Some(1024)
    } else if same_text(suffix, "m") || same_text(suffix, "mb") || same_text(suffix, "mib") {
        Some(1_048_576)
    } else if same_text(suffix, "g") || same_text(suffix, "gb") || same_text(suffix, "gib") {
        Some(1_073_741_824)
    } else if same_text(suffix, "t") || same_text(suffix, "tb") || same_text(suffix, "tib") {
        Some(1_099_511_627_776)
    } else {
        None
    }
}

fn time_multiplier(suffix: &str) -> (r: Option<u64>)
    ensures
        match r {
            Some(unit) => time_unit(suffix@) == Some(unit as int),
            None => time_unit(suffix@) is None,
        },
{
    if same_text(suffix, "") || same_text(suffix, "s") || same_text(suffix, "sec") || same_text(
        suffix,
        "secs",
    ) || same_text(suffix, "second") || same_text(suffix, "seconds") {
        Some(1)
    } else if same_text(suffix, "m") || same_text(suffix, "min") || same_text(suffix, "mins")
        || same_text(suffix, "minute") || same_text(suffix, "minutes") {
        Some(60)
    } else if same_text(suffix, "h") || same_text(suffix, "hr") || same_text(suffix, "hrs")
        || same_text(suffix, "hour") || same_text(suffix, "hours") {
        Some(3600)
    } else {
        None
    }
}

/// A byte count such as `20G`, in bytes.
pub fn parse_byte_count(value: &str) -> (r: Result<u64, Error>)
    ensures
        error::outcome(r) == byte_count(value@),
{
    let (number, suffix): (u64, String) = match parse_number_and_suffix(value) {
        Ok(parts) => parts,
        Err(e) => {
            return Err(e);
        },
    };
    let unit: u64 = match byte_multiplier(suffix.as_str()) {
        Some(unit) => unit,
        None => {
            return Err(Error::new(concat2("unknown byte count suffix: ", value)));
        },
    };
    match number.checked_mul(unit) {
        Some(bytes) => Ok(bytes),
        None => Err(Error::new(concat2("byte count overflow: ", value))),
    }
}

/// A duration such as `30m`, in seconds.
pub fn parse_duration(value: &str) -> (r: Result<u64, Error>)
    ensures
        error::outcome(r) == duration_seconds(value@),
{
    let (number, suffix): (u64, String) = match parse_number_and_suffix(value) {
        Ok(parts) => parts,
        Err(e) => {
            return Err(e);
        },
    };
    let unit: u64 = match time_multiplier(suffix.as_str()) {
        Some(unit) => unit,
        None => {
            return Err(Error::new(concat2("unknown duration suffix: ", value)));
        },
    };
    match number.checked_mul(unit) {
        Some(seconds) => Ok(seconds),
        None => Err(Error::new(concat2("duration overflow: ", value))),
    }
}

// ---------------------------------------------------------------------------
// The builder's configuration
// ---------------------------------------------------------------------------

/// A client that may build without a ticket, and how much.
#[derive(Debug)]
pub struct TrustedClient {
    pub public_key: String,
    pub max_build_time: Option<String>,
    pub max_upload_bytes: Option<String>,
}

/// The view of a trusted client.
pub struct TrustedClientView {
    pub public_key: Seq<char>,
    pub max_build_time: Option<Seq<char>>,
    pub max_upload_bytes: Option<Seq<char>>,
}

impl View for TrustedClient {
    type V = TrustedClientView;

    open spec fn view(&self) -> TrustedClientView {
        TrustedClientView {
            public_key: self.public_key@,
            max_build_time: text::optional_text(self.max_build_time),
            max_upload_bytes: text::optional_text(self.max_upload_bytes),
        }
    }
}

impl Clone for TrustedClient {
    fn clone(&self) -> (r: Self)
        ensures
            r == *self,
    {
        TrustedClient {
            public_key: self.public_key.clone(),
            max_build_time: text::clone_optional(&self.max_build_time),
            max_upload_bytes: text::clone_optional(&self.max_upload_bytes),
        }
    }
}

pub struct ServerConfig {
    pub data_dir: String,
    pub secret_key_file: Option<String>,
    pub max_concurrent_builds: usize,
    pub output_cache_max_parallel_fills: Option<usize>,
    pub recent_builds_limit: usize,
    pub trusted_clients: StrMap<TrustedClient>,
}

pub fn default_max_build_time() -> (r: Option<String>)
    ensures
        text::optional_text(r) == Some("30m"@),
{
    Some(DEFAULT_MAX_BUILD_TIME.to_string())
}

pub fn default_max_upload_bytes() -> (r: Option<String>)
    ensures
        text::optional_text(r) == Some("20G"@),
{
    Some(DEFAULT_MAX_UPLOAD_BYTES.to_string())
}

pub fn default_max_concurrent_builds() -> (r: usize)
    ensures
        r == 1,
{
    DEFAULT_MAX_CONCURRENT_BUILDS
}

pub fn default_recent_builds_limit() -> (r: usize)
    ensures
        r == 20,
{
    DEFAULT_RECENT_BUILDS_LIMIT
}

/// A setting that may be absent, or be given as nothing: absent, it has its
/// default.
pub open spec fn setting_or(value: Option<Option<String>>, default: Seq<char>) -> Option<
    Seq<char>,
> {
    match value {
        Some(given) => text::optional_text(given),
        None => Some(default),
    }
}

impl TrustedClient {
    /// A client from the settings that its entry holds.
    pub fn from_settings(
        public_key: String,
        max_build_time: Option<Option<String>>,
        max_upload_bytes: Option<Option<String>>,
    ) -> (client: Self)
        ensures
            client.public_key == public_key,
            text::optional_text(client.max_build_time) == setting_or(max_build_time, "30m"@),
            text::optional_text(client.max_upload_bytes) == setting_or(max_upload_bytes, "20G"@),
    {
        TrustedClient {
            public_key,
            max_build_time: match max_build_time {
                Some(given) => given,
                None => default_max_build_time(),
            },
            max_upload_bytes: match max_upload_bytes {
                Some(given) => given,
                None => default_max_upload_bytes(),
            },
        }
    }
}

/// What is wrong with a configuration.
pub open spec fn config_fault(config: ServerConfig) -> Option<Seq<char>> {
    if config.max_concurrent_builds == 0 {
        Some("max_concurrent_builds must be at least 1"@)
    } else if config.output_cache_max_parallel_fills == Some(0usize) {
        Some("output_cache_max_parallel_fills must be at least 1"@)
    } else if config.recent_builds_limit == 0 {
        Some("recent_builds_limit must be at least 1"@)
    } else {
        None
    }
}

impl ServerConfig {
    /// A configuration from the settings that its file holds.
    pub fn from_settings(
        data_dir: String,
        secret_key_file: Option<String>,
        max_concurrent_builds: Option<usize>,
        output_cache_max_parallel_fills: Option<usize>,
        recent_builds_limit: Option<usize>,
        trusted_clients: StrMap<TrustedClient>,
    ) -> (config: Self)
        ensures
            config.data_dir == data_dir,
            config.secret_key_file == secret_key_file,
            config.max_concurrent_builds == (match max_concurrent_builds {
                Some(n) => n,
                None => 1,
            }),
            config.output_cache_max_parallel_fills == output_cache_max_parallel_fills,
            config.recent_builds_limit == (match recent_builds_limit {
                Some(n) => n,
                None => 20,
            }),
            config.trusted_clients == trusted_clients,
    {
        ServerConfig {
            data_dir,
            secret_key_file,
            max_concurrent_builds: match max_concurrent_builds {
                Some(n) => n,
                None => default_max_concurrent_builds(),
            },
            output_cache_max_parallel_fills,
            recent_builds_limit: match recent_builds_limit {
                Some(n) => n,
                None => default_recent_builds_limit(),
            },
            trusted_clients,
        }
    }

    /// Refuses a configuration that allows no builds, no cache fills or no
    /// record of builds.
    pub fn check(&self) -> (r: Result<(), Error>)
        ensures
            match r {
                Ok(()) => config_fault(*self) is None,
                Err(e) => config_fault(*self) matches Some(fault) && e@ == seq![fault],
            },
    {
        if self.max_concurrent_builds == 0 {
            return Err(Error::of("max_concurrent_builds must be at least 1"));
        }
        match self.output_cache_max_parallel_fills {
            Some(fills) => {
                if fills == 0 {
                    return Err(Error::of("output_cache_max_parallel_fills must be at least 1"));
                }
            },
            None => {},
        }
        if self.recent_builds_limit == 0 {
            return Err(Error::of("recent_builds_limit must be at least 1"));
        }
        Ok(())
    }
}

// ---------------------------------------------------------------------------
// Laws
// ---------------------------------------------------------------------------

/// A plain decimal number is a byte count and a duration of that number.
pub proof fn law_plain_numbers(n: u64)
    ensures
        byte_count(text::decimal(n as nat)) == Ok::<u64, Seq<Seq<char>>>(n),
        duration_seconds(text::decimal(n as nat)) == Ok::<u64, Seq<Seq<char>>>(n),
{
    let s = text::decimal(n as nat);
    text::law_decimal_names_its_number(n as nat);
    assert(text::is_digit(s[0]));
    assert(text::is_digit(s[s.len() - 1]));
    assert(text::trim(s) == s);
    lemma_all_digits_lead(s);
    assert(s.take(s.len() as int) =~= s);
    let rest = s.skip(s.len() as int);
    assert(rest.len() == 0);
    assert(text::trim(rest) =~= Seq::<char>::empty());
    reveal_strlit("");
    assert(text::lowered(text::trim(rest)) =~= ""@);
    assert(number_and_suffix(s) == Ok::<(int, Seq<char>), Seq<Seq<char>>>((n as int, ""@)));
    assert(byte_unit(""@) == Some(1int) && time_unit(""@) == Some(1int));
    let one = byte_unit(""@)->0;
    assert(n * one == n) by (nonlinear_arith)
        requires
            one == 1,
    ;
}

proof fn lemma_all_digits_lead(s: Seq<char>)
    requires
        text::all_digits(s),
    ensures
        leading_digits(s) == s.len(),
    decreases s.len(),
{
    if s.len() > 0 {
        let rest = s.skip(1);
        assert forall|i: int| 0 <= i < rest.len() implies text::is_digit(#[trigger] rest[i]) by {
            assert(rest[i] == s[i + 1]);
        }
        lemma_all_digits_lead(rest);
        assert(text::is_digit(s[0]));
    }
}

/// A number and what follows it, as they are read back.
proof fn lemma_number_and_suffix(n: u64, suffix: Seq<char>)
    requires
        suffix.len() > 0,
        !text::is_digit(suffix[0]),
        !text::is_space(suffix.last()),
    ensures
        number_and_suffix(text::decimal(n as nat) + suffix) == Ok::<
            (int, Seq<char>),
            Seq<Seq<char>>,
        >((n as int, text::lowered(text::trim(suffix)))),
{
    let digits = text::decimal(n as nat);
    let s = digits + suffix;
    text::law_decimal_names_its_number(n as nat);
    assert(text::is_digit(digits[0]));
    assert(s[0] == digits[0]);
    assert(s.last() == suffix.last());
    assert(text::trim(s) == s);
    lemma_digits_lead(digits, suffix);
    assert(s.take(digits.len() as int) =~= digits);
    assert(s.skip(digits.len() as int) =~= suffix);
}

proof fn lemma_digits_lead(digits: Seq<char>, suffix: Seq<char>)
    requires
        text::all_digits(digits),
        suffix.len() > 0,
        !text::is_digit(suffix[0]),
    ensures
        leading_digits(digits + suffix) == digits.len(),
    decreases digits.len(),
{
    let s = digits + suffix;
    if digits.len() > 0 {
        let rest = digits.skip(1);
        assert forall|i: int| 0 <= i < rest.len() implies text::is_digit(#[trigger] rest[i]) by {
            assert(rest[i] == digits[i + 1]);
        }
        lemma_digits_lead(rest, suffix);
        assert(s.skip(1) =~= rest + suffix);
        assert(text::is_digit(digits[0]));
        assert(s[0] == digits[0]);
    } else {
        assert(s[0] == suffix[0]);
    }
}

/// A limit that is so many times a unit, or an error where that is more than can be
/// counted.
pub open spec fn is_multiple(limit: Result<u64, Seq<Seq<char>>>, n: u64, unit: int) -> bool {
    match limit {
        Ok(total) => total == n * unit,
        Err(_) => n * unit > u64::MAX,
    }
}

/// A number with a suffix, which may have capitals and stand after a space, counts
/// bytes in powers of 1024. Any other suffix is refused.
pub proof fn law_byte_counts_have_units(n: u64, suffix: Seq<char>)
    requires
        suffix.len() > 0,
        !text::is_digit(suffix[0]),
        !text::is_space(suffix.last()),
    ensures
        ({
            let limit = byte_count(text::decimal(n as nat) + suffix);
            let unit = text::lowered(text::trim(suffix));
            &&& unit == "b"@ ==> is_multiple(limit, n, 1)
            &&& unit == "k"@ || unit == "kb"@ || unit == "kib"@ ==> is_multiple(limit, n, 1024)
            &&& unit == "m"@ || unit == "mb"@ || unit == "mib"@ ==> is_multiple(limit, n, 1_048_576)
            &&& unit == "g"@ || unit == "gb"@ || unit == "gib"@ ==> is_multiple(
                limit,
                n,
                1_073_741_824,
            )
            &&& unit == "t"@ || unit == "tb"@ || unit == "tib"@ ==> is_multiple(
                limit,
                n,
                1_099_511_627_776,
            )
            &&& limit is Ok ==> unit == "b"@ || unit == "k"@ || unit == "kb"@ || unit == "kib"@
                || unit == "m"@ || unit == "mb"@ || unit == "mib"@ || unit == "g"@ || unit == "gb"@
                || unit == "gib"@ || unit == "t"@ || unit == "tb"@ || unit == "tib"@
        }),
{
    lemma_number_and_suffix(n, suffix);
    text::lemma_trim_shape(suffix);
    reveal_strlit("");
    reveal_strlit("b");
    assert("b"@[0] == 'b');
    reveal_strlit("k");
    assert("k"@[0] == 'k');
    reveal_strlit("kb");
    assert("kb"@[0] == 'k');
    reveal_strlit("kib");
    assert("kib"@[0] == 'k');
    reveal_strlit("m");
    assert("m"@[0] == 'm');
    reveal_strlit("mb");
    assert("mb"@[0] == 'm');
    reveal_strlit("mib");
    assert("mib"@[0] == 'm');
    reveal_strlit("g");
    assert("g"@[0] == 'g');
    reveal_strlit("gb");
    assert("gb"@[0] == 'g');
    reveal_strlit("gib");
    assert("gib"@[0] == 'g');
    reveal_strlit("t");
    assert("t"@[0] == 't');
    reveal_strlit("tb");
    assert("tb"@[0] == 't');
    reveal_strlit("tib");
    assert("tib"@[0] == 't');
    let unit = text::lowered(text::trim(suffix));
    if text::trim(suffix).len() == 0 {
        assert(text::is_space(suffix[suffix.len() - 1]));
    }
    assert(unit.len() > 0);
    assert(unit == "b"@ ==> byte_unit(unit) == Some(1int));
    assert(unit == "k"@ || unit == "kb"@ || unit == "kib"@ ==> byte_unit(unit) == Some(1024int));
    assert(unit == "m"@ || unit == "mb"@ || unit == "mib"@ ==> byte_unit(unit) == Some(
        1_048_576int,
    ));
    assert(unit == "g"@ || unit == "gb"@ || unit == "gib"@ ==> byte_unit(unit) == Some(
        1_073_741_824int,
    ));
    assert(unit == "t"@ || unit == "tb"@ || unit == "tib"@ ==> byte_unit(unit) == Some(
        1_099_511_627_776int,
    ));
    match byte_unit(unit) {
        Some(times) => {
            assert(n * times >= 0) by (nonlinear_arith)
                requires
                    times >= 0,
                    n >= 0,
            ;
            assert(is_multiple(byte_count(text::decimal(n as nat) + suffix), n, times));
        },
        None => {},
    }
}

/// A number with a suffix, which may have capitals and stand after a space, counts
/// seconds, minutes or hours. Any other suffix is refused.
pub proof fn law_durations_have_units(n: u64, suffix: Seq<char>)
    requires
        suffix.len() > 0,
        !text::is_digit(suffix[0]),
        !text::is_space(suffix.last()),
    ensures
        ({
            let limit = duration_seconds(text::decimal(n as nat) + suffix);
            let unit = text::lowered(text::trim(suffix));
            let is_seconds = unit == "s"@ || unit == "sec"@ || unit == "secs"@ || unit == "second"@
                || unit == "seconds"@;
            let is_minutes = unit == "m"@ || unit == "min"@ || unit == "mins"@ || unit == "minute"@
                || unit == "minutes"@;
            let is_hours = unit == "h"@ || unit == "hr"@ || unit == "hrs"@ || unit == "hour"@ || unit
                == "hours"@;
            &&& is_seconds ==> is_multiple(limit, n, 1)
            &&& is_minutes ==> is_multiple(limit, n, 60)
            &&& is_hours ==> is_multiple(limit, n, 3600)
            &&& limit is Ok ==> is_seconds || is_minutes || is_hours
        }),
{
    lemma_number_and_suffix(n, suffix);
    text::lemma_trim_shape(suffix);
    reveal_strlit("");
    reveal_strlit("s");
    assert("s"@[0] == 's');
    reveal_strlit("sec");
    assert("sec"@[0] == 's');
    reveal_strlit("secs");
    assert("secs"@[0] == 's');
    reveal_strlit("second");
    assert("second"@[0] == 's');
    reveal_strlit("seconds");
    assert("seconds"@[0] == 's');
    reveal_strlit("m");
    assert("m"@[0] == 'm');
    reveal_strlit("min");
    assert("min"@[0] == 'm');
    reveal_strlit("mins");
    assert("mins"@[0] == 'm');
    reveal_strlit("minute");
    assert("minute"@[0] == 'm');
    reveal_strlit("minutes");
    assert("minutes"@[0] == 'm');
    reveal_strlit("h");
    assert("h"@[0] == 'h');
    reveal_strlit("hr");
    assert("hr"@[0] == 'h');
    reveal_strlit("hrs");
    assert("hrs"@[0] == 'h');
    reveal_strlit("hour");
    assert("hour"@[0] == 'h');
    reveal_strlit("hours");
    assert("hours"@[0] == 'h');
    let unit = text::lowered(text::trim(suffix));
    if text::trim(suffix).len() == 0 {
        assert(text::is_space(suffix[suffix.len() - 1]));
    }
    assert(unit.len() > 0);
    match time_unit(unit) {
        Some(times) => {
            assert(n * times >= 0) by (nonlinear_arith)
                requires
                    times >= 0,
                    n >= 0,
            ;
            assert(is_multiple(duration_seconds(text::decimal(n as nat) + suffix), n, times));
        },
        None => {},
    }
}

/// A configuration is in order wherever each number in it is at least one, however
/// large, and only there.
pub proof fn law_any_positive_settings_are_accepted(config: ServerConfig)
    ensures
        config_fault(config) is None <==> config.max_concurrent_builds >= 1
            && config.recent_builds_limit >= 1 && (config.output_cache_max_parallel_fills matches Some(
            fills,
        ) ==> fills >= 1),
{
}

/// A setting that is given counts, also where it is given as nothing.
pub proof fn law_given_settings_count(value: Option<String>, default: Seq<char>)
    ensures
        setting_or(None, default) == Some(default),
        value is None ==> setting_or(Some(value), default) is None,
        value matches Some(given) ==> setting_or(Some(value), default) == Some(given@),
{
}

/// The default limits are half an hour and twenty gigabytes.
pub proof fn law_default_limits()
    ensures
        duration_seconds(DEFAULT_MAX_BUILD_TIME@) == Ok::<u64, Seq<Seq<char>>>(1800),
        byte_count(DEFAULT_MAX_UPLOAD_BYTES@) == Ok::<u64, Seq<Seq<char>>>(
            21_474_836_480,
        ),
{
    reveal_strlit("30m");
    reveal_strlit("20G");
    reveal_strlit("m");
    reveal_strlit("G");
    reveal_strlit("g");
    reveal_with_fuel(text::decimal, 3);
    assert(text::decimal(30) =~= seq!['3', '0']);
    assert(text::decimal(20) =~= seq!['2', '0']);
    assert("30m"@ =~= text::decimal(30) + "m"@);
    assert("20G"@ =~= text::decimal(20) + "G"@);
    assert(text::trim("m"@) == "m"@);
    assert(text::trim("G"@) == "G"@);
    assert(text::lower('m') == 'm');
    assert(text::lower('G') == 'g') by {
        assert((('G' as u8 + 32) as u8) as char == 'g');
    }
    assert(text::lowered("m"@) =~= "m"@);
    assert(text::lowered("G"@) =~= "g"@);
    law_durations_have_units(30, "m"@);
    law_byte_counts_have_units(20, "G"@);
}

/// A value that says nothing, begins with no digit, has a number that is too
/// large, or an unknown unit is refused, and its user is told which.
pub proof fn law_bad_values_are_refused(value: Seq<char>)
    ensures
        text::trim(value).len() == 0 ==> byte_count(value) == Err::<u64, Seq<Seq<char>>>(
            seq!["empty value"@],
        ) && duration_seconds(value) == Err::<u64, Seq<Seq<char>>>(seq!["empty value"@]),
        text::trim(value).len() > 0 && !('0' <= text::trim(value)[0] <= '9') ==> byte_count(value)
            == Err::<u64, Seq<Seq<char>>>(seq!["invalid number: "@ + text::trim(value)])
            && duration_seconds(value) == Err::<u64, Seq<Seq<char>>>(
            seq!["invalid number: "@ + text::trim(value)],
        ),
        match number_and_suffix(value) {
            Ok((number, suffix)) => {
                &&& byte_unit(suffix) is None ==> byte_count(value) == Err::<u64, Seq<Seq<char>>>(
                    seq!["unknown byte count suffix: "@ + value],
                )
                &&& time_unit(suffix) is None ==> duration_seconds(value) == Err::<
                    u64,
                    Seq<Seq<char>>,
                >(seq!["unknown duration suffix: "@ + value])
                &&& byte_unit(suffix) is Some && number * byte_unit(suffix)->0
                    >= 0x1_0000_0000_0000_0000 ==> byte_count(value) == Err::<u64, Seq<Seq<char>>>(
                    seq!["byte count overflow: "@ + value],
                )
                &&& time_unit(suffix) is Some && number * time_unit(suffix)->0
                    >= 0x1_0000_0000_0000_0000 ==> duration_seconds(value) == Err::<
                    u64,
                    Seq<Seq<char>>,
                >(seq!["duration overflow: "@ + value])
            },
            Err(e) => byte_count(value) == Err::<u64, Seq<Seq<char>>>(e) && duration_seconds(value)
                == Err::<u64, Seq<Seq<char>>>(e),
        },
{
}

/// A number that is too large is refused with the value that holds it.
pub proof fn law_large_numbers_are_refused(digits: Seq<char>)
    requires
        digits.len() > 0,
        text::all_digits(digits),
        text::digits_value(digits) >= 0x1_0000_0000_0000_0000,
    ensures
        number_and_suffix(digits) matches Err(e) && e.len() == 2 && e[0] == "parse number: "@
            + digits,
{
    assert(text::is_digit(digits[0]));
    assert(text::is_digit(digits[digits.len() - 1]));
    text::law_space_around_is_dropped(Seq::empty(), digits, Seq::empty());
    assert(Seq::<char>::empty() + digits + Seq::<char>::empty() =~= digits);
    lemma_all_digits_lead(digits);
    assert(digits.take(digits.len() as int) =~= digits);
}

/// A builder that could do nothing is refused, and its owner told why. The
/// settings that are not given have their defaults.
pub proof fn law_settings_of_nothing_are_refused(config: ServerConfig)
    ensures
        config.max_concurrent_builds == 0 ==> config_fault(config) == Some(
            "max_concurrent_builds must be at least 1"@,
        ),
        config.max_concurrent_builds > 0 && config.output_cache_max_parallel_fills == Some(0usize)
            ==> config_fault(config) == Some("output_cache_max_parallel_fills must be at least 1"@),
        config.max_concurrent_builds > 0 && config.output_cache_max_parallel_fills is None
            && config.recent_builds_limit == 0 ==> config_fault(config) == Some(
            "recent_builds_limit must be at least 1"@,
        ),
        DEFAULT_MAX_CONCURRENT_BUILDS == 1,
        DEFAULT_RECENT_BUILDS_LIMIT == 20,
        MAX_AUTO_CACHE_FILLS == 16,
{
}

} // verus!

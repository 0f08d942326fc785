//! The watcher's settings, decided from the values of its environment
//! variables.
use vstd::prelude::*;

use crate::text::{
    chars_of, eq_ignore_ascii_case, eq_ignore_ascii_case_spec, owned, split_on, split_spec, str_eq,
    trim, trim_spec,
};

verus! {

/// The watcher's settings.
#[derive(Debug, Clone)]
pub struct AppConfig {
    pub gemini_api_key: String,
    pub gemini_model: String,
    pub ntfy_url: String,
    pub ntfy_topic: String,
    pub ntfy_token: Option<String>,
    pub target_urls: Vec<String>,
    pub check_interval_secs: u64,
    pub state_file_path: String,
    pub run_once: bool,
}

/// The values of the environment variables that the settings come from,
/// `None` where a variable is unset (or not Unicode).
#[derive(Debug, Clone)]
pub struct ConfigVars {
    pub gemini_api_key: Option<String>,
    pub gemini_model: Option<String>,
    pub ntfy_url: Option<String>,
    pub ntfy_topic: Option<String>,
    pub ntfy_token: Option<String>,
    pub target_urls: Option<String>,
    pub check_interval_seconds: Option<String>,
    pub state_file_path: Option<String>,
    pub run_once: Option<String>,
}

/// Why the settings cannot be made.
#[derive(Debug, Clone, PartialEq, Eq)]
pub enum ConfigError {
    /// `GEMINI_API_KEY` is not set.
    MissingApiKey,
    /// `TARGET_URLS` holds no address.
    NoTargetUrls,
}

/// The model used when `GEMINI_MODEL` is unset.
pub const DEFAULT_MODEL: &'static str = "gemini-2.5-flash-lite";
/// The server used when `NTFY_URL` is unset.
pub const DEFAULT_NTFY_URL: &'static str = "https://ntfy.sh";
/// The topic used when `NTFY_TOPIC` is unset.
pub const DEFAULT_TOPIC: &'static str = "didrit";
/// The pages watched when `TARGET_URLS` is unset.
pub const DEFAULT_TARGET_URLS: &'static str = "https://www.didrit.fr/Maths_TE.htm,https://www.didrit.fr/Maths_T.htm";
/// The state file used when `STATE_FILE_PATH` is unset.
pub const DEFAULT_STATE_FILE: &'static str = "state.json";
/// The check interval used when `CHECK_INTERVAL_SECONDS` is unset or not a number.
pub const DEFAULT_INTERVAL_SECS: u64 = 3600;

/// The value, or `default` when unset.
pub open spec fn or_default(value: Option<Seq<char>>, default: Seq<char>) -> Seq<char> {
    match value {
        Some(v) => v,
        None => default,
    }
}

/// The token, unless it is unset or blank.
pub open spec fn token_spec(value: Option<Seq<char>>) -> Option<Seq<char>> {
    match value {
        Some(t) => if trim_spec(t).len() != 0 {
            Some(t)
        } else {
            None
        },
        None => None,
    }
}

/// The comma-separated addresses, trimmed, without empty ones.
pub open spec fn target_urls_spec(raw: Seq<char>) -> Seq<Seq<char>> {
    split_spec(raw, ',').map_values(|s: Seq<char>| trim_spec(s)).filter(|s: Seq<char>| s.len() != 0)
}

/// `d` is an ASCII digit.
pub open spec fn is_digit(d: char) -> bool {
    '0' <= d <= '9'
}

/// The number that the decimal digits `d` write.
pub open spec fn digits_value(d: Seq<char>) -> nat
    decreases d.len(),
{
    if d.len() == 0 {
        0
    } else {
        digits_value(d.drop_last()) * 10 + ((d.last() as u32) - 48) as nat
    }
}

/// `s` without one leading `+`.
pub open spec fn unsigned_digits(s: Seq<char>) -> Seq<char> {
    if s.len() > 0 && s[0] == '+' {
        s.drop_first()
    } else {
        s
    }
}

/// What `s.parse::<u64>()` gives: an optional `+` then at least one decimal
/// digit, writing a number that fits in 64 bits.
pub open spec fn parse_u64_spec(s: Seq<char>) -> Option<u64> {
    let d = unsigned_digits(s);
    if d.len() > 0 && (forall|i: int| 0 <= i < d.len() ==> is_digit(#[trigger] d[i]))
        && digits_value(d) <= u64::MAX {
        Some(digits_value(d) as u64)
    } else {
        None
    }
}

/// The check interval: the parsed value, or 3600 seconds.
pub open spec fn interval_spec(value: Option<Seq<char>>) -> u64 {
    match value {
        Some(v) => match parse_u64_spec(v) {
            Some(n) => n,
            None => DEFAULT_INTERVAL_SECS,
        },
        None => DEFAULT_INTERVAL_SECS,
    }
}

/// Single-run mode: "true" in any ASCII case, or "1".
pub open spec fn run_once_spec(value: Option<Seq<char>>) -> bool {
    match value {
        Some(v) => eq_ignore_ascii_case_spec(v, "true"@) || v == "1"@,
        None => false,
    }
}

/// The value of an optional text.
pub open spec fn opt_view(o: &Option<String>) -> Option<Seq<char>> {
    o.deep_view()
}

/// The decimal number that `s` writes (`str::parse::<u64>`).
pub fn parse_u64(s: &str) -> (r: Option<u64>)
    ensures
        r == parse_u64_spec(s@),
{
    let chars = chars_of(s);
    let mut i: usize = 0;
    if chars.len() > 0 && chars[0] == '+' {
        i = 1;
    }
    let ghost d = unsigned_digits(s@);
    assert(d =~= chars@.skip(i as int));
    if i == chars.len() {
        return None;
    }
    let mut value: u64 = 0;
    let start = i;
    while i < chars.len()
        invariant
            chars@ == s@,
            d == unsigned_digits(s@),
            d == chars@.skip(start as int),
            start <= i <= chars@.len(),
            forall|k: int| start <= k < i ==> is_digit(#[trigger] chars@[k]),
            value as nat == digits_value(chars@.subrange(start as int, i as int)),
        decreases chars@.len() - i,
    {
        let c = chars[i];
        if !('0' <= c && c <= '9') {
            assert(d[i - start] == c);
            assert(!is_digit(d[i - start]));
            return None;
        }
        let digit = (c as u32 - 48) as u64;
        assert(chars@.subrange(start as int, i + 1).drop_last() =~= chars@.subrange(
            start as int,
            i as int,
        ));
        let times = value.checked_mul(10);
        match times {
            Some(t) => match t.checked_add(digit) {
                Some(v) => {
                    value = v;
                },
                None => {
                    proof {
                        lemma_overflow_rejected(d, chars@, start as int, i as int);
                    }
                    return None;
                },
            },
            None => {
                proof {
                    lemma_overflow_rejected(d, chars@, start as int, i as int);
                }
                return None;
            },
        }
        i = i + 1;
    }
    assert(chars@.subrange(start as int, i as int) =~= d);
    Some(value)
}

/// Digits whose prefix up to `i` already exceeds 64 bits do not parse.
proof fn lemma_overflow_rejected(d: Seq<char>, chars: Seq<char>, start: int, i: int)
    requires
        0 <= start <= i < chars.len(),
        d == chars.skip(start),
        digits_value(chars.subrange(start, i + 1)) > u64::MAX,
    ensures
        !(d.len() > 0 && (forall|k: int| 0 <= k < d.len() ==> is_digit(#[trigger] d[k]))
            && digits_value(d) <= u64::MAX),
{
    if forall|k: int| 0 <= k < d.len() ==> is_digit(#[trigger] d[k]) {
        lemma_digits_grow(d, i - start + 1);
        assert(d.take(i - start + 1) =~= chars.subrange(start, i + 1));
    }
}

/// A longer run of digits writes a number at least as large as any prefix.
proof fn lemma_digits_grow(d: Seq<char>, k: int)
    requires
        0 <= k <= d.len(),
        forall|i: int| 0 <= i < d.len() ==> is_digit(#[trigger] d[i]),
    ensures
        digits_value(d.take(k)) <= digits_value(d),
    decreases d.len() - k,
{
    if k < d.len() {
        lemma_digits_grow(d, k + 1);
        assert(d.take(k + 1).drop_last() =~= d.take(k));
    } else {
        assert(d.take(k) =~= d);
    }
}

impl AppConfig {
    /// The settings that the environment values `vars` give: the API key
    /// (required), the model, the ntfy server, topic and token (unless
    /// blank), the comma-separated target addresses (at least one), the
    /// check interval (3600 s when unset or not a number), the state file,
    /// and single-run mode.
    pub fn from_vars(vars: ConfigVars) -> (r: Result<AppConfig, ConfigError>)
        ensures
            vars.gemini_api_key is None ==> r == Err::<AppConfig, ConfigError>(
                ConfigError::MissingApiKey,
            ),
            vars.gemini_api_key is Some && target_urls_spec(
                or_default(opt_view(&vars.target_urls), DEFAULT_TARGET_URLS@),
            ).len() == 0 ==> r == Err::<AppConfig, ConfigError>(ConfigError::NoTargetUrls),
            r is Ok <==> vars.gemini_api_key is Some && target_urls_spec(
                or_default(opt_view(&vars.target_urls), DEFAULT_TARGET_URLS@),
            ).len() != 0,
            r matches Ok(c) ==> {
                &&& Some(c.gemini_api_key@) == opt_view(&vars.gemini_api_key)
                &&& c.gemini_model@ == or_default(opt_view(&vars.gemini_model), DEFAULT_MODEL@)
                &&& c.ntfy_url@ == or_default(opt_view(&vars.ntfy_url), DEFAULT_NTFY_URL@)
                &&& c.ntfy_topic@ == or_default(opt_view(&vars.ntfy_topic), DEFAULT_TOPIC@)
                &&& c.ntfy_token.deep_view() == token_spec(opt_view(&vars.ntfy_token))
                &&& c.target_urls.deep_view() == target_urls_spec(
                    or_default(opt_view(&vars.target_urls), DEFAULT_TARGET_URLS@),
                )
                &&& c.check_interval_secs == interval_spec(opt_view(&vars.check_interval_seconds))
                &&& c.state_file_path@ == or_default(
                    opt_view(&vars.state_file_path),
                    DEFAULT_STATE_FILE@,
                )
                &&& c.run_once == run_once_spec(opt_view(&vars.run_once))
            },
    {
        let gemini_api_key = match vars.gemini_api_key {
            Some(k) => k,
            None => {
                return Err(ConfigError::MissingApiKey);
            },
        };
        let gemini_model = match vars.gemini_model {
            Some(m) => m,
            None => owned(DEFAULT_MODEL),
        };
        let ntfy_url = match vars.ntfy_url {
            Some(u) => u,
            None => owned(DEFAULT_NTFY_URL),
        };
        let ntfy_topic = match vars.ntfy_topic {
            Some(t) => t,
            None => owned(DEFAULT_TOPIC),
        };
        let ntfy_token = match vars.ntfy_token {
            Some(t) => {
                if trim(t.as_str()).as_str().is_empty() {
                    None
                } else {
                    Some(t)
                }
            },
            None => None,
        };
        let raw_urls = match vars.target_urls {
            Some(u) => u,
            None => owned(DEFAULT_TARGET_URLS),
        };
        let target_urls = split_target_urls(raw_urls.as_str());
        if target_urls.len() == 0 {
            return Err(ConfigError::NoTargetUrls);
        }
        let check_interval_secs = match vars.check_interval_seconds {
            Some(v) => match parse_u64(v.as_str()) {
                Some(n) => n,
                None => DEFAULT_INTERVAL_SECS,
            },
            None => DEFAULT_INTERVAL_SECS,
        };
        let state_file_path = match vars.state_file_path {
            Some(p) => p,
            None => owned(DEFAULT_STATE_FILE),
        };
        let run_once = match vars.run_once {
            Some(v) => eq_ignore_ascii_case(v.as_str(), "true") || str_eq(v.as_str(), "1"),
            None => false,
        };
        Ok(
            AppConfig {
                gemini_api_key,
                gemini_model,
                ntfy_url,
                ntfy_topic,
                ntfy_token,
                target_urls,
                check_interval_secs,
                state_file_path,
                run_once,
            },
        )
    }
}

/// The comma-separated addresses of `raw`, trimmed, without empty ones.
pub fn split_target_urls(raw: &str) -> (r: Vec<String>)
    ensures
        r.deep_view() == target_urls_spec(raw@),
{
    let parts = split_on(&chars_of(raw), ',');
    let ghost all = parts.deep_view();
    let ghost trimmed = all.map_values(|s: Seq<char>| trim_spec(s));
    let ghost keep = |s: Seq<char>| s.len() != 0;
    let mut r: Vec<String> = Vec::new();
    let mut i: usize = 0;
    while i < parts.len()
        invariant
            i <= parts@.len(),
            all == parts.deep_view(),
            trimmed == all.map_values(|s: Seq<char>| trim_spec(s)),
            keep == (|s: Seq<char>| s.len() != 0),
            r.deep_view() == trimmed.take(i as int).filter(keep),
        decreases parts@.len() - i,
    {
        proof {
            reveal_with_fuel(Seq::<Seq<char>>::filter, 1);
            assert(trimmed.take(i + 1).drop_last() =~= trimmed.take(i as int));
            assert(trimmed.take(i + 1).last() == trim_spec(all[i as int]));
        }
        let t = trim(parts[i].as_str());
        if !t.as_str().is_empty() {
            let ghost before = r.deep_view();
            r.push(t);
            assert(r.deep_view() =~= before.push(trim_spec(all[i as int])));
        }
        i = i + 1;
    }
    assert(trimmed.take(i as int) =~= trimmed);
    r
}

} // verus!

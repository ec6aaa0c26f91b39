//! The settings the intake runs with, validated once at startup.

use crate::clock::{local_now_text, renderable};
use crate::dispatch::Destination;
use crate::text::optional_text;
use vstd::prelude::*;

verus! {

/// The settings, in the order in which they are checked.
#[derive(Debug, Clone, Copy, PartialEq, Eq, Structural)]
pub enum Setting {
    SourceDir,
    DestUser,
    DestHost,
    DestDir,
    TemplateDir,
    FileSuffix,
    WaitSeconds,
}

/// The settings as found in the environment; `None` where one is not set.
#[derive(Debug, PartialEq, Eq)]
pub struct RawSettings {
    pub source_dir: Option<String>,
    pub dest_user: Option<String>,
    pub dest_host: Option<String>,
    pub dest_dir: Option<String>,
    pub template_dir: Option<String>,
    pub file_suffix: Option<String>,
    pub wait_seconds: Option<String>,
}

/// Validated settings.
#[derive(Debug, PartialEq, Eq)]
pub struct Settings {
    /// The directory to watch.
    pub source_dir: String,
    /// Where accepted files are transferred to.
    pub destination: Destination,
    /// The directory that holds the template files.
    pub template_dir: String,
    /// The pattern of the timestamp that renamed files carry.
    pub stamp_pattern: String,
    /// The debounce wait in seconds, at least one.
    pub wait_seconds: u64,
}

/// Why the settings are not valid.
#[derive(Debug, Clone, Copy, PartialEq, Eq, Structural)]
pub enum SettingsError {
    /// The setting is not set.
    Missing(Setting),
    /// The setting is set to something that cannot be used.
    Unusable(Setting),
}

/// Whether `c` is a decimal digit.
pub open spec fn is_digit(c: char) -> bool {
    '0' <= c <= '9'
}

/// Whether `s` consists of decimal digits only.
pub open spec fn all_digits(s: Seq<char>) -> bool {
    forall|i: int| 0 <= i < s.len() ==> is_digit(#[trigger] s[i])
}

/// The number that the decimal digits `s` denote.
pub open spec fn decimal(s: Seq<char>) -> nat
    decreases s.len(),
{
    if s.len() == 0 {
        0
    } else {
        (decimal(s.drop_last()) * 10 + (s.last() as u32 - '0' as u32)) as nat
    }
}

/// The digits of a number written with an optional leading `+`.
pub open spec fn unsigned(text: Seq<char>) -> Seq<char> {
    if text.len() > 0 && text[0] == '+' {
        text.drop_first()
    } else {
        text
    }
}

/// The wait that `text` denotes: a positive decimal number that fits 64
/// bits, written with digits only and an optional leading `+`.
pub open spec fn wait_of(text: Seq<char>) -> Option<u64> {
    let digits = unsigned(text);
    if digits.len() > 0 && all_digits(digits) && 0 < decimal(digits) <= u64::MAX {
        Some(decimal(digits) as u64)
    } else {
        None
    }
}

proof fn lemma_decimal_grows(s: Seq<char>, k: int)
    requires
        all_digits(s),
        0 <= k <= s.len(),
    ensures
        decimal(s.take(k)) <= decimal(s),
    decreases s.len() - k,
{
    if k < s.len() {
        assert(s.take(k + 1).drop_last() == s.take(k));
        assert(s.take(k + 1).last() == s[k]);
        assert(is_digit(s[k]));
        lemma_decimal_grows(s, k + 1);
    } else {
        assert(s.take(k) == s);
    }
}

/// Reads the debounce wait from `text`.
pub fn parse_wait(text: &str) -> (r: Option<u64>)
    ensures
        r == wait_of(text@),
{
    let n: usize = text.unicode_len();
    let start: usize = if n > 0 && text.get_char(0) == '+' {
        1
    } else {
        0
    };
    let ghost digits = unsigned(text@);
    assert(digits == text@.skip(start as int));
    if start == n {
        return None;
    }
    let mut value: u64 = 0;
    let mut i: usize = start;
    assert(digits.take(0) =~= Seq::<char>::empty());
    while i < n
        invariant
            start <= i <= n == text@.len(),
            digits == unsigned(text@),
            digits == text@.skip(start as int),
            forall|j: int| 0 <= j < i - start ==> is_digit(#[trigger] digits[j]),
            value == decimal(digits.take(i - start)),
        decreases n - i,
    {
        let c = text.get_char(i);
        assert(c == digits[i - start]);
        if !('0' <= c && c <= '9') {
            assert(!is_digit(digits[i - start]));
            return None;
        }
        let d: u64 = (c as u32 - '0' as u32) as u64;
        proof {
            let now = digits.take(i - start + 1);
            assert(now.drop_last() == digits.take(i - start));
            assert(now.last() == c);
            assert(decimal(now) == value * 10 + d);
            if all_digits(digits) {
                lemma_decimal_grows(digits, i - start + 1);
            }
        }
        match value.checked_mul(10) {
            Some(tens) => match tens.checked_add(d) {
                Some(sum) => {
                    value = sum;
                },
                None => {
                    return None;
                },
            },
            None => {
                return None;
            },
        }
        i = i + 1;
    }
    assert(digits.take(n - start) == digits);
    if value > 0 {
        Some(value)
    } else {
        None
    }
}

/// The first setting of `raw` that is not set, if any.
pub open spec fn first_missing(raw: RawSettings) -> Option<Setting> {
    if raw.source_dir is None {
        Some(Setting::SourceDir)
    } else if raw.dest_user is None {
        Some(Setting::DestUser)
    } else if raw.dest_host is None {
        Some(Setting::DestHost)
    } else if raw.dest_dir is None {
        Some(Setting::DestDir)
    } else if raw.template_dir is None {
        Some(Setting::TemplateDir)
    } else if raw.file_suffix is None {
        Some(Setting::FileSuffix)
    } else if raw.wait_seconds is None {
        Some(Setting::WaitSeconds)
    } else {
        None
    }
}

/// Whether `settings` holds the values of `raw`.
pub open spec fn holds(settings: Settings, raw: RawSettings) -> bool {
    &&& Some(settings.source_dir@) == optional_text(raw.source_dir)
    &&& Some(settings.destination.user@) == optional_text(raw.dest_user)
    &&& Some(settings.destination.host@) == optional_text(raw.dest_host)
    &&& Some(settings.destination.directory@) == optional_text(raw.dest_dir)
    &&& Some(settings.template_dir@) == optional_text(raw.template_dir)
    &&& Some(settings.stamp_pattern@) == optional_text(raw.file_suffix)
    &&& raw.wait_seconds is Some
    &&& Some(settings.wait_seconds) == wait_of(raw.wait_seconds->0@)
}

/// Validates settings whose timestamp pattern is known to be usable or not.
pub fn validate_with(raw: RawSettings, pattern_usable: bool) -> (r: Result<Settings, SettingsError>)
    ensures
        match first_missing(raw) {
            Some(setting) => r == Err::<Settings, SettingsError>(SettingsError::Missing(setting)),
            None => if wait_of(raw.wait_seconds->0@) is None {
                r == Err::<Settings, SettingsError>(SettingsError::Unusable(Setting::WaitSeconds))
            } else if !pattern_usable {
                r == Err::<Settings, SettingsError>(SettingsError::Unusable(Setting::FileSuffix))
            } else {
                r matches Ok(settings) && holds(settings, raw)
            },
        },
{
    let RawSettings {
        source_dir,
        dest_user,
        dest_host,
        dest_dir,
        template_dir,
        file_suffix,
        wait_seconds,
    } = raw;
    let source_dir = match source_dir {
        Some(v) => v,
        None => {
            return Err(SettingsError::Missing(Setting::SourceDir));
        },
    };
    let user = match dest_user {
        Some(v) => v,
        None => {
            return Err(SettingsError::Missing(Setting::DestUser));
        },
    };
    let host = match dest_host {
        Some(v) => v,
        None => {
            return Err(SettingsError::Missing(Setting::DestHost));
        },
    };
    let directory = match dest_dir {
        Some(v) => v,
        None => {
            return Err(SettingsError::Missing(Setting::DestDir));
        },
    };
    let template_dir = match template_dir {
        Some(v) => v,
        None => {
            return Err(SettingsError::Missing(Setting::TemplateDir));
        },
    };
    let stamp_pattern = match file_suffix {
        Some(v) => v,
        None => {
            return Err(SettingsError::Missing(Setting::FileSuffix));
        },
    };
    let wait_text = match wait_seconds {
        Some(v) => v,
        None => {
            return Err(SettingsError::Missing(Setting::WaitSeconds));
        },
    };
    let wait_seconds = match parse_wait(wait_text.as_str()) {
        Some(v) => v,
        None => {
            return Err(SettingsError::Unusable(Setting::WaitSeconds));
        },
    };
    if !pattern_usable {
        return Err(SettingsError::Unusable(Setting::FileSuffix));
    }
    Ok(
        Settings {
            source_dir,
            destination: Destination { user, host, directory },
            template_dir,
            stamp_pattern,
            wait_seconds,
        },
    )
}

/// Validates the settings found in the environment.
///
/// The first setting that is not set is reported as missing. A wait that is
/// not a positive number is unusable, and so is a timestamp pattern that
/// cannot be rendered.
pub fn validate(raw: RawSettings) -> (r: Result<Settings, SettingsError>)
    ensures
        match first_missing(raw) {
            Some(setting) => r == Err::<Settings, SettingsError>(SettingsError::Missing(setting)),
            None => if wait_of(raw.wait_seconds->0@) is None {
                r == Err::<Settings, SettingsError>(SettingsError::Unusable(Setting::WaitSeconds))
            } else if !renderable(raw.file_suffix->0@) {
                r == Err::<Settings, SettingsError>(SettingsError::Unusable(Setting::FileSuffix))
            } else {
                r matches Ok(settings) && holds(settings, raw)
            },
        },
{
    let usable = match &raw.file_suffix {
        Some(pattern) => local_now_text(pattern.as_str()).is_some(),
        None => false,
    };
    validate_with(raw, usable)
}

impl Setting {
    /// The name of the environment variable that carries this setting.
    pub fn variable(&self) -> (r: &'static str)
        ensures
            r@ == match *self {
                Setting::SourceDir => "SOURCE_DIR"@,
                Setting::DestUser => "DEST_USER"@,
                Setting::DestHost => "DEST_HOST"@,
                Setting::DestDir => "DEST_DIR"@,
                Setting::TemplateDir => "TEMPLATE_DIR"@,
                Setting::FileSuffix => "FILE_SUFFIX"@,
                Setting::WaitSeconds => "CSV_EVENT_WAIT_SECONDS"@,
            },
    {
        match self {
            Setting::SourceDir => "SOURCE_DIR",
            Setting::DestUser => "DEST_USER",
            Setting::DestHost => "DEST_HOST",
            Setting::DestDir => "DEST_DIR",
            Setting::TemplateDir => "TEMPLATE_DIR",
            Setting::FileSuffix => "FILE_SUFFIX",
            Setting::WaitSeconds => "CSV_EVENT_WAIT_SECONDS",
        }
    }
}

} // verus!

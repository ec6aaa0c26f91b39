//! The sidecar that records the provenance of an accepted file: when it
//! was created, who owns it, and what it was called when it arrived.

use crate::clock::{local_rendering, local_time_text, representable, TIMESTAMP_PATTERN};
use crate::text::{appended, optional_text, strip_one_newline, without_one_trailing};
use vstd::prelude::*;

verus! {

/// What a sidecar's path adds to the path of the file it describes.
pub const SIDECAR_SUFFIX: &'static str = ".metadata";

/// The path of the sidecar of the file at `path`.
pub open spec fn sidecar_of(path: Seq<char>) -> Seq<char> {
    path + SIDECAR_SUFFIX@
}

/// The owner's name, given what the identity lookup printed: that text
/// without its line terminator, or nothing when the lookup failed.
pub open spec fn owner_of(lookup: Option<Seq<char>>) -> Seq<char> {
    match lookup {
        Some(printed) => strip_one_newline(printed),
        None => Seq::empty(),
    }
}

/// The single line a sidecar holds.
pub open spec fn record_text(time: Seq<char>, owner: Seq<char>, name: Seq<char>) -> Seq<char> {
    time + ","@ + owner + ","@ + name
}

/// What the file system and the identity lookup told about a file.
#[derive(Debug, PartialEq, Eq)]
pub struct FileFacts {
    /// Creation time in seconds since the Unix epoch, if known.
    pub created_secs: Option<i64>,
    /// What the identity lookup printed for the owner, if it succeeded.
    pub owner_lookup: Option<String>,
}

/// A sidecar to write.
#[derive(Debug, PartialEq, Eq)]
pub struct Sidecar {
    /// Where to write it.
    pub path: String,
    /// The creation time of the described file, in local time.
    pub upload_time: String,
    /// Its content, a single line.
    pub line: String,
}

/// A `Sidecar` as plain sequences.
pub struct SidecarModel {
    pub path: Seq<char>,
    pub upload_time: Seq<char>,
    pub line: Seq<char>,
}

impl View for Sidecar {
    type V = SidecarModel;

    open spec fn view(&self) -> SidecarModel {
        SidecarModel { path: self.path@, upload_time: self.upload_time@, line: self.line@ }
    }
}

/// The sidecar of the file at `path`, which arrived as `original_name` and
/// was created at local time `time`.
pub open spec fn described(
    path: Seq<char>,
    original_name: Seq<char>,
    time: Seq<char>,
    lookup: Option<Seq<char>>,
) -> SidecarModel {
    SidecarModel {
        path: sidecar_of(path),
        upload_time: time,
        line: record_text(time, owner_of(lookup), original_name),
    }
}

/// The owner's name, given what the identity lookup printed.
pub fn owner_name(lookup: &Option<String>) -> (r: String)
    ensures
        r@ == owner_of(optional_text(*lookup)),
{
    match lookup {
        Some(printed) => without_one_trailing(printed.as_str(), '\n'),
        None => String::new(),
    }
}

/// The path of the sidecar of the file at `path`.
pub fn sidecar_path(path: &str) -> (r: String)
    ensures
        r@ == sidecar_of(path@),
{
    appended(path, SIDECAR_SUFFIX)
}

/// The single line a sidecar holds.
pub fn record(time: &str, owner: &str, name: &str) -> (r: String)
    ensures
        r@ == record_text(time@, owner@, name@),
{
    let mut line = appended(time, ",");
    line.append(owner);
    line.append(",");
    line.append(name);
    line
}

/// The sidecar of the file at `path`, which arrived as `original_name` and
/// was created at local time `time`.
pub fn describe_at(path: &str, original_name: &str, time: &str, lookup: &Option<String>) -> (r:
    Sidecar)
    ensures
        r@ == described(path@, original_name@, time@, optional_text(*lookup)),
{
    let owner = owner_name(lookup);
    Sidecar {
        path: sidecar_path(path),
        upload_time: time.to_owned(),
        line: record(time, owner.as_str(), original_name),
    }
}

/// The sidecar of the file at `path`, which arrived as `original_name`.
///
/// There is one exactly when the creation time is known and is an instant
/// that can be represented. It is the one `described` gives for the
/// creation time as rendered in the machine's local time with the timestamp
/// pattern, which the sidecar carries as `upload_time`.
pub fn describe(path: &str, original_name: &str, facts: &FileFacts) -> (r: Option<Sidecar>)
    ensures
        r is Some <==> (facts.created_secs matches Some(secs) && representable(secs as int, 0)),
        r matches Some(sidecar) ==> {
            &&& sidecar@ == described(
                path@,
                original_name@,
                sidecar.upload_time@,
                optional_text(facts.owner_lookup),
            )
            &&& local_rendering(
                facts.created_secs->0 as int,
                0,
                TIMESTAMP_PATTERN@,
                sidecar.upload_time@,
            )
        },
{
    match facts.created_secs {
        Some(secs) => match local_time_text(secs, TIMESTAMP_PATTERN) {
            Some(time) => Some(
                describe_at(path, original_name, time.as_str(), &facts.owner_lookup),
            ),
            None => None,
        },
        None => None,
    }
}

} // verus!

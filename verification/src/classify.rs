//! Classification of a file by its header row.

use crate::registry::{lemma_loaded_keys, loaded_mapping, HeaderRegistry, TemplateFile};
use crate::status::NO_MATCH_REASON;
use crate::text::{first_line, leading_line, strip_one_comma, without_one_trailing};
use vstd::prelude::*;

verus! {

/// What was found when the beginning of a file was read.
#[derive(Debug, PartialEq, Eq)]
pub enum Probe {
    /// The file no longer exists.
    Missing,
    /// The file exists but could not be read; the text says why.
    Unreadable(String),
    /// The beginning of the file: at least its first line, or all of it
    /// when it has a single line.
    Head(String),
}

/// Why a file was not accepted.
#[derive(Debug, PartialEq, Eq)]
pub enum Rejection {
    /// The header row matches no known table.
    NoMatchingSchema,
    /// The header row could not be read; the text says why.
    Unreadable(String),
}

/// The verdict on one file.
#[derive(Debug, PartialEq, Eq)]
pub enum Classification {
    /// The header row is the signature of this table.
    Matched(String),
    /// The file is not accepted.
    Rejected(Rejection),
    /// The file vanished before it could be read; there is nothing to do.
    Vanished,
}

/// A `Classification` as plain sequences.
pub enum Verdict {
    Matched(Seq<char>),
    NoMatchingSchema,
    Unreadable(Seq<char>),
    Vanished,
}

impl View for Classification {
    type V = Verdict;

    open spec fn view(&self) -> Verdict {
        match *self {
            Classification::Matched(table) => Verdict::Matched(table@),
            Classification::Rejected(Rejection::NoMatchingSchema) => Verdict::NoMatchingSchema,
            Classification::Rejected(Rejection::Unreadable(why)) => Verdict::Unreadable(why@),
            Classification::Vanished => Verdict::Vanished,
        }
    }
}

/// The registry key of a file that begins with `head`: its first line,
/// without one trailing comma.
pub open spec fn header_key(head: Seq<char>) -> Seq<char> {
    strip_one_comma(first_line(head))
}

/// The verdict on a file for which `probe` was found: a file whose key is
/// registered belongs to the table registered under it, and a file with any
/// other first line matches no schema.
pub open spec fn classified(probe: Probe, registry: Map<Seq<char>, Seq<char>>) -> Verdict {
    match probe {
        Probe::Missing => Verdict::Vanished,
        Probe::Unreadable(why) => Verdict::Unreadable(why@),
        Probe::Head(head) => if registry.contains_key(header_key(head@)) {
            Verdict::Matched(registry[header_key(head@)])
        } else {
            Verdict::NoMatchingSchema
        },
    }
}

/// The text recorded in the upload log for a rejection.
pub open spec fn reason_text(verdict: Verdict) -> Seq<char> {
    match verdict {
        Verdict::Unreadable(why) => why,
        _ => NO_MATCH_REASON@,
    }
}

/// In a registry loaded from templates, a file whose first line is a
/// registered signature, alone or followed by one comma, belongs to the
/// table registered under that signature, and a file with any other first
/// line matches no schema.
pub proof fn lemma_loaded_signature_decides(files: Seq<TemplateFile>, head: String)
    ensures
        forall|key: Seq<char>|
            #![trigger loaded_mapping(files).contains_key(key)]
            loaded_mapping(files).contains_key(key) && (first_line(head@) == key || first_line(
                head@,
            ) == key.push(',')) ==> classified(Probe::Head(head), loaded_mapping(files))
                == Verdict::Matched(loaded_mapping(files)[key]),
        (forall|key: Seq<char>|
            #![trigger loaded_mapping(files).contains_key(key)]
            loaded_mapping(files).contains_key(key) ==> first_line(head@) != key && first_line(
                head@,
            ) != key.push(',')) ==> classified(Probe::Head(head), loaded_mapping(files))
            == Verdict::NoMatchingSchema,
{
    let registry = loaded_mapping(files);
    let line = first_line(head@);
    assert forall|key: Seq<char>|
        #![trigger registry.contains_key(key)]
        registry.contains_key(key) && (line == key || line == key.push(',')) implies classified(
        Probe::Head(head),
        registry,
    ) == Verdict::Matched(registry[key]) by {
        lemma_loaded_keys(files, key);
        if line == key.push(',') {
            assert(line.drop_last() == key);
        }
    }
    if registry.contains_key(header_key(head@)) {
        let key = header_key(head@);
        if line.len() > 0 && line.last() == ',' {
            assert(line == key.push(','));
        }
    }
}

/// The registry key of a file that begins with `head`.
pub fn key(head: &str) -> (r: String)
    ensures
        r@ == header_key(head@),
{
    let line = leading_line(head);
    without_one_trailing(line.as_str(), ',')
}

/// Classifies a file by what was found at its beginning.
pub fn classify(probe: &Probe, registry: &HeaderRegistry) -> (r: Classification)
    ensures
        r@ == classified(*probe, registry@),
{
    match probe {
        Probe::Missing => Classification::Vanished,
        Probe::Unreadable(why) => Classification::Rejected(Rejection::Unreadable(why.clone())),
        Probe::Head(head) => {
            let k = key(head.as_str());
            match registry.lookup(k.as_str()) {
                Some(table) => Classification::Matched(table),
                None => Classification::Rejected(Rejection::NoMatchingSchema),
            }
        },
    }
}

impl Rejection {
    /// The text recorded in the upload log for this rejection.
    pub fn reason(&self) -> (r: String)
        ensures
            r@ == reason_text(Classification::Rejected(*self)@),
    {
        match self {
            Rejection::NoMatchingSchema => NO_MATCH_REASON.to_owned(),
            Rejection::Unreadable(why) => why.clone(),
        }
    }
}

} // verus!

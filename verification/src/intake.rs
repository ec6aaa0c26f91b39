//! The path of one change event through the intake: examination of the
//! file's header, the rename that stamps it, and its acceptance into the
//! current dispatch cycle.
//!
//! Each function takes what the caller observed when it carried out the
//! previous step, and says what to do next.

use crate::classify::{classified, classify, reason_text, Classification, Probe, Verdict};
use crate::clock::{
    clock_rendering, local_now_text, local_rendering, renderable, representable,
    TIMESTAMP_PATTERN,
};
use crate::batch::{ClassifiedFile, FileModel};
use crate::metadata::{describe, described, sidecar_of, sidecar_path, FileFacts, Sidecar};
use crate::text::optional_text;
use crate::paths::{base_name, file_name, stamped, with_stamp};
use crate::registry::HeaderRegistry;
use crate::status::{failure_entry, LogEntry, LogEntryModel};
use crate::watch::ChangeEvent;
use vstd::prelude::*;

verus! {

/// Reason recorded when the configured pattern yields no timestamp.
pub const STAMP_FAILURE: &'static str = "The timestamp suffix could not be rendered.";

/// A rename to carry out: the file at `from` becomes `to`.
#[derive(Debug, PartialEq, Eq)]
pub struct RenamePlan {
    table: String,
    from: String,
    to: String,
}

/// A `RenamePlan` as plain sequences.
pub struct PlanModel {
    pub table: Seq<char>,
    pub from: Seq<char>,
    pub to: Seq<char>,
}

impl View for RenamePlan {
    type V = PlanModel;

    closed spec fn view(&self) -> PlanModel {
        PlanModel { table: self.table@, from: self.from@, to: self.to@ }
    }
}

impl RenamePlan {
    /// The table the file was matched to.
    pub fn table(&self) -> (r: &str)
        ensures
            r@ == self@.table,
    {
        self.table.as_str()
    }

    /// The path of the file as it arrived.
    pub fn from(&self) -> (r: &str)
        ensures
            r@ == self@.from,
    {
        self.from.as_str()
    }

    /// The path to rename it to.
    pub fn to(&self) -> (r: &str)
        ensures
            r@ == self@.to,
    {
        self.to.as_str()
    }
}

/// What to do with a file after its header was examined.
#[derive(Debug, PartialEq, Eq)]
pub enum Examination {
    /// It was matched to a table: rename it.
    Rename(RenamePlan),
    /// It is not accepted: record why and leave it as it is.
    Rejected(LogEntry),
    /// It vanished: nothing to do.
    Skipped,
}

/// An `Examination` as plain sequences.
pub enum ExaminationModel {
    Rename(PlanModel),
    Rejected(LogEntryModel),
    Skipped,
}

impl View for Examination {
    type V = ExaminationModel;

    open spec fn view(&self) -> ExaminationModel {
        match *self {
            Examination::Rename(plan) => ExaminationModel::Rename(plan@),
            Examination::Rejected(entry) => ExaminationModel::Rejected(entry@),
            Examination::Skipped => ExaminationModel::Skipped,
        }
    }
}

/// What to do with the file at `path` given the verdict on it and, for a
/// matched file, the timestamp to stamp it with.
pub open spec fn examined(path: Seq<char>, verdict: Verdict, stamp: Option<Seq<char>>)
    -> ExaminationModel {
    match verdict {
        Verdict::Matched(table) => match stamp {
            Some(stamp) => ExaminationModel::Rename(
                PlanModel { table, from: path, to: with_stamp(path, stamp) },
            ),
            None => ExaminationModel::Rejected(failure_entry(path, STAMP_FAILURE@)),
        },
        Verdict::Vanished => ExaminationModel::Skipped,
        _ => ExaminationModel::Rejected(failure_entry(path, reason_text(verdict))),
    }
}

/// Decides what to do with the file at `path`, given the verdict on it and
/// the timestamp to stamp it with (`None` when no timestamp could be
/// rendered).
pub fn decide(path: &str, verdict: Classification, stamp: &Option<String>) -> (r: Examination)
    ensures
        r@ == examined(path@, verdict@, optional_text(*stamp)),
{
    match verdict {
        Classification::Matched(table) => match stamp {
            Some(stamp) => Examination::Rename(
                RenamePlan { table, from: path.to_owned(), to: stamped(path, stamp.as_str()) },
            ),
            None => Examination::Rejected(LogEntry::failed(path, STAMP_FAILURE)),
        },
        Classification::Rejected(rejection) => {
            let reason = rejection.reason();
            Examination::Rejected(LogEntry::failed(path, reason.as_str()))
        },
        Classification::Vanished => Examination::Skipped,
    }
}

/// Decides what to do with the file of `event`, given what was found at its
/// beginning and the timestamp to stamp it with (`None` when no timestamp
/// could be rendered).
pub fn examine_with(
    event: &ChangeEvent,
    probe: &Probe,
    registry: &HeaderRegistry,
    stamp: &Option<String>,
) -> (r: Examination)
    ensures
        r@ == examined(event.path@, classified(*probe, registry@), optional_text(*stamp)),
{
    decide(event.path.as_str(), classify(probe, registry), stamp)
}

/// Decides what to do with the file of `event`, given what was found at its
/// beginning. A matched file is stamped with the current local time,
/// rendered with `pattern`; it is rejected when the pattern cannot be
/// rendered. Only for a matched file is the clock read.
pub fn examine(event: &ChangeEvent, probe: &Probe, registry: &HeaderRegistry, pattern: &str) -> (r:
    Examination)
    ensures
        match classified(*probe, registry@) {
            Verdict::Matched(_) => if renderable(pattern@) {
                exists|stamp: Seq<char>|
                    #[trigger] clock_rendering(pattern@, stamp) && r@ == examined(
                        event.path@,
                        classified(*probe, registry@),
                        Some(stamp),
                    )
            } else {
                r@ == examined(event.path@, classified(*probe, registry@), None)
            },
            _ => r@ == examined(event.path@, classified(*probe, registry@), None),
        },
        classified(*probe, registry@) is Matched ==> (r@ is Rename <==> renderable(pattern@)),
{
    let verdict = classify(probe, registry);
    let stamp = match &verdict {
        Classification::Matched(_) => local_now_text(pattern),
        _ => None,
    };
    let r = decide(event.path.as_str(), verdict, &stamp);
    proof {
        if stamp is Some {
            assert(clock_rendering(pattern@, stamp->0@));
        }
    }
    r
}

/// How a rename ended.
#[derive(Debug, PartialEq, Eq)]
pub enum RenameOutcome {
    Done,
    /// The file keeps its name; the text says why.
    Failed(String),
}

/// A file that was matched to a table and renamed.
#[derive(Debug, PartialEq, Eq)]
pub struct RenamedFile {
    table: String,
    path: String,
    original_name: String,
}

/// A `RenamedFile` as plain sequences.
pub struct RenamedModel {
    pub table: Seq<char>,
    pub path: Seq<char>,
    pub original_name: Seq<char>,
}

impl View for RenamedFile {
    type V = RenamedModel;

    closed spec fn view(&self) -> RenamedModel {
        RenamedModel { table: self.table@, path: self.path@, original_name: self.original_name@ }
    }
}

/// What to do with a file after its rename was attempted.
#[derive(Debug, PartialEq, Eq)]
pub enum Renaming {
    /// It carries its new name: describe it in a sidecar.
    Renamed(RenamedFile),
    /// It keeps its old name and is not accepted: record why.
    Rejected(LogEntry),
}

/// A `Renaming` as plain sequences.
pub enum RenamingModel {
    Renamed(RenamedModel),
    Rejected(LogEntryModel),
}

impl View for Renaming {
    type V = RenamingModel;

    open spec fn view(&self) -> RenamingModel {
        match *self {
            Renaming::Renamed(file) => RenamingModel::Renamed(file@),
            Renaming::Rejected(entry) => RenamingModel::Rejected(entry@),
        }
    }
}

/// What to do after the rename of `plan` ended with `outcome`.
pub open spec fn renamed(plan: PlanModel, outcome: RenameOutcome) -> RenamingModel {
    match outcome {
        RenameOutcome::Done => RenamingModel::Renamed(
            RenamedModel { table: plan.table, path: plan.to, original_name: base_name(plan.from) },
        ),
        RenameOutcome::Failed(why) => RenamingModel::Rejected(failure_entry(plan.from, why@)),
    }
}

/// The accepted file that `file` becomes: it carries the path of its
/// sidecar if that was written, and none otherwise.
pub open spec fn accepted(file: RenamedModel, written: bool) -> FileModel {
    FileModel {
        table: file.table,
        source: file.path,
        sidecar: if written {
            sidecar_of(file.path)
        } else {
            Seq::empty()
        },
    }
}

/// Decides what to do after the rename of `plan` ended with `outcome`.
pub fn after_rename(plan: RenamePlan, outcome: &RenameOutcome) -> (r: Renaming)
    ensures
        r@ == renamed(plan@, *outcome),
{
    match outcome {
        RenameOutcome::Done => {
            let original_name = file_name(plan.from.as_str());
            Renaming::Renamed(RenamedFile { table: plan.table, path: plan.to, original_name })
        },
        RenameOutcome::Failed(why) => Renaming::Rejected(
            LogEntry::failed(plan.from.as_str(), why.as_str()),
        ),
    }
}

impl RenamedFile {
    /// The table the file was matched to.
    pub fn table(&self) -> (r: &str)
        ensures
            r@ == self@.table,
    {
        self.table.as_str()
    }

    /// The path the file has now.
    pub fn path(&self) -> (r: &str)
        ensures
            r@ == self@.path,
    {
        self.path.as_str()
    }

    /// The file name it arrived under.
    pub fn original_name(&self) -> (r: &str)
        ensures
            r@ == self@.original_name,
    {
        self.original_name.as_str()
    }

    /// The sidecar to write for this file, given what is known about it.
    /// There is one exactly when the creation time is known and is an
    /// instant that can be represented; it carries that time as rendered in
    /// the machine's local time with the timestamp pattern.
    pub fn sidecar(&self, facts: &FileFacts) -> (r: Option<Sidecar>)
        ensures
            r is Some <==> (facts.created_secs matches Some(secs) && representable(
                secs as int,
                0,
            )),
            r matches Some(sidecar) ==> {
                &&& sidecar@ == described(
                    self@.path,
                    self@.original_name,
                    sidecar.upload_time@,
                    optional_text(facts.owner_lookup),
                )
                &&& local_rendering(
                    facts.created_secs->0 as int,
                    0,
                    TIMESTAMP_PATTERN@,
                    sidecar.upload_time@,
                )
            },
    {
        describe(self.path.as_str(), self.original_name.as_str(), facts)
    }

    /// Accepts this file into the dispatch cycle. `written` says whether
    /// its sidecar was written; without one the file is transferred on its
    /// own.
    pub fn accept(self, written: bool) -> (r: ClassifiedFile)
        ensures
            r@ == accepted(self@, written),
    {
        let metadata_path = if written {
            sidecar_path(self.path.as_str())
        } else {
            String::new()
        };
        ClassifiedFile { table_name: self.table, renamed_src_path: self.path, metadata_path }
    }
}

} // verus!

//! The transfer issued for each table of a dispatch cycle, and what to
//! clean up and record once a transfer has reported its outcome.

use crate::batch::{
    group, grouped, lemma_grouping_partitions, models, source_paths, table_set, BatchModel,
    ClassifiedFile, FileModel, TableBatch, TableBatches,
};
use crate::paths::{join, joined};
use crate::status::{failure_entry, success_entry, LogEntry, LogEntryModel};
use crate::text::{appended, lemma_texts_push, texts};
use vstd::prelude::*;

verus! {

/// Where transfers go: the account and host, and the directory under which
/// each table has its own subdirectory.
#[derive(Debug, PartialEq, Eq)]
pub struct Destination {
    pub user: String,
    pub host: String,
    pub directory: String,
}

/// A `Destination` as plain sequences.
pub struct DestinationModel {
    pub user: Seq<char>,
    pub host: Seq<char>,
    pub directory: Seq<char>,
}

impl View for Destination {
    type V = DestinationModel;

    open spec fn view(&self) -> DestinationModel {
        DestinationModel { user: self.user@, host: self.host@, directory: self.directory@ }
    }
}

/// One remote copy: every file of one table, sent in a single operation.
#[derive(Debug, PartialEq, Eq)]
pub struct TransferRequest {
    /// The table the files belong to.
    pub table_name: String,
    /// The directory on the remote host that receives them; created first
    /// if absent.
    pub remote_dir: String,
    /// The remote location in the form `user@host:directory/`.
    pub target: String,
    /// The local paths to copy: the sources, then the sidecars that exist.
    pub sources: Vec<String>,
}

/// A `TransferRequest` as plain sequences.
pub struct RequestModel {
    pub table: Seq<char>,
    pub remote_dir: Seq<char>,
    pub target: Seq<char>,
    pub sources: Seq<Seq<char>>,
}

impl View for TransferRequest {
    type V = RequestModel;

    open spec fn view(&self) -> RequestModel {
        RequestModel {
            table: self.table_name@,
            remote_dir: self.remote_dir@,
            target: self.target@,
            sources: texts(self.sources@),
        }
    }
}

/// The program that performs a transfer.
pub const TRANSFER_PROGRAM: &'static str = "rsync";

/// The sidecars of `files` that were written, in order.
pub open spec fn written_sidecars(files: Seq<FileModel>) -> Seq<Seq<char>>
    decreases files.len(),
{
    if files.len() == 0 {
        Seq::empty()
    } else if files.last().sidecar.len() > 0 {
        written_sidecars(files.drop_last()).push(files.last().sidecar)
    } else {
        written_sidecars(files.drop_last())
    }
}

/// The remote location `user@host:remote_dir/`.
pub open spec fn target_text(dest: DestinationModel, remote_dir: Seq<char>) -> Seq<char> {
    dest.user + "@"@ + dest.host + ":"@ + remote_dir + "/"@
}

/// The transfer that carries `batch` to `dest`.
pub open spec fn request_for(batch: BatchModel, dest: DestinationModel) -> RequestModel {
    let remote_dir = join(dest.directory, batch.table);
    RequestModel {
        table: batch.table,
        remote_dir,
        target: target_text(dest, remote_dir),
        sources: source_paths(batch.files) + written_sidecars(batch.files),
    }
}

/// The option that makes the remote side create `remote_dir` before it
/// receives anything.
pub open spec fn remote_setup_text(remote_dir: Seq<char>) -> Seq<char> {
    "--rsync-path=mkdir -p \""@ + remote_dir + "\" && rsync"@
}

/// The arguments handed to the transfer program for `request`: archive
/// mode with symlinks followed and compression, partial files staged in a
/// `tmp` subdirectory, the remote directory set up first, then the local
/// paths and the remote location.
pub open spec fn argument_texts(request: RequestModel) -> Seq<Seq<char>> {
    seq!["-aLvz"@, "--partial-dir=tmp"@, remote_setup_text(request.remote_dir)] + request.sources
        + seq![request.target]
}

impl TransferRequest {
    /// The arguments to run `TRANSFER_PROGRAM` with.
    pub fn arguments(&self) -> (r: Vec<String>)
        ensures
            texts(r@) == argument_texts(self@),
    {
        let mut args: Vec<String> = Vec::new();
        args.push("-aLvz".to_owned());
        args.push("--partial-dir=tmp".to_owned());
        let mut setup = appended("--rsync-path=mkdir -p \"", self.remote_dir.as_str());
        setup.append("\" && rsync");
        args.push(setup);
        let ghost head = texts(args@);
        assert(head =~= seq!["-aLvz"@, "--partial-dir=tmp"@, remote_setup_text(self@.remote_dir)]);
        let n: usize = self.sources.len();
        let mut i: usize = 0;
        while i < n
            invariant
                i <= n == self.sources@.len(),
                texts(args@) == head + texts(self.sources@).take(i as int),
            decreases n - i,
        {
            proof {
                lemma_texts_push(args@, self.sources@[i as int]);
            }
            args.push(self.sources[i].clone());
            i = i + 1;
            assert(texts(args@) =~= head + texts(self.sources@).take(i as int));
        }
        assert(texts(self.sources@).take(n as int) == texts(self.sources@));
        proof {
            lemma_texts_push(args@, self.target);
        }
        args.push(self.target.clone());
        assert(texts(args@) =~= argument_texts(self@));
        args
    }
}

/// How a transfer ended.
#[derive(Debug, PartialEq, Eq)]
pub enum TransferOutcome {
    /// The transfer program reported success.
    Succeeded,
    /// It could not be run or reported failure; the text is what it said.
    Failed(String),
}

/// What running the transfer program came to.
#[derive(Debug, PartialEq, Eq)]
pub enum ProcessReport {
    /// The program could not be started; the text says why.
    NotStarted(String),
    /// The program ran to its end.
    Exited {
        /// Whether its exit status reports success.
        success: bool,
        /// What it wrote to its error stream.
        errors: String,
    },
}

/// Whether `report` is that of a successful transfer: the program ran and
/// its exit status reports success.
pub open spec fn reports_success(report: ProcessReport) -> bool {
    report matches ProcessReport::Exited { success, .. } && success
}

/// The error text that `report` carries.
pub open spec fn reported_errors(report: ProcessReport) -> Seq<char> {
    match report {
        ProcessReport::NotStarted(why) => why@,
        ProcessReport::Exited { errors, .. } => errors@,
    }
}

/// The outcome of the transfer that `report` is about: a success if the
/// program ran and exited with success, and otherwise a failure with the
/// error text of the program, or with the reason why it did not start.
pub fn outcome_of(report: ProcessReport) -> (r: TransferOutcome)
    ensures
        r is Succeeded <==> reports_success(report),
        r matches TransferOutcome::Failed(text) ==> text@ == reported_errors(report),
{
    match report {
        ProcessReport::NotStarted(why) => TransferOutcome::Failed(why),
        ProcessReport::Exited { success, errors } => {
            if success {
                TransferOutcome::Succeeded
            } else {
                TransferOutcome::Failed(errors)
            }
        },
    }
}

/// What to do once a batch's transfer has ended.
#[derive(Debug, PartialEq, Eq)]
pub struct Settlement {
    /// Local files to delete.
    pub removals: Vec<String>,
    /// Outcomes to record, one per source file.
    pub entries: Vec<LogEntry>,
}

/// The local files of `files`: each source, followed by its sidecar if one
/// was written.
pub open spec fn local_paths(files: Seq<FileModel>) -> Seq<Seq<char>>
    decreases files.len(),
{
    if files.len() == 0 {
        Seq::empty()
    } else {
        let earlier = local_paths(files.drop_last()).push(files.last().source);
        if files.last().sidecar.len() > 0 {
            earlier.push(files.last().sidecar)
        } else {
            earlier
        }
    }
}

/// The local files to delete after `batch` was transferred with `outcome`.
pub open spec fn settled_removals(batch: BatchModel, outcome: TransferOutcome) -> Seq<Seq<char>> {
    match outcome {
        TransferOutcome::Succeeded => local_paths(batch.files),
        TransferOutcome::Failed(_) => Seq::empty(),
    }
}

/// The log entry for the source file at `source` after its batch was
/// transferred with `outcome`.
pub open spec fn outcome_entry(source: Seq<char>, outcome: TransferOutcome) -> LogEntryModel {
    match outcome {
        TransferOutcome::Succeeded => success_entry(source),
        TransferOutcome::Failed(reason) => failure_entry(source, reason@),
    }
}

/// The log entries for `batch` after it was transferred with `outcome`.
pub open spec fn settled_entries(batch: BatchModel, outcome: TransferOutcome) -> Seq<
    LogEntryModel,
> {
    batch.files.map_values(|f: FileModel| outcome_entry(f.source, outcome))
}

/// The models of a list of log entries, in order.
pub open spec fn entry_models(entries: Seq<LogEntry>) -> Seq<LogEntryModel> {
    entries.map_values(|e: LogEntry| e@)
}

/// A local file is deleted if and only if the transfer of its batch
/// succeeded: after a success every source and every written sidecar of the
/// batch is deleted and nothing else; after a failure nothing is.
pub proof fn lemma_removed_iff_succeeded(
    batch: BatchModel,
    outcome: TransferOutcome,
    path: Seq<char>,
)
    ensures
        settled_removals(batch, outcome).contains(path) <==> outcome is Succeeded && exists|
            i: int,
        |
            0 <= i < batch.files.len() && ((#[trigger] batch.files[i]).source == path || (
            batch.files[i].sidecar == path && path.len() > 0)),
{
    if outcome is Succeeded {
        lemma_local_paths(batch.files, path);
    }
}

proof fn lemma_local_paths(files: Seq<FileModel>, path: Seq<char>)
    ensures
        local_paths(files).contains(path) <==> exists|i: int|
            0 <= i < files.len() && ((#[trigger] files[i]).source == path || (files[i].sidecar
                == path && path.len() > 0)),
    decreases files.len(),
{
    if files.len() > 0 {
        let rest = files.drop_last();
        let last = files.last();
        lemma_local_paths(rest, path);
        let earlier = local_paths(rest);
        let all = local_paths(files);
        if all.contains(path) {
            let k = all.index_of(path);
            if k < earlier.len() {
                assert(earlier[k] == path);
                assert(earlier.contains(path));
                let i = choose|i: int|
                    0 <= i < rest.len() && ((#[trigger] rest[i]).source == path || (
                    rest[i].sidecar == path && path.len() > 0));
                assert(files[i] == rest[i]);
            } else {
                assert(files[files.len() - 1] == last);
            }
        }
        if exists|i: int|
            0 <= i < files.len() && ((#[trigger] files[i]).source == path || (files[i].sidecar
                == path && path.len() > 0)) {
            let i = choose|i: int|
                0 <= i < files.len() && ((#[trigger] files[i]).source == path || (
                files[i].sidecar == path && path.len() > 0));
            if i < rest.len() {
                assert(rest[i] == files[i]);
                assert(earlier.contains(path));
                let k = earlier.index_of(path);
                assert(all[k] == path);
            } else if last.source == path {
                assert(all[earlier.len() as int] == path);
            } else {
                assert(all[earlier.len() as int + 1] == path);
            }
        }
    }
}

impl TableBatch {
    /// The transfer that carries this batch to `dest`.
    pub fn request(&self, dest: &Destination) -> (r: TransferRequest)
        ensures
            r@ == request_for(self@, dest@),
    {
        let remote_dir = joined(dest.directory.as_str(), self.table_name.as_str());
        let mut target = appended(dest.user.as_str(), "@");
        target.append(dest.host.as_str());
        target.append(":");
        target.append(remote_dir.as_str());
        target.append("/");
        let mut sources = self.sources();
        let ghost head = texts(sources@);
        let n: usize = self.files.len();
        let mut i: usize = 0;
        assert(self@.files.take(0) =~= Seq::<FileModel>::empty());
        while i < n
            invariant
                i <= n == self.files@.len(),
                head == source_paths(self@.files),
                texts(sources@) == head + written_sidecars(self@.files.take(i as int)),
            decreases n - i,
        {
            let ghost before = self@.files.take(i as int);
            if !self.files[i].sidecar.as_str().is_empty() {
                proof {
                    lemma_texts_push(sources@, self.files@[i as int].sidecar);
                }
                sources.push(self.files[i].sidecar.clone());
            }
            i = i + 1;
            proof {
                let now = self@.files.take(i as int);
                assert(now.drop_last() == before);
                assert(now.last() == self@.files[i - 1]);
                assert(texts(sources@) =~= head + written_sidecars(now));
            }
        }
        assert(self@.files.take(n as int) == self@.files);
        TransferRequest { table_name: self.table_name.clone(), remote_dir, target, sources }
    }

    /// What to delete and what to record after this batch's transfer ended
    /// with `outcome`.
    pub fn settle(&self, outcome: &TransferOutcome) -> (r: Settlement)
        ensures
            texts(r.removals@) == settled_removals(self@, *outcome),
            entry_models(r.entries@) == settled_entries(self@, *outcome),
            r.entries@.len() == self@.files.len(),
    {
        let mut removals: Vec<String> = Vec::new();
        let mut entries: Vec<LogEntry> = Vec::new();
        let n: usize = self.files.len();
        let mut i: usize = 0;
        assert(self@.files.take(0) =~= Seq::<FileModel>::empty());
        while i < n
            invariant
                i <= n == self.files@.len(),
                texts(removals@) == match *outcome {
                    TransferOutcome::Succeeded => local_paths(self@.files.take(i as int)),
                    TransferOutcome::Failed(_) => Seq::empty(),
                },
                entry_models(entries@) == settled_entries(self@, *outcome).take(i as int),
            decreases n - i,
        {
            let ghost before = self@.files.take(i as int);
            let ghost recorded = entries@;
            let file = &self.files[i];
            match outcome {
                TransferOutcome::Succeeded => {
                    proof {
                        lemma_texts_push(removals@, file.source);
                    }
                    removals.push(file.source.clone());
                    if !file.sidecar.as_str().is_empty() {
                        proof {
                            lemma_texts_push(removals@, file.sidecar);
                        }
                        removals.push(file.sidecar.clone());
                    }
                    entries.push(LogEntry::succeeded(file.source.as_str()));
                },
                TransferOutcome::Failed(reason) => {
                    entries.push(LogEntry::failed(file.source.as_str(), reason.as_str()));
                },
            }
            assert(entry_models(entries@) =~= entry_models(recorded).push(
                outcome_entry(self@.files[i as int].source, *outcome),
            ));
            i = i + 1;
            proof {
                let now = self@.files.take(i as int);
                assert(now.drop_last() == before);
                assert(now.last() == self@.files[i - 1]);
                assert(texts(removals@) =~= match *outcome {
                    TransferOutcome::Succeeded => local_paths(now),
                    TransferOutcome::Failed(_) => Seq::empty(),
                });
                assert(entry_models(entries@) =~= settled_entries(self@, *outcome).take(i as int));
            }
        }
        assert(self@.files.take(n as int) == self@.files);
        assert(settled_entries(self@, *outcome).take(n as int) == settled_entries(self@, *outcome));
        assert(entry_models(entries@).len() == entries@.len());
        Settlement { removals, entries }
    }
}

impl TableBatches {
    /// The transfers to issue for this cycle: one per batch, in order.
    pub fn requests(&self, dest: &Destination) -> (r: Vec<TransferRequest>)
        ensures
            r@.len() == self@.len(),
            forall|i: int| 0 <= i < r@.len() ==> (#[trigger] r@[i])@ == request_for(self@[i], dest@),
    {
        let mut out: Vec<TransferRequest> = Vec::new();
        let n: usize = self.len();
        let mut i: usize = 0;
        while i < n
            invariant
                i <= n == self@.len(),
                out@.len() == i,
                forall|j: int| 0 <= j < i ==> (#[trigger] out@[j])@ == request_for(self@[j], dest@),
            decreases n - i,
        {
            match self.get(i) {
                Some(batch) => {
                    out.push(batch.request(dest));
                },
                None => {},
            }
            i = i + 1;
        }
        out
    }
}

/// The transfers to issue for the accepted files of one cycle: one per
/// distinct table, each carrying every file of its table.
pub fn plan(files: Vec<ClassifiedFile>, dest: &Destination) -> (r: Vec<TransferRequest>)
    ensures
        r@.len() == table_set(models(files@)).len(),
        r@.len() == grouped(models(files@)).len(),
        forall|i: int|
            0 <= i < r@.len() ==> (#[trigger] r@[i])@ == request_for(
                grouped(models(files@))[i],
                dest@,
            ),
{
    proof {
        lemma_grouping_partitions(models(files@));
    }
    group(files).requests(dest)
}

} // verus!

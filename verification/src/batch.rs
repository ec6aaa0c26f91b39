//! Grouping of accepted files by destination table.

use crate::text::{lemma_texts_push, texts};
use vstd::prelude::*;
use vstd::seq_lib::{lemma_multiset_commutative, to_multiset_build};

verus! {

/// A file that was matched to a table, renamed and given a sidecar.
/// An empty `metadata_path` means that no sidecar could be written.
#[derive(Debug, PartialEq, Eq)]
pub struct ClassifiedFile {
    pub table_name: String,
    pub renamed_src_path: String,
    pub metadata_path: String,
}

/// A `ClassifiedFile` as plain sequences.
pub struct FileModel {
    pub table: Seq<char>,
    pub source: Seq<char>,
    pub sidecar: Seq<char>,
}

impl View for ClassifiedFile {
    type V = FileModel;

    open spec fn view(&self) -> FileModel {
        FileModel {
            table: self.table_name@,
            source: self.renamed_src_path@,
            sidecar: self.metadata_path@,
        }
    }
}

/// The models of a sequence of classified files, in order.
pub open spec fn models(files: Seq<ClassifiedFile>) -> Seq<FileModel> {
    files.map_values(|f: ClassifiedFile| f@)
}

/// A source file of a batch with the sidecar that describes it.
#[derive(Debug, PartialEq, Eq)]
pub struct StagedFile {
    pub source: String,
    pub sidecar: String,
}

/// The files bound for one table. Each source is held together with its
/// sidecar, so the two lists a batch hands out are aligned by construction.
#[derive(Debug, PartialEq, Eq)]
pub struct TableBatch {
    pub table_name: String,
    pub files: Vec<StagedFile>,
}

/// A `TableBatch` as plain sequences.
pub struct BatchModel {
    pub table: Seq<char>,
    pub files: Seq<FileModel>,
}

impl View for TableBatch {
    type V = BatchModel;

    open spec fn view(&self) -> BatchModel {
        BatchModel {
            table: self.table_name@,
            files: Seq::new(
                self.files@.len(),
                |i: int|
                    FileModel {
                        table: self.table_name@,
                        source: self.files@[i].source@,
                        sidecar: self.files@[i].sidecar@,
                    },
            ),
        }
    }
}

/// The files of `all` bound for `table`, in arrival order.
pub open spec fn files_of(all: Seq<FileModel>, table: Seq<char>) -> Seq<FileModel> {
    all.filter(|f: FileModel| f.table == table)
}

/// The distinct tables of `all`, each at the place of its first file.
pub open spec fn tables_of(all: Seq<FileModel>) -> Seq<Seq<char>>
    decreases all.len(),
{
    if all.len() == 0 {
        Seq::empty()
    } else {
        let earlier = tables_of(all.drop_last());
        if earlier.contains(all.last().table) {
            earlier
        } else {
            earlier.push(all.last().table)
        }
    }
}

/// The batches that `all` falls into: one per distinct table, holding every
/// file of that table.
pub open spec fn grouped(all: Seq<FileModel>) -> Seq<BatchModel> {
    Seq::new(
        tables_of(all).len(),
        |i: int| BatchModel { table: tables_of(all)[i], files: files_of(all, tables_of(all)[i]) },
    )
}

/// Position of the first batch for `table`, or `-1`.
pub open spec fn position(batches: Seq<BatchModel>, table: Seq<char>) -> int
    decreases batches.len(),
{
    if batches.len() == 0 {
        -1
    } else if batches.first().table == table {
        0
    } else {
        let later = position(batches.drop_first(), table);
        if later < 0 {
            -1
        } else {
            later + 1
        }
    }
}

/// `batches` after `file` joined the batch of its table, or opened a new
/// one at the end.
pub open spec fn with_file(batches: Seq<BatchModel>, file: FileModel) -> Seq<BatchModel> {
    let i = position(batches, file.table);
    if i >= 0 {
        batches.update(
            i,
            BatchModel { table: batches[i].table, files: batches[i].files.push(file) },
        )
    } else {
        batches.push(BatchModel { table: file.table, files: seq![file] })
    }
}

/// `position` finds the first batch of the table, and only reports `-1`
/// when there is none.
proof fn lemma_position(batches: Seq<BatchModel>, table: Seq<char>)
    ensures
        -1 <= position(batches, table) < batches.len(),
        position(batches, table) >= 0 ==> batches[position(batches, table)].table == table,
        forall|j: int|
            0 <= j < batches.len() && (j < position(batches, table) || position(batches, table) < 0)
                ==> batches[j].table != table,
    decreases batches.len(),
{
    if batches.len() > 0 && batches.first().table != table {
        let rest = batches.drop_first();
        lemma_position(rest, table);
        let p = position(batches, table);
        assert forall|j: int| 0 <= j < batches.len() && (j < p || p < 0) implies batches[j].table
            != table by {
            if j > 0 {
                assert(batches[j] == rest[j - 1]);
            }
        }
        if p >= 0 {
            assert(batches[p] == rest[p - 1]);
        }
    }
}

/// A position with the properties of `lemma_position` is `position`.
proof fn lemma_position_unique(batches: Seq<BatchModel>, table: Seq<char>, k: int)
    requires
        -1 <= k < batches.len(),
        k >= 0 ==> batches[k].table == table,
        forall|j: int| 0 <= j < batches.len() && (j < k || k < 0) ==> batches[j].table != table,
    ensures
        position(batches, table) == k,
    decreases batches.len(),
{
    if batches.len() > 0 && batches.first().table != table {
        let rest = batches.drop_first();
        assert(k != 0);
        if k > 0 {
            assert(rest[k - 1] == batches[k]);
        }
        assert forall|j: int| 0 <= j < rest.len() && (j < k - 1 || k < 0) implies rest[j].table
            != table by {
            assert(rest[j] == batches[j + 1]);
        }
        lemma_position_unique(rest, table, if k < 0 { -1 } else { k - 1 });
    } else if batches.len() > 0 {
        if k != 0 {
            assert(batches[0].table != table);
        }
    }
}

/// `tables_of` lists each table of `all` once, and nothing else.
proof fn lemma_tables_of(all: Seq<FileModel>)
    ensures
        tables_of(all).no_duplicates(),
        forall|t: Seq<char>| #[trigger]
            tables_of(all).contains(t) <==> exists|k: int|
                0 <= k < all.len() && (#[trigger] all[k]).table == t,
    decreases all.len(),
{
    if all.len() > 0 {
        let rest = all.drop_last();
        let earlier = tables_of(rest);
        let last = all.last().table;
        lemma_tables_of(rest);
        assert forall|t: Seq<char>| #[trigger]
            tables_of(all).contains(t) <==> exists|k: int|
                0 <= k < all.len() && (#[trigger] all[k]).table == t by {
            if tables_of(all).contains(t) {
                if earlier.contains(t) {
                    let k = choose|k: int| 0 <= k < rest.len() && (#[trigger] rest[k]).table == t;
                    assert(all[k].table == t);
                } else {
                    let i = choose|i: int| 0 <= i < tables_of(all).len() && tables_of(all)[i] == t;
                    if i < earlier.len() {
                        assert(earlier[i] == t);
                    }
                    assert(all[all.len() - 1].table == t);
                }
            }
            if exists|k: int| 0 <= k < all.len() && (#[trigger] all[k]).table == t {
                let k = choose|k: int| 0 <= k < all.len() && (#[trigger] all[k]).table == t;
                if k < rest.len() {
                    assert(rest[k].table == t);
                    assert(earlier.contains(t));
                    let i = earlier.index_of(t);
                    assert(tables_of(all)[i] == t);
                } else if !earlier.contains(last) {
                    assert(tables_of(all)[earlier.len() as int] == t);
                }
            }
        }
        if !earlier.contains(last) {
            assert forall|i: int, j: int|
                0 <= i < tables_of(all).len() && 0 <= j < tables_of(all).len() && i
                    != j implies tables_of(all)[i] != tables_of(all)[j] by {
                if i < earlier.len() && j < earlier.len() {
                    assert(earlier[i] != earlier[j]);
                } else if i < earlier.len() {
                    assert(earlier.contains(earlier[i]));
                } else if j < earlier.len() {
                    assert(earlier.contains(earlier[j]));
                }
            }
        }
    }
}

/// A file appended to `all` joins the files of its own table only.
proof fn lemma_files_of_push(all: Seq<FileModel>, file: FileModel, table: Seq<char>)
    ensures
        files_of(all.push(file), table) == if file.table == table {
            files_of(all, table).push(file)
        } else {
            files_of(all, table)
        },
{
    reveal(Seq::filter);
    assert(all.push(file).drop_last() == all);
}

/// Every file of a table's share is bound for that table, and the share is
/// empty exactly when no file of `all` is.
proof fn lemma_files_of(all: Seq<FileModel>, table: Seq<char>)
    ensures
        forall|m: int|
            0 <= m < files_of(all, table).len() ==> (#[trigger] files_of(all, table)[m]).table
                == table,
        files_of(all, table).len() == 0 <==> forall|k: int|
            0 <= k < all.len() ==> (#[trigger] all[k]).table != table,
    decreases all.len(),
{
    reveal(Seq::filter);
    if all.len() > 0 {
        let rest = all.drop_last();
        lemma_files_of(rest, table);
        if files_of(all, table).len() == 0 {
            assert forall|k: int| 0 <= k < all.len() implies (#[trigger] all[k]).table
                != table by {
                if k < rest.len() {
                    assert(rest[k].table != table);
                }
            }
        } else if all.last().table != table {
            let k = choose|k: int| 0 <= k < rest.len() && (#[trigger] rest[k]).table == table;
            assert(all[k].table == table);
        } else {
            assert(all[all.len() - 1].table == table);
        }
    }
}

/// Grouping one file at a time gives the grouping of the whole sequence.
pub proof fn lemma_grouped_push(all: Seq<FileModel>, file: FileModel)
    ensures
        grouped(all.push(file)) == with_file(grouped(all), file),
{
    let more = all.push(file);
    let tables = tables_of(all);
    assert(more.drop_last() == all);
    assert(more.last() == file);
    lemma_tables_of(all);
    lemma_position(grouped(all), file.table);
    let p = position(grouped(all), file.table);
    assert forall|j: int| 0 <= j < tables.len() implies files_of(more, tables[j]) == if tables[j]
        == file.table {
        files_of(all, tables[j]).push(file)
    } else {
        files_of(all, tables[j])
    } by {
        lemma_files_of_push(all, file, tables[j]);
    }
    if tables.contains(file.table) {
        let i = choose|i: int| 0 <= i < tables.len() && tables[i] == file.table;
        assert(grouped(all)[i].table == file.table);
        assert(p == i) by {
            if p < i {
                assert(tables[p] == tables[i]);
            }
        }
        assert(grouped(more) =~= with_file(grouped(all), file));
    } else {
        assert(p < 0) by {
            if p >= 0 {
                assert(tables[p] == file.table);
            }
        }
        lemma_files_of_push(all, file, file.table);
        lemma_files_of(all, file.table);
        assert(files_of(all, file.table) =~= Seq::<FileModel>::empty()) by {
            assert forall|k: int| 0 <= k < all.len() implies (#[trigger] all[k]).table
                != file.table by {
                if all[k].table == file.table {
                    assert(tables.contains(file.table));
                }
            }
        }
        assert(files_of(more, file.table) =~= seq![file]);
        assert(grouped(more) =~= with_file(grouped(all), file));
    }
}

/// The tables that occur in `all`.
pub open spec fn table_set(all: Seq<FileModel>) -> Set<Seq<char>> {
    all.map_values(|f: FileModel| f.table).to_set()
}

/// All files of `batches`, batch after batch.
pub open spec fn spread(batches: Seq<BatchModel>) -> Seq<FileModel>
    decreases batches.len(),
{
    if batches.len() == 0 {
        Seq::empty()
    } else {
        spread(batches.drop_last()) + batches.last().files
    }
}

proof fn lemma_spread_with_file(batches: Seq<BatchModel>, file: FileModel)
    ensures
        spread(with_file(batches, file)).to_multiset() == spread(batches).to_multiset().insert(
            file,
        ),
{
    lemma_position(batches, file.table);
    let i = position(batches, file.table);
    if i >= 0 {
        let grown = BatchModel { table: batches[i].table, files: batches[i].files.push(file) };
        lemma_spread_grow(batches, i, grown, file);
    } else {
        let opened = BatchModel { table: file.table, files: seq![file] };
        assert(batches.push(opened).drop_last() == batches);
        assert(spread(batches.push(opened)) =~= spread(batches).push(file));
        to_multiset_build(spread(batches), file);
    }
}

proof fn lemma_spread_grow(batches: Seq<BatchModel>, i: int, grown: BatchModel, file: FileModel)
    requires
        0 <= i < batches.len(),
        grown.files == batches[i].files.push(file),
    ensures
        spread(batches.update(i, grown)).to_multiset() == spread(batches).to_multiset().insert(
            file,
        ),
    decreases batches.len(),
{
    let after = batches.update(i, grown);
    let rest = batches.drop_last();
    if i == batches.len() - 1 {
        assert(after.drop_last() == rest);
        assert(spread(after) =~= spread(batches).push(file));
        to_multiset_build(spread(batches), file);
    } else {
        assert(after.drop_last() == rest.update(i, grown));
        assert(rest[i] == batches[i]);
        lemma_spread_grow(rest, i, grown, file);
        lemma_multiset_commutative(spread(rest.update(i, grown)), batches.last().files);
        lemma_multiset_commutative(spread(rest), batches.last().files);
        assert(spread(after).to_multiset() =~= spread(batches).to_multiset().insert(file));
    }
}

/// Grouping is a partition of the accepted files by table: there are as
/// many batches as distinct tables, no two batches share a table, every
/// batch holds exactly the files bound for its table and at least one, every
/// file's table has a batch, and taken together the batches hold each
/// accepted file as often as it was accepted.
pub proof fn lemma_grouping_partitions(all: Seq<FileModel>)
    ensures
        grouped(all).len() == table_set(all).len(),
        forall|i: int, j: int|
            0 <= i < j < grouped(all).len() ==> (#[trigger] grouped(all)[i]).table != (
            #[trigger] grouped(all)[j]).table,
        forall|i: int|
            0 <= i < grouped(all).len() ==> {
                &&& (#[trigger] grouped(all)[i]).files == files_of(all, grouped(all)[i].table)
                &&& grouped(all)[i].files.len() > 0
            },
        forall|k: int|
            0 <= k < all.len() ==> position(grouped(all), (#[trigger] all[k]).table) >= 0,
        spread(grouped(all)).to_multiset() == all.to_multiset(),
    decreases all.len(),
{
    let tables = tables_of(all);
    lemma_tables_of(all);
    assert(tables.to_set() =~= table_set(all)) by {
        let names = all.map_values(|f: FileModel| f.table);
        assert forall|t: Seq<char>| tables.to_set().contains(t) <==> names.to_set().contains(
            t,
        ) by {
            if tables.contains(t) {
                let k = choose|k: int| 0 <= k < all.len() && (#[trigger] all[k]).table == t;
                assert(names[k] == t);
            }
            if names.contains(t) {
                let k = choose|k: int| 0 <= k < names.len() && names[k] == t;
                assert(all[k].table == t);
            }
        }
    }
    tables.unique_seq_to_set();
    assert forall|i: int| 0 <= i < grouped(all).len() implies (#[trigger] grouped(
        all,
    )[i]).files.len() > 0 by {
        lemma_files_of(all, tables[i]);
        assert(tables.contains(tables[i]));
    }
    assert forall|k: int| 0 <= k < all.len() implies position(
        grouped(all),
        (#[trigger] all[k]).table,
    ) >= 0 by {
        lemma_position(grouped(all), all[k].table);
        assert(tables.contains(all[k].table));
        let i = choose|i: int| 0 <= i < tables.len() && tables[i] == all[k].table;
        assert(grouped(all)[i].table == all[k].table);
    }
    if all.len() == 0 {
        assert(spread(grouped(all)) =~= all);
    } else {
        let rest = all.drop_last();
        assert(rest.push(all.last()) == all);
        lemma_grouping_partitions(rest);
        lemma_grouped_push(rest, all.last());
        lemma_spread_with_file(grouped(rest), all.last());
        to_multiset_build(rest, all.last());
    }
}

/// The batches of one dispatch cycle, in the order in which their tables
/// first appeared.
pub struct TableBatches {
    batches: Vec<TableBatch>,
}

impl View for TableBatches {
    type V = Seq<BatchModel>;

    closed spec fn view(&self) -> Seq<BatchModel> {
        self.batches@.map_values(|b: TableBatch| b@)
    }
}

impl TableBatches {
    /// No batches.
    pub fn new() -> (r: TableBatches)
        ensures
            r@ == Seq::<BatchModel>::empty(),
    {
        let r = TableBatches { batches: Vec::new() };
        assert(r@ =~= Seq::<BatchModel>::empty());
        r
    }

    /// Number of batches, which is the number of transfers to issue.
    pub fn len(&self) -> (n: usize)
        ensures
            n == self@.len(),
    {
        self.batches.len()
    }

    /// The `i`-th batch, if there are that many.
    pub fn get(&self, i: usize) -> (r: Option<&TableBatch>)
        ensures
            r is Some == (i < self@.len()),
            r matches Some(batch) ==> batch@ == self@[i as int],
    {
        if i < self.batches.len() {
            Some(&self.batches[i])
        } else {
            None
        }
    }

    /// Puts `file` into the batch of its table, opening one if it is the
    /// first file of that table.
    pub fn add(&mut self, file: ClassifiedFile)
        ensures
            final(self)@ == with_file(old(self)@, file@),
    {
        let n: usize = self.batches.len();
        let mut i: usize = 0;
        while i < n && !(self.batches[i].table_name == file.table_name)
            invariant
                i <= n == self.batches@.len(),
                forall|j: int| 0 <= j < i ==> self@[j].table != file@.table,
            decreases n - i,
        {
            i = i + 1;
        }
        proof {
            lemma_position_unique(self@, file@.table, if i < n { i as int } else { -1 });
        }
        let ghost before = self@;
        let staged = StagedFile { source: file.renamed_src_path, sidecar: file.metadata_path };
        if i < n {
            self.batches[i].files.push(staged);
            assert(self@ =~= with_file(before, file@)) by {
                assert(self@[i as int].files =~= before[i as int].files.push(file@));
            }
        } else {
            let mut files: Vec<StagedFile> = Vec::new();
            files.push(staged);
            let batch = TableBatch { table_name: file.table_name, files };
            assert(batch@.files =~= seq![file@]);
            self.batches.push(batch);
            assert(self@ =~= with_file(before, file@));
        }
    }
}

/// Groups `files` by destination table.
pub fn group(files: Vec<ClassifiedFile>) -> (r: TableBatches)
    ensures
        r@ == grouped(models(files@)),
{
    let mut batches = TableBatches::new();
    let ghost all = models(files@);
    assert(grouped(Seq::<FileModel>::empty()) =~= Seq::<BatchModel>::empty());
    for file in it: files
        invariant
            all == models(it.seq()),
            batches@ == grouped(all.take(it.index() as int)),
    {
        proof {
            let k = it.index() as int;
            assert(all.take(k + 1) == all.take(k).push(file@));
            lemma_grouped_push(all.take(k), file@);
        }
        batches.add(file);
    }
    assert(all.take(all.len() as int) == all);
    batches
}

/// The source paths of `files`, in order.
pub open spec fn source_paths(files: Seq<FileModel>) -> Seq<Seq<char>> {
    files.map_values(|f: FileModel| f.source)
}

/// The sidecar paths of `files`, aligned with `source_paths`; an empty path
/// stands for a sidecar that was not written.
pub open spec fn sidecar_paths(files: Seq<FileModel>) -> Seq<Seq<char>> {
    files.map_values(|f: FileModel| f.sidecar)
}

impl TableBatch {
    /// The renamed source paths of this batch.
    pub fn sources(&self) -> (r: Vec<String>)
        ensures
            texts(r@) == source_paths(self@.files),
            r@.len() == self@.files.len(),
    {
        let mut out: Vec<String> = Vec::new();
        let n: usize = self.files.len();
        let mut i: usize = 0;
        while i < n
            invariant
                i <= n == self.files@.len(),
                texts(out@) == source_paths(self@.files).take(i as int),
            decreases n - i,
        {
            proof {
                lemma_texts_push(out@, self.files@[i as int].source);
            }
            out.push(self.files[i].source.clone());
            i = i + 1;
            assert(texts(out@) =~= source_paths(self@.files).take(i as int));
        }
        assert(source_paths(self@.files).take(n as int) == source_paths(self@.files));
        assert(texts(out@).len() == out@.len());
        out
    }

    /// The sidecar paths of this batch, aligned with `sources`: the path at
    /// each index describes the source at the same index, and is empty where
    /// no sidecar was written.
    pub fn sidecars(&self) -> (r: Vec<String>)
        ensures
            texts(r@) == sidecar_paths(self@.files),
            r@.len() == self@.files.len(),
    {
        let mut out: Vec<String> = Vec::new();
        let n: usize = self.files.len();
        let mut i: usize = 0;
        while i < n
            invariant
                i <= n == self.files@.len(),
                texts(out@) == sidecar_paths(self@.files).take(i as int),
            decreases n - i,
        {
            proof {
                lemma_texts_push(out@, self.files@[i as int].sidecar);
            }
            out.push(self.files[i].sidecar.clone());
            i = i + 1;
            assert(texts(out@) =~= sidecar_paths(self@.files).take(i as int));
        }
        assert(sidecar_paths(self@.files).take(n as int) == sidecar_paths(self@.files));
        assert(texts(out@).len() == out@.len());
        out
    }
}

} // verus!

//! Raw file-system notices and the change events retained from them.

use crate::metadata::{sidecar_of, SIDECAR_SUFFIX};
use crate::paths::{
    base_name, extension, has_extension, is_csv, is_csv_path, join, last_index_of,
    lemma_last_index_of, lemma_last_index_of_concat, lemma_last_index_of_unique,
};
use crate::status::LOG_FILE_NAME;
use vstd::prelude::*;

verus! {

/// What kind of object a creation notice is about.
#[derive(Debug, Clone, Copy, PartialEq, Eq, Structural)]
pub enum CreateKind {
    Any,
    File,
    Folder,
    Other,
}

/// What a modification notice says was modified.
#[derive(Debug, Clone, Copy, PartialEq, Eq, Structural)]
pub enum ModifyKind {
    Any,
    /// The content of a file.
    Data,
    /// Attributes such as times, permissions or ownership.
    Metadata,
    /// The name: a rename or a move.
    Name,
    Other,
}

/// The kind of a raw notice, as the notification facility reports it.
#[derive(Debug, Clone, Copy, PartialEq, Eq, Structural)]
pub enum NoticeKind {
    Any,
    Access,
    Create(CreateKind),
    Modify(ModifyKind),
    Remove,
    Other,
}

/// A raw notice: its kind and the paths it concerns, the affected one first.
#[derive(Debug, PartialEq, Eq)]
pub struct Notice {
    pub kind: NoticeKind,
    pub paths: Vec<String>,
}

/// The kind of a retained change.
#[derive(Debug, Clone, Copy, PartialEq, Eq, Structural)]
pub enum ChangeKind {
    Created,
    Modified,
}

/// A change to a CSV file that the intake acts on.
#[derive(Debug, PartialEq, Eq)]
pub struct ChangeEvent {
    pub path: String,
    pub kind: ChangeKind,
}

/// The change a notice of kind `kind` stands for: the creation of a file or
/// the modification of a file's data. Every other kind, renames and
/// attribute changes among them, stands for none.
pub open spec fn recognized(kind: NoticeKind) -> Option<ChangeKind> {
    match kind {
        NoticeKind::Create(CreateKind::File) => Some(ChangeKind::Created),
        NoticeKind::Modify(ModifyKind::Data) => Some(ChangeKind::Modified),
        _ => None,
    }
}

/// Whether `notice` is retained: it is of a recognized kind and its first
/// path names a CSV file.
pub open spec fn retained(notice: Notice) -> bool {
    &&& recognized(notice.kind) is Some
    &&& notice.paths@.len() > 0
    &&& is_csv_path(notice.paths@[0]@)
}

/// The change a notice of kind `kind` stands for, if any.
pub fn recognize(kind: NoticeKind) -> (r: Option<ChangeKind>)
    ensures
        r == recognized(kind),
{
    match kind {
        NoticeKind::Create(CreateKind::File) => Some(ChangeKind::Created),
        NoticeKind::Modify(ModifyKind::Data) => Some(ChangeKind::Modified),
        _ => None,
    }
}

/// Turns a raw notice into the change event it stands for, or drops it.
pub fn retain(notice: &Notice) -> (r: Option<ChangeEvent>)
    ensures
        r is Some <==> retained(*notice),
        r matches Some(event) ==> {
            &&& event.path@ == notice.paths@[0]@
            &&& Some(event.kind) == recognized(notice.kind)
            &&& is_csv_path(event.path@)
        },
{
    match recognize(notice.kind) {
        Some(kind) => {
            if notice.paths.len() > 0 && is_csv(notice.paths[0].as_str()) {
                Some(ChangeEvent { path: notice.paths[0].clone(), kind })
            } else {
                None
            }
        },
        None => None,
    }
}

/// A sidecar is never taken for a CSV file.
pub proof fn lemma_sidecar_is_not_csv(path: Seq<char>)
    ensures
        !is_csv_path(sidecar_of(path)),
{
    let suffix = SIDECAR_SUFFIX@;
    reveal_strlit(".metadata");
    assert(suffix == ".metadata"@);
    lemma_last_index_of_unique(suffix, '/', -1);
    lemma_last_index_of_unique(suffix, '.', 0);
    lemma_last_index_of(path, '/');
    lemma_last_index_of_concat(path, suffix, '/');
    let k = last_index_of(path, '/');
    let name = path.skip(k + 1);
    assert(base_name(sidecar_of(path)) =~= name + suffix);
    lemma_last_index_of_concat(name, suffix, '.');
    if has_extension(name + suffix) {
        assert(extension(name + suffix) =~= suffix.skip(1));
        assert(extension(name + suffix).len() == 8);
    }
}

/// An upload log is never taken for a CSV file.
pub proof fn lemma_log_is_not_csv(directory: Seq<char>)
    ensures
        !is_csv_path(join(directory, LOG_FILE_NAME@)),
{
    let name = LOG_FILE_NAME@;
    reveal_strlit("upload.log");
    assert(name == "upload.log"@);
    lemma_last_index_of_unique(name, '/', -1);
    lemma_last_index_of_unique(name, '.', 6);
    let before = if directory.len() == 0 || directory.last() == '/' {
        directory
    } else {
        directory + seq!['/']
    };
    assert(join(directory, name) =~= before + name);
    lemma_last_index_of_concat(before, name, '/');
    if before.len() > 0 {
        assert(before.last() == '/');
    }
    assert(last_index_of(before, '/') == before.len() - 1);
    assert(base_name(before + name) =~= name);
    assert(extension(name) =~= seq!['l', 'o', 'g']);
    assert(extension(name)[0] == 'l');
}

/// What the intake does to the watched directory does not come back to
/// it: a rename is not a recognized change, and neither the sidecars nor
/// the upload log are CSV files. A file that was handed on is taken up
/// again only when a new creation or data change is reported for it.
pub proof fn lemma_own_traces_are_dropped(notice: Notice)
    requires
        notice.kind == NoticeKind::Modify(ModifyKind::Name) || (notice.paths@.len() > 0 && ((
        exists|path: Seq<char>| notice.paths@[0]@ == sidecar_of(path)) || (exists|
            directory: Seq<char>,
        |
            notice.paths@[0]@ == join(directory, LOG_FILE_NAME@)))),
    ensures
        !retained(notice),
{
    if notice.kind != NoticeKind::Modify(ModifyKind::Name) {
        if exists|path: Seq<char>| notice.paths@[0]@ == sidecar_of(path) {
            let path = choose|path: Seq<char>| notice.paths@[0]@ == sidecar_of(path);
            lemma_sidecar_is_not_csv(path);
        } else {
            let directory = choose|directory: Seq<char>|
                notice.paths@[0]@ == join(directory, LOG_FILE_NAME@);
            lemma_log_is_not_csv(directory);
        }
    }
}

} // verus!

//! The header registry: which header signature belongs to which table, as
//! read from the template files.

use crate::paths::{base_name, file_name, file_stem, stem};
use crate::text::{
    first_line, leading_line, lemma_texts_push, slice, strip_commas, strip_one_comma, texts, trim,
    trimmed, without_trailing_commas,
};
use vstd::prelude::*;

verus! {

/// What the stem of a template's file name ends with.
pub const TEMPLATE_SUFFIX: &'static str = "_template";

/// The table a template file stands for: the stem of its file name without
/// the suffix `_template`. There is none when the stem does not end in that
/// suffix or consists of nothing else.
pub open spec fn table_of(path: Seq<char>) -> Option<Seq<char>> {
    let name = stem(base_name(path));
    let cut = name.len() - TEMPLATE_SUFFIX@.len();
    if cut > 0 && name.skip(cut) == TEMPLATE_SUFFIX@ {
        Some(name.take(cut))
    } else {
        None
    }
}

/// The header signature a template's content stands for: its first line
/// that is not blank, trimmed, without trailing commas.
pub open spec fn signature_of(content: Seq<char>) -> Seq<char> {
    strip_commas(trim(first_line(trim(content))))
}

/// The table a template file stands for, if its name yields one.
pub fn table_name(path: &str) -> (r: Option<String>)
    ensures
        r is Some == table_of(path@) is Some,
        r matches Some(t) ==> Some(t@) == table_of(path@),
{
    let base = file_name(path);
    let name = file_stem(base.as_str());
    let n: usize = name.as_str().unicode_len();
    let k: usize = TEMPLATE_SUFFIX.unicode_len();
    if n > k {
        let tail = slice(name.as_str(), n - k, n);
        let suffix = TEMPLATE_SUFFIX.to_owned();
        if tail == suffix {
            Some(slice(name.as_str(), 0, n - k))
        } else {
            None
        }
    } else {
        None
    }
}

/// The header signature that `content` stands for.
pub fn signature(content: &str) -> (r: String)
    ensures
        r@ == signature_of(content@),
{
    let body = trimmed(content);
    let line = leading_line(body.as_str());
    let line = trimmed(line.as_str());
    without_trailing_commas(line.as_str())
}

/// A header signature with the table it identifies.
pub struct Entry {
    pub signature: String,
    pub table: String,
}

/// The mapping that a list of entries stands for; where a signature occurs
/// more than once, the last entry counts.
pub open spec fn mapping(entries: Seq<Entry>) -> Map<Seq<char>, Seq<char>>
    decreases entries.len(),
{
    if entries.len() == 0 {
        Map::empty()
    } else {
        mapping(entries.drop_last()).insert(entries.last().signature@, entries.last().table@)
    }
}

/// What `mapping` holds for `key` is decided by the last entry with that
/// signature.
proof fn lemma_mapping(entries: Seq<Entry>, key: Seq<char>, from: int)
    requires
        0 <= from <= entries.len(),
        forall|j: int| from <= j < entries.len() ==> (#[trigger] entries[j]).signature@ != key,
    ensures
        from == 0 ==> !mapping(entries).contains_key(key),
        from > 0 && entries[from - 1].signature@ == key ==> mapping(entries).contains_key(key)
            && mapping(entries)[key] == entries[from - 1].table@,
    decreases entries.len(),
{
    if entries.len() > 0 {
        if from < entries.len() {
            let rest = entries.drop_last();
            assert(entries[entries.len() - 1].signature@ != key);
            assert forall|j: int| from <= j < rest.len() implies (#[trigger] rest[j]).signature@
                != key by {
                assert(rest[j] == entries[j]);
            }
            lemma_mapping(rest, key, from);
            if from > 0 {
                assert(rest[from - 1] == entries[from - 1]);
            }
        }
    }
    if from == 0 {
        lemma_mapping_absent(entries, key);
    }
}

proof fn lemma_mapping_absent(entries: Seq<Entry>, key: Seq<char>)
    requires
        forall|j: int| 0 <= j < entries.len() ==> (#[trigger] entries[j]).signature@ != key,
    ensures
        !mapping(entries).contains_key(key),
    decreases entries.len(),
{
    if entries.len() > 0 {
        let rest = entries.drop_last();
        assert forall|j: int| 0 <= j < rest.len() implies (#[trigger] rest[j]).signature@
            != key by {
            assert(rest[j] == entries[j]);
        }
        lemma_mapping_absent(rest, key);
        assert(entries[entries.len() - 1].signature@ != key);
    }
}

/// The known header signatures and the table each one identifies.
pub struct HeaderRegistry {
    entries: Vec<Entry>,
}

impl View for HeaderRegistry {
    type V = Map<Seq<char>, Seq<char>>;

    closed spec fn view(&self) -> Map<Seq<char>, Seq<char>> {
        mapping(self.entries@)
    }
}

impl HeaderRegistry {
    /// A registry that knows no signature.
    pub fn new() -> (r: HeaderRegistry)
        ensures
            r@ == Map::<Seq<char>, Seq<char>>::empty(),
    {
        HeaderRegistry { entries: Vec::new() }
    }

    /// Registers `table` under `signature`, replacing what was registered
    /// under it before.
    pub fn insert(&mut self, signature: String, table: String)
        ensures
            final(self)@ == old(self)@.insert(signature@, table@),
    {
        let ghost before = self.entries@;
        self.entries.push(Entry { signature, table });
        assert(self.entries@.drop_last() == before);
    }

    /// The table registered under `signature`, if any.
    pub fn lookup(&self, signature: &str) -> (r: Option<String>)
        ensures
            r is Some == self@.contains_key(signature@),
            r matches Some(t) ==> t@ == self@[signature@],
    {
        let key = signature.to_owned();
        let mut i: usize = self.entries.len();
        while i > 0 && !(self.entries[i - 1].signature == key)
            invariant
                i <= self.entries@.len(),
                key@ == signature@,
                forall|j: int|
                    i <= j < self.entries@.len() ==> (#[trigger] self.entries@[j]).signature@
                        != signature@,
            decreases i,
        {
            i = i - 1;
        }
        proof {
            lemma_mapping(self.entries@, signature@, i as int);
        }
        if i > 0 {
            Some(self.entries[i - 1].table.clone())
        } else {
            None
        }
    }
}

/// A template file as found in the template directory: its path or file
/// name, and its content if it could be read.
#[derive(Debug, PartialEq, Eq)]
pub struct TemplateFile {
    pub name: String,
    pub content: Option<String>,
}

/// Why the registry could not be loaded.
#[derive(Debug, PartialEq, Eq)]
pub enum ConfigError {
    /// The template directory could not be listed.
    DirectoryUnreadable,
    /// The named template file could not be read.
    TemplateUnreadable(String),
}

/// A loaded registry, and the files that were passed over because their
/// names yield no table.
pub struct Loaded {
    pub registry: HeaderRegistry,
    pub skipped: Vec<String>,
}

/// Position of the first template among `files` that yields a table but
/// could not be read, or the number of files when there is none.
pub open spec fn first_unreadable(files: Seq<TemplateFile>) -> int
    decreases files.len(),
{
    if files.len() == 0 {
        0
    } else if table_of(files.first().name@) is Some && files.first().content is None {
        0
    } else {
        1 + first_unreadable(files.drop_first())
    }
}

/// The mapping that the templates `files` stand for, later files winning
/// over earlier ones with the same signature.
pub open spec fn loaded_mapping(files: Seq<TemplateFile>) -> Map<Seq<char>, Seq<char>>
    decreases files.len(),
{
    if files.len() == 0 {
        Map::empty()
    } else {
        let earlier = loaded_mapping(files.drop_last());
        let last = files.last();
        match (table_of(last.name@), last.content) {
            (Some(table), Some(content)) => earlier.insert(signature_of(content@), table),
            _ => earlier,
        }
    }
}

/// The names among `files` that yield no table, in order.
pub open spec fn skipped_names(files: Seq<TemplateFile>) -> Seq<Seq<char>>
    decreases files.len(),
{
    if files.len() == 0 {
        Seq::empty()
    } else if table_of(files.last().name@) is None {
        skipped_names(files.drop_last()).push(files.last().name@)
    } else {
        skipped_names(files.drop_last())
    }
}

/// What is left after the trailing commas were stripped ends in none.
proof fn lemma_strip_commas_ends(s: Seq<char>)
    ensures
        strip_one_comma(strip_commas(s)) == strip_commas(s),
    decreases s.len(),
{
    if s.len() > 0 && s.last() == ',' {
        lemma_strip_commas_ends(s.drop_last());
    }
}

/// No signature of a loaded registry ends in a comma.
pub proof fn lemma_loaded_keys(files: Seq<TemplateFile>, key: Seq<char>)
    requires
        loaded_mapping(files).contains_key(key),
    ensures
        strip_one_comma(key) == key,
    decreases files.len(),
{
    if files.len() > 0 {
        let last = files.last();
        match (table_of(last.name@), last.content) {
            (Some(_), Some(content)) => {
                if key == signature_of(content@) {
                    lemma_strip_commas_ends(trim(first_line(trim(content@))));
                } else {
                    lemma_loaded_keys(files.drop_last(), key);
                }
            },
            _ => {
                lemma_loaded_keys(files.drop_last(), key);
            },
        }
    }
}

proof fn lemma_first_unreadable(files: Seq<TemplateFile>, k: int)
    requires
        0 <= k <= files.len(),
        forall|j: int|
            0 <= j < k ==> !(table_of((#[trigger] files[j]).name@) is Some && files[j].content
                is None),
        k < files.len() ==> table_of(files[k].name@) is Some && files[k].content is None,
    ensures
        first_unreadable(files) == k,
    decreases files.len(),
{
    if files.len() > 0 {
        if table_of(files.first().name@) is Some && files.first().content is None {
            if k > 0 {
                assert(!(table_of(files[0].name@) is Some && files[0].content is None));
            }
        } else {
            let rest = files.drop_first();
            assert(k > 0);
            assert forall|j: int| 0 <= j < k - 1 implies !(table_of((#[trigger] rest[j]).name@)
                is Some && rest[j].content is None) by {
                assert(rest[j] == files[j + 1]);
            }
            if k < files.len() {
                assert(rest[k - 1] == files[k]);
            }
            lemma_first_unreadable(rest, k - 1);
        }
    }
}

/// Builds the registry from the listing of the template directory.
///
/// `listing` is `None` when the directory could not be listed. A file whose
/// name yields no table is passed over and reported in `skipped`. The load
/// fails with the name of the first file that yields a table but could not
/// be read.
pub fn load(listing: Option<&Vec<TemplateFile>>) -> (r: Result<Loaded, ConfigError>)
    ensures
        match listing {
            None => r == Err::<Loaded, ConfigError>(ConfigError::DirectoryUnreadable),
            Some(files) => {
                let k = first_unreadable(files@);
                if k < files@.len() {
                    r matches Err(ConfigError::TemplateUnreadable(name)) && name@
                        == files@[k].name@
                } else {
                    r matches Ok(loaded) && loaded.registry@ == loaded_mapping(files@) && texts(
                        loaded.skipped@,
                    ) == skipped_names(files@)
                }
            },
        },
{
    match listing {
        None => Err(ConfigError::DirectoryUnreadable),
        Some(files) => {
            let mut registry = HeaderRegistry::new();
            let mut skipped: Vec<String> = Vec::new();
            let n: usize = files.len();
            let mut i: usize = 0;
            assert(files@.take(0) =~= Seq::<TemplateFile>::empty());
            assert(texts(skipped@) =~= Seq::<Seq<char>>::empty());
            while i < n
                invariant
                    listing == Some(files),
                    i <= n == files@.len(),
                    forall|j: int|
                        0 <= j < i ==> !(table_of((#[trigger] files@[j]).name@) is Some
                            && files@[j].content is None),
                    registry@ == loaded_mapping(files@.take(i as int)),
                    texts(skipped@) == skipped_names(files@.take(i as int)),
                decreases n - i,
            {
                let file = &files[i];
                proof {
                    let now = files@.take(i + 1);
                    assert(now.drop_last() == files@.take(i as int));
                    assert(now.last() == files@[i as int]);
                }
                match table_name(file.name.as_str()) {
                    Some(table) => match &file.content {
                        Some(content) => {
                            registry.insert(signature(content.as_str()), table);
                        },
                        None => {
                            proof {
                                lemma_first_unreadable(files@, i as int);
                            }
                            return Err(ConfigError::TemplateUnreadable(file.name.clone()));
                        },
                    },
                    None => {
                        proof {
                            lemma_texts_push(skipped@, file.name);
                        }
                        skipped.push(file.name.clone());
                    },
                }
                i = i + 1;
            }
            proof {
                lemma_first_unreadable(files@, n as int);
                assert(files@.take(n as int) == files@);
            }
            Ok(Loaded { registry, skipped })
        },
    }
}

} // verus!

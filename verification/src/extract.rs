//! Planning the extraction of an archive: where each entry goes, which
//! entries are directories, which are top-level, and which names are
//! refused because they would leave the destination directory.
//!
//! The plan is made for the whole archive before anything is written, so
//! one unsafe name refuses the archive as a whole. Names are judged as the
//! host that will write them reads paths.

use vstd::prelude::*;
use vstd::string::*;
use crate::paths::{
    base_walk, components, depth, directory_of, directory_part, is_directory_name, is_enclosed,
    is_plain_name, is_top_level, join_path, joined, lemma_enclosed_stays_below,
    lemma_top_level_is_plain, names_directory, placement, top_level_component, PathStyle,
    Placement,
};
use crate::text::{text_of, texts};

verus! {

/// One entry of an archive, as its directory lists it.
#[derive(Debug, Clone, PartialEq, Eq)]
pub struct ArchiveEntry {
    /// The relative path that the archive declares.
    pub name: String,
    /// The size of the content in bytes, uncompressed.
    pub size: u64,
    /// The UNIX permission bits, where the archive records them.
    pub unix_mode: Option<u32>,
}

/// What an entry becomes on disk.
#[derive(Debug, Clone, Copy, PartialEq, Eq)]
pub enum EntryKind {
    Directory,
    File,
}

/// One step of an extraction: the entry at `index` of the archive goes to
/// `destination`.
#[derive(Debug, Clone, PartialEq, Eq)]
pub struct ExtractedEntry {
    /// The position of the entry in the archive.
    pub index: usize,
    /// The relative path that the archive declares.
    pub relative_path: String,
    /// The path to create: the relative path below the destination.
    pub destination: String,
    /// Whether to create a directory or to write a file.
    pub kind: EntryKind,
    /// For a file, the directory to create first where it is missing.
    pub parent: Option<String>,
    /// For a top-level entry, its single name.
    pub top_level: Option<String>,
    /// The size of the content in bytes.
    pub size: u64,
    /// The permission bits to restore, where the platform has them.
    pub unix_mode: Option<u32>,
}

/// The outcome of planning an extraction: the steps in archive order, and
/// the top-level names, which are what is later moved into the installation.
#[derive(Debug, Clone, PartialEq, Eq)]
pub struct ExtractedFileSet {
    pub entries: Vec<ExtractedEntry>,
    pub top_level: Vec<String>,
}

/// Why an archive is not extracted.
#[derive(Debug, Clone, PartialEq, Eq)]
pub enum ExtractError {
    /// The entry at `index` declares a path that leaves the destination.
    UnsafePath { index: usize, name: String },
    /// The directory of the archive could not be read; `cause` says why.
    CorruptArchive { cause: String },
}

impl ExtractError {
    /// The text of the message for this error.
    pub open spec fn message_text(self) -> Seq<char> {
        match self {
            ExtractError::UnsafePath { index, name } => "Refused to extract '"@ + name@
                + "': the path leaves the destination directory"@,
            ExtractError::CorruptArchive { cause } => "Failed to read the archive: "@ + cause@,
        }
    }

    /// A message for the user.
    pub fn message(&self) -> (r: String)
        ensures
            r@ == self.message_text(),
    {
        match self {
            ExtractError::UnsafePath { index, name } => {
                "Refused to extract '".to_owned().concat(name.as_str()).concat(
                    "': the path leaves the destination directory",
                )
            },
            ExtractError::CorruptArchive { cause } => {
                "Failed to read the archive: ".to_owned().concat(cause.as_str())
            },
        }
    }
}

/// The kind that a declared name gives an entry: a directory exactly where
/// the name ends in `/`.
pub open spec fn kind_of(name: Seq<char>) -> EntryKind {
    if names_directory(name) {
        EntryKind::Directory
    } else {
        EntryKind::File
    }
}

/// `step` is the step for `entry`, the entry at `index`, below `dest`.
pub open spec fn is_step_for(
    step: ExtractedEntry,
    entry: ArchiveEntry,
    index: int,
    dest: Seq<char>,
    style: PathStyle,
) -> bool {
    &&& step.index == index
    &&& step.relative_path@ == entry.name@
    &&& step.destination@ == joined(dest, entry.name@, style)
    &&& step.kind == kind_of(entry.name@)
    &&& text_of(step.parent) == if names_directory(entry.name@) {
        None
    } else {
        directory_part(joined(dest, entry.name@, style), style)
    }
    &&& text_of(step.top_level) == if is_top_level(entry.name@, style) {
        Some(top_level_component(entry.name@, style))
    } else {
        None
    }
    &&& step.size == entry.size
    &&& step.unix_mode == entry.unix_mode
}

/// The top-level names among `entries`, in archive order, each as its
/// single component.
pub open spec fn top_level_names(entries: Seq<ArchiveEntry>, style: PathStyle) -> Seq<Seq<char>>
    decreases entries.len(),
{
    if entries.len() == 0 {
        Seq::<Seq<char>>::empty()
    } else if is_top_level(entries.last().name@, style) {
        top_level_names(entries.drop_last(), style).push(
            top_level_component(entries.last().name@, style),
        )
    } else {
        top_level_names(entries.drop_last(), style)
    }
}

/// Every name among `entries` is enclosed.
pub open spec fn all_enclosed(entries: Seq<ArchiveEntry>, style: PathStyle) -> bool {
    forall|i: int| 0 <= i < entries.len() ==> is_enclosed(#[trigger] entries[i].name@, style)
}

/// Plans the step for one entry: refused where its declared name is not
/// enclosed, and otherwise the step that places it below `destination`.
pub fn plan_entry(entry: &ArchiveEntry, index: usize, destination: &str, style: PathStyle) -> (r:
    Result<ExtractedEntry, ExtractError>)
    ensures
        r is Ok <==> is_enclosed(entry.name@, style),
        r matches Ok(step) ==> is_step_for(step, *entry, index as int, destination@, style),
        r matches Err(e) ==> e matches ExtractError::UnsafePath { index: at, name } && at == index
            && name@ == entry.name@,
{
    let top_level = match placement(entry.name.as_str(), style) {
        Placement::Escapes => {
            return Err(ExtractError::UnsafePath { index, name: entry.name.clone() });
        },
        Placement::TopLevel(component) => Some(component),
        Placement::Nested => None,
    };
    let path = join_path(destination, entry.name.as_str(), style);
    let directory = is_directory_name(entry.name.as_str());
    let parent = if directory {
        None
    } else {
        directory_of(path.as_str(), style)
    };
    Ok(
        ExtractedEntry {
            index,
            relative_path: entry.name.clone(),
            destination: path,
            kind: if directory {
                EntryKind::Directory
            } else {
                EntryKind::File
            },
            parent,
            top_level,
            size: entry.size,
            unix_mode: entry.unix_mode,
        },
    )
}

/// Plans the extraction of `entries` into `destination`, on a host of the
/// given style.
///
/// The plan is refused as soon as one declared name is not enclosed; the
/// error names the first such entry. Otherwise there is one step for each
/// entry, in archive order, and the top-level names are listed.
pub fn plan_extraction(entries: &Vec<ArchiveEntry>, destination: &str, style: PathStyle) -> (r:
    Result<ExtractedFileSet, ExtractError>)
    ensures
        r is Ok <==> all_enclosed(entries@, style),
        r matches Ok(set) ==> {
            &&& set.entries@.len() == entries@.len()
            &&& forall|i: int|
                0 <= i < entries@.len() ==> is_step_for(
                    #[trigger] set.entries@[i],
                    entries@[i],
                    i,
                    destination@,
                    style,
                )
            &&& texts(set.top_level@) == top_level_names(entries@, style)
        },
        r matches Err(e) ==> {
            &&& e matches ExtractError::UnsafePath { index, name }
            &&& index < entries@.len()
            &&& !is_enclosed(entries@[index as int].name@, style)
            &&& name@ == entries@[index as int].name@
            &&& all_enclosed(entries@.take(index as int), style)
        },
{
    let n: usize = entries.len();
    let mut steps: Vec<ExtractedEntry> = Vec::new();
    let mut top: Vec<String> = Vec::new();
    let mut i: usize = 0;
    proof {
        assert(entries@.take(0) =~= Seq::<ArchiveEntry>::empty());
        assert(texts(top@) =~= top_level_names(entries@.take(0), style));
    }
    while i < n
        invariant
            n == entries@.len(),
            i <= n,
            steps@.len() == i,
            all_enclosed(entries@.take(i as int), style),
            forall|k: int|
                0 <= k < i ==> is_step_for(
                    #[trigger] steps@[k],
                    entries@[k],
                    k,
                    destination@,
                    style,
                ),
            texts(top@) == top_level_names(entries@.take(i as int), style),
        decreases n - i,
    {
        let entry = &entries[i];
        let ghost before = entries@.take(i as int);
        let ghost after = entries@.take(i + 1);
        proof {
            assert(after.drop_last() == before);
            assert(after.last() == entries@[i as int]);
        }
        let step = match plan_entry(entry, i, destination, style) {
            Err(e) => {
                return Err(e);
            },
            Ok(step) => step,
        };
        match &step.top_level {
            Some(component) => {
                let ghost old_top = top@;
                top.push(component.clone());
                assert(texts(top@) =~= texts(old_top).push(component@));
            },
            None => {},
        }
        steps.push(step);
        proof {
            assert forall|k: int| 0 <= k < after.len() implies is_enclosed(
                #[trigger] after[k].name@,
                style,
            ) by {
                if k < i {
                    assert(before[k] == after[k]);
                }
            }
        }
        i += 1;
    }
    assert(entries@.take(n as int) == entries@);
    Ok(ExtractedFileSet { entries: steps, top_level: top })
}

/// No planned step leaves the destination directory, as a host of the
/// style that the plan was made for reads its path. The destination of
/// each step first walks the components of the directory and from there on
/// never stands above it.
pub proof fn lemma_steps_stay_below(
    entries: Seq<ArchiveEntry>,
    destination: Seq<char>,
    steps: Seq<ExtractedEntry>,
    style: PathStyle,
)
    requires
        all_enclosed(entries, style),
        steps.len() == entries.len(),
        forall|i: int|
            0 <= i < entries.len() ==> is_step_for(
                #[trigger] steps[i],
                entries[i],
                i,
                destination,
                style,
            ),
    ensures
        forall|i: int, k: int|
            0 <= i < steps.len() && base_walk(destination, style).len() <= k <= components(
                steps[i].destination@,
                style,
            ).len() ==> {
                &&& components(steps[i].destination@, style).take(
                    base_walk(destination, style).len() as int,
                ) == base_walk(destination, style)
                &&& depth(#[trigger] components(steps[i].destination@, style).take(k)) >= depth(
                    base_walk(destination, style),
                )
            },
{
    assert forall|i: int, k: int|
        0 <= i < steps.len() && base_walk(destination, style).len() <= k <= components(
            steps[i].destination@,
            style,
        ).len() implies {
        &&& components(steps[i].destination@, style).take(
            base_walk(destination, style).len() as int,
        ) == base_walk(destination, style)
        &&& depth(#[trigger] components(steps[i].destination@, style).take(k)) >= depth(
            base_walk(destination, style),
        )
    } by {
        assert(is_step_for(steps[i], entries[i], i, destination, style));
        assert(is_enclosed(entries[i].name@, style));
        lemma_enclosed_stays_below(destination, entries[i].name@, style);
    }
}

/// Every top-level name that a plan lists is a plain name, so that what
/// is later moved by these names are entries of the workspace itself, and
/// what they replace are entries of the installation root itself.
pub proof fn lemma_top_level_names_are_plain(entries: Seq<ArchiveEntry>, style: PathStyle)
    ensures
        forall|j: int|
            0 <= j < top_level_names(entries, style).len() ==> is_plain_name(
                #[trigger] top_level_names(entries, style)[j],
                style,
            ),
    decreases entries.len(),
{
    if entries.len() > 0 {
        let earlier = top_level_names(entries.drop_last(), style);
        let all = top_level_names(entries, style);
        lemma_top_level_names_are_plain(entries.drop_last(), style);
        if is_top_level(entries.last().name@, style) {
            lemma_top_level_is_plain(entries.last().name@, style);
        }
        assert forall|j: int| 0 <= j < all.len() implies is_plain_name(
            #[trigger] all[j],
            style,
        ) by {
            if j < earlier.len() {
                assert(all[j] == earlier[j]);
            }
        }
    }
}

} // verus!

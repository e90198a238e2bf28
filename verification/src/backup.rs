//! Backing up an installation before it is changed: the managed directory
//! and the loader files are moved into the one backup directory, which is
//! emptied first. Only one generation is kept.

use vstd::prelude::*;
use vstd::string::*;
use crate::layout::{
    backup_dir, backup_dir_path, loader_file_names, loader_files, managed_dir_name,
    managed_dir_path, marker_name, marker_path,
};
use crate::paths::{is_separator, join_path, joined, joiner, PathStyle};
use crate::plan::{optional, required, steps_view, FileOp, FileOpView, OnFailure, Step, StepView};
use crate::text::{text_of, texts};

verus! {

/// The number of steps before the relocations: the backup directory is
/// removed, then created.
pub const PREPARATION_STEPS: usize = 2;

/// The position of the step that creates the backup directory.
pub const CREATE_STEP: usize = 1;

/// What was moved aside, and where to.
#[derive(Debug, Clone, PartialEq, Eq)]
pub struct BackupSnapshot {
    /// The backup directory; `None` where there was nothing to back up.
    pub location: Option<String>,
    /// The paths that were moved out of the installation, in plan order.
    pub relocated: Vec<String>,
}

/// Why a backup failed.
#[derive(Debug, Clone, Copy, PartialEq, Eq)]
pub enum BackupError {
    /// The backup directory could not be created.
    CannotCreateBackupLocation,
    /// Not every step of the plan was carried out.
    Incomplete,
}

impl BackupError {
    /// The text of the message for this error.
    pub open spec fn message_text(self) -> Seq<char> {
        match self {
            BackupError::CannotCreateBackupLocation => "Failed to create the backup directory"@,
            BackupError::Incomplete => "The backup was not carried out to the end"@,
        }
    }

    /// A message for the user.
    pub fn message(&self) -> (r: String)
        ensures
            r@ == self.message_text(),
    {
        match self {
            BackupError::CannotCreateBackupLocation => {
                "Failed to create the backup directory".to_owned()
            },
            BackupError::Incomplete => "The backup was not carried out to the end".to_owned(),
        }
    }
}

/// The names that a backup moves, below the installation root: the
/// managed directory as a whole, then each loader file.
pub open spec fn managed_names() -> Seq<Seq<char>> {
    seq![managed_dir_name()] + loader_file_names()
}

/// The step that moves `name` from `root` into the backup directory. A
/// missing source is tolerated.
pub open spec fn relocation(root: Seq<char>, name: Seq<char>, style: PathStyle) -> StepView {
    optional(
        FileOpView::Move {
            from: joined(root, name, style),
            to: joined(backup_dir_path(root, style), name, style),
        },
    )
}

/// The steps that move `names` from `root` into the backup directory.
pub open spec fn relocations(root: Seq<char>, names: Seq<Seq<char>>, style: PathStyle) -> Seq<
    StepView,
> {
    Seq::new(names.len(), |i: int| relocation(root, names[i], style))
}

/// The steps of a backup. With no managed directory there is nothing to
/// back up. Otherwise an earlier backup is discarded, the backup directory
/// is created, which must succeed, and each managed name is moved there
/// with one move of its own: the version marker goes with its directory.
pub open spec fn snapshot_steps(root: Seq<char>, managed_present: bool, style: PathStyle) -> Seq<
    StepView,
> {
    if managed_present {
        seq![
            optional(FileOpView::Remove { path: backup_dir_path(root, style) }),
            required(FileOpView::CreateDir { path: backup_dir_path(root, style) }),
        ] + relocations(root, managed_names(), style)
    } else {
        Seq::<StepView>::empty()
    }
}

/// The managed names, in the order in which they are moved.
pub fn managed_set() -> (r: Vec<String>)
    ensures
        texts(r@) == managed_names(),
{
    let mut names: Vec<String> = Vec::new();
    names.push("amax".to_owned());
    let mut loaders = loader_files();
    let ghost loader_texts = texts(loaders@);
    names.append(&mut loaders);
    assert(texts(names@) =~= seq![managed_dir_name()] + loader_texts);
    names
}

/// Plans the backup of the installation at `root`. `managed_present` tells
/// whether the managed directory exists there.
pub fn plan_snapshot(root: &str, managed_present: bool, style: PathStyle) -> (steps: Vec<Step>)
    ensures
        steps_view(steps@) == snapshot_steps(root@, managed_present, style),
{
    let mut steps: Vec<Step> = Vec::new();
    if !managed_present {
        assert(steps_view(steps@) =~= snapshot_steps(root@, managed_present, style));
        return steps;
    }
    let target = backup_dir(root, style);
    steps.push(Step { op: FileOp::Remove { path: target.clone() }, on_failure: OnFailure::Skip });
    steps.push(
        Step { op: FileOp::CreateDir { path: target.clone() }, on_failure: OnFailure::Abort },
    );
    let names = managed_set();
    let n: usize = names.len();
    let ghost head = steps_view(steps@);
    let mut i: usize = 0;
    assert(steps_view(steps@) =~= head + relocations(root@, managed_names().take(0), style));
    while i < n
        invariant
            i <= n,
            n == names@.len(),
            texts(names@) == managed_names(),
            target@ == backup_dir_path(root@, style),
            steps_view(steps@) == head + relocations(root@, managed_names().take(i as int), style),
        decreases n - i,
    {
        let name = names[i].as_str();
        assert(name@ == texts(names@)[i as int]);
        let ghost before = steps_view(steps@);
        steps.push(
            Step {
                op: FileOp::Move {
                    from: join_path(root, name, style),
                    to: join_path(target.as_str(), name, style),
                },
                on_failure: OnFailure::Skip,
            },
        );
        assert(steps_view(steps@) =~= before.push(relocation(root@, name@, style)));
        assert(relocations(root@, managed_names().take(i + 1), style) =~= relocations(
            root@,
            managed_names().take(i as int),
            style,
        ).push(relocation(root@, name@, style)));
        i += 1;
    }
    assert(managed_names().take(n as int) == managed_names());
    assert(head =~= seq![
        optional(FileOpView::Remove { path: backup_dir_path(root@, style) }),
        required(FileOpView::CreateDir { path: backup_dir_path(root@, style) }),
    ]);
    steps
}

/// The sources among the first `n` of `names` whose move succeeded, as
/// paths below `root`. The outcome of the move of `names[k]` stands at
/// `first + k`.
pub open spec fn moved_sources(
    root: Seq<char>,
    names: Seq<Seq<char>>,
    outcomes: Seq<bool>,
    first: int,
    n: int,
    style: PathStyle,
) -> Seq<Seq<char>>
    decreases n,
{
    if n <= 0 {
        Seq::<Seq<char>>::empty()
    } else {
        let earlier = moved_sources(root, names, outcomes, first, n - 1, style);
        if first + n - 1 < outcomes.len() && outcomes[first + n - 1] {
            earlier.push(joined(root, names[n - 1], style))
        } else {
            earlier
        }
    }
}

/// Whether every step of a backup was carried out and the backup directory
/// was created.
pub open spec fn snapshot_complete(outcomes: Seq<bool>) -> bool {
    outcomes.len() >= PREPARATION_STEPS + managed_names().len() && outcomes[CREATE_STEP as int]
}

/// Concludes a backup from the outcomes of its steps: `outcomes[i]` tells
/// whether step `i` of `plan_snapshot(root, managed_present, style)` succeeded.
///
/// With nothing to back up the snapshot is empty. Otherwise the backup has
/// failed where the backup directory could not be created, and is
/// incomplete where steps are missing; else the snapshot lists the paths
/// whose move succeeded.
pub fn conclude_snapshot(
    root: &str,
    managed_present: bool,
    outcomes: &Vec<bool>,
    style: PathStyle,
) -> (r: Result<BackupSnapshot, BackupError>)
    ensures
        r is Ok <==> !managed_present || snapshot_complete(outcomes@),
        r matches Ok(s) ==> if managed_present {
            &&& text_of(s.location) == Some(backup_dir_path(root@, style))
            &&& texts(s.relocated@) == moved_sources(
                root@,
                managed_names(),
                outcomes@,
                PREPARATION_STEPS as int,
                managed_names().len() as int,
                style,
            )
        } else {
            &&& s.location is None
            &&& s.relocated@.len() == 0
        },
        r matches Err(e) ==> e == if outcomes@.len() > CREATE_STEP
            && !outcomes@[CREATE_STEP as int] {
            BackupError::CannotCreateBackupLocation
        } else {
            BackupError::Incomplete
        },
{
    if !managed_present {
        return Ok(BackupSnapshot { location: None, relocated: Vec::new() });
    }
    if outcomes.len() > CREATE_STEP && !outcomes[CREATE_STEP] {
        return Err(BackupError::CannotCreateBackupLocation);
    }
    let names = managed_set();
    let n: usize = names.len();
    assert(n == 4) by {
        assert(texts(names@).len() == managed_names().len());
    }
    if outcomes.len() < PREPARATION_STEPS + n {
        return Err(BackupError::Incomplete);
    }
    let mut relocated: Vec<String> = Vec::new();
    let mut i: usize = 0;
    assert(texts(relocated@) =~= moved_sources(
        root@,
        managed_names(),
        outcomes@,
        PREPARATION_STEPS as int,
        0,
        style,
    ));
    while i < n
        invariant
            i <= n,
            n == names@.len(),
            n == 4,
            outcomes@.len() >= PREPARATION_STEPS + n,
            texts(names@) == managed_names(),
            texts(relocated@) == moved_sources(
                root@,
                managed_names(),
                outcomes@,
                PREPARATION_STEPS as int,
                i as int,
                style,
            ),
        decreases n - i,
    {
        if outcomes[PREPARATION_STEPS + i] {
            let name = names[i].as_str();
            assert(name@ == texts(names@)[i as int]);
            let ghost before = texts(relocated@);
            relocated.push(join_path(root, name, style));
            assert(texts(relocated@) =~= before.push(joined(root@, name@, style)));
        }
        i += 1;
    }
    Ok(BackupSnapshot { location: Some(backup_dir(root, style)), relocated })
}

/// Whether `path` lies inside the directory `dir`: it is `dir`, a
/// separator, and more.
pub open spec fn is_inside(path: Seq<char>, dir: Seq<char>, style: PathStyle) -> bool {
    &&& path.len() > dir.len()
    &&& path.take(dir.len() as int) == dir
    &&& is_separator(path[dir.len() as int], style)
}

/// The start of every path below `root`: `root` itself, with the host's
/// separator behind it unless it is empty or ends in a separator.
pub open spec fn root_prefix(root: Seq<char>, style: PathStyle) -> Seq<char> {
    if root.len() == 0 || is_separator(root.last(), style) {
        root
    } else {
        root.push(joiner(style))
    }
}

/// The managed directory is moved as a whole, by one step, and no step
/// moves anything from inside it: the version marker, which lies inside,
/// goes with its directory and is never moved on its own.
pub proof fn lemma_managed_dir_moves_once(root: Seq<char>, style: PathStyle)
    ensures
        is_inside(marker_path(root, style), managed_dir_path(root, style), style),
        forall|i: int|
            0 <= i < snapshot_steps(root, true, style).len() ==> (
            #[trigger] snapshot_steps(root, true, style)[i].op matches FileOpView::Move {
                from,
                to,
            } ==> {
                &&& !is_inside(from, managed_dir_path(root, style), style)
                &&& from != marker_path(root, style)
                &&& (from == managed_dir_path(root, style) <==> i == PREPARATION_STEPS)
            }),
{
    reveal_strlit("amax");
    reveal_strlit("version");
    reveal_strlit("d3d9.dll");
    reveal_strlit("lua5.1.dll");
    reveal_strlit("discord-rpc.dll");
    let dir = managed_dir_path(root, style);
    let prefix = root_prefix(root, style);
    let k = prefix.len() as int;
    assert(dir == prefix + managed_dir_name());
    assert(dir.len() == k + 4);
    assert(dir[k] == 'a');
    assert(dir.last() == 'x');
    let marker = marker_path(root, style);
    assert(marker == dir.push(joiner(style)) + marker_name());
    assert(marker.take(dir.len() as int) == dir);
    assert(marker[dir.len() as int] == joiner(style));
    let steps = snapshot_steps(root, true, style);
    let names = managed_names();
    assert forall|i: int| 0 <= i < steps.len() implies (
    #[trigger] steps[i].op matches FileOpView::Move { from, to } ==> {
        &&& !is_inside(from, dir, style)
        &&& from != marker
        &&& (from == dir <==> i == PREPARATION_STEPS)
    }) by {
        if i >= PREPARATION_STEPS {
            let name = names[i - PREPARATION_STEPS];
            assert(steps[i] == relocation(root, name, style));
            let from = joined(root, name, style);
            assert(from == prefix + name);
            if i > PREPARATION_STEPS {
                assert(name[0] == 'd' || name[0] == 'l');
                assert(from[k] == name[0]);
                if is_inside(from, dir, style) {
                    assert(from.take(dir.len() as int)[k] == dir[k]);
                }
                if from == marker {
                    assert(marker.take(dir.len() as int)[k] == dir[k]);
                }
            }
        }
    }
}

} // verus!

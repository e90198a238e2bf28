//! Applying an update: every top-level entry is moved from the workspace
//! into the installation, and then the new version is recorded in the
//! version marker.
//!
//! What has the name of an entry in the installation is removed only where
//! the entry is staged, that is, where the workspace holds it: an entry
//! that is not staged cannot be moved, and what is installed under its
//! name stays as it is. A move that fails is skipped; the marker is still
//! written. Only a marker that cannot be written fails the whole.

use vstd::prelude::*;
use vstd::string::*;
use crate::layout::{marker_path, version_marker};
use crate::paths::{join_path, joined, lemma_join_tells_names_apart, PathStyle};
use crate::plan::{optional, required, steps_view, FileOp, FileOpView, OnFailure, Step, StepView};
use crate::text::texts;

verus! {

/// What an apply did.
#[derive(Debug, Clone, PartialEq, Eq)]
pub struct ApplyReport {
    /// The top-level entries that were moved into the installation.
    pub placed: Vec<String>,
    /// The top-level entries whose move failed.
    pub skipped: Vec<String>,
}

/// Why an apply failed.
#[derive(Debug, Clone, Copy, PartialEq, Eq)]
pub enum ApplyError {
    /// The version marker could not be written.
    CannotWriteMarker,
    /// The plan was not carried out up to the version marker.
    Incomplete,
}

impl ApplyError {
    /// The text of the message for this error.
    pub open spec fn message_text(self) -> Seq<char> {
        match self {
            ApplyError::CannotWriteMarker => "Failed to write the version marker"@,
            ApplyError::Incomplete => "The update was not applied to the end"@,
        }
    }

    /// A message for the user.
    pub fn message(&self) -> (r: String)
        ensures
            r@ == self.message_text(),
    {
        match self {
            ApplyError::CannotWriteMarker => "Failed to write the version marker".to_owned(),
            ApplyError::Incomplete => "The update was not applied to the end".to_owned(),
        }
    }
}

/// Whether the entry at position `k` is staged. An entry without a flag
/// counts as not staged.
pub open spec fn is_staged(staged: Seq<bool>, k: int) -> bool {
    0 <= k < staged.len() && staged[k]
}

/// The step that moves the top-level entry `name` into the installation.
pub open spec fn move_of(root: Seq<char>, workspace: Seq<char>, name: Seq<char>, style: PathStyle)
    -> StepView {
    optional(
        FileOpView::Move { from: joined(workspace, name, style), to: joined(root, name, style) },
    )
}

/// The steps that place the top-level entry `name`. A staged entry takes
/// two: what has its name in the installation is removed, then the entry
/// is moved in. An entry that is not staged takes the move alone, which
/// fails and leaves the installation as it is.
pub open spec fn placement_of(
    root: Seq<char>,
    workspace: Seq<char>,
    name: Seq<char>,
    staged: bool,
    style: PathStyle,
) -> Seq<StepView> {
    if staged {
        seq![
            optional(FileOpView::Remove { path: joined(root, name, style) }),
            move_of(root, workspace, name, style),
        ]
    } else {
        seq![move_of(root, workspace, name, style)]
    }
}

/// The steps that place `names`, in order. `staged[k]` tells whether the
/// workspace holds `names[k]`.
pub open spec fn placements(
    root: Seq<char>,
    workspace: Seq<char>,
    names: Seq<Seq<char>>,
    staged: Seq<bool>,
    style: PathStyle,
) -> Seq<StepView>
    decreases names.len(),
{
    if names.len() == 0 {
        Seq::<StepView>::empty()
    } else {
        placements(root, workspace, names.drop_last(), staged, style) + placement_of(
            root,
            workspace,
            names.last(),
            is_staged(staged, names.len() - 1),
            style,
        )
    }
}

/// The steps of an apply: the placements of all top-level entries, then
/// the marker, whose writing must succeed.
pub open spec fn apply_steps(
    root: Seq<char>,
    workspace: Seq<char>,
    names: Seq<Seq<char>>,
    staged: Seq<bool>,
    version: Seq<char>,
    style: PathStyle,
) -> Seq<StepView> {
    placements(root, workspace, names, staged, style).push(
        required(FileOpView::WriteText { path: marker_path(root, style), text: version }),
    )
}

/// The number of steps that place the first `k` entries.
pub open spec fn step_count(staged: Seq<bool>, k: int) -> int
    decreases k,
{
    if k <= 0 {
        0
    } else {
        step_count(staged, k - 1) + if is_staged(staged, k - 1) {
            2int
        } else {
            1int
        }
    }
}

/// The position of the step that moves the entry at position `k`: the last
/// of the steps that place it.
pub open spec fn move_position(staged: Seq<bool>, k: int) -> int {
    step_count(staged, k + 1) - 1
}

/// The steps of more entries are more, and every entry takes at least one.
pub proof fn lemma_step_count_grows(staged: Seq<bool>, j: int, k: int)
    requires
        0 <= j <= k,
    ensures
        step_count(staged, j) + (k - j) <= step_count(staged, k),
    decreases k - j,
{
    if j < k {
        lemma_step_count_grows(staged, j, k - 1);
    }
}

/// The placements of `names` are as many steps as `step_count` says, and
/// the move of each entry stands at its `move_position`.
pub proof fn lemma_placements_shape(
    root: Seq<char>,
    workspace: Seq<char>,
    names: Seq<Seq<char>>,
    staged: Seq<bool>,
    style: PathStyle,
)
    ensures
        placements(root, workspace, names, staged, style).len() == step_count(
            staged,
            names.len() as int,
        ),
        forall|k: int|
            0 <= k < names.len() ==> 0 <= move_position(staged, k) < step_count(
                staged,
                names.len() as int,
            ) && #[trigger] placements(root, workspace, names, staged, style)[move_position(
                staged,
                k,
            )] == move_of(root, workspace, names[k], style),
    decreases names.len(),
{
    if names.len() > 0 {
        let rest = names.drop_last();
        let n = names.len() as int;
        lemma_placements_shape(root, workspace, rest, staged, style);
        let before = placements(root, workspace, rest, staged, style);
        let last = placement_of(root, workspace, names.last(), is_staged(staged, n - 1), style);
        let all = placements(root, workspace, names, staged, style);
        assert(all == before + last);
        assert forall|k: int| 0 <= k < n implies 0 <= move_position(staged, k) < step_count(
            staged,
            n,
        ) && #[trigger] all[move_position(staged, k)] == move_of(
            root,
            workspace,
            names[k],
            style,
        ) by {
            lemma_step_count_grows(staged, 0, k);
            lemma_step_count_grows(staged, k + 1, n);
            if k < n - 1 {
                assert(rest[k] == names[k]);
                assert(all[move_position(staged, k)] == before[move_position(staged, k)]);
            } else {
                assert(all[move_position(staged, k)] == last[last.len() - 1]);
            }
        }
    }
}

/// What the apply removes, it removes for a staged entry: every step that
/// removes a path removes the place of an entry that the workspace holds.
/// What is installed under the name of an entry that cannot be moved in is
/// removed by no step.
pub proof fn lemma_removes_only_for_staged(
    root: Seq<char>,
    workspace: Seq<char>,
    names: Seq<Seq<char>>,
    staged: Seq<bool>,
    version: Seq<char>,
    style: PathStyle,
)
    ensures
        forall|i: int|
            0 <= i < apply_steps(root, workspace, names, staged, version, style).len() ==> (
            #[trigger] apply_steps(root, workspace, names, staged, version, style)[i].op
                matches FileOpView::Remove { path } ==> exists|k: int|
                0 <= k < names.len() && is_staged(staged, k) && path == joined(
                    root,
                    #[trigger] names[k],
                    style,
                )),
{
    lemma_placements_remove_staged(root, workspace, names, staged, style);
    let all = apply_steps(root, workspace, names, staged, version, style);
    let placed = placements(root, workspace, names, staged, style);
    assert forall|i: int| 0 <= i < all.len() implies (#[trigger] all[i].op
        matches FileOpView::Remove { path } ==> exists|k: int|
        0 <= k < names.len() && is_staged(staged, k) && path == joined(
            root,
            #[trigger] names[k],
            style,
        )) by {
        if i < placed.len() {
            assert(all[i] == placed[i]);
        }
    }
}

/// As `lemma_removes_only_for_staged`, of the placements alone.
pub proof fn lemma_placements_remove_staged(
    root: Seq<char>,
    workspace: Seq<char>,
    names: Seq<Seq<char>>,
    staged: Seq<bool>,
    style: PathStyle,
)
    ensures
        forall|i: int|
            0 <= i < placements(root, workspace, names, staged, style).len() ==> (
            #[trigger] placements(root, workspace, names, staged, style)[i].op
                matches FileOpView::Remove { path } ==> exists|k: int|
                0 <= k < names.len() && is_staged(staged, k) && path == joined(
                    root,
                    #[trigger] names[k],
                    style,
                )),
    decreases names.len(),
{
    if names.len() > 0 {
        let rest = names.drop_last();
        let n = names.len() as int;
        lemma_placements_remove_staged(root, workspace, rest, staged, style);
        let before = placements(root, workspace, rest, staged, style);
        let last = placement_of(root, workspace, names.last(), is_staged(staged, n - 1), style);
        let all = placements(root, workspace, names, staged, style);
        assert(all == before + last);
        assert forall|i: int| 0 <= i < all.len() implies (#[trigger] all[i].op
            matches FileOpView::Remove { path } ==> exists|k: int|
            0 <= k < names.len() && is_staged(staged, k) && path == joined(
                root,
                #[trigger] names[k],
                style,
            )) by {
            if i < before.len() {
                assert(all[i] == before[i]);
                if before[i].op is Remove {
                    let k = choose|k: int|
                        0 <= k < rest.len() && is_staged(staged, k) && before[i].op->Remove_path
                            == joined(root, #[trigger] rest[k], style);
                    assert(names[k] == rest[k]);
                }
            } else {
                assert(all[i] == last[i - before.len()]);
                if all[i].op is Remove {
                    assert(is_staged(staged, n - 1));
                    assert(names[n - 1] == names.last());
                }
            }
        }
    }
}

/// Plans the apply of the entries `top_level` from `workspace` into the
/// installation at `root`, recording `version`. `staged[k]` tells whether
/// the workspace holds `top_level[k]`; an entry without a flag counts as
/// not staged.
pub fn plan_apply(
    root: &str,
    workspace: &str,
    top_level: &Vec<String>,
    staged: &Vec<bool>,
    version: &str,
    style: PathStyle,
) -> (steps: Vec<Step>)
    ensures
        steps_view(steps@) == apply_steps(
            root@,
            workspace@,
            texts(top_level@),
            staged@,
            version@,
            style,
        ),
{
    let mut steps: Vec<Step> = Vec::new();
    let n: usize = top_level.len();
    let ghost names = texts(top_level@);
    let mut i: usize = 0;
    assert(steps_view(steps@) =~= placements(root@, workspace@, names.take(0), staged@, style));
    while i < n
        invariant
            i <= n,
            n == top_level@.len(),
            names == texts(top_level@),
            steps_view(steps@) == placements(
                root@,
                workspace@,
                names.take(i as int),
                staged@,
                style,
            ),
        decreases n - i,
    {
        let name = top_level[i].as_str();
        assert(name@ == names[i as int]);
        let ghost before = steps_view(steps@);
        let target = join_path(root, name, style);
        let held: bool = i < staged.len() && staged[i];
        if held {
            steps.push(
                Step { op: FileOp::Remove { path: target.clone() }, on_failure: OnFailure::Skip },
            );
        }
        steps.push(
            Step {
                op: FileOp::Move { from: join_path(workspace, name, style), to: target },
                on_failure: OnFailure::Skip,
            },
        );
        proof {
            assert(names.take(i + 1).drop_last() == names.take(i as int));
            assert(names.take(i + 1).last() == name@);
            assert(held == is_staged(staged@, i as int));
            assert(steps_view(steps@) =~= before + placement_of(
                root@,
                workspace@,
                name@,
                held,
                style,
            ));
        }
        i += 1;
    }
    assert(names.take(n as int) == names);
    let ghost before = steps_view(steps@);
    steps.push(
        Step {
            op: FileOp::WriteText { path: version_marker(root, style), text: version.to_owned() },
            on_failure: OnFailure::Abort,
        },
    );
    assert(steps_view(steps@) =~= before.push(
        required(FileOpView::WriteText { path: marker_path(root@, style), text: version@ }),
    ));
    steps
}

/// Whether the move of the entry at position `k` succeeded. A missing
/// outcome counts as a failure.
pub open spec fn move_succeeded(staged: Seq<bool>, outcomes: Seq<bool>, k: int) -> bool {
    move_position(staged, k) < outcomes.len() && outcomes[move_position(staged, k)]
}

/// Among the first `n` of `names`, those whose move went as `wanted`
/// says.
pub open spec fn entries_moved(
    names: Seq<Seq<char>>,
    staged: Seq<bool>,
    outcomes: Seq<bool>,
    wanted: bool,
    n: int,
) -> Seq<Seq<char>>
    decreases n,
{
    if n <= 0 {
        Seq::<Seq<char>>::empty()
    } else {
        let earlier = entries_moved(names, staged, outcomes, wanted, n - 1);
        if move_succeeded(staged, outcomes, n - 1) == wanted {
            earlier.push(names[n - 1])
        } else {
            earlier
        }
    }
}

/// The position of the step that writes the marker, behind the placements
/// of `count` entries.
pub open spec fn marker_position(staged: Seq<bool>, count: nat) -> int {
    step_count(staged, count as int)
}

/// Whether the marker of an apply of `count` entries was written.
pub open spec fn marker_written(staged: Seq<bool>, count: nat, outcomes: Seq<bool>) -> bool {
    marker_position(staged, count) < outcomes.len() && outcomes[marker_position(staged, count)]
}

/// Concludes an apply from the outcomes of its steps: `outcomes[i]` tells
/// whether step `i` of the plan for `top_level` and `staged` succeeded.
///
/// The apply has succeeded exactly where the marker was written. The
/// report then tells which entries were placed and which were skipped.
pub fn conclude_apply(top_level: &Vec<String>, staged: &Vec<bool>, outcomes: &Vec<bool>) -> (r:
    Result<ApplyReport, ApplyError>)
    ensures
        r is Ok <==> marker_written(staged@, top_level@.len(), outcomes@),
        r matches Ok(report) ==> {
            &&& texts(report.placed@) == entries_moved(
                texts(top_level@),
                staged@,
                outcomes@,
                true,
                top_level@.len() as int,
            )
            &&& texts(report.skipped@) == entries_moved(
                texts(top_level@),
                staged@,
                outcomes@,
                false,
                top_level@.len() as int,
            )
        },
        r matches Err(e) ==> e == if marker_position(staged@, top_level@.len())
            < outcomes@.len() {
            ApplyError::CannotWriteMarker
        } else {
            ApplyError::Incomplete
        },
{
    let n: usize = top_level.len();
    let m: usize = outcomes.len();
    let ghost names = texts(top_level@);
    let mut placed: Vec<String> = Vec::new();
    let mut skipped: Vec<String> = Vec::new();
    let mut position: usize = 0;
    let mut i: usize = 0;
    proof {
        assert(texts(placed@) =~= entries_moved(names, staged@, outcomes@, true, 0));
        assert(texts(skipped@) =~= entries_moved(names, staged@, outcomes@, false, 0));
    }
    while i < n
        invariant
            i <= n,
            n == top_level@.len(),
            m == outcomes@.len(),
            names == texts(top_level@),
            position == step_count(staged@, i as int),
            texts(placed@) == entries_moved(names, staged@, outcomes@, true, i as int),
            texts(skipped@) == entries_moved(names, staged@, outcomes@, false, i as int),
        decreases n - i,
    {
        let held: bool = i < staged.len() && staged[i];
        let taken: usize = if held {
            2
        } else {
            1
        };
        assert(held == is_staged(staged@, i as int));
        assert(step_count(staged@, i + 1) == position + taken);
        if position >= m || m - position <= taken {
            proof {
                lemma_step_count_grows(staged@, i + 1, n as int);
            }
            return Err(ApplyError::Incomplete);
        }
        let moved: bool = outcomes[position + taken - 1];
        assert(moved == move_succeeded(staged@, outcomes@, i as int));
        let name = top_level[i].clone();
        assert(name@ == names[i as int]);
        let ghost placed_before = texts(placed@);
        let ghost skipped_before = texts(skipped@);
        if moved {
            placed.push(name);
            assert(texts(placed@) =~= placed_before.push(names[i as int]));
        } else {
            skipped.push(name);
            assert(texts(skipped@) =~= skipped_before.push(names[i as int]));
        }
        position = position + taken;
        i += 1;
    }
    if position >= m {
        return Err(ApplyError::Incomplete);
    }
    if !outcomes[position] {
        return Err(ApplyError::CannotWriteMarker);
    }
    Ok(ApplyReport { placed, skipped })
}

/// What is installed under the name of an entry that is not staged is
/// removed by no step of the apply: where no staged entry has the name of
/// the entry at position `j`, no step removes its place in the
/// installation. Its move fails, and what was installed stays as it was.
pub proof fn lemma_unstaged_entry_is_not_removed(
    root: Seq<char>,
    workspace: Seq<char>,
    names: Seq<Seq<char>>,
    staged: Seq<bool>,
    version: Seq<char>,
    style: PathStyle,
    j: int,
)
    requires
        0 <= j < names.len(),
        forall|k: int|
            0 <= k < names.len() && is_staged(staged, k) ==> #[trigger] names[k] != names[j],
    ensures
        forall|i: int|
            0 <= i < apply_steps(root, workspace, names, staged, version, style).len()
                ==> #[trigger] apply_steps(root, workspace, names, staged, version, style)[i].op
                != (FileOpView::Remove { path: joined(root, names[j], style) }),
{
    lemma_removes_only_for_staged(root, workspace, names, staged, version, style);
    let all = apply_steps(root, workspace, names, staged, version, style);
    assert forall|i: int| 0 <= i < all.len() implies #[trigger] all[i].op != (FileOpView::Remove {
        path: joined(root, names[j], style),
    }) by {
        if all[i].op == (FileOpView::Remove { path: joined(root, names[j], style) }) {
            let k = choose|k: int|
                0 <= k < names.len() && is_staged(staged, k) && all[i].op->Remove_path == joined(
                    root,
                    #[trigger] names[k],
                    style,
                );
            lemma_join_tells_names_apart(root, names[k], names[j], style);
        }
    }
}

} // verus!

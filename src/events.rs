//! Change events from the watched trees, and what each one asks for: which
//! files to mirror, which paths no target holds, and whether to snapshot.
use vstd::prelude::*;
use crate::mirror::{mapped_copy, mirror_target, CopyJob, CopyJobView};
use crate::paths::lies_under;

verus! {

/// What changed in a file's data.
#[derive(Clone, Copy, Debug, PartialEq, Eq, Structural)]
pub enum DataChange {
    Any,
    Size,
    Content,
    Other,
}

/// Which metadata changed.
#[derive(Clone, Copy, Debug, PartialEq, Eq, Structural)]
pub enum MetadataKind {
    Any,
    AccessTime,
    WriteTime,
    Permissions,
    Ownership,
    Extended,
    Other,
}

/// How an entry was modified.
#[derive(Clone, Copy, Debug, PartialEq, Eq, Structural)]
pub enum ModifyKind {
    Any,
    Data(DataChange),
    Metadata(MetadataKind),
    Name,
    Other,
}

/// The kind of a filesystem change notification.
#[derive(Clone, Copy, Debug, PartialEq, Eq, Structural)]
pub enum EventKind {
    Any,
    Access,
    Create,
    Modify(ModifyKind),
    Remove,
    Other,
}

/// A change notification: its kind and the paths it names, in order.
pub struct ChangeEvent {
    pub kind: EventKind,
    pub paths: Vec<String>,
}

/// What one event asks for, as paths.
pub struct EventPlanView {
    pub copies: Seq<CopyJobView>,
    pub unmapped: Seq<Seq<char>>,
    pub snapshot: bool,
}

/// What one event asks for: the copies to make, in order; the paths that no
/// watch target holds, in order; whether to take a snapshot afterwards.
pub struct EventPlan {
    pub copies: Vec<CopyJob>,
    pub unmapped: Vec<String>,
    pub snapshot: bool,
}

impl View for EventPlan {
    type V = EventPlanView;

    open spec fn view(&self) -> EventPlanView {
        EventPlanView {
            copies: self.copies@.map_values(|c: CopyJob| c@),
            unmapped: self.unmapped.deep_view(),
            snapshot: self.snapshot,
        }
    }
}

/// Only a change to the content of a file's data calls for mirroring.
pub open spec fn is_content_change_spec(kind: EventKind) -> bool {
    kind == EventKind::Modify(ModifyKind::Data(DataChange::Content))
}

/// The copies for `paths`, in order, one for each path that a target holds.
pub open spec fn planned_copies(paths: Seq<Seq<char>>, targets: Seq<Seq<char>>, root: Seq<char>) -> Seq<
    CopyJobView,
>
    decreases paths.len(),
{
    if paths.len() == 0 {
        seq![]
    } else {
        let prev = planned_copies(paths.drop_last(), targets, root);
        match mapped_copy(paths.last(), targets, root) {
            Some(c) => prev.push(c),
            None => prev,
        }
    }
}

/// The paths among `paths`, in order, that no target holds.
pub open spec fn unmapped_paths(paths: Seq<Seq<char>>, targets: Seq<Seq<char>>, root: Seq<char>) -> Seq<
    Seq<char>,
>
    decreases paths.len(),
{
    if paths.len() == 0 {
        seq![]
    } else {
        let prev = unmapped_paths(paths.drop_last(), targets, root);
        match mapped_copy(paths.last(), targets, root) {
            Some(c) => prev,
            None => prev.push(paths.last()),
        }
    }
}

/// The plan for an event of `kind` naming `paths`: nothing unless it changed
/// content; else a copy per path that a target holds, the others reported,
/// and a snapshot once at least one copy was planned.
pub open spec fn event_plan(
    kind: EventKind,
    paths: Seq<Seq<char>>,
    targets: Seq<Seq<char>>,
    root: Seq<char>,
) -> EventPlanView {
    if is_content_change_spec(kind) {
        EventPlanView {
            copies: planned_copies(paths, targets, root),
            unmapped: unmapped_paths(paths, targets, root),
            snapshot: planned_copies(paths, targets, root).len() > 0,
        }
    } else {
        EventPlanView { copies: seq![], unmapped: seq![], snapshot: false }
    }
}

/// Whether an event of this kind calls for mirroring.
pub fn is_content_change(kind: &EventKind) -> (r: bool)
    ensures
        r == is_content_change_spec(*kind),
{
    match kind {
        EventKind::Modify(ModifyKind::Data(DataChange::Content)) => true,
        _ => false,
    }
}

/// The plan for `event`, given the watch targets and the mirror root.
pub fn plan_event(event: &ChangeEvent, watch_dirs: &Vec<String>, user_dotfiles: &str) -> (r:
    EventPlan)
    ensures
        r@ == event_plan(event.kind, event.paths.deep_view(), watch_dirs.deep_view(), user_dotfiles@),
{
    let mut copies: Vec<CopyJob> = Vec::new();
    let mut unmapped: Vec<String> = Vec::new();
    let ghost paths = event.paths.deep_view();
    let ghost targets = watch_dirs.deep_view();
    if !is_content_change(&event.kind) {
        let r = EventPlan { copies, unmapped, snapshot: false };
        assert(r@.copies =~= seq![]);
        assert(r@.unmapped =~= seq![]);
        return r;
    }
    let mut i: usize = 0;
    assert(paths.subrange(0, 0) =~= seq![]);
    assert(copies@.map_values(|c: CopyJob| c@) =~= seq![]);
    assert(unmapped.deep_view() =~= seq![]);
    while i < event.paths.len()
        invariant
            i <= event.paths.len(),
            paths == event.paths.deep_view(),
            targets == watch_dirs.deep_view(),
            copies@.map_values(|c: CopyJob| c@) == planned_copies(
                paths.subrange(0, i as int),
                targets,
                user_dotfiles@,
            ),
            unmapped.deep_view() == unmapped_paths(
                paths.subrange(0, i as int),
                targets,
                user_dotfiles@,
            ),
        decreases event.paths.len() - i,
    {
        let ghost prefix = paths.subrange(0, i + 1);
        assert(prefix.drop_last() =~= paths.subrange(0, i as int));
        assert(prefix.last() == event.paths[i as int]@);
        let ghost before_copies = copies@.map_values(|c: CopyJob| c@);
        let ghost before_unmapped = unmapped.deep_view();
        match mirror_target(event.paths[i].as_str(), watch_dirs, user_dotfiles) {
            Some(job) => {
                let ghost v = job@;
                copies.push(job);
                assert(copies@.map_values(|c: CopyJob| c@) =~= before_copies.push(v));
            },
            None => {
                unmapped.push(event.paths[i].clone());
                assert(unmapped.deep_view() =~= before_unmapped.push(event.paths[i as int]@));
            },
        }
        i = i + 1;
    }
    assert(paths.subrange(0, i as int) =~= paths);
    let snapshot = copies.len() > 0;
    EventPlan { copies, unmapped, snapshot }
}

proof fn lemma_no_holder(file: Seq<char>, targets: Seq<Seq<char>>, root: Seq<char>)
    requires
        forall|j: int| 0 <= j < targets.len() ==> !lies_under(file, #[trigger] targets[j]),
    ensures
        mapped_copy(file, targets, root) is None,
    decreases targets.len(),
{
    if targets.len() > 0 {
        let rest = targets.drop_first();
        assert forall|j: int| 0 <= j < rest.len() implies !lies_under(file, #[trigger] rest[j]) by {
            assert(rest[j] == targets[j + 1]);
        }
        lemma_no_holder(file, rest, root);
    }
}

proof fn lemma_some_holder(file: Seq<char>, targets: Seq<Seq<char>>, i: int, root: Seq<char>)
    requires
        0 <= i < targets.len(),
        lies_under(file, targets[i]),
    ensures
        mapped_copy(file, targets, root) is Some,
    decreases i,
{
    if !lies_under(file, targets[0]) {
        let rest = targets.drop_first();
        assert(rest[i - 1] == targets[i]);
        lemma_some_holder(file, rest, i - 1, root);
    }
}

/// An event that names no path asks for nothing.
pub proof fn empty_event_law(kind: EventKind, targets: Seq<Seq<char>>, root: Seq<char>)
    ensures
        event_plan(kind, seq![], targets, root) == (EventPlanView {
            copies: seq![],
            unmapped: seq![],
            snapshot: false,
        }),
{
}

/// A change to metadata alone (permissions, times, owner, ...) mirrors
/// nothing and takes no snapshot, whatever paths it names.
pub proof fn metadata_change_law(
    m: MetadataKind,
    paths: Seq<Seq<char>>,
    targets: Seq<Seq<char>>,
    root: Seq<char>,
)
    ensures
        event_plan(EventKind::Modify(ModifyKind::Metadata(m)), paths, targets, root) == (
        EventPlanView { copies: seq![], unmapped: seq![], snapshot: false }),
{
}

/// A content write to one file inside a watch target plans exactly one
/// copy, the mirror step's copy of that file, and one snapshot.
pub proof fn content_write_law(path: Seq<char>, targets: Seq<Seq<char>>, i: int, root: Seq<char>)
    requires
        0 <= i < targets.len(),
        lies_under(path, targets[i]),
    ensures
        mapped_copy(path, targets, root) is Some,
        event_plan(
            EventKind::Modify(ModifyKind::Data(DataChange::Content)),
            seq![path],
            targets,
            root,
        ) == (EventPlanView {
            copies: seq![mapped_copy(path, targets, root)->0],
            unmapped: seq![],
            snapshot: true,
        }),
{
    lemma_some_holder(path, targets, i, root);
    let paths = seq![path];
    assert(paths.drop_last() =~= seq![]);
    assert(paths.last() == path);
    assert(planned_copies(paths.drop_last(), targets, root) == Seq::<CopyJobView>::empty());
    assert(unmapped_paths(paths.drop_last(), targets, root) == Seq::<Seq<char>>::empty());
    assert(seq![].push(mapped_copy(path, targets, root)->0) =~= seq![
        mapped_copy(path, targets, root)->0,
    ]);
}

/// A content write to a path that no watch target holds copies nothing and
/// takes no snapshot; the path is reported as unmapped.
pub proof fn unmapped_path_law(path: Seq<char>, targets: Seq<Seq<char>>, root: Seq<char>)
    requires
        forall|j: int| 0 <= j < targets.len() ==> !lies_under(path, #[trigger] targets[j]),
    ensures
        event_plan(
            EventKind::Modify(ModifyKind::Data(DataChange::Content)),
            seq![path],
            targets,
            root,
        ) == (EventPlanView { copies: seq![], unmapped: seq![path], snapshot: false }),
{
    lemma_no_holder(path, targets, root);
    let paths = seq![path];
    assert(paths.drop_last() =~= seq![]);
    assert(paths.last() == path);
    assert(planned_copies(paths.drop_last(), targets, root) == Seq::<CopyJobView>::empty());
    assert(unmapped_paths(paths.drop_last(), targets, root) == Seq::<Seq<char>>::empty());
    assert(seq![].push(path) =~= seq![path]);
}

} // verus!

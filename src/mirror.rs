//! Where watched files go inside the mirror tree: the seed copies made before
//! watching starts, and the copy that follows a change to one file.
use vstd::prelude::*;
use crate::paths::{
    base_name, components, is_absolute, lemma_components_of_join, base_name_spec, is_under, join_all, join_parts, join_path, join_spec, lies_under,
    path_components, relative_components,
};

verus! {

/// One whole-directory copy of the initial seed, as paths.
pub struct SyncJobView {
    pub source: Seq<char>,
    pub destination: Seq<char>,
}

/// One whole-directory copy of the initial seed: `source` is copied,
/// recursively, to `destination`.
pub struct SyncJob {
    pub source: String,
    pub destination: String,
}

impl View for SyncJob {
    type V = SyncJobView;

    open spec fn view(&self) -> SyncJobView {
        SyncJobView { source: self.source@, destination: self.destination@ }
    }
}

/// One file copy of the mirror step, as paths.
pub struct CopyJobView {
    pub source: Seq<char>,
    pub dir: Seq<char>,
    pub destination: Seq<char>,
}

/// One file copy of the mirror step: `dir` is created with its parents, then
/// `source` is copied to `destination`, which lies in `dir`.
pub struct CopyJob {
    pub source: String,
    pub dir: String,
    pub destination: String,
}

impl View for CopyJob {
    type V = CopyJobView;

    open spec fn view(&self) -> CopyJobView {
        CopyJobView { source: self.source@, dir: self.dir@, destination: self.destination@ }
    }
}

/// The subtree of the mirror root that holds the copy of `target`: the
/// target's final name under `root`.
pub open spec fn mirror_subtree(target: Seq<char>, root: Seq<char>) -> Seq<char> {
    join_spec(root, base_name_spec(target))
}

/// The copy that mirrors `file`, which lies inside `target`.
pub open spec fn copy_into(file: Seq<char>, target: Seq<char>, root: Seq<char>) -> CopyJobView {
    let rel = relative_components(file, target);
    let top = mirror_subtree(target, root);
    CopyJobView {
        source: file,
        dir: join_all(top, rel.drop_last()),
        destination: join_all(top, rel),
    }
}

/// The copy that mirrors `file`: into the first of `targets` that holds it,
/// none when no target does.
pub open spec fn mapped_copy(file: Seq<char>, targets: Seq<Seq<char>>, root: Seq<char>) -> Option<
    CopyJobView,
>
    decreases targets.len(),
{
    if targets.len() == 0 {
        None
    } else if lies_under(file, targets[0]) {
        Some(copy_into(file, targets[0], root))
    } else {
        mapped_copy(file, targets.drop_first(), root)
    }
}

/// The seed plan: one whole-directory copy per watch target, in order, each
/// into the target's subtree of the mirror root.
pub fn initial_sync(watch_files: &Vec<String>, user_dotfiles: &str) -> (r: Vec<SyncJob>)
    ensures
        r.len() == watch_files.len(),
        forall|i: int|
            0 <= i < r.len() ==> (#[trigger] r[i])@ == (SyncJobView {
                source: watch_files[i]@,
                destination: mirror_subtree(watch_files[i]@, user_dotfiles@),
            }),
{
    let mut r: Vec<SyncJob> = Vec::new();
    let mut i: usize = 0;
    while i < watch_files.len()
        invariant
            i <= watch_files.len(),
            r.len() == i,
            forall|k: int|
                0 <= k < i ==> (#[trigger] r[k])@ == (SyncJobView {
                    source: watch_files[k]@,
                    destination: mirror_subtree(watch_files[k]@, user_dotfiles@),
                }),
        decreases watch_files.len() - i,
    {
        let name = base_name(watch_files[i].as_str());
        let destination = join_path(user_dotfiles, name.as_str());
        r.push(SyncJob { source: watch_files[i].clone(), destination });
        i = i + 1;
    }
    r
}

/// The copy that mirrors `file` into the subtree of `target`, which holds it.
fn copy_job(file: &str, target: &str, user_dotfiles: &str) -> (r: CopyJob)
    requires
        lies_under(file@, target@),
    ensures
        r@ == copy_into(file@, target@, user_dotfiles@),
{
    let name = base_name(target);
    let top = join_path(user_dotfiles, name.as_str());
    let file_comps = path_components(file);
    let depth = path_components(target).len();
    let n = file_comps.len();
    let dir = join_parts(top.as_str(), &file_comps, depth, n - 1);
    let destination = join_parts(top.as_str(), &file_comps, depth, n);
    let ghost rel = relative_components(file@, target@);
    assert(file_comps.deep_view().subrange(depth as int, n - 1) =~= rel.drop_last());
    assert(file_comps.deep_view().subrange(depth as int, n as int) =~= rel);
    CopyJob { source: String::from_str(file), dir, destination }
}

/// The mirror step's plan for one changed file: the copy into the first
/// watch target that holds it, or none when no target does.
pub fn mirror_target(changed: &str, watch_dirs: &Vec<String>, user_dotfiles: &str) -> (r: Option<
    CopyJob,
>)
    ensures
        match r {
            Some(job) => mapped_copy(changed@, watch_dirs.deep_view(), user_dotfiles@) == Some(
                job@,
            ),
            None => mapped_copy(changed@, watch_dirs.deep_view(), user_dotfiles@) is None,
        },
{
    let ghost targets = watch_dirs.deep_view();
    let mut i: usize = 0;
    assert(targets.subrange(0, targets.len() as int) =~= targets);
    while i < watch_dirs.len()
        invariant
            i <= watch_dirs.len(),
            targets == watch_dirs.deep_view(),
            mapped_copy(changed@, targets, user_dotfiles@) == mapped_copy(
                changed@,
                targets.subrange(i as int, targets.len() as int),
                user_dotfiles@,
            ),
        decreases watch_dirs.len() - i,
    {
        let ghost rest = targets.subrange(i as int, targets.len() as int);
        assert(rest[0] == watch_dirs[i as int]@);
        if is_under(changed, watch_dirs[i].as_str()) {
            return Some(copy_job(changed, watch_dirs[i].as_str(), user_dotfiles));
        }
        assert(rest.drop_first() =~= targets.subrange(i + 1, targets.len() as int));
        i = i + 1;
    }
    None
}

proof fn lemma_first_holder(file: Seq<char>, targets: Seq<Seq<char>>, i: int, root: Seq<char>)
    requires
        0 <= i < targets.len(),
        lies_under(file, targets[i]),
        forall|j: int| 0 <= j < i ==> !lies_under(file, #[trigger] targets[j]),
    ensures
        mapped_copy(file, targets, root) == Some(copy_into(file, targets[i], root)),
    decreases i,
{
    if i > 0 {
        let rest = targets.drop_first();
        assert forall|j: int| 0 <= j < i - 1 implies !lies_under(file, #[trigger] rest[j]) by {
            assert(rest[j] == targets[j + 1]);
        }
        lemma_first_holder(file, rest, i - 1, root);
    }
}

/// Mirror layout: a file at the relative path `rel` inside a watch target is
/// mirrored to `rel` below the subtree that the initial seed copies that
/// target to, provided no earlier target holds it (first match wins).
pub proof fn mirror_layout_law(targets: Seq<Seq<char>>, i: int, rel: Seq<char>, root: Seq<char>)
    requires
        0 <= i < targets.len(),
        !is_absolute(rel),
        components(rel).len() > 0,
        forall|j: int|
            0 <= j < i ==> !lies_under(join_spec(targets[i], rel), #[trigger] targets[j]),
    ensures
        mapped_copy(join_spec(targets[i], rel), targets, root) == Some(
            CopyJobView {
                source: join_spec(targets[i], rel),
                dir: join_all(mirror_subtree(targets[i], root), components(rel).drop_last()),
                destination: join_all(mirror_subtree(targets[i], root), components(rel)),
            },
        ),
{
    let t = targets[i];
    let file = join_spec(t, rel);
    lemma_components_of_join(t, rel);
    let ct = components(t);
    let cf = components(file);
    assert(cf.subrange(0, ct.len() as int) =~= ct);
    assert(relative_components(file, t) =~= components(rel));
    lemma_first_holder(file, targets, i, root);
}

} // verus!

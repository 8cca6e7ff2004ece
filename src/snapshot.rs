//! The snapshot committer as a sequence of repository steps. The caller
//! performs each step on the repository at the mirror root and reports the
//! reply; `advance` decides the next step, until the attempt is done.
use vstd::prelude::*;

verus! {

/// The message of every snapshot commit.
pub const COMMIT_MESSAGE: &'static str = "Oxidots: update";

/// The identity name used when the repository configures none.
pub const DEFAULT_NAME: &'static str = "Oxidots";

/// The identity email used when the repository configures none.
pub const DEFAULT_EMAIL: &'static str = "oxidots@localhost";

/// The repository step at which an attempt failed.
#[derive(Clone, Copy, Debug, PartialEq, Eq, Structural)]
pub enum FailureReason {
    Init,
    Status,
    Stage,
    WriteTree,
    Identity,
    Commit,
    UnexpectedReply,
}

/// How a snapshot attempt ended.
#[derive(Clone, Copy, Debug, PartialEq, Eq, Structural)]
pub enum SnapshotOutcome {
    Committed,
    NoChanges,
    Failed(FailureReason),
}

/// Whose name and email a commit carries.
#[derive(Clone, Copy, Debug, PartialEq, Eq, Structural)]
pub enum Identity {
    Configured,
    Default,
}

/// The next thing to do in a snapshot attempt.
#[derive(Clone, Copy, Debug, PartialEq, Eq, Structural)]
pub enum SnapshotStep {
    /// Open the repository at the mirror root, creating the directory.
    OpenRepository,
    /// Initialise a repository in place.
    InitRepository,
    /// Count status entries: untracked files included, untracked
    /// directories recursed into, ignored files left out.
    ReadStatus,
    /// Stage every path, forcing past ignore rules.
    StageAll,
    /// Write the index as a tree.
    WriteTree,
    /// Look up the commit that HEAD refers to, if any.
    ResolveHead,
    /// Look up the configured identity.
    ResolveIdentity { parent: bool },
    /// Build the default identity.
    DefaultIdentity { parent: bool },
    /// Commit the tree on HEAD with `COMMIT_MESSAGE`, with HEAD's commit as
    /// sole parent when `parent` holds and with no parent otherwise.
    CreateCommit { parent: bool, identity: Identity },
    /// The attempt is over.
    Done(SnapshotOutcome),
}

/// What performing a step gave.
#[derive(Clone, Copy, Debug, PartialEq, Eq, Structural)]
pub enum Reply {
    Opened,
    OpenFailed,
    Initialized,
    InitFailed,
    /// The number of status entries.
    Status(u64),
    StatusFailed,
    Staged,
    StageFailed,
    TreeWritten,
    TreeFailed,
    /// Whether HEAD refers to a commit.
    Head(bool),
    IdentityFound,
    IdentityMissing,
    DefaultIdentityMade,
    DefaultIdentityFailed,
    CommitCreated,
    CommitFailed,
}

/// The step that follows `step` when performing it gave `reply`.
pub open spec fn next_step(step: SnapshotStep, reply: Reply) -> SnapshotStep {
    match step {
        SnapshotStep::OpenRepository => match reply {
            Reply::Opened => SnapshotStep::ReadStatus,
            Reply::OpenFailed => SnapshotStep::InitRepository,
            _ => SnapshotStep::Done(SnapshotOutcome::Failed(FailureReason::UnexpectedReply)),
        },
        SnapshotStep::InitRepository => match reply {
            Reply::Initialized => SnapshotStep::ReadStatus,
            Reply::InitFailed => SnapshotStep::Done(SnapshotOutcome::Failed(FailureReason::Init)),
            _ => SnapshotStep::Done(SnapshotOutcome::Failed(FailureReason::UnexpectedReply)),
        },
        SnapshotStep::ReadStatus => match reply {
            Reply::Status(n) => if n == 0 {
                SnapshotStep::Done(SnapshotOutcome::NoChanges)
            } else {
                SnapshotStep::StageAll
            },
            Reply::StatusFailed => SnapshotStep::Done(
                SnapshotOutcome::Failed(FailureReason::Status),
            ),
            _ => SnapshotStep::Done(SnapshotOutcome::Failed(FailureReason::UnexpectedReply)),
        },
        SnapshotStep::StageAll => match reply {
            Reply::Staged => SnapshotStep::WriteTree,
            Reply::StageFailed => SnapshotStep::Done(SnapshotOutcome::Failed(FailureReason::Stage)),
            _ => SnapshotStep::Done(SnapshotOutcome::Failed(FailureReason::UnexpectedReply)),
        },
        SnapshotStep::WriteTree => match reply {
            Reply::TreeWritten => SnapshotStep::ResolveHead,
            Reply::TreeFailed => SnapshotStep::Done(
                SnapshotOutcome::Failed(FailureReason::WriteTree),
            ),
            _ => SnapshotStep::Done(SnapshotOutcome::Failed(FailureReason::UnexpectedReply)),
        },
        SnapshotStep::ResolveHead => match reply {
            Reply::Head(found) => SnapshotStep::ResolveIdentity { parent: found },
            _ => SnapshotStep::Done(SnapshotOutcome::Failed(FailureReason::UnexpectedReply)),
        },
        SnapshotStep::ResolveIdentity { parent } => match reply {
            Reply::IdentityFound => SnapshotStep::CreateCommit {
                parent,
                identity: Identity::Configured,
            },
            Reply::IdentityMissing => SnapshotStep::DefaultIdentity { parent },
            _ => SnapshotStep::Done(SnapshotOutcome::Failed(FailureReason::UnexpectedReply)),
        },
        SnapshotStep::DefaultIdentity { parent } => match reply {
            Reply::DefaultIdentityMade => SnapshotStep::CreateCommit {
                parent,
                identity: Identity::Default,
            },
            Reply::DefaultIdentityFailed => SnapshotStep::Done(
                SnapshotOutcome::Failed(FailureReason::Identity),
            ),
            _ => SnapshotStep::Done(SnapshotOutcome::Failed(FailureReason::UnexpectedReply)),
        },
        SnapshotStep::CreateCommit { .. } => match reply {
            Reply::CommitCreated => SnapshotStep::Done(SnapshotOutcome::Committed),
            Reply::CommitFailed => SnapshotStep::Done(
                SnapshotOutcome::Failed(FailureReason::Commit),
            ),
            _ => SnapshotStep::Done(SnapshotOutcome::Failed(FailureReason::UnexpectedReply)),
        },
        SnapshotStep::Done(outcome) => SnapshotStep::Done(outcome),
    }
}

/// The step reached from `step` through `replies`, in order.
pub open spec fn run(step: SnapshotStep, replies: Seq<Reply>) -> SnapshotStep
    decreases replies.len(),
{
    if replies.len() == 0 {
        step
    } else {
        next_step(run(step, replies.drop_last()), replies.last())
    }
}

/// The first step of every attempt.
pub fn start() -> (r: SnapshotStep)
    ensures
        r == SnapshotStep::OpenRepository,
{
    SnapshotStep::OpenRepository
}

/// The step that follows `step` when performing it gave `reply`.
pub fn advance(step: SnapshotStep, reply: Reply) -> (r: SnapshotStep)
    ensures
        r == next_step(step, reply),
{
    let failed = SnapshotStep::Done(SnapshotOutcome::Failed(FailureReason::UnexpectedReply));
    match step {
        SnapshotStep::OpenRepository => match reply {
            Reply::Opened => SnapshotStep::ReadStatus,
            Reply::OpenFailed => SnapshotStep::InitRepository,
            _ => failed,
        },
        SnapshotStep::InitRepository => match reply {
            Reply::Initialized => SnapshotStep::ReadStatus,
            Reply::InitFailed => SnapshotStep::Done(SnapshotOutcome::Failed(FailureReason::Init)),
            _ => failed,
        },
        SnapshotStep::ReadStatus => match reply {
            Reply::Status(n) => if n == 0 {
                SnapshotStep::Done(SnapshotOutcome::NoChanges)
            } else {
                SnapshotStep::StageAll
            },
            Reply::StatusFailed => SnapshotStep::Done(
                SnapshotOutcome::Failed(FailureReason::Status),
            ),
            _ => failed,
        },
        SnapshotStep::StageAll => match reply {
            Reply::Staged => SnapshotStep::WriteTree,
            Reply::StageFailed => SnapshotStep::Done(SnapshotOutcome::Failed(FailureReason::Stage)),
            _ => failed,
        },
        SnapshotStep::WriteTree => match reply {
            Reply::TreeWritten => SnapshotStep::ResolveHead,
            Reply::TreeFailed => SnapshotStep::Done(
                SnapshotOutcome::Failed(FailureReason::WriteTree),
            ),
            _ => failed,
        },
        SnapshotStep::ResolveHead => match reply {
            Reply::Head(found) => SnapshotStep::ResolveIdentity { parent: found },
            _ => failed,
        },
        SnapshotStep::ResolveIdentity { parent } => match reply {
            Reply::IdentityFound => SnapshotStep::CreateCommit {
                parent,
                identity: Identity::Configured,
            },
            Reply::IdentityMissing => SnapshotStep::DefaultIdentity { parent },
            _ => failed,
        },
        SnapshotStep::DefaultIdentity { parent } => match reply {
            Reply::DefaultIdentityMade => SnapshotStep::CreateCommit {
                parent,
                identity: Identity::Default,
            },
            Reply::DefaultIdentityFailed => SnapshotStep::Done(
                SnapshotOutcome::Failed(FailureReason::Identity),
            ),
            _ => failed,
        },
        SnapshotStep::CreateCommit { .. } => match reply {
            Reply::CommitCreated => SnapshotStep::Done(SnapshotOutcome::Committed),
            Reply::CommitFailed => SnapshotStep::Done(
                SnapshotOutcome::Failed(FailureReason::Commit),
            ),
            _ => failed,
        },
        SnapshotStep::Done(outcome) => SnapshotStep::Done(outcome),
    }
}

proof fn lemma_run_push(step: SnapshotStep, replies: Seq<Reply>, reply: Reply)
    ensures
        run(step, replies.push(reply)) == next_step(run(step, replies), reply),
{
    assert(replies.push(reply).drop_last() =~= replies);
}

proof fn lemma_run_append(step: SnapshotStep, first: Seq<Reply>, then: Seq<Reply>)
    ensures
        run(step, first + then) == run(run(step, first), then),
    decreases then.len(),
{
    if then.len() == 0 {
        assert(first + then =~= first);
    } else {
        lemma_run_append(step, first, then.drop_last());
        assert((first + then).drop_last() =~= first + then.drop_last());
    }
}

proof fn lemma_done_stays(outcome: SnapshotOutcome, replies: Seq<Reply>)
    ensures
        run(SnapshotStep::Done(outcome), replies) == SnapshotStep::Done(outcome),
    decreases replies.len(),
{
    if replies.len() > 0 {
        lemma_done_stays(outcome, replies.drop_last());
    }
}

/// Whether a reply reports a working tree that differs from HEAD.
pub open spec fn reports_changes(reply: Reply) -> bool {
    match reply {
        Reply::Status(n) => n > 0,
        _ => false,
    }
}

/// The steps that come only after changes were reported.
pub open spec fn past_status(step: SnapshotStep) -> bool {
    match step {
        SnapshotStep::StageAll | SnapshotStep::WriteTree | SnapshotStep::ResolveHead
        | SnapshotStep::ResolveIdentity { .. } | SnapshotStep::DefaultIdentity { .. }
        | SnapshotStep::CreateCommit { .. } => true,
        SnapshotStep::Done(outcome) => outcome == SnapshotOutcome::Committed,
        _ => false,
    }
}

/// Idempotence: once the status reports no entries the attempt ends with
/// `NoChanges`, whatever is replied afterwards, so it never asks for a
/// commit and HEAD stays where it was.
pub proof fn unchanged_tree_law(before: Seq<Reply>, after: Seq<Reply>)
    requires
        run(SnapshotStep::OpenRepository, before) == SnapshotStep::ReadStatus,
    ensures
        run(SnapshotStep::OpenRepository, before.push(Reply::Status(0)) + after)
            == SnapshotStep::Done(SnapshotOutcome::NoChanges),
{
    lemma_run_push(SnapshotStep::OpenRepository, before, Reply::Status(0));
    lemma_run_append(SnapshotStep::OpenRepository, before.push(Reply::Status(0)), after);
    lemma_done_stays(SnapshotOutcome::NoChanges, after);
}

/// No empty commits: an attempt that reaches a commit, or has committed,
/// was told by the status that the working tree differs from HEAD.
pub proof fn commit_needs_changes_law(replies: Seq<Reply>)
    ensures
        past_status(run(SnapshotStep::OpenRepository, replies)) ==> exists|k: int|
            0 <= k < replies.len() && reports_changes(#[trigger] replies[k]),
    decreases replies.len(),
{
    if replies.len() > 0 {
        let prev = replies.drop_last();
        commit_needs_changes_law(prev);
        if past_status(run(SnapshotStep::OpenRepository, replies)) {
            if past_status(run(SnapshotStep::OpenRepository, prev)) {
                let k = choose|k: int| 0 <= k < prev.len() && reports_changes(#[trigger] prev[k]);
                assert(replies[k] == prev[k]);
            } else {
                let k = replies.len() - 1;
                assert(reports_changes(replies[k]));
            }
        }
    }
}

/// Parentage follows HEAD: the commit has HEAD's commit as parent exactly
/// when HEAD refers to one, with either identity.
pub proof fn parent_follows_head_law(before: Seq<Reply>, head: bool)
    requires
        run(SnapshotStep::OpenRepository, before) == SnapshotStep::ResolveHead,
    ensures
        run(SnapshotStep::OpenRepository, before.push(Reply::Head(head)).push(Reply::IdentityFound))
            == (SnapshotStep::CreateCommit { parent: head, identity: Identity::Configured }),
        run(
            SnapshotStep::OpenRepository,
            before.push(Reply::Head(head)).push(Reply::IdentityMissing).push(
                Reply::DefaultIdentityMade,
            ),
        ) == (SnapshotStep::CreateCommit { parent: head, identity: Identity::Default }),
{
    let s = SnapshotStep::OpenRepository;
    let h = before.push(Reply::Head(head));
    lemma_run_push(s, before, Reply::Head(head));
    lemma_run_push(s, h, Reply::IdentityFound);
    lemma_run_push(s, h, Reply::IdentityMissing);
    lemma_run_push(s, h.push(Reply::IdentityMissing), Reply::DefaultIdentityMade);
}

/// First-commit safety: where no repository exists yet and there is
/// something to record, the attempt initialises one, makes a commit with no
/// parent and ends with `Committed`, with or without a configured identity.
pub proof fn first_commit_law(entries: u64, configured: bool)
    requires
        entries > 0,
    ensures
        ({
            let fresh = seq![
                Reply::OpenFailed,
                Reply::Initialized,
                Reply::Status(entries),
                Reply::Staged,
                Reply::TreeWritten,
                Reply::Head(false),
            ];
            let ready = if configured {
                fresh.push(Reply::IdentityFound)
            } else {
                fresh.push(Reply::IdentityMissing).push(Reply::DefaultIdentityMade)
            };
            &&& run(SnapshotStep::OpenRepository, ready) == (SnapshotStep::CreateCommit {
                parent: false,
                identity: if configured {
                    Identity::Configured
                } else {
                    Identity::Default
                },
            })
            &&& run(SnapshotStep::OpenRepository, ready.push(Reply::CommitCreated))
                == SnapshotStep::Done(SnapshotOutcome::Committed)
        }),
{
    let s = SnapshotStep::OpenRepository;
    let e: Seq<Reply> = seq![];
    let r1 = e.push(Reply::OpenFailed);
    let r2 = r1.push(Reply::Initialized);
    let r3 = r2.push(Reply::Status(entries));
    let r4 = r3.push(Reply::Staged);
    let r5 = r4.push(Reply::TreeWritten);
    lemma_run_push(s, e, Reply::OpenFailed);
    lemma_run_push(s, r1, Reply::Initialized);
    lemma_run_push(s, r2, Reply::Status(entries));
    lemma_run_push(s, r3, Reply::Staged);
    lemma_run_push(s, r4, Reply::TreeWritten);
    assert(r5 =~= seq![
        Reply::OpenFailed,
        Reply::Initialized,
        Reply::Status(entries),
        Reply::Staged,
        Reply::TreeWritten,
    ]);
    parent_follows_head_law(r5, false);
    let fresh = r5.push(Reply::Head(false));
    assert(fresh =~= seq![
        Reply::OpenFailed,
        Reply::Initialized,
        Reply::Status(entries),
        Reply::Staged,
        Reply::TreeWritten,
        Reply::Head(false),
    ]);
    let ready = if configured {
        fresh.push(Reply::IdentityFound)
    } else {
        fresh.push(Reply::IdentityMissing).push(Reply::DefaultIdentityMade)
    };
    lemma_run_push(s, ready, Reply::CommitCreated);
}

} // verus!

use oxidots::snapshot::{
    advance, start, FailureReason, Identity, Reply, SnapshotOutcome, SnapshotStep,
    COMMIT_MESSAGE, DEFAULT_EMAIL, DEFAULT_NAME,
};

fn drive(replies: &[Reply]) -> SnapshotStep {
    let mut step = start();
    for r in replies {
        step = advance(step, *r);
    }
    step
}

#[test]
fn fresh_place_gets_a_parentless_first_commit() {
    let ready = [
        Reply::OpenFailed,
        Reply::Initialized,
        Reply::Status(1),
        Reply::Staged,
        Reply::TreeWritten,
        Reply::Head(false),
        Reply::IdentityMissing,
        Reply::DefaultIdentityMade,
    ];
    assert_eq!(
        drive(&ready),
        SnapshotStep::CreateCommit { parent: false, identity: Identity::Default }
    );
    let mut all = ready.to_vec();
    all.push(Reply::CommitCreated);
    assert_eq!(drive(&all), SnapshotStep::Done(SnapshotOutcome::Committed));
}

#[test]
fn existing_history_commits_on_top_of_head() {
    let ready = [
        Reply::Opened,
        Reply::Status(3),
        Reply::Staged,
        Reply::TreeWritten,
        Reply::Head(true),
        Reply::IdentityFound,
    ];
    assert_eq!(
        drive(&ready),
        SnapshotStep::CreateCommit { parent: true, identity: Identity::Configured }
    );
}

#[test]
fn clean_tree_means_no_changes() {
    assert_eq!(
        drive(&[Reply::Opened, Reply::Status(0)]),
        SnapshotStep::Done(SnapshotOutcome::NoChanges)
    );
    assert_eq!(
        drive(&[Reply::Opened, Reply::Status(0), Reply::CommitCreated]),
        SnapshotStep::Done(SnapshotOutcome::NoChanges)
    );
}

#[test]
fn second_snapshot_after_commit_is_a_no_op() {
    let first = [
        Reply::Opened,
        Reply::Status(1),
        Reply::Staged,
        Reply::TreeWritten,
        Reply::Head(true),
        Reply::IdentityFound,
        Reply::CommitCreated,
    ];
    assert_eq!(drive(&first), SnapshotStep::Done(SnapshotOutcome::Committed));
    assert_eq!(
        drive(&[Reply::Opened, Reply::Status(0)]),
        SnapshotStep::Done(SnapshotOutcome::NoChanges)
    );
}

#[test]
fn each_failure_is_reported() {
    let failed = |r: FailureReason| SnapshotStep::Done(SnapshotOutcome::Failed(r));
    assert_eq!(drive(&[Reply::OpenFailed, Reply::InitFailed]), failed(FailureReason::Init));
    assert_eq!(drive(&[Reply::Opened, Reply::StatusFailed]), failed(FailureReason::Status));
    assert_eq!(
        drive(&[Reply::Opened, Reply::Status(2), Reply::StageFailed]),
        failed(FailureReason::Stage)
    );
    assert_eq!(
        drive(&[Reply::Opened, Reply::Status(2), Reply::Staged, Reply::TreeFailed]),
        failed(FailureReason::WriteTree)
    );
    let to_identity = [
        Reply::Opened,
        Reply::Status(2),
        Reply::Staged,
        Reply::TreeWritten,
        Reply::Head(false),
        Reply::IdentityMissing,
        Reply::DefaultIdentityFailed,
    ];
    assert_eq!(drive(&to_identity), failed(FailureReason::Identity));
    let to_commit = [
        Reply::Opened,
        Reply::Status(2),
        Reply::Staged,
        Reply::TreeWritten,
        Reply::Head(false),
        Reply::IdentityFound,
        Reply::CommitFailed,
    ];
    assert_eq!(drive(&to_commit), failed(FailureReason::Commit));
    assert_eq!(drive(&[Reply::Staged]), failed(FailureReason::UnexpectedReply));
}

#[test]
fn fixed_message_and_identity() {
    assert_eq!(start(), SnapshotStep::OpenRepository);
    assert_eq!(COMMIT_MESSAGE, "Oxidots: update");
    assert_eq!(DEFAULT_NAME, "Oxidots");
    assert_eq!(DEFAULT_EMAIL, "oxidots@localhost");
}

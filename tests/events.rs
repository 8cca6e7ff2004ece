use oxidots::events::{
    is_content_change, plan_event, ChangeEvent, DataChange, EventKind, MetadataKind, ModifyKind,
};

fn strings(items: &[&str]) -> Vec<String> {
    items.iter().map(|s| s.to_string()).collect()
}

fn content() -> EventKind {
    EventKind::Modify(ModifyKind::Data(DataChange::Content))
}

#[test]
fn only_content_changes_are_actionable() {
    assert!(is_content_change(&content()));
    assert!(!is_content_change(&EventKind::Modify(ModifyKind::Data(DataChange::Size))));
    assert!(!is_content_change(&EventKind::Modify(ModifyKind::Metadata(
        MetadataKind::Permissions
    ))));
    assert!(!is_content_change(&EventKind::Modify(ModifyKind::Name)));
    assert!(!is_content_change(&EventKind::Create));
    assert!(!is_content_change(&EventKind::Remove));
    assert!(!is_content_change(&EventKind::Any));
}

#[test]
fn permission_change_plans_nothing() {
    let targets = strings(&["/home/u/nvim"]);
    let event = ChangeEvent {
        kind: EventKind::Modify(ModifyKind::Metadata(MetadataKind::Permissions)),
        paths: strings(&["/home/u/nvim/lua/init.lua"]),
    };
    let plan = plan_event(&event, &targets, "/home/u/dotfiles");
    assert!(plan.copies.is_empty());
    assert!(plan.unmapped.is_empty());
    assert!(!plan.snapshot);
}

#[test]
fn content_write_plans_one_copy_and_a_snapshot() {
    let targets = strings(&["/home/u/nvim"]);
    let event = ChangeEvent { kind: content(), paths: strings(&["/home/u/nvim/lua/init.lua"]) };
    let plan = plan_event(&event, &targets, "/home/u/dotfiles");
    assert_eq!(plan.copies.len(), 1);
    assert_eq!(plan.copies[0].destination, "/home/u/dotfiles/nvim/lua/init.lua");
    assert!(plan.unmapped.is_empty());
    assert!(plan.snapshot);
}

#[test]
fn unmapped_path_plans_no_copy_and_no_snapshot() {
    let targets = strings(&["/home/u/nvim"]);
    let event = ChangeEvent { kind: content(), paths: strings(&["/var/log/syslog"]) };
    let plan = plan_event(&event, &targets, "/home/u/dotfiles");
    assert!(plan.copies.is_empty());
    assert_eq!(plan.unmapped, strings(&["/var/log/syslog"]));
    assert!(!plan.snapshot);
}

#[test]
fn several_paths_keep_their_order() {
    let targets = strings(&["/home/u/nvim", "/home/u/fish"]);
    let event = ChangeEvent {
        kind: content(),
        paths: strings(&["/home/u/fish/config.fish", "/tmp/x", "/home/u/nvim/init.lua"]),
    };
    let plan = plan_event(&event, &targets, "/d");
    assert_eq!(plan.copies.len(), 2);
    assert_eq!(plan.copies[0].destination, "/d/fish/config.fish");
    assert_eq!(plan.copies[1].destination, "/d/nvim/init.lua");
    assert_eq!(plan.unmapped, strings(&["/tmp/x"]));
    assert!(plan.snapshot);
}

#[test]
fn event_without_paths_plans_nothing() {
    let targets = strings(&["/home/u/nvim"]);
    let event = ChangeEvent { kind: content(), paths: Vec::new() };
    let plan = plan_event(&event, &targets, "/d");
    assert!(plan.copies.is_empty());
    assert!(plan.unmapped.is_empty());
    assert!(!plan.snapshot);
}

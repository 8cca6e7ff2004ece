use oxidots::mirror::{initial_sync, mirror_target};

fn strings(items: &[&str]) -> Vec<String> {
    items.iter().map(|s| s.to_string()).collect()
}

#[test]
fn copy_and_initial_sync_copies_contents() {
    let watch_files = strings(&["/tmp/src_root"]);
    let jobs = initial_sync(&watch_files, "/tmp/dst_repo_dir");
    assert_eq!(jobs.len(), 1);
    assert_eq!(jobs[0].source, "/tmp/src_root");
    assert_eq!(jobs[0].destination, "/tmp/dst_repo_dir/src_root");
    let job = mirror_target("/tmp/src_root/nvim/lua/init.lua", &watch_files, "/tmp/dst_repo_dir")
        .unwrap();
    assert_eq!(job.destination, "/tmp/dst_repo_dir/src_root/nvim/lua/init.lua");
}

#[test]
fn initial_sync_plans_one_copy_per_target() {
    let targets = strings(&["/home/u/nvim/", "/home/u/.config/fish", "/"]);
    let jobs = initial_sync(&targets, "/home/u/dotfiles");
    assert_eq!(jobs.len(), 3);
    assert_eq!(jobs[0].destination, "/home/u/dotfiles/nvim");
    assert_eq!(jobs[1].source, "/home/u/.config/fish");
    assert_eq!(jobs[1].destination, "/home/u/dotfiles/fish");
    assert_eq!(jobs[2].destination, "/home/u/dotfiles/");
    assert!(initial_sync(&Vec::new(), "/home/u/dotfiles").is_empty());
}

#[test]
fn scenario_nvim_init_lua_maps_into_mirror() {
    let targets = strings(&["/home/u/nvim"]);
    let jobs = initial_sync(&targets, "/home/u/dotfiles");
    assert_eq!(jobs[0].destination, "/home/u/dotfiles/nvim");
    let job = mirror_target("/home/u/nvim/lua/init.lua", &targets, "/home/u/dotfiles").unwrap();
    assert_eq!(job.source, "/home/u/nvim/lua/init.lua");
    assert_eq!(job.dir, "/home/u/dotfiles/nvim/lua");
    assert_eq!(job.destination, "/home/u/dotfiles/nvim/lua/init.lua");
}

#[test]
fn mirror_target_first_match_wins() {
    let targets = strings(&["/home/u/a", "/home/u/a/b"]);
    let job = mirror_target("/home/u/a/b/c.txt", &targets, "/m").unwrap();
    assert_eq!(job.destination, "/m/a/b/c.txt");
    let reversed = strings(&["/home/u/a/b", "/home/u/a"]);
    let job = mirror_target("/home/u/a/b/c.txt", &reversed, "/m").unwrap();
    assert_eq!(job.destination, "/m/b/c.txt");
    assert_eq!(job.dir, "/m/b");
}

#[test]
fn mirror_target_outside_all_targets_is_none() {
    let targets = strings(&["/home/u/nvim"]);
    assert!(mirror_target("/home/u/nvim2/init.lua", &targets, "/m").is_none());
    assert!(mirror_target("/etc/passwd", &targets, "/m").is_none());
    assert!(mirror_target("/home/u/nvim", &targets, "/m").is_none());
    assert!(mirror_target("/home/u/nvim/x", &Vec::new(), "/m").is_none());
}

use oxidots::paths::{base_name, is_under, join_parts, join_path, path_components};

fn strings(items: &[&str]) -> Vec<String> {
    items.iter().map(|s| s.to_string()).collect()
}

#[test]
fn components_skip_empty_and_dot_pieces() {
    assert_eq!(
        path_components("/home/u//nvim/./lua/"),
        strings(&["home", "u", "nvim", "lua"])
    );
    assert_eq!(path_components("a/../b"), strings(&["a", "..", "b"]));
    assert!(path_components("/").is_empty());
    assert!(path_components("").is_empty());
}

#[test]
fn base_name_takes_last_name() {
    assert_eq!(base_name("/home/u/nvim"), "nvim");
    assert_eq!(base_name("/home/u/nvim/"), "nvim");
    assert_eq!(base_name("/home/u/nvim/."), "nvim");
    assert_eq!(base_name("/home/u/nvim/.."), "nvim");
    assert_eq!(base_name("/"), "");
}

#[test]
fn join_adds_one_separator() {
    assert_eq!(join_path("/home/u/dotfiles", "nvim"), "/home/u/dotfiles/nvim");
    assert_eq!(join_path("/home/u/dotfiles/", "nvim"), "/home/u/dotfiles/nvim");
    assert_eq!(join_path("", "nvim"), "nvim");
    assert_eq!(join_path("/home/u", "/etc"), "/etc");
    let parts = strings(&["lua", "plugins", "init.lua"]);
    assert_eq!(join_parts("/d/nvim", &parts, 0, 3), "/d/nvim/lua/plugins/init.lua");
    assert_eq!(join_parts("/d/nvim", &parts, 0, 2), "/d/nvim/lua/plugins");
    assert_eq!(join_parts("/d/nvim", &parts, 1, 1), "/d/nvim");
}

#[test]
fn under_compares_whole_components() {
    assert!(is_under("/home/u/nvim/lua/init.lua", "/home/u/nvim"));
    assert!(is_under("/home/u/nvim/init.lua", "/home/u/nvim/"));
    assert!(!is_under("/home/u/nvim2/init.lua", "/home/u/nvim"));
    assert!(!is_under("/home/u/nvim", "/home/u/nvim"));
    assert!(!is_under("home/u/nvim/x", "/home/u/nvim"));
}

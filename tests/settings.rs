use oxidots::cli::Cli;
use oxidots::config::watch_dirs_from_config;
use oxidots::watchdog::{pause_after_ping, ping_interval, watchdog_ping_interval};

fn strings(items: &[&str]) -> Vec<String> {
    items.iter().map(|s| s.to_string()).collect()
}

#[test]
fn config_lists_one_target_per_line() {
    assert_eq!(
        watch_dirs_from_config("/home/u/nvim\n/home/u/fish\n"),
        strings(&["/home/u/nvim", "/home/u/fish"])
    );
    assert_eq!(watch_dirs_from_config("/a\r\n\n/b"), strings(&["/a", "", "/b"]));
    assert_eq!(watch_dirs_from_config("/a\r"), strings(&["/a\r"]));
    assert!(watch_dirs_from_config("").is_empty());
    assert_eq!(watch_dirs_from_config("\n"), strings(&[""]));
}

#[test]
fn watchdog_pings_at_half_the_period() {
    assert_eq!(ping_interval(30_000_000), 15_000_000);
    assert_eq!(ping_interval(7), 3);
    assert_eq!(watchdog_ping_interval("30000000"), Some(15_000_000));
    assert_eq!(watchdog_ping_interval("+10"), Some(5));
    assert_eq!(watchdog_ping_interval("18446744073709551615"), Some(9_223_372_036_854_775_807));
    assert_eq!(watchdog_ping_interval("18446744073709551616"), None);
    assert_eq!(watchdog_ping_interval(""), None);
    assert_eq!(watchdog_ping_interval("-1"), None);
    assert_eq!(watchdog_ping_interval(" 10"), None);
    assert_eq!(watchdog_ping_interval("abc"), None);
}

#[test]
fn pause_makes_up_for_ping_time() {
    assert_eq!(pause_after_ping(15_000_000, 2_000), 14_998_000);
    assert_eq!(pause_after_ping(100, 100), 0);
    assert_eq!(pause_after_ping(100, 250), 0);
    let interval = ping_interval(1_000);
    let mut start: u64 = 0;
    let mut starts = Vec::new();
    for elapsed in [10u64, 499, 0, 700] {
        starts.push(start);
        start += elapsed + pause_after_ping(interval, elapsed);
    }
    starts.push(start);
    assert_eq!(starts, vec![0, 500, 1000, 1500, 2200]);
}

#[test]
fn cli_holds_settings() {
    let cli = Cli {
        config_file: "watch.conf".to_string(),
        user_dotfiles: "/home/u/dotfiles".to_string(),
        systemd: true,
    };
    assert_eq!(cli.config_file, "watch.conf");
    assert_eq!(cli.user_dotfiles, "/home/u/dotfiles");
    assert!(cli.systemd);
}

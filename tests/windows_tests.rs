use moonlight_launcher::branch::DiscordBranch;
use moonlight_launcher::locate::{get_discord_windows, join_windows_path, DiscordPath, HostDirs, Lookup};
use moonlight_launcher::version::{is_version_less, latest_app_dir, parse_app_version};

fn names(list: &[&str]) -> Vec<String> {
    list.iter().map(|s| s.to_string()).collect()
}

#[test]
fn app_versions_parse_as_numbers() {
    assert_eq!(parse_app_version("app-1.0.9013"), Some(vec![1, 0, 9013]));
    assert_eq!(parse_app_version("app-7"), Some(vec![7]));
    assert_eq!(parse_app_version("app-18446744073709551615"), Some(vec![u64::MAX]));
    assert_eq!(parse_app_version("app-18446744073709551616"), None);
    assert_eq!(parse_app_version("app-"), None);
    assert_eq!(parse_app_version("app-1..2"), None);
    assert_eq!(parse_app_version("app-1.2."), None);
    assert_eq!(parse_app_version("app-1.x"), None);
    assert_eq!(parse_app_version("packages"), None);
}

#[test]
fn versions_compare_as_tuples() {
    assert!(is_version_less(&vec![1, 0, 9], &vec![1, 0, 10]));
    assert!(!is_version_less(&vec![1, 0, 10], &vec![1, 0, 9]));
    assert!(is_version_less(&vec![1, 0], &vec![1, 0, 0]));
    assert!(!is_version_less(&vec![2], &vec![2]));
}

#[test]
fn highest_version_is_chosen_not_lexicographic() {
    let list = names(&["app-1.0.9", "packages", "app-1.0.10", "app-0.99.999"]);
    assert_eq!(latest_app_dir(&list), Some(2));
    assert_eq!(latest_app_dir(&names(&["app-2", "app-2.0", "app-02"])), Some(1));
    assert_eq!(latest_app_dir(&names(&["packages", "Update.exe"])), None);
    assert_eq!(latest_app_dir(&vec![]), None);
}

#[test]
fn windows_search_steps() {
    let dirs = HostDirs { local_data: Some("C:\\Users\\u\\AppData\\Local".to_string()), home: None };
    match get_discord_windows(DiscordBranch::Canary, &dirs, None, &None) {
        Lookup::CheckFile(p) => assert_eq!(p, "C:\\Users\\u\\AppData\\Local\\DiscordCanary\\Update.exe"),
        other => panic!("unexpected {other:?}"),
    }
    assert!(matches!(
        get_discord_windows(DiscordBranch::Canary, &dirs, Some(false), &None),
        Lookup::NotFound
    ));
    match get_discord_windows(DiscordBranch::Canary, &dirs, Some(true), &None) {
        Lookup::ListDirectory(p) => assert_eq!(p, "C:\\Users\\u\\AppData\\Local\\DiscordCanary"),
        other => panic!("unexpected {other:?}"),
    }
    let entries = Some(names(&["app-1.0.9", "app-1.0.10", "packages"]));
    match get_discord_windows(DiscordBranch::Canary, &dirs, Some(true), &entries) {
        Lookup::Found(DiscordPath::Filesystem(p)) => assert_eq!(
            p,
            "C:\\Users\\u\\AppData\\Local\\DiscordCanary\\app-1.0.10\\DiscordCanary.exe"
        ),
        other => panic!("unexpected {other:?}"),
    }
    let none = Some(names(&["packages"]));
    assert!(matches!(
        get_discord_windows(DiscordBranch::Canary, &dirs, Some(true), &none),
        Lookup::NotFound
    ));
}

#[test]
fn windows_paths_join() {
    assert_eq!(join_windows_path("C:\\a", "b"), "C:\\a\\b");
    assert_eq!(join_windows_path("C:\\a\\", "b"), "C:\\a\\b");
    assert_eq!(join_windows_path("C:/a/", "b"), "C:/a/b");
}

use moonlight_launcher::branch::DiscordBranch;
use moonlight_launcher::locate::{get_discord, join_path, DiscordPath, HostDirs, Lookup};

fn dirs() -> HostDirs {
    HostDirs {
        local_data: Some("/home/u/.local/share".to_string()),
        home: Some("/home/u".to_string()),
    }
}

fn asks(l: Lookup) -> String {
    match l {
        Lookup::CheckFile(p) => p,
        other => panic!("expected a file check, got {other:?}"),
    }
}

fn found(l: Lookup) -> String {
    match l {
        Lookup::Found(DiscordPath::Filesystem(p)) => p,
        other => panic!("expected a path, got {other:?}"),
    }
}

#[test]
fn strategies_are_asked_in_order() {
    let b = DiscordBranch::Canary;
    assert_eq!(
        asks(get_discord(b, &dirs(), &vec![], &None)),
        "/home/u/.local/share/DiscordCanary/DiscordCanary"
    );
    assert_eq!(
        asks(get_discord(b, &dirs(), &vec![false], &None)),
        "/home/u/.dvm/branches/canary/DiscordCanary/DiscordCanary"
    );
    assert_eq!(asks(get_discord(b, &dirs(), &vec![false, false], &None)), "/usr/bin/discord-canary");
    match get_discord(b, &dirs(), &vec![false, false, false], &None) {
        Lookup::ResolveCommand(c) => assert_eq!(c, "discord-canary"),
        other => panic!("expected a command lookup, got {other:?}"),
    }
}

#[test]
fn system_path_hit_ends_the_search() {
    let got = get_discord(DiscordBranch::PTB, &dirs(), &vec![false, false, true], &None);
    assert_eq!(found(got), "/usr/bin/discord-ptb");
}

#[test]
fn first_hit_wins() {
    let got = get_discord(DiscordBranch::Stable, &dirs(), &vec![true], &None);
    assert_eq!(found(got), "/home/u/.local/share/Discord/Discord");
    let got = get_discord(DiscordBranch::Development, &dirs(), &vec![false, true], &None);
    assert_eq!(found(got), "/home/u/.dvm/branches/development/DiscordDevelopment/DiscordDevelopment");
}

#[test]
fn command_lookup_output_is_trimmed() {
    let answer = Some(Some("  /opt/bin/discord-ptb\n".to_string()));
    let got = get_discord(DiscordBranch::PTB, &dirs(), &vec![false, false, false], &answer);
    assert_eq!(found(got), "/opt/bin/discord-ptb");
}

#[test]
fn nothing_found() {
    let got = get_discord(DiscordBranch::PTB, &dirs(), &vec![false, false, false], &Some(None));
    assert!(matches!(got, Lookup::NotFound));
}

#[test]
fn missing_directories_skip_only_their_strategy() {
    let no_data = HostDirs { local_data: None, home: Some("/h".to_string()) };
    assert_eq!(
        asks(get_discord(DiscordBranch::PTB, &no_data, &vec![], &None)),
        "/h/.dvm/branches/ptb/DiscordPTB/DiscordPTB"
    );
    assert_eq!(asks(get_discord(DiscordBranch::PTB, &no_data, &vec![false], &None)), "/usr/bin/discord-ptb");
    let no_home = HostDirs { local_data: Some("/d".to_string()), home: None };
    assert_eq!(asks(get_discord(DiscordBranch::PTB, &no_home, &vec![false], &None)), "/usr/bin/discord-ptb");
    let neither = HostDirs { local_data: None, home: None };
    assert_eq!(found(get_discord(DiscordBranch::PTB, &neither, &vec![true], &None)), "/usr/bin/discord-ptb");
    match get_discord(DiscordBranch::PTB, &neither, &vec![false], &None) {
        Lookup::ResolveCommand(c) => assert_eq!(c, "discord-ptb"),
        other => panic!("expected a command lookup, got {other:?}"),
    }
    let answer = Some(Some("/opt/discord-ptb\n".to_string()));
    assert_eq!(found(get_discord(DiscordBranch::PTB, &neither, &vec![false], &answer)), "/opt/discord-ptb");
}

#[test]
fn paths_join_with_one_separator() {
    assert_eq!(join_path("/a", "b"), "/a/b");
    assert_eq!(join_path("/a/", "b"), "/a/b");
    assert_eq!(join_path("", "b"), "b");
}

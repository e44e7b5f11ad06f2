use std::path::Path;
use tellme::config::{Config, ConfigError, Environment};
use tellme::files::{FileOp, Files};
use tellme::skip_list::{default_skip_commands, DEFAULT_SKIP_COMMANDS};

fn test_env() -> Environment {
    Environment {
        shell_pid: None,
        config_dir: None,
        temp_dir: None,
        platform_config_dir: None,
        system_temp_dir: "/tmp".to_string(),
    }
}

fn open_config(
    shell_pid: Option<u32>,
    config_dir: Option<&str>,
    temp_dir: Option<&str>,
    files: &mut Files,
) -> Config {
    let startup = Config::with_paths(
        shell_pid,
        config_dir.map(|s| s.to_string()),
        temp_dir.map(|s| s.to_string()),
        &test_env(),
        files,
    )
    .unwrap();
    files.run(&startup.setup);
    if let Some(op) = &startup.init_status {
        files.apply(op);
    }
    startup.config
}

fn path_text(dir: &str, name: &str) -> String {
    Path::new(dir).join(name).to_str().unwrap().to_string()
}

#[test]
fn test_config_dir_env_var() {
    let path = path_text("/sandbox/a", "tellme_config");
    let mut env = test_env();
    env.config_dir = Some(path.clone());
    env.platform_config_dir = Some("/home/alice/.config".to_string());

    assert_eq!(Config::config_dir(&env), path);
}

#[test]
fn test_temp_dir_env_var() {
    let path = path_text("/sandbox/b", "tellme");
    let mut env = test_env();
    env.temp_dir = Some(path.clone());

    assert_eq!(Config::temp_dir(&env), path);
}

#[test]
fn test_shell_pid_env_var() {
    let mut env = test_env();
    env.shell_pid = Some("12345".to_string());

    assert_eq!(Config::shell_pid(&env).unwrap(), 12345)
}

#[test]
fn test_file_paths() {
    let tmp_dir = path_text("/sandbox/c", "tellme");
    let mut files = Files::new();

    let config = open_config(Some(99999), None, Some(&tmp_dir), &mut files);
    assert_eq!(config.cmd_file(), path_text(&tmp_dir, ".tellme_cmd_99999"));
    assert_eq!(config.output_file(), path_text(&tmp_dir, ".tellme_output_99999"));
}

#[test]
fn test_skip_commands_default() {
    let temp_config = path_text("/sandbox/d", "tellme_config");
    let mut files = Files::new();

    let config = open_config(Some(99999), Some(&temp_config), None, &mut files);
    let skip_commands = config.skip_commands(&files);

    assert!(skip_commands.contains(&"vim".to_string()));
    assert!(skip_commands.contains(&"ssh".to_string()));
    assert!(skip_commands.len() >= DEFAULT_SKIP_COMMANDS.len());
}

#[test]
fn test_skip_commands_custom() {
    let temp_config = path_text("/sandbox/e", "tellme_config");
    let mut files = Files::new();

    // Create custom skip commands file
    let skip_file = path_text(&temp_config, "skip_commands");
    files.write(&skip_file, b"custom_cmd\nanother_cmd\n".to_vec());

    let config = open_config(Some(99999), Some(&temp_config), None, &mut files);
    let skip_commands = config.skip_commands(&files);

    assert!(skip_commands.contains(&"custom_cmd".to_string()));
    assert!(skip_commands.contains(&"another_cmd".to_string()));
    // Should not contain defaults when custom file exists
    assert!(!skip_commands.contains(&"vim".to_string()));
}

#[test]
fn test_set_recording_enabled() {
    let temp_config = path_text("/sandbox/f", "tellme_config");
    let mut files = Files::new();

    let mut config = open_config(Some(99999), Some(&temp_config), None, &mut files);

    // Initially should be disabled (or whatever status file says)
    let initial_status = config.is_recording_enabled();

    // Toggle
    let op = config.set_recording_enabled(!initial_status);
    files.apply(&op);
    config.recording_was_set(!initial_status);
    assert_ne!(config.is_recording_enabled(), initial_status);

    // Toggle back
    let op = config.set_recording_enabled(initial_status);
    files.apply(&op);
    config.recording_was_set(initial_status);
    assert_eq!(config.is_recording_enabled(), initial_status);
}

#[test]
fn default_list_is_the_built_in_one() {
    let expected: Vec<String> = [
        "tellme", "clear", "exit", "cd", "vim", "vi", "nano", "less", "man", "htop", "top", "ssh",
        "tmux", "source",
    ]
    .iter()
    .map(|s| s.to_string())
    .collect();
    assert_eq!(default_skip_commands(), expected);
    assert_eq!(DEFAULT_SKIP_COMMANDS.to_vec(), expected);
    let mut files = Files::new();
    let config = open_config(Some(1), Some("/c"), Some("/t"), &mut files);
    assert_eq!(config.skip_commands(&files), expected);
}

#[test]
fn construction_fails_without_a_shell_identifier() {
    let files = Files::new();
    let env = test_env();
    let r = Config::new(&env, &files);
    assert_eq!(r.err(), Some(ConfigError::InvalidShellPid));
    assert_eq!(ConfigError::InvalidShellPid.message(), "Invalid TELLME_SHELL_PID value");

    for bad in ["", " 12", "12 ", "abc", "-5", "+", "1.5", "4294967296", "99999999999999999999"] {
        let mut env = test_env();
        env.shell_pid = Some(bad.to_string());
        assert_eq!(Config::shell_pid(&env), Err(ConfigError::InvalidShellPid));
        assert!(Config::new(&env, &files).is_err());
        // an explicit identifier makes up for it
        assert!(Config::with_paths(Some(7), None, None, &env, &files).is_ok());
    }
}

#[test]
fn shell_identifier_is_read_as_std_reads_it() {
    for good in ["0", "7", "0042", "+15", "4294967295", "12345"] {
        let mut env = test_env();
        env.shell_pid = Some(good.to_string());
        assert_eq!(Config::shell_pid(&env), Ok(good.parse::<u32>().unwrap()));
    }
}

#[test]
fn locations_fall_back_in_order() {
    let mut env = test_env();
    assert_eq!(Config::config_dir(&env), "/tmp/tellme_config");
    assert_eq!(Config::temp_dir(&env), "/tmp/tellme");
    env.platform_config_dir = Some("/home/alice/.config".to_string());
    assert_eq!(Config::config_dir(&env), "/home/alice/.config/tellme");
    env.config_dir = Some("/etc/custom".to_string());
    assert_eq!(Config::config_dir(&env), "/etc/custom");
    env.temp_dir = Some("relative/dir/".to_string());
    assert_eq!(Config::temp_dir(&env), "relative/dir/");
    env.system_temp_dir = "/var/tmp/".to_string();
    env.config_dir = None;
    env.platform_config_dir = None;
    env.temp_dir = None;
    assert_eq!(Config::config_dir(&env), "/var/tmp/tellme_config");
    assert_eq!(Config::temp_dir(&env), "/var/tmp/tellme");
}

#[test]
fn detect_keeps_what_it_is_given() {
    let env = Environment::detect(
        Some("42".to_string()),
        Some("/cfg".to_string()),
        None,
        "/tmp".to_string(),
    );
    assert_eq!(env.shell_pid, Some("42".to_string()));
    assert_eq!(env.config_dir, Some("/cfg".to_string()));
    assert_eq!(env.temp_dir, None);
    assert_eq!(env.system_temp_dir, "/tmp");
    assert_eq!(env.platform_config_dir, None);
    assert_eq!(Config::config_dir(&env), "/cfg");

    let env = Environment::detect(None, None, Some("/cap".to_string()), "/tmp".to_string());
    let dir = Config::config_dir(&env);
    match &env.platform_config_dir {
        Some(base) => assert_eq!(dir, path_text(base, "tellme")),
        None => assert_eq!(dir, "/tmp/tellme_config"),
    }
}

#[test]
fn startup_creates_both_directories_and_records_the_default_status() {
    let files = Files::new();
    let mut env = test_env();
    env.shell_pid = Some("321".to_string());
    env.config_dir = Some("/cfg".to_string());
    env.temp_dir = Some("/cap".to_string());
    let startup = Config::new(&env, &files).unwrap();
    assert_eq!(
        startup.setup,
        vec![
            FileOp::CreateDirAll { path: "/cfg".to_string() },
            FileOp::CreateDirAll { path: "/cap".to_string() },
        ]
    );
    assert_eq!(
        startup.init_status,
        Some(FileOp::WriteFile { path: "/cfg/status".to_string(), data: b"disabled".to_vec() })
    );
    assert!(!startup.config.is_recording_enabled());
    assert_eq!(startup.config.status_file(), "/cfg/status");
    assert_eq!(startup.config.skip_commands_file(), "/cfg/skip_commands");
    assert_eq!(startup.config.capture_dir(), "/cap");
    assert_eq!(startup.config.cmd_file(), "/cap/.tellme_cmd_321");
    assert_eq!(startup.config.output_file(), "/cap/.tellme_output_321");
    assert_eq!(
        startup.config.temp_files(),
        vec!["/cap/.tellme_cmd_321".to_string(), "/cap/.tellme_output_321".to_string()]
    );
}

#[test]
fn status_file_is_read_with_surrounding_whitespace_trimmed() {
    for (content, expected) in [
        (&b"enabled"[..], true),
        (b"enabled\n", true),
        (b"  enabled \r\n", true),
        (b"disabled", false),
        (b"Enabled", false),
        (b"enabled!", false),
        (b"en abled", false),
        (b"", false),
        (b"\xff\xfe", false),
    ] {
        let mut files = Files::new();
        files.write("/cfg/status", content.to_vec());
        let startup =
            Config::with_paths(Some(1), Some("/cfg".to_string()), None, &test_env(), &files)
                .unwrap();
        assert_eq!(startup.config.is_recording_enabled(), expected);
        // a readable status file is left alone; an unreadable one is reset
        assert_eq!(startup.init_status.is_some(), content == b"\xff\xfe");
    }
}

#[test]
fn status_changes_only_once_the_step_has_succeeded() {
    let mut files = Files::new();
    let mut config = open_config(Some(5), Some("/cfg"), Some("/cap"), &mut files);
    let before = config.is_recording_enabled();

    // the step is handed out and not carried out, as when the write fails
    let op = config.set_recording_enabled(!before);
    assert_eq!(
        op,
        FileOp::WriteFile { path: "/cfg/status".to_string(), data: b"enabled".to_vec() }
    );
    assert_eq!(config.is_recording_enabled(), before);
    assert_eq!(files.read("/cfg/status"), Some(b"disabled".to_vec()));
    assert!(!open_config(Some(5), Some("/cfg"), Some("/cap"), &mut files).is_recording_enabled());

    // carried out and taken note of
    files.apply(&op);
    config.recording_was_set(!before);
    assert_eq!(config.is_recording_enabled(), !before);
    assert!(open_config(Some(5), Some("/cfg"), Some("/cap"), &mut files).is_recording_enabled());
}

#[test]
fn status_survives_a_restart() {
    let mut files = Files::new();
    let mut config = open_config(Some(5), Some("/cfg"), Some("/cap"), &mut files);
    assert!(!config.is_recording_enabled());
    assert_eq!(files.read("/cfg/status"), Some(b"disabled".to_vec()));

    let op = config.set_recording_enabled(true);
    assert_eq!(
        op,
        FileOp::WriteFile { path: "/cfg/status".to_string(), data: b"enabled".to_vec() }
    );
    files.apply(&op);
    config.recording_was_set(true);
    assert!(config.is_recording_enabled());
    assert!(open_config(Some(6), Some("/cfg"), Some("/cap"), &mut files).is_recording_enabled());

    let op = config.set_recording_enabled(true);
    files.apply(&op);
    config.recording_was_set(true);
    assert!(config.is_recording_enabled());

    let op = config.set_recording_enabled(false);
    files.apply(&op);
    config.recording_was_set(false);
    assert!(!config.is_recording_enabled());
    assert!(!open_config(Some(6), Some("/cfg"), Some("/cap"), &mut files).is_recording_enabled());
    assert_eq!(files.read("/cfg/status"), Some(b"disabled".to_vec()));
}

#[test]
fn skip_list_round_trip_keeps_entries_and_order() {
    let mut files = Files::new();
    let config = open_config(Some(5), Some("/cfg"), Some("/cap"), &mut files);
    let list: Vec<String> =
        ["zeta", "git*", "a b", "docker compose", "\u{e9}t\u{e9}", "*"].iter().map(|s| s.to_string()).collect();
    let ops = config.save_skip_commands(&list);
    assert_eq!(
        ops,
        vec![
            FileOp::CreateDirAll { path: "/cfg".to_string() },
            FileOp::WriteFile {
                path: "/cfg/skip_commands".to_string(),
                data: "zeta\ngit*\na b\ndocker compose\n\u{e9}t\u{e9}\n*".as_bytes().to_vec(),
            },
        ]
    );
    files.run(&ops);
    assert_eq!(config.skip_commands(&files), list);

    // an empty list is a list too: the defaults do not come back
    files.run(&config.save_skip_commands(&Vec::new()));
    assert_eq!(files.read("/cfg/skip_commands"), Some(Vec::new()));
    assert!(config.skip_commands(&files).is_empty());
}

#[test]
fn skip_list_file_is_read_line_by_line() {
    let mut files = Files::new();
    let config = open_config(Some(5), Some("/cfg"), Some("/cap"), &mut files);
    files.write("/cfg/skip_commands", b"  one  \r\n\n\t\ntwo words\n   \nthree".to_vec());
    assert_eq!(
        config.skip_commands(&files),
        vec!["one".to_string(), "two words".to_string(), "three".to_string()]
    );
    // a file that is not text counts as no file
    files.write("/cfg/skip_commands", vec![0x66, 0xff, 0x0a]);
    assert_eq!(config.skip_commands(&files), default_skip_commands());
}

#[test]
fn paths_are_injective_in_the_shell_identifier() {
    let mut files = Files::new();
    let mut seen: Vec<String> = Vec::new();
    for pid in [0u32, 1, 9, 10, 11, 99, 100, 101, 65535, 4294967295] {
        let config = open_config(Some(pid), Some("/cfg"), Some("/cap"), &mut files);
        for path in config.temp_files() {
            assert!(!seen.contains(&path));
            seen.push(path);
        }
        assert_eq!(config.cmd_file(), format!("/cap/.tellme_cmd_{}", pid));
        assert_eq!(config.output_file(), format!("/cap/.tellme_output_{}", pid));
        // stable across calls
        assert_eq!(config.cmd_file(), config.cmd_file());
    }
}

use tellme::capture::CaptureSession;
use tellme::command::{
    config_request, edit_skip_commands, handle_internal_command, internal_request, ConfigRequest,
    InternalRequest, SkipEdit, SkipOutcome,
};
use tellme::config::{Config, Environment};
use tellme::export::{export_last, Export};
use tellme::files::{FileOp, Files};

struct TestEnv {
    env: Environment,
    files: Files,
}

impl TestEnv {
    fn new() -> Self {
        let env = Environment {
            shell_pid: Some("4242".to_string()),
            config_dir: Some("/sandbox/config".to_string()),
            temp_dir: Some("/sandbox/temp".to_string()),
            platform_config_dir: None,
            system_temp_dir: "/tmp".to_string(),
        };
        Self { env, files: Files::new() }
    }

    // One invocation starts here: the configuration is made anew each time.
    fn config(&mut self) -> Config {
        let startup = Config::new(&self.env, &self.files).unwrap();
        self.files.run(&startup.setup);
        if let Some(op) = &startup.init_status {
            self.files.apply(op);
        }
        startup.config
    }

    fn status(&mut self) -> &'static str {
        if self.config().is_recording_enabled() {
            "ENABLED"
        } else {
            "DISABLED"
        }
    }

    fn switch(&mut self, enabled: bool) -> &'static str {
        let mut config = self.config();
        let op = config.set_recording_enabled(enabled);
        self.files.apply(&op);
        config.recording_was_set(enabled);
        if config.is_recording_enabled() {
            "ENABLED"
        } else {
            "DISABLED"
        }
    }

    fn internal(
        &mut self,
        should_prepare: Option<&str>,
        prepare: Option<&str>,
        cleanup: bool,
    ) -> String {
        let config = self.config();
        let session = CaptureSession::new(&config);
        let request = internal_request(
            should_prepare.map(|s| s.to_string()),
            prepare.map(|s| s.to_string()),
            cleanup,
        );
        let reply = handle_internal_command(&session, &self.files, &request);
        self.files.run(&reply.ops);
        reply.line.unwrap_or_default()
    }

    fn export(&mut self, output: Option<&str>, clipboard: bool, raw: bool) -> Export {
        let config = self.config();
        let session = CaptureSession::new(&config);
        let export =
            export_last(&session, &self.files, &output.map(|s| s.to_string()), clipboard, raw)
                .unwrap();
        if let Export::Save { op, .. } = &export {
            self.files.apply(op);
        }
        export
    }
}

#[test]
fn test_status_workflow() {
    let mut env = TestEnv::new();

    // Default status should be disabled (or init state)
    assert!(env.status().contains("DISABLED"));

    // Enable it
    assert!(env.switch(true).contains("ENABLED"));

    // Check status again
    assert!(env.status().contains("ENABLED"));

    // Disable it
    assert!(env.switch(false).contains("DISABLED"));
}

#[test]
fn test_capture_workflow() {
    let mut env = TestEnv::new();

    // Enable recording
    env.switch(true);

    // 1. Check should-prepare
    assert!(env.internal(Some("echo hello"), None, false).contains("true"));

    // 2. Prepare
    // This should output the path to the log file
    let log_path = env.internal(None, Some("echo hello"), false).trim().to_string();

    // Verify internally created files exist
    assert!(env.files.contains(&log_path));

    // Simulate the shell writing to this file
    env.files.write(&log_path, b"hello world output\x1b[31m colored\x1b[0m".to_vec());

    // 3. Capture command (tellme without args)
    // We'll output to a specific file to verify content
    let result_file = "/sandbox/temp/result.log";

    let export = env.export(Some(result_file), false, false);
    assert!(matches!(&export, Export::Save { path, .. } if path == result_file));

    assert!(env.files.contains(result_file));
    let content = env.files.read_text(result_file).expect("failed to read result");

    // Verify content
    assert!(content.contains("Command:\necho hello"));
    assert!(content.contains("hello world output colored"));
    // Should be stripped of color by default
    assert!(!content.contains("\x1b[31m"));
}

#[test]
fn test_capture_raw() {
    let mut env = TestEnv::new();
    env.switch(true);

    // Prepare
    let log_path = env.internal(None, Some("echo color"), false).trim().to_string();

    // Simulate shell writing ANSI
    env.files.write(&log_path, b"\x1b[31mRED\x1b[0m".to_vec());

    // Capture with --raw
    let result_file = "/sandbox/temp/raw.log";
    env.export(Some(result_file), false, true);

    let content = env.files.read_text(result_file).expect("failed to read result");
    assert!(content.contains("\x1b[31mRED\x1b[0m"));
}

#[test]
fn test_skip_commands() {
    let mut env = TestEnv::new();
    env.switch(true);

    // "tellme" is in default skip list
    assert!(env.internal(Some("tellme status"), None, false).contains("false"));

    // Add "secret_cmd" to skip list
    let config = env.config();
    let request = config_request(false, Some("secret_cmd".to_string()), None, false, false);
    let edit = match request {
        ConfigRequest::Edit { edit } => edit,
        other => panic!("unexpected request {:?}", other),
    };
    let update = edit_skip_commands(&config, &env.files, &edit);
    assert_eq!(update.outcome, SkipOutcome::Added);
    env.files.run(&update.ops);

    // Verify it is skipped
    assert!(env.internal(Some("secret_cmd"), None, false).contains("false"));

    // Verify normal command is still ok
    assert!(env.internal(Some("ls"), None, false).contains("true"));
}

#[test]
fn recording_scenario_from_disabled_to_a_new_pattern() {
    let mut env = TestEnv::new();
    assert_eq!(env.internal(Some("ls"), None, false), "false");

    env.switch(true);
    assert_eq!(env.internal(Some("ls"), None, false), "true");
    assert_eq!(env.internal(Some("vim file.txt"), None, false), "false");
    assert_eq!(env.internal(Some("secret_cmd"), None, false), "true");

    let config = env.config();
    let update = edit_skip_commands(
        &config,
        &env.files,
        &SkipEdit::Add { pattern: "secret*".to_string() },
    );
    env.files.run(&update.ops);
    assert_eq!(env.internal(Some("secret_cmd"), None, false), "false");
    assert_eq!(env.internal(Some("ls"), None, false), "true");
}

#[test]
fn export_scenario_stripped_and_raw() {
    let mut env = TestEnv::new();
    let path = env.internal(None, Some("echo hi"), false);
    assert_eq!(path, "/sandbox/temp/.tellme_output_4242");
    env.files.write(&path, b"hi\x1b[31m!\x1b[0m".to_vec());

    let export = env.export(Some("/out/plain.log"), false, false);
    assert_eq!(
        export,
        Export::Save {
            path: "/out/plain.log".to_string(),
            op: FileOp::WriteFile {
                path: "/out/plain.log".to_string(),
                data: b"Command:\necho hi\n=====\nhi!".to_vec(),
            },
        }
    );
    let record = env.files.read_text("/out/plain.log").unwrap();
    assert!(record.contains("Command:\necho hi"));
    assert!(record.contains("hi!"));
    assert!(!record.contains('\x1b'));

    env.export(Some("/out/raw.log"), false, true);
    let record = env.files.read_text("/out/raw.log").unwrap();
    assert_eq!(record, "Command:\necho hi\n=====\nhi\x1b[31m!\x1b[0m");

    assert_eq!(env.export(None, true, false), Export::Clipboard { text: "hi!".to_string() });
    assert_eq!(
        env.export(None, true, true),
        Export::Clipboard { text: "hi\x1b[31m!\x1b[0m".to_string() }
    );
}

#[test]
fn internal_options_are_taken_in_order() {
    let s = |t: &str| Some(t.to_string());
    assert_eq!(
        internal_request(s("a"), s("b"), true),
        InternalRequest::ShouldPrepare { command: "a".to_string() }
    );
    assert_eq!(
        internal_request(None, s("b"), true),
        InternalRequest::Prepare { command: "b".to_string() }
    );
    assert_eq!(internal_request(None, None, true), InternalRequest::Cleanup);
    assert_eq!(internal_request(None, None, false), InternalRequest::Nothing);

    let mut env = TestEnv::new();
    let path = env.internal(None, Some("ls"), true);
    assert!(env.files.contains(&path));
    assert_eq!(env.internal(None, None, true), "");
    assert!(!env.files.contains(&path));
    assert_eq!(env.internal(None, None, false), "");
}

#[test]
fn config_options_are_taken_in_order() {
    let s = |t: &str| Some(t.to_string());
    assert_eq!(config_request(true, s("a"), s("b"), true, true), ConfigRequest::List);
    assert_eq!(
        config_request(false, s("a"), s("b"), true, true),
        ConfigRequest::Edit { edit: SkipEdit::Add { pattern: "a".to_string() } }
    );
    assert_eq!(
        config_request(false, None, s("b"), true, true),
        ConfigRequest::Edit { edit: SkipEdit::Remove { pattern: "b".to_string() } }
    );
    assert_eq!(
        config_request(false, None, None, true, true),
        ConfigRequest::Edit { edit: SkipEdit::Clear }
    );
    assert_eq!(
        config_request(false, None, None, false, true),
        ConfigRequest::Edit { edit: SkipEdit::Reset }
    );
    assert_eq!(config_request(false, None, None, false, false), ConfigRequest::Nothing);
}

#[test]
fn skip_list_edits_write_the_whole_list_or_nothing() {
    let mut env = TestEnv::new();
    let config = env.config();
    let add = |p: &str| SkipEdit::Add { pattern: p.to_string() };
    let remove = |p: &str| SkipEdit::Remove { pattern: p.to_string() };

    // already there: nothing is written
    let update = edit_skip_commands(&config, &env.files, &add("vim"));
    assert_eq!(update.outcome, SkipOutcome::AlreadyPresent);
    assert!(update.ops.is_empty());

    // not there: nothing is written
    let update = edit_skip_commands(&config, &env.files, &remove("emacs"));
    assert_eq!(update.outcome, SkipOutcome::NotPresent);
    assert!(update.ops.is_empty());
    assert!(!env.files.contains("/sandbox/config/skip_commands"));

    // added at the end
    let update = edit_skip_commands(&config, &env.files, &add("emacs"));
    assert_eq!(update.outcome, SkipOutcome::Added);
    assert_eq!(
        update.ops,
        vec![
            FileOp::CreateDirAll { path: "/sandbox/config".to_string() },
            FileOp::WriteFile {
                path: "/sandbox/config/skip_commands".to_string(),
                data: b"tellme\nclear\nexit\ncd\nvim\nvi\nnano\nless\nman\nhtop\ntop\nssh\ntmux\nsource\nemacs".to_vec(),
            },
        ]
    );
    env.files.run(&update.ops);
    let list = config.skip_commands(&env.files);
    assert_eq!(list.len(), 15);
    assert_eq!(list.last(), Some(&"emacs".to_string()));

    // removed, the others in their order
    let update = edit_skip_commands(&config, &env.files, &remove("cd"));
    assert_eq!(update.outcome, SkipOutcome::Removed);
    env.files.run(&update.ops);
    let list = config.skip_commands(&env.files);
    assert_eq!(list.len(), 14);
    assert!(!list.contains(&"cd".to_string()));
    assert_eq!(list[..4], ["tellme".to_string(), "clear".to_string(), "exit".to_string(), "vim".to_string()]);

    // every occurrence goes
    env.files.write("/sandbox/config/skip_commands", b"a\nb\na\nc\na".to_vec());
    let update = edit_skip_commands(&config, &env.files, &remove("a"));
    env.files.run(&update.ops);
    assert_eq!(config.skip_commands(&env.files), vec!["b".to_string(), "c".to_string()]);

    // cleared
    let update = edit_skip_commands(&config, &env.files, &SkipEdit::Clear);
    assert_eq!(update.outcome, SkipOutcome::Cleared);
    env.files.run(&update.ops);
    assert!(config.skip_commands(&env.files).is_empty());
    assert_eq!(env.internal(Some("vim"), None, false), "false"); // recording is off
    env.switch(true);
    assert_eq!(env.internal(Some("vim"), None, false), "true");

    // reset
    let update = edit_skip_commands(&config, &env.files, &SkipEdit::Reset);
    assert_eq!(update.outcome, SkipOutcome::Reset);
    env.files.run(&update.ops);
    assert_eq!(config.skip_commands(&env.files), tellme::skip_list::default_skip_commands());
    assert_eq!(env.internal(Some("vim"), None, false), "false");
}

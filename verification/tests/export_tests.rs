use tellme::capture::{CaptureError, CaptureSession};
use tellme::config::{Config, Environment};
use tellme::export::{
    compose_record, export_content, export_last, export_to, log_file_name, target_file, Export,
};
use tellme::files::{FileOp, Files};

fn session_files() -> (Config, Files) {
    let env = Environment {
        shell_pid: Some("7".to_string()),
        config_dir: Some("/c".to_string()),
        temp_dir: Some("/t".to_string()),
        platform_config_dir: None,
        system_temp_dir: "/tmp".to_string(),
    };
    let mut files = Files::new();
    let startup = Config::new(&env, &files).unwrap();
    files.run(&startup.setup);
    (startup.config, files)
}

#[test]
fn record_has_heading_command_rule_and_content() {
    assert_eq!(compose_record("echo hi", "hi!"), "Command:\necho hi\n=====\nhi!");
    assert_eq!(compose_record("", ""), "Command:\n\n=====\n");
    assert_eq!(compose_record("a\nb", "c\n"), "Command:\na\nb\n=====\nc\n");
}

#[test]
fn content_is_stripped_unless_raw() {
    let colored = b"\x1b[1;32mok\x1b[0m plain \x1b[2Kend";
    assert_eq!(export_content(colored, false), "ok plain end");
    assert_eq!(export_content(colored, true), "\x1b[1;32mok\x1b[0m plain \x1b[2Kend");
    assert_eq!(export_content(b"no escapes", false), "no escapes");
    assert_eq!(export_content(b"", false), "");
    assert_eq!(export_content(b"", true), "");
}

#[test]
fn bytes_that_are_not_text_are_replaced_not_refused() {
    assert_eq!(export_content(&[b'a', 0xff, b'b'], true), "a\u{FFFD}b");
    assert_eq!(export_content("gr\u{fc}n".as_bytes(), true), "gr\u{fc}n");
    assert_eq!(export_content("gr\u{fc}n".as_bytes(), false), "gr\u{fc}n");
}

#[test]
fn log_file_is_named_after_the_time() {
    assert_eq!(log_file_name("2024-01-02_03-04-05"), "tellme_2024-01-02_03-04-05.log");
    assert_eq!(log_file_name(""), "tellme_.log");

    assert_eq!(target_file(&Some("my.log".to_string())), "my.log");
    let name = target_file(&None);
    assert!(name.starts_with("tellme_"));
    assert!(name.ends_with(".log"));
    let stamp = &name["tellme_".len()..name.len() - ".log".len()];
    assert_eq!(log_file_name(stamp), name);
    // a year of at least four digits, then -MM-DD_hh-mm-ss
    let c: Vec<char> = stamp.chars().collect();
    assert!(c.len() >= 19);
    let n = c.len() - 15;
    let year = if c[0] == '+' || c[0] == '-' { &c[1..n] } else { &c[..n] };
    assert!(year.len() >= 4 && year.iter().all(|d| d.is_ascii_digit()));
    for (i, expected) in "-dd-dd_dd-dd-dd".chars().enumerate() {
        if expected == 'd' {
            assert!(c[n + i].is_ascii_digit());
        } else {
            assert_eq!(c[n + i], expected);
        }
    }
    assert!(!name.contains('/'));
    let field = |at: usize| stamp[n + at..n + at + 2].parse::<u32>().unwrap();
    assert!((1..=12).contains(&field(1)));
    assert!((1..=31).contains(&field(4)));
    assert!(field(7) < 24);
    assert!(field(10) < 60);
    assert!(field(13) <= 60);
}

#[test]
fn nothing_to_export_without_a_capture() {
    let (config, mut files) = session_files();
    let session = CaptureSession::new(&config);
    assert_eq!(export_to(&session, &files, "x.log", false, false), Ok(Export::Nothing));
    assert_eq!(export_last(&session, &files, &None, true, true), Ok(Export::Nothing));

    // half a capture is no capture
    files.run(&session.create_cmd_file("ls"));
    assert_eq!(export_to(&session, &files, "x.log", false, false), Ok(Export::Nothing));
}

#[test]
fn export_of_an_empty_capture_is_a_record_without_content() {
    let (config, mut files) = session_files();
    let session = CaptureSession::new(&config);
    files.run(&session.prepare_new_command("true").ops);
    assert_eq!(
        export_to(&session, &files, "x.log", false, false),
        Ok(Export::Save {
            path: "x.log".to_string(),
            op: FileOp::WriteFile {
                path: "x.log".to_string(),
                data: b"Command:\ntrue\n=====\n".to_vec()
            },
        })
    );
    assert_eq!(
        export_to(&session, &files, "x.log", true, false),
        Ok(Export::Clipboard { text: String::new() })
    );
}

#[test]
fn export_fails_where_the_command_text_cannot_be_read() {
    let (config, mut files) = session_files();
    let session = CaptureSession::new(&config);
    files.write(&config.cmd_file(), vec![0xc3]);
    files.write(&config.output_file(), b"out".to_vec());
    assert_eq!(
        export_to(&session, &files, "x.log", false, false),
        Err(CaptureError::InvalidData)
    );
    assert_eq!(export_last(&session, &files, &None, true, false), Err(CaptureError::InvalidData));
}

#[test]
fn raw_export_hands_over_well_formed_output_verbatim() {
    let (config, mut files) = session_files();
    let session = CaptureSession::new(&config);
    files.run(&session.prepare_new_command("tput").ops);
    let output = "\x1b[31mr\u{f6}t\x1b[0m \x1b]0;title\x07 \u{1F600}\r\n";
    files.write(&config.output_file(), output.as_bytes().to_vec());
    assert_eq!(
        export_to(&session, &files, "x.log", true, true),
        Ok(Export::Clipboard { text: output.to_string() })
    );
    assert_eq!(
        export_last(&session, &files, &Some("x.log".to_string()), false, true),
        Ok(Export::Save {
            path: "x.log".to_string(),
            op: FileOp::WriteFile {
                path: "x.log".to_string(),
                data: format!("Command:\ntput\n=====\n{}", output).into_bytes(),
            },
        })
    );
    assert_eq!(
        export_last(&session, &files, &None, true, true),
        Ok(Export::Clipboard { text: output.to_string() })
    );
}

#[test]
fn export_without_a_name_goes_to_a_log_file() {
    let (config, mut files) = session_files();
    let session = CaptureSession::new(&config);
    files.run(&session.prepare_new_command("date").ops);
    files.write(&config.output_file(), b"\x1b[0mnow".to_vec());
    match export_last(&session, &files, &None, false, false) {
        Ok(Export::Save { path, op }) => {
            assert!(path.starts_with("tellme_") && path.ends_with(".log"));
            assert_eq!(
                op,
                FileOp::WriteFile { path, data: b"Command:\ndate\n=====\nnow".to_vec() }
            );
        },
        other => panic!("unexpected {:?}", other),
    }
}

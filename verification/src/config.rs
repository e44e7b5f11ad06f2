//! Where the tool keeps its files, whether it records, and what it skips.

use vstd::prelude::*;
use vstd::string::*;
use vstd::utf8::*;
use crate::decimal::{decimal, lemma_decimal_injective, parse_u32, parse_u32_spec, to_decimal};
use crate::files::{
    apply_op, apply_ops, lemma_apply_two, ops_view, text_at, Disk, FileOp, FileOpView, Files,
};
use crate::paths::{is_absolute, join, join_path, lemma_join_injective};
use crate::skip_list::{
    default_skip_commands, default_skip_list, format_skip_list, join_lines, lemma_parse_join,
    parse_entries, parse_skip_list, storable, texts,
};
use crate::text::{
    chars_of, lemma_trim_of_trimmed, range_equals, skip_spaces, skip_spaces_back, trim,
};

verus! {

/// Why no configuration could be made.
#[derive(Debug, Clone, Copy, PartialEq, Eq)]
pub enum ConfigError {
    /// The shell gave no identifier, or one that is not a number.
    InvalidShellPid,
}

impl ConfigError {
    /// The fault in words.
    pub fn message(&self) -> (r: String)
        ensures
            r@ == "Invalid TELLME_SHELL_PID value"@,
    {
        String::from_str("Invalid TELLME_SHELL_PID value")
    }
}

/// What the surroundings of the process say about where to work.
#[derive(Debug, Clone)]
pub struct Environment {
    /// The shell's identifier as the shell integration handed it over
    /// (`TELLME_SHELL_PID`), if set.
    pub shell_pid: Option<String>,
    /// The directory for configuration files (`TELLME_CONFIG_DIR`), if set.
    pub config_dir: Option<String>,
    /// The directory for capture files (`TELLME_TEMP_DIR`), if set.
    pub temp_dir: Option<String>,
    /// The user's configuration directory as the platform reports it, if any.
    pub platform_config_dir: Option<String>,
    /// The system's directory for temporary files.
    pub system_temp_dir: String,
}

/// A `Config` in specifications.
pub struct ConfigView {
    pub recording_enabled: bool,
    pub config_dir: Seq<char>,
    pub temp_dir: Seq<char>,
    pub shell_pid: u32,
}

/// Locations, shell identifier and recording status of one invocation.
#[derive(Debug, Clone)]
pub struct Config {
    recording_enabled: bool,
    config_dir: String,
    temp_dir: String,
    shell_pid: u32,
}

/// A configuration together with the steps that complete its construction.
#[derive(Debug, Clone)]
pub struct Startup {
    /// The configuration.
    pub config: Config,
    /// Steps that create both directories; if one fails, startup has failed.
    pub setup: Vec<FileOp>,
    /// A step that records the default status where none was found; its
    /// failure is ignored.
    pub init_status: Option<FileOp>,
}

/// The name of the command-text file of shell `pid`.
pub open spec fn cmd_file_name(pid: u32) -> Seq<char> {
    ".tellme_cmd_"@ + decimal(pid as nat)
}

/// The name of the output file of shell `pid`.
pub open spec fn output_file_name(pid: u32) -> Seq<char> {
    ".tellme_output_"@ + decimal(pid as nat)
}

/// The path of the status file under `config_dir`.
pub open spec fn status_path(config_dir: Seq<char>) -> Seq<char> {
    join_path(config_dir, "status"@)
}

/// The content of the status file for a recording status.
pub open spec fn status_marker(enabled: bool) -> Seq<char> {
    if enabled {
        "enabled"@
    } else {
        "disabled"@
    }
}

/// The recording status that a status file with the text `content` records.
pub open spec fn status_of_text(content: Seq<char>) -> bool {
    trim(content) == "enabled"@
}

/// The recording status that the files record: disabled unless a readable
/// status file says otherwise.
pub open spec fn recording_at(disk: Disk, config_dir: Seq<char>) -> bool {
    match text_at(disk, status_path(config_dir)) {
        Some(content) => status_of_text(content),
        None => false,
    }
}

/// The step that records the default status, owed where no status can be read.
pub open spec fn init_status_op(disk: Disk, config_dir: Seq<char>) -> Option<FileOpView> {
    if text_at(disk, status_path(config_dir)) is None {
        Some(
            FileOpView::WriteFile {
                path: status_path(config_dir),
                data: encode_utf8(status_marker(false)),
            },
        )
    } else {
        None
    }
}

/// The view of a step that may be absent.
pub open spec fn op_view(op: Option<FileOp>) -> Option<FileOpView> {
    match op {
        Some(op) => Some(op@),
        None => None,
    }
}

/// The configuration directory: the override if there is one, else `tellme`
/// under the platform's directory, else `tellme_config` under the system's
/// directory for temporary files.
pub open spec fn resolved_config_dir(env: Environment) -> Seq<char> {
    match env.config_dir {
        Some(dir) => dir@,
        None => match env.platform_config_dir {
            Some(dir) => join_path(dir@, "tellme"@),
            None => join_path(env.system_temp_dir@, "tellme_config"@),
        },
    }
}

/// The directory for capture files: the override if there is one, else
/// `tellme` under the system's directory for temporary files.
pub open spec fn resolved_temp_dir(env: Environment) -> Seq<char> {
    match env.temp_dir {
        Some(dir) => dir@,
        None => join_path(env.system_temp_dir@, "tellme"@),
    }
}

/// The shell identifier that the environment gives, if it gives a number.
pub open spec fn resolved_shell_pid(env: Environment) -> Option<u32> {
    match env.shell_pid {
        Some(text) => parse_u32_spec(text@),
        None => None,
    }
}

impl ConfigView {
    /// The path of the status file.
    pub open spec fn status_file(self) -> Seq<char> {
        status_path(self.config_dir)
    }

    /// The path of the skip-list file.
    pub open spec fn skip_commands_file(self) -> Seq<char> {
        join_path(self.config_dir, "skip_commands"@)
    }

    /// The path of the command-text file of this shell.
    pub open spec fn cmd_file(self) -> Seq<char> {
        join_path(self.temp_dir, cmd_file_name(self.shell_pid))
    }

    /// The path of the output file of this shell.
    pub open spec fn output_file(self) -> Seq<char> {
        join_path(self.temp_dir, output_file_name(self.shell_pid))
    }

    /// The skip list in force: what the skip-list file holds if it can be
    /// read, else the built-in list.
    pub open spec fn skip_commands(self, disk: Disk) -> Seq<Seq<char>> {
        match text_at(disk, self.skip_commands_file()) {
            Some(content) => parse_entries(content),
            None => default_skip_list(),
        }
    }

    /// The steps that save `list` as the skip list.
    pub open spec fn save_skip_commands(self, list: Seq<Seq<char>>) -> Seq<FileOpView> {
        seq![
            FileOpView::CreateDirAll { path: self.config_dir },
            FileOpView::WriteFile {
                path: self.skip_commands_file(),
                data: encode_utf8(join_lines(list)),
            },
        ]
    }

    /// The step that records the status `enabled`.
    pub open spec fn write_status(self, enabled: bool) -> FileOpView {
        FileOpView::WriteFile {
            path: self.status_file(),
            data: encode_utf8(status_marker(enabled)),
        }
    }

    /// This configuration with the recording status `enabled`.
    pub open spec fn with_recording(self, enabled: bool) -> ConfigView {
        ConfigView { recording_enabled: enabled, ..self }
    }
}

impl View for Config {
    type V = ConfigView;

    closed spec fn view(&self) -> ConfigView {
        ConfigView {
            recording_enabled: self.recording_enabled,
            config_dir: self.config_dir@,
            temp_dir: self.temp_dir@,
            shell_pid: self.shell_pid,
        }
    }
}

/// `dirs::config_dir`: the user's configuration directory as the platform
/// reports it. It depends on the environment, so nothing is claimed of it.
/// Paths are text here: of a directory name that is not UTF-8 the offending
/// bytes come out replaced.
#[verifier::external_body]
fn platform_config_dir() -> (r: Option<String>) {
    match dirs::config_dir() {
        Some(dir) => Some(dir.to_string_lossy().into_owned()),
        None => None,
    }
}

impl Environment {
    /// Gathers the environment from what the caller read of it, asking the
    /// platform for the user's configuration directory where no override of
    /// the configuration directory was given.
    pub fn detect(
        shell_pid: Option<String>,
        config_dir: Option<String>,
        temp_dir: Option<String>,
        system_temp_dir: String,
    ) -> (r: Environment)
        ensures
            r.shell_pid == shell_pid,
            r.config_dir == config_dir,
            r.temp_dir == temp_dir,
            r.system_temp_dir == system_temp_dir,
            config_dir is Some ==> r.platform_config_dir is None,
    {
        let platform = if config_dir.is_none() {
            platform_config_dir()
        } else {
            None
        };
        Environment {
            shell_pid,
            config_dir,
            temp_dir,
            platform_config_dir: platform,
            system_temp_dir,
        }
    }
}

fn status_enabled(content: &str) -> (r: bool)
    ensures
        r == status_of_text(content@),
{
    let v = chars_of(content);
    let a = skip_spaces(&v, 0);
    let b = skip_spaces_back(&v, v.len());
    let word = chars_of("enabled");
    proof {
        reveal_strlit("enabled");
        assert("enabled"@.len() == 7);
    }
    if a < b {
        range_equals(&v, a, b, &word)
    } else {
        assert(trim(content@).len() == 0);
        false
    }
}

impl Config {
    /// The configuration directory that `env` gives.
    pub fn config_dir(env: &Environment) -> (r: String)
        ensures
            r@ == resolved_config_dir(*env),
    {
        match &env.config_dir {
            Some(dir) => dir.clone(),
            None => match &env.platform_config_dir {
                Some(dir) => join(dir.as_str(), "tellme"),
                None => join(env.system_temp_dir.as_str(), "tellme_config"),
            },
        }
    }

    /// The directory for capture files that `env` gives.
    pub fn temp_dir(env: &Environment) -> (r: String)
        ensures
            r@ == resolved_temp_dir(*env),
    {
        match &env.temp_dir {
            Some(dir) => dir.clone(),
            None => join(env.system_temp_dir.as_str(), "tellme"),
        }
    }

    /// The shell identifier that `env` gives; an error if it is missing or
    /// not a number.
    pub fn shell_pid(env: &Environment) -> (r: Result<u32, ConfigError>)
        ensures
            match r {
                Ok(pid) => resolved_shell_pid(*env) == Some(pid),
                Err(e) => resolved_shell_pid(*env) is None && e == ConfigError::InvalidShellPid,
            },
    {
        let parsed = match &env.shell_pid {
            Some(text) => parse_u32(text.as_str()),
            None => None,
        };
        match parsed {
            Some(pid) => Ok(pid),
            None => Err(ConfigError::InvalidShellPid),
        }
    }

    /// Makes the configuration that `env` gives, reading the recording status
    /// from `files`.
    pub fn new(env: &Environment, files: &Files) -> (r: Result<Startup, ConfigError>)
        ensures
            match r {
                Ok(s) => resolved_shell_pid(*env) is Some && s.starts(
                    resolved_shell_pid(*env)->0,
                    resolved_config_dir(*env),
                    resolved_temp_dir(*env),
                    files@,
                ),
                Err(e) => resolved_shell_pid(*env) is None && e == ConfigError::InvalidShellPid,
            },
    {
        Config::with_paths(None, None, None, env, files)
    }

    /// Makes a configuration from explicit values, each falling back to what
    /// `env` gives, reading the recording status from `files`. It fails only
    /// where no shell identifier is given and `env` gives none.
    pub fn with_paths(
        shell_pid: Option<u32>,
        config_dir: Option<String>,
        temp_dir: Option<String>,
        env: &Environment,
        files: &Files,
    ) -> (r: Result<Startup, ConfigError>)
        ensures
            match r {
                Ok(s) => (shell_pid is Some || resolved_shell_pid(*env) is Some) && s.starts(
                    match shell_pid {
                        Some(pid) => pid,
                        None => resolved_shell_pid(*env)->0,
                    },
                    match config_dir {
                        Some(dir) => dir@,
                        None => resolved_config_dir(*env),
                    },
                    match temp_dir {
                        Some(dir) => dir@,
                        None => resolved_temp_dir(*env),
                    },
                    files@,
                ),
                Err(e) => shell_pid is None && resolved_shell_pid(*env) is None && e
                    == ConfigError::InvalidShellPid,
            },
    {
        let pid: u32 = match shell_pid {
            Some(pid) => pid,
            None => match Config::shell_pid(env) {
                Ok(pid) => pid,
                Err(e) => {
                    return Err(e);
                },
            },
        };
        let config_dir: String = match config_dir {
            Some(dir) => dir,
            None => Config::config_dir(env),
        };
        let temp_dir: String = match temp_dir {
            Some(dir) => dir,
            None => Config::temp_dir(env),
        };
        let mut setup: Vec<FileOp> = Vec::new();
        setup.push(FileOp::CreateDirAll { path: config_dir.clone() });
        setup.push(FileOp::CreateDirAll { path: temp_dir.clone() });
        let (recording_enabled, init_status) = Config::load_recording_status(
            config_dir.as_str(),
            files,
        );
        let config = Config { recording_enabled, config_dir, temp_dir, shell_pid: pid };
        assert(ops_view(setup@) =~= seq![
            FileOpView::CreateDirAll { path: config@.config_dir },
            FileOpView::CreateDirAll { path: config@.temp_dir },
        ]);
        Ok(Startup { config, setup, init_status })
    }

    /// The recording status that `files` record under `config_dir`, and the
    /// step that records the default where no status can be read.
    fn load_recording_status(config_dir: &str, files: &Files) -> (r: (bool, Option<FileOp>))
        ensures
            r.0 == recording_at(files@, config_dir@),
            op_view(r.1) == init_status_op(files@, config_dir@),
    {
        let status_file = Config::status_file_in(config_dir);
        match files.read_text(status_file.as_str()) {
            Some(content) => (status_enabled(content.as_str()), None),
            None => {
                let data = "disabled".as_bytes_vec();
                (false, Some(FileOp::WriteFile { path: status_file, data }))
            },
        }
    }

    /// The path of the status file under `config_dir`.
    pub fn status_file_in(config_dir: &str) -> (r: String)
        ensures
            r@ == status_path(config_dir@),
    {
        join(config_dir, "status")
    }

    /// The directory in which this configuration keeps capture files.
    pub fn capture_dir(&self) -> (r: String)
        ensures
            r@ == self@.temp_dir,
    {
        self.temp_dir.clone()
    }

    /// The path of the status file.
    pub fn status_file(&self) -> (r: String)
        ensures
            r@ == self@.status_file(),
    {
        Config::status_file_in(self.config_dir.as_str())
    }

    /// The path of the skip-list file.
    pub fn skip_commands_file(&self) -> (r: String)
        ensures
            r@ == self@.skip_commands_file(),
    {
        join(self.config_dir.as_str(), "skip_commands")
    }

    /// The path of the command-text file of this shell.
    pub fn cmd_file(&self) -> (r: String)
        ensures
            r@ == self@.cmd_file(),
    {
        let mut name = String::from_str(".tellme_cmd_");
        name.append(to_decimal(self.shell_pid).as_str());
        join(self.temp_dir.as_str(), name.as_str())
    }

    /// The path of the output file of this shell.
    pub fn output_file(&self) -> (r: String)
        ensures
            r@ == self@.output_file(),
    {
        let mut name = String::from_str(".tellme_output_");
        name.append(to_decimal(self.shell_pid).as_str());
        join(self.temp_dir.as_str(), name.as_str())
    }

    /// The paths of the files of this shell: command text, then output.
    pub fn temp_files(&self) -> (r: Vec<String>)
        ensures
            texts(r@) == seq![self@.cmd_file(), self@.output_file()],
    {
        let mut out: Vec<String> = Vec::new();
        out.push(self.cmd_file());
        out.push(self.output_file());
        assert(texts(out@) =~= seq![self@.cmd_file(), self@.output_file()]);
        out
    }

    /// Whether recording is enabled.
    pub fn is_recording_enabled(&self) -> (r: bool)
        ensures
            r == self@.recording_enabled,
    {
        self.recording_enabled
    }

    /// The step that records the status `enabled` in the status file. The
    /// configuration stays as it is: the status it reports changes only once
    /// the step has succeeded, through `recording_was_set`.
    pub fn set_recording_enabled(&self, enabled: bool) -> (r: FileOp)
        ensures
            r@ == self@.write_status(enabled),
    {
        let marker = if enabled {
            "enabled"
        } else {
            "disabled"
        };
        FileOp::WriteFile { path: self.status_file(), data: marker.as_bytes_vec() }
    }

    /// Takes note that the step of `set_recording_enabled(enabled)` has
    /// succeeded: from now on the configuration reports the status `enabled`.
    pub fn recording_was_set(&mut self, enabled: bool)
        ensures
            final(self)@ == old(self)@.with_recording(enabled),
    {
        self.recording_enabled = enabled;
    }

    /// The skip list in force: what the skip-list file holds if `files` has
    /// one that can be read, else the built-in list.
    pub fn skip_commands(&self, files: &Files) -> (r: Vec<String>)
        ensures
            texts(r@) == self@.skip_commands(files@),
    {
        let skip_file = self.skip_commands_file();
        match files.read_text(skip_file.as_str()) {
            Some(content) => parse_skip_list(content.as_str()),
            None => default_skip_commands(),
        }
    }

    /// The steps that save `commands` as the skip list: make sure of the
    /// configuration directory, then write the whole list, one entry per
    /// line, in the order given.
    pub fn save_skip_commands(&self, commands: &[String]) -> (r: Vec<FileOp>)
        ensures
            ops_view(r@) == self@.save_skip_commands(texts(commands@)),
    {
        let content = format_skip_list(commands);
        let mut ops: Vec<FileOp> = Vec::new();
        ops.push(FileOp::CreateDirAll { path: self.config_dir.clone() });
        ops.push(
            FileOp::WriteFile {
                path: self.skip_commands_file(),
                data: content.as_str().as_bytes_vec(),
            },
        );
        assert(ops_view(ops@) =~= self@.save_skip_commands(texts(commands@)));
        ops
    }
}

/// The names of capture files are relative, tell command text from output,
/// and tell one shell from another.
pub proof fn lemma_file_names(a: u32, b: u32)
    ensures
        !is_absolute(cmd_file_name(a)),
        !is_absolute(output_file_name(a)),
        cmd_file_name(a) != output_file_name(b),
        cmd_file_name(a) == cmd_file_name(b) ==> a == b,
        output_file_name(a) == output_file_name(b) ==> a == b,
{
    reveal_strlit(".tellme_cmd_");
    reveal_strlit(".tellme_output_");
    let c = ".tellme_cmd_"@;
    let o = ".tellme_output_"@;
    let da = decimal(a as nat);
    let db = decimal(b as nat);
    assert(cmd_file_name(a)[0] == '.');
    assert(output_file_name(a)[0] == '.');
    assert(cmd_file_name(a)[8] == 'c');
    assert(output_file_name(b)[8] == 'o');
    if cmd_file_name(a) == cmd_file_name(b) {
        assert((c + da).subrange(12, (c + da).len() as int) =~= da);
        assert((c + db).subrange(12, (c + db).len() as int) =~= db);
        lemma_decimal_injective(a as nat, b as nat);
    }
    if output_file_name(a) == output_file_name(b) {
        assert((o + da).subrange(15, (o + da).len() as int) =~= da);
        assert((o + db).subrange(15, (o + db).len() as int) =~= db);
        lemma_decimal_injective(a as nat, b as nat);
    }
}

/// Path derivation is injective: under one directory for capture files, the
/// command-text file of a shell is the output file of none, and two shells
/// share a file only if they are the same shell.
pub proof fn lemma_capture_files_distinct(x: ConfigView, y: ConfigView)
    requires
        x.temp_dir == y.temp_dir,
    ensures
        x.cmd_file() != y.output_file(),
        x.cmd_file() == y.cmd_file() ==> x.shell_pid == y.shell_pid,
        x.output_file() == y.output_file() ==> x.shell_pid == y.shell_pid,
{
    lemma_file_names(x.shell_pid, y.shell_pid);
    lemma_file_names(y.shell_pid, x.shell_pid);
    if x.cmd_file() == y.output_file() {
        lemma_join_injective(
            x.temp_dir,
            cmd_file_name(x.shell_pid),
            output_file_name(y.shell_pid),
        );
    }
    if x.cmd_file() == y.cmd_file() {
        lemma_join_injective(x.temp_dir, cmd_file_name(x.shell_pid), cmd_file_name(y.shell_pid));
    }
    if x.output_file() == y.output_file() {
        lemma_join_injective(
            x.temp_dir,
            output_file_name(x.shell_pid),
            output_file_name(y.shell_pid),
        );
    }
}

/// Each marker records its own status.
pub proof fn lemma_status_marker(enabled: bool)
    ensures
        status_of_text(status_marker(enabled)) == enabled,
{
    reveal_strlit("enabled");
    reveal_strlit("disabled");
    lemma_trim_of_trimmed("enabled"@);
    lemma_trim_of_trimmed("disabled"@);
    assert("enabled"@.len() != "disabled"@.len());
}

/// Setting a status makes it the status; setting it again changes nothing;
/// and toggling twice gives back the configuration one started with.
pub proof fn lemma_set_recording(cfg: ConfigView, enabled: bool)
    ensures
        cfg.with_recording(enabled).recording_enabled == enabled,
        cfg.with_recording(enabled).with_recording(enabled) == cfg.with_recording(enabled),
        cfg.with_recording(!cfg.recording_enabled).with_recording(cfg.recording_enabled) == cfg,
{
}

/// A status that was set is the status that a later start reads, once the
/// step that records it has succeeded; recording it twice is recording it
/// once.
pub proof fn lemma_status_persists(cfg: ConfigView, disk: Disk, enabled: bool)
    ensures
        recording_at(apply_op(disk, cfg.write_status(enabled)), cfg.config_dir) == enabled,
        init_status_op(apply_op(disk, cfg.write_status(enabled)), cfg.config_dir) is None,
        apply_op(apply_op(disk, cfg.write_status(enabled)), cfg.write_status(enabled)) == apply_op(
            disk,
            cfg.write_status(enabled),
        ),
{
    let marker = status_marker(enabled);
    encode_utf8_valid_utf8(marker);
    encode_utf8_decode_utf8(marker);
    lemma_status_marker(enabled);
    let once = apply_op(disk, cfg.write_status(enabled));
    assert(apply_op(once, cfg.write_status(enabled)) =~= once);
}

/// A skip list whose entries are storable is read back as it was saved:
/// the same entries in the same order.
pub proof fn lemma_skip_list_round_trip(cfg: ConfigView, disk: Disk, list: Seq<Seq<char>>)
    requires
        storable(list),
    ensures
        cfg.skip_commands(apply_ops(disk, cfg.save_skip_commands(list))) == list,
{
    let content = join_lines(list);
    let ops = cfg.save_skip_commands(list);
    lemma_apply_two(disk, ops[0], ops[1]);
    assert(ops =~= seq![ops[0], ops[1]]);
    encode_utf8_valid_utf8(content);
    encode_utf8_decode_utf8(content);
    lemma_parse_join(list);
}

/// Until a skip list is saved, the built-in list is in force.
pub proof fn lemma_skip_list_default(cfg: ConfigView, disk: Disk)
    requires
        !disk.contains_key(cfg.skip_commands_file()),
    ensures
        cfg.skip_commands(disk) == default_skip_list(),
{
}

impl Startup {
    /// Whether this is the start that the shell `pid` and the two directories
    /// call for when the files are `disk`.
    pub open spec fn starts(
        self,
        pid: u32,
        config_dir: Seq<char>,
        temp_dir: Seq<char>,
        disk: Disk,
    ) -> bool {
        &&& self.config@ == ConfigView {
            recording_enabled: recording_at(disk, config_dir),
            config_dir,
            temp_dir,
            shell_pid: pid,
        }
        &&& ops_view(self.setup@) == seq![
            FileOpView::CreateDirAll { path: config_dir },
            FileOpView::CreateDirAll { path: temp_dir },
        ]
        &&& op_view(self.init_status) == init_status_op(disk, config_dir)
    }
}

} // verus!

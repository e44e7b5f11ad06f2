//! The capture session of one shell: the pair of files that hold the last
//! command and its output, from preparation to cleanup.

use vstd::prelude::*;
use vstd::string::*;
use vstd::utf8::*;
use crate::config::{lemma_capture_files_distinct, Config, ConfigView};
use crate::files::{
    apply_ops, lemma_apply_ops_concat, lemma_apply_two, ops_view, Disk, FileOp, FileOpView,
    Files,
};
use crate::filter::{should_capture_spec, CommandFilter};
use crate::skip_list::texts;

verus! {

/// Why a capture could not be read.
#[derive(Debug, Clone, Copy, PartialEq, Eq)]
pub enum CaptureError {
    /// The file is not there.
    NotFound,
    /// The file does not hold text.
    InvalidData,
}

impl CaptureError {
    /// The fault in words.
    pub fn message(&self) -> (r: String)
        ensures
            r@ == match *self {
                CaptureError::NotFound => "No such file or directory"@,
                CaptureError::InvalidData => "stream did not contain valid UTF-8"@,
            },
    {
        match self {
            CaptureError::NotFound => String::from_str("No such file or directory"),
            CaptureError::InvalidData => String::from_str("stream did not contain valid UTF-8"),
        }
    }
}

/// The steps that store `command` as the command text of the session.
pub open spec fn create_cmd_ops(cfg: ConfigView, command: Seq<char>) -> Seq<FileOpView> {
    seq![
        FileOpView::CreateDirAll { path: cfg.temp_dir },
        FileOpView::WriteFile { path: cfg.cmd_file(), data: encode_utf8(command) },
    ]
}

/// The steps that leave the session with an empty output file.
pub open spec fn create_output_ops(cfg: ConfigView) -> Seq<FileOpView> {
    seq![
        FileOpView::CreateDirAll { path: cfg.temp_dir },
        FileOpView::WriteFile { path: cfg.output_file(), data: Seq::empty() },
    ]
}

/// The steps that prepare the session for `command`.
pub open spec fn prepare_ops(cfg: ConfigView, command: Seq<char>) -> Seq<FileOpView> {
    create_cmd_ops(cfg, command) + create_output_ops(cfg)
}

/// The steps that remove the session's files.
pub open spec fn cleanup_ops(cfg: ConfigView) -> Seq<FileOpView> {
    seq![
        FileOpView::RemoveFile { path: cfg.cmd_file() },
        FileOpView::RemoveFile { path: cfg.output_file() },
    ]
}

/// Whether the session has a capture: both of its files are there.
pub open spec fn has_previous_at(cfg: ConfigView, disk: Disk) -> bool {
    disk.contains_key(cfg.cmd_file()) && disk.contains_key(cfg.output_file())
}

/// The command text of the session's capture.
pub open spec fn cmd_text_at(cfg: ConfigView, disk: Disk) -> Result<Seq<char>, CaptureError> {
    if !disk.contains_key(cfg.cmd_file()) {
        Err(CaptureError::NotFound)
    } else if !valid_utf8(disk[cfg.cmd_file()]) {
        Err(CaptureError::InvalidData)
    } else {
        Ok(decode_utf8(disk[cfg.cmd_file()]))
    }
}

/// The output of the session's capture.
pub open spec fn output_at(cfg: ConfigView, disk: Disk) -> Result<Seq<u8>, CaptureError> {
    if disk.contains_key(cfg.output_file()) {
        Ok(disk[cfg.output_file()])
    } else {
        Err(CaptureError::NotFound)
    }
}

/// Whether a session should be prepared for `command`: recording is enabled
/// and the skip list in force lets the command through.
pub open spec fn should_prepare_at(cfg: ConfigView, disk: Disk, command: Seq<char>) -> bool {
    cfg.recording_enabled && should_capture_spec(cfg.skip_commands(disk), command)
}

/// What preparing does to the files: the command text is stored, the
/// output file is there and empty, and nothing else changes.
pub proof fn lemma_prepare(cfg: ConfigView, disk: Disk, command: Seq<char>)
    ensures
        apply_ops(disk, prepare_ops(cfg, command)) == disk.insert(
            cfg.cmd_file(),
            encode_utf8(command),
        ).insert(cfg.output_file(), Seq::empty()),
        cfg.cmd_file() != cfg.output_file(),
{
    let first = create_cmd_ops(cfg, command);
    let second = create_output_ops(cfg);
    lemma_apply_ops_concat(disk, first, second);
    assert(first =~= seq![first[0], first[1]]);
    assert(second =~= seq![second[0], second[1]]);
    lemma_apply_two(disk, first[0], first[1]);
    lemma_apply_two(apply_ops(disk, first), second[0], second[1]);
    lemma_capture_files_distinct(cfg, cfg);
}

/// What cleaning up does to the files: both files of the session are gone,
/// and nothing else changes.
pub proof fn lemma_cleanup(cfg: ConfigView, disk: Disk)
    ensures
        apply_ops(disk, cleanup_ops(cfg)) == disk.remove(cfg.cmd_file()).remove(cfg.output_file()),
{
    let ops = cleanup_ops(cfg);
    assert(ops =~= seq![ops[0], ops[1]]);
    lemma_apply_two(disk, ops[0], ops[1]);
}

/// Reading the command text right after preparing gives back the command
/// line, character for character.
pub proof fn lemma_prepare_then_read(cfg: ConfigView, disk: Disk, command: Seq<char>)
    ensures
        cmd_text_at(cfg, apply_ops(disk, prepare_ops(cfg, command))) == Ok::<
            Seq<char>,
            CaptureError,
        >(command),
        output_at(cfg, apply_ops(disk, prepare_ops(cfg, command))) == Ok::<
            Seq<u8>,
            CaptureError,
        >(Seq::empty()),
{
    lemma_prepare(cfg, disk, command);
    encode_utf8_valid_utf8(command);
    encode_utf8_decode_utf8(command);
}

/// A session has no capture while its files are absent, and has one right
/// after preparing, though the output file is still empty.
pub proof fn lemma_has_previous(cfg: ConfigView, disk: Disk, command: Seq<char>)
    ensures
        !disk.contains_key(cfg.cmd_file()) || !disk.contains_key(cfg.output_file())
            ==> !has_previous_at(cfg, disk),
        !has_previous_at(cfg, Map::empty()),
        has_previous_at(cfg, apply_ops(disk, prepare_ops(cfg, command))),
{
    lemma_prepare(cfg, disk, command);
}

/// After cleaning up there is no capture, whatever was there before, and
/// cleaning up once more changes nothing.
pub proof fn lemma_cleanup_clears(cfg: ConfigView, disk: Disk)
    ensures
        !has_previous_at(cfg, apply_ops(disk, cleanup_ops(cfg))),
        apply_ops(apply_ops(disk, cleanup_ops(cfg)), cleanup_ops(cfg)) == apply_ops(
            disk,
            cleanup_ops(cfg),
        ),
{
    let once = apply_ops(disk, cleanup_ops(cfg));
    lemma_cleanup(cfg, disk);
    lemma_cleanup(cfg, once);
    assert(once.remove(cfg.cmd_file()).remove(cfg.output_file()) =~= once);
}

/// Preparing again discards what the first preparation stored: the files
/// are as if only the second had happened.
pub proof fn lemma_prepare_overwrites(
    cfg: ConfigView,
    disk: Disk,
    first: Seq<char>,
    second: Seq<char>,
)
    ensures
        apply_ops(apply_ops(disk, prepare_ops(cfg, first)), prepare_ops(cfg, second)) == apply_ops(
            disk,
            prepare_ops(cfg, second),
        ),
{
    let mid = apply_ops(disk, prepare_ops(cfg, first));
    lemma_prepare(cfg, disk, first);
    lemma_prepare(cfg, mid, second);
    lemma_prepare(cfg, disk, second);
    assert(apply_ops(mid, prepare_ops(cfg, second)) =~= apply_ops(disk, prepare_ops(cfg, second)));
}

/// Shells do not disturb each other: under one directory, what one shell
/// prepares or cleans up leaves the capture of every other shell as it was.
pub proof fn lemma_sessions_isolated(
    cfg: ConfigView,
    other: ConfigView,
    disk: Disk,
    command: Seq<char>,
)
    requires
        cfg.temp_dir == other.temp_dir,
        cfg.shell_pid != other.shell_pid,
    ensures
        has_previous_at(other, apply_ops(disk, prepare_ops(cfg, command))) == has_previous_at(
            other,
            disk,
        ),
        cmd_text_at(other, apply_ops(disk, prepare_ops(cfg, command))) == cmd_text_at(other, disk),
        output_at(other, apply_ops(disk, prepare_ops(cfg, command))) == output_at(other, disk),
        has_previous_at(other, apply_ops(disk, cleanup_ops(cfg))) == has_previous_at(other, disk),
        cmd_text_at(other, apply_ops(disk, cleanup_ops(cfg))) == cmd_text_at(other, disk),
        output_at(other, apply_ops(disk, cleanup_ops(cfg))) == output_at(other, disk),
{
    lemma_prepare(cfg, disk, command);
    lemma_cleanup(cfg, disk);
    lemma_capture_files_distinct(cfg, other);
    lemma_capture_files_distinct(other, cfg);
}

/// The capture session of one shell.
#[derive(Debug)]
pub struct CaptureSession<'s> {
    config: &'s Config,
}

/// A prepared session: the steps to carry out, and where the shell is to
/// send the command's output once they have succeeded.
#[derive(Debug, Clone)]
pub struct Prepared {
    /// The steps that reset the session's files.
    pub ops: Vec<FileOp>,
    /// The path of the output file.
    pub output_file: String,
}

impl<'s> View for CaptureSession<'s> {
    type V = ConfigView;

    closed spec fn view(&self) -> ConfigView {
        self.config@
    }
}

impl<'s> CaptureSession<'s> {
    /// The session of the shell that `config` names.
    pub fn new(config: &'s Config) -> (r: CaptureSession<'s>)
        ensures
            r@ == config@,
    {
        CaptureSession { config }
    }

    /// The steps that store `command`, verbatim, as the command text: make
    /// sure of the directory, then write the file.
    pub fn create_cmd_file(&self, command: &str) -> (r: Vec<FileOp>)
        ensures
            ops_view(r@) == create_cmd_ops(self@, command@),
    {
        let mut ops: Vec<FileOp> = Vec::new();
        ops.push(FileOp::CreateDirAll { path: self.config.capture_dir() });
        ops.push(FileOp::WriteFile { path: self.config.cmd_file(), data: command.as_bytes_vec() });
        assert(ops_view(ops@) =~= create_cmd_ops(self@, command@));
        ops
    }

    /// The steps that leave an empty output file: make sure of the
    /// directory, then create or empty the file.
    pub fn create_output_file(&self) -> (r: Vec<FileOp>)
        ensures
            ops_view(r@) == create_output_ops(self@),
    {
        let mut ops: Vec<FileOp> = Vec::new();
        ops.push(FileOp::CreateDirAll { path: self.config.capture_dir() });
        ops.push(FileOp::WriteFile { path: self.config.output_file(), data: Vec::new() });
        assert(ops_view(ops@) =~= create_output_ops(self@));
        ops
    }

    /// The command text of the capture in `files`.
    pub fn read_cmd_file(&self, files: &Files) -> (r: Result<String, CaptureError>)
        ensures
            match r {
                Ok(text) => cmd_text_at(self@, files@) == Ok::<Seq<char>, CaptureError>(text@),
                Err(e) => cmd_text_at(self@, files@) == Err::<Seq<char>, CaptureError>(e),
            },
    {
        let path = self.config.cmd_file();
        if !files.contains(path.as_str()) {
            return Err(CaptureError::NotFound);
        }
        match files.read_text(path.as_str()) {
            Some(text) => Ok(text),
            None => Err(CaptureError::InvalidData),
        }
    }

    /// The output of the capture in `files`, byte for byte.
    pub fn read_output(&self, files: &Files) -> (r: Result<Vec<u8>, CaptureError>)
        ensures
            match r {
                Ok(data) => output_at(self@, files@) == Ok::<Seq<u8>, CaptureError>(data@),
                Err(e) => output_at(self@, files@) == Err::<Seq<u8>, CaptureError>(e),
            },
    {
        let path = self.config.output_file();
        match files.read(path.as_str()) {
            Some(data) => Ok(data),
            None => Err(CaptureError::NotFound),
        }
    }

    /// Whether `files` hold a capture of this session.
    pub fn has_previous(&self, files: &Files) -> (r: bool)
        ensures
            r == has_previous_at(self@, files@),
    {
        let cmd = self.config.cmd_file();
        let output = self.config.output_file();
        files.contains(cmd.as_str()) && files.contains(output.as_str())
    }

    /// Whether the session should be prepared for `command`. Nothing is
    /// changed by asking.
    pub fn should_prepare(&self, files: &Files, command: &str) -> (r: bool)
        ensures
            r == should_prepare_at(self@, files@, command@),
    {
        if !self.config.is_recording_enabled() {
            return false;
        }
        let filter = CommandFilter::new(self.config, files);
        filter.should_capture(command)
    }

    /// Prepares the session for `command`, whatever it held before: the
    /// command text is stored, the output file is left empty, and the path
    /// of the output file is handed back.
    pub fn prepare_new_command(&self, command: &str) -> (r: Prepared)
        ensures
            ops_view(r.ops@) == prepare_ops(self@, command@),
            r.output_file@ == self@.output_file(),
    {
        let mut ops = self.create_cmd_file(command);
        let mut more = self.create_output_file();
        let ghost first = ops@;
        let ghost second = more@;
        ops.append(&mut more);
        assert(ops_view(ops@) =~= ops_view(first) + ops_view(second));
        Prepared { ops, output_file: self.config.output_file() }
    }

    /// The steps that remove the session's files; a file that is already
    /// gone is no fault.
    pub fn cleanup(&self) -> (r: Vec<FileOp>)
        ensures
            ops_view(r@) == cleanup_ops(self@),
    {
        let paths = self.config.temp_files();
        let mut ops: Vec<FileOp> = Vec::new();
        let mut i: usize = 0;
        while i < paths.len()
            invariant
                i <= paths@.len(),
                ops@.len() == i,
                texts(paths@) == seq![self@.cmd_file(), self@.output_file()],
                forall|k: int|
                    0 <= k < i ==> (#[trigger] ops@[k])@ == (FileOpView::RemoveFile {
                        path: paths@[k]@,
                    }),
            decreases paths.len() - i,
        {
            ops.push(FileOp::RemoveFile { path: paths[i].clone() });
            i += 1;
        }
        assert(texts(paths@).len() == 2);
        assert(texts(paths@)[0] == paths@[0]@);
        assert(texts(paths@)[1] == paths@[1]@);
        assert(ops_view(ops@) =~= cleanup_ops(self@));
        ops
    }
}

} // verus!

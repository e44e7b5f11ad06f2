//! Retrieval of the last capture: the text to put on the clipboard, or the
//! record to save in a file.

use vstd::prelude::*;
use vstd::string::*;
use vstd::utf8::*;
use crate::capture::{cmd_text_at, has_previous_at, CaptureError, CaptureSession};
use crate::config::ConfigView;
use crate::decimal::{all_digits, is_digit};
use crate::files::{Disk, FileOp, FileOpView, Files};

verus! {

/// What `strip_ansi_escapes::strip` leaves of `data`.
pub uninterp spec fn ansi_stripped(data: Seq<u8>) -> Seq<u8>;

/// The text that `String::from_utf8_lossy` reads from `bytes`.
pub uninterp spec fn lossy_text(bytes: Seq<u8>) -> Seq<char>;

/// `strip_ansi_escapes::strip`: the bytes of `data` with the ANSI escape
/// sequences taken out. The result is a function of `data` alone.
#[verifier::external_body]
fn strip_ansi(data: &[u8]) -> (r: Vec<u8>)
    ensures
        r@ == ansi_stripped(data@),
{
    strip_ansi_escapes::strip(data)
}

/// `String::from_utf8_lossy`: the text of `bytes`, ill-formed sequences
/// replaced. The result is a function of `bytes` alone, and well-formed
/// UTF-8 is read as it is.
#[verifier::external_body]
fn utf8_lossy(bytes: &[u8]) -> (r: String)
    ensures
        r@ == lossy_text(bytes@),
        valid_utf8(bytes@) ==> encode_utf8(r@) == bytes@,
{
    String::from_utf8_lossy(bytes).into_owned()
}

/// `chrono::Local::now` and `DateTime::format`: the local time at the
/// moment of the call, written after `pattern`. Which moment that is
/// depends on the clock and the time zone; what is claimed holds of every
/// moment: for the pattern of `stamp_pattern`, the one admitted, `chrono`
/// writes the year with at least four digits, a sign before them outside
/// 0 to 9999, and month, day, hour, minute and second with two digits
/// each, between the separators that the pattern gives. (On a machine whose
/// clock stands before 1970, or on which no local time type can be found
/// for the moment, `chrono` gives up with a panic; no argument of this
/// function leads there or away from it.)
#[verifier::external_body]
fn local_time_text(pattern: &str) -> (r: String)
    requires
        pattern@ == stamp_pattern(),
    ensures
        is_stamp(r@),
{
    chrono::Local::now().format(pattern).to_string()
}

/// The pattern of the time stamp in the name of a log file: year, month,
/// day, hour, minute and second.
pub open spec fn stamp_pattern() -> Seq<char> {
    "%Y-%m-%d_%H-%M-%S"@
}

/// Whether `s` writes a year: at least four digits, with or without a sign
/// before them.
pub open spec fn is_year(s: Seq<char>) -> bool {
    let digits = if s.len() > 0 && (s[0] == '+' || s[0] == '-') {
        s.drop_first()
    } else {
        s
    };
    digits.len() >= 4 && all_digits(digits)
}

/// Whether `s` has the shape of a time stamp: a year, then `-MM-DD_hh-mm-ss`
/// with two digits for each of the five fields.
pub open spec fn is_stamp(s: Seq<char>) -> bool {
    let n = s.len() - 15;
    &&& n >= 4
    &&& is_year(s.subrange(0, n))
    &&& s[n] == '-' && is_digit(s[n + 1]) && is_digit(s[n + 2])
    &&& s[n + 3] == '-' && is_digit(s[n + 4]) && is_digit(s[n + 5])
    &&& s[n + 6] == '_' && is_digit(s[n + 7]) && is_digit(s[n + 8])
    &&& s[n + 9] == '-' && is_digit(s[n + 10]) && is_digit(s[n + 11])
    &&& s[n + 12] == '-' && is_digit(s[n + 13]) && is_digit(s[n + 14])
}

/// The time stamp of the first second of 1970.
pub open spec fn epoch_stamp() -> Seq<char> {
    "1970-01-01_00-00-00"@
}

/// There are time stamps: the first second of 1970 has one.
pub proof fn lemma_epoch_stamp()
    ensures
        is_stamp(epoch_stamp()),
{
    reveal_strlit("1970-01-01_00-00-00");
    let s = epoch_stamp();
    let year = s.subrange(0, 4);
    assert(year.len() == 4 && year[0] == '1');
    assert forall|i: int| 0 <= i < year.len() implies is_digit(#[trigger] year[i]) by {
        assert(year[i] == s[i]);
    }
}

/// A time stamp has at least nineteen characters, each a digit, `-`, `_` or
/// `+`.
pub proof fn lemma_stamp_characters(s: Seq<char>)
    requires
        is_stamp(s),
    ensures
        s.len() >= 19,
        forall|i: int|
            0 <= i < s.len() ==> is_digit(#[trigger] s[i]) || s[i] == '-' || s[i] == '_' || s[i]
                == '+',
{
    let n = s.len() - 15;
    let year = s.subrange(0, n);
    let digits = if year.len() > 0 && (year[0] == '+' || year[0] == '-') {
        year.drop_first()
    } else {
        year
    };
    assert forall|i: int| 0 <= i < s.len() implies is_digit(#[trigger] s[i]) || s[i] == '-'
        || s[i] == '_' || s[i] == '+' by {
        if i < n {
            assert(s[i] == year[i]);
            if digits.len() < year.len() {
                if i > 0 {
                    assert(year[i] == digits[i - 1]);
                }
            } else {
                assert(year[i] == digits[i]);
            }
        }
    }
}

/// The name of a log file holds no path separator: the record is saved in
/// the directory the user stands in.
pub proof fn lemma_log_name_is_plain(stamp: Seq<char>)
    requires
        is_stamp(stamp),
    ensures
        forall|i: int| 0 <= i < log_name(stamp).len() ==> #[trigger] log_name(stamp)[i] != '/',
{
    reveal_strlit("tellme_");
    reveal_strlit(".log");
    lemma_stamp_characters(stamp);
    let name = log_name(stamp);
    assert forall|i: int| 0 <= i < name.len() implies #[trigger] name[i] != '/' by {
        if 7 <= i < 7 + stamp.len() {
            assert(name[i] == stamp[i - 7]);
        }
    }
}

/// The name of the log file for the time stamp `stamp`.
pub open spec fn log_name(stamp: Seq<char>) -> Seq<char> {
    "tellme_"@ + stamp + ".log"@
}

/// The text that is exported for the captured bytes `output`: in raw mode the
/// bytes as they are, else the bytes without escape sequences, read as text.
pub open spec fn export_text(output: Seq<u8>, raw: bool) -> Seq<char> {
    if raw {
        lossy_text(output)
    } else {
        lossy_text(ansi_stripped(output))
    }
}

/// The record of a capture: the command under a heading, a rule, then the
/// content.
pub open spec fn record_text(command: Seq<char>, content: Seq<char>) -> Seq<char> {
    "Command:\n"@ + command + "\n=====\n"@ + content
}

/// What retrieval asks of the caller.
#[derive(Debug, Clone, PartialEq, Eq)]
pub enum Export {
    /// There is no capture: tell the user, and do not fail.
    Nothing,
    /// Put `text` on the clipboard.
    Clipboard { text: String },
    /// Carry out `op`, which writes the record to `path`.
    Save { path: String, op: FileOp },
}

/// An `Export` in specifications.
pub enum ExportView {
    Nothing,
    Clipboard { text: Seq<char> },
    Save { path: Seq<char>, op: FileOpView },
}

impl View for Export {
    type V = ExportView;

    open spec fn view(&self) -> ExportView {
        match self {
            Export::Nothing => ExportView::Nothing,
            Export::Clipboard { text } => ExportView::Clipboard { text: text@ },
            Export::Save { path, op } => ExportView::Save { path: path@, op: op@ },
        }
    }
}

/// What retrieval gives for the session `cfg` on the files `disk` when the
/// content to hand over is `content` and the record, if one is saved, goes
/// to `target`: nothing without a capture; an error if the command text
/// cannot be read; else the content for the clipboard, or the step that
/// saves the record.
pub open spec fn export_with(
    cfg: ConfigView,
    disk: Disk,
    target: Seq<char>,
    clipboard: bool,
    content: Seq<char>,
) -> Result<ExportView, CaptureError> {
    if !has_previous_at(cfg, disk) {
        Ok(ExportView::Nothing)
    } else {
        match cmd_text_at(cfg, disk) {
            Err(e) => Err(e),
            Ok(command) => if clipboard {
                Ok(ExportView::Clipboard { text: content })
            } else {
                Ok(
                    ExportView::Save {
                        path: target,
                        op: FileOpView::WriteFile {
                            path: target,
                            data: encode_utf8(record_text(command, content)),
                        },
                    },
                )
            },
        }
    }
}

/// What retrieval gives for the session `cfg` on the files `disk`: the
/// content is the captured output, stripped unless `raw`.
pub open spec fn export_at(
    cfg: ConfigView,
    disk: Disk,
    target: Seq<char>,
    clipboard: bool,
    raw: bool,
) -> Result<ExportView, CaptureError> {
    export_with(cfg, disk, target, clipboard, export_text(disk[cfg.output_file()], raw))
}

/// Whether raw retrieval is owed the captured output character for
/// character: there is a capture and its output is well-formed UTF-8.
pub open spec fn raw_is_verbatim(cfg: ConfigView, disk: Disk, raw: bool) -> bool {
    raw && has_previous_at(cfg, disk) && valid_utf8(disk[cfg.output_file()])
}

/// Whether `r` is what retrieval owes when a record goes to `target`: the
/// result that `export_at` gives, which in raw mode on well-formed output
/// holds that output character for character.
pub open spec fn export_meets(
    cfg: ConfigView,
    disk: Disk,
    target: Seq<char>,
    clipboard: bool,
    raw: bool,
    r: Result<Export, CaptureError>,
) -> bool {
    &&& export_result_view(r) == export_at(cfg, disk, target, clipboard, raw)
    &&& raw_is_verbatim(cfg, disk, raw) ==> export_result_view(r) == export_with(
        cfg,
        disk,
        target,
        clipboard,
        decode_utf8(disk[cfg.output_file()]),
    )
}

/// The view of a result of retrieval.
pub open spec fn export_result_view(r: Result<Export, CaptureError>) -> Result<
    ExportView,
    CaptureError,
> {
    match r {
        Ok(e) => Ok(e@),
        Err(e) => Err(e),
    }
}

/// The content to export for the captured bytes `output`. In raw mode,
/// output that is well-formed UTF-8 comes out character for character,
/// escape sequences included.
pub fn export_content(output: &[u8], raw: bool) -> (r: String)
    ensures
        r@ == export_text(output@, raw),
        raw && valid_utf8(output@) ==> r@ == decode_utf8(output@),
{
    if raw {
        let text = utf8_lossy(output);
        proof {
            encode_utf8_decode_utf8(text@);
        }
        text
    } else {
        let plain = strip_ansi(output);
        utf8_lossy(plain.as_slice())
    }
}

/// Composes the record of a capture.
pub fn compose_record(command: &str, content: &str) -> (r: String)
    ensures
        r@ == record_text(command@, content@),
{
    let mut out = String::from_str("Command:\n");
    out.append(command);
    out.append("\n=====\n");
    out.append(content);
    out
}

/// The name of the log file for the time stamp `stamp`.
pub fn log_file_name(stamp: &str) -> (r: String)
    ensures
        r@ == log_name(stamp@),
{
    let mut out = String::from_str("tellme_");
    out.append(stamp);
    out.append(".log");
    out
}

/// The file to save a record in: the name that was asked for, else a log
/// file named after the local time, the time written as a time stamp.
pub fn target_file(output: &Option<String>) -> (r: String)
    ensures
        match output {
            Some(name) => r@ == name@,
            None => exists|stamp: Seq<char>| is_stamp(stamp) && r@ == log_name(stamp),
        },
{
    match output {
        Some(name) => name.clone(),
        None => {
            let stamp = local_time_text("%Y-%m-%d_%H-%M-%S");
            let name = log_file_name(stamp.as_str());
            assert(is_stamp(stamp@) && name@ == log_name(stamp@));
            name
        },
    }
}

/// The command text and the content of the last capture of `session`, if
/// `files` hold one.
fn read_capture(session: &CaptureSession, files: &Files, raw: bool) -> (r: Result<
    Option<(String, String)>,
    CaptureError,
>)
    ensures
        match r {
            Ok(None) => !has_previous_at(session@, files@),
            Ok(Some(pair)) => {
                &&& has_previous_at(session@, files@)
                &&& cmd_text_at(session@, files@) == Ok::<Seq<char>, CaptureError>(pair.0@)
                &&& pair.1@ == export_text(files@[session@.output_file()], raw)
                &&& raw_is_verbatim(session@, files@, raw) ==> pair.1@ == decode_utf8(
                    files@[session@.output_file()],
                )
            },
            Err(e) => has_previous_at(session@, files@) && cmd_text_at(session@, files@) == Err::<
                Seq<char>,
                CaptureError,
            >(e),
        },
{
    if !session.has_previous(files) {
        return Ok(None);
    }
    let command = match session.read_cmd_file(files) {
        Ok(text) => text,
        Err(e) => {
            return Err(e);
        },
    };
    let output = match session.read_output(files) {
        Ok(data) => data,
        Err(e) => {
            return Err(e);
        },
    };
    let content = export_content(output.as_slice(), raw);
    Ok(Some((command, content)))
}

/// What to do with a capture that was read: the content goes to the
/// clipboard, or the record goes to `target`.
fn deliver(command: &str, content: String, target: &str, clipboard: bool) -> (r: Export)
    ensures
        r@ == if clipboard {
            ExportView::Clipboard { text: content@ }
        } else {
            ExportView::Save {
                path: target@,
                op: FileOpView::WriteFile {
                    path: target@,
                    data: encode_utf8(record_text(command@, content@)),
                },
            }
        },
{
    if clipboard {
        Export::Clipboard { text: content }
    } else {
        let record = compose_record(command, content.as_str());
        let op = FileOp::WriteFile {
            path: String::from_str(target),
            data: record.as_str().as_bytes_vec(),
        };
        Export::Save { path: String::from_str(target), op }
    }
}

/// Retrieves the last capture of `session` from `files`, a record going to
/// `target`. In raw mode, output that is well-formed UTF-8 is handed over
/// character for character, escape sequences included.
pub fn export_to(
    session: &CaptureSession,
    files: &Files,
    target: &str,
    clipboard: bool,
    raw: bool,
) -> (r: Result<Export, CaptureError>)
    ensures
        export_result_view(r) == export_at(session@, files@, target@, clipboard, raw),
        raw_is_verbatim(session@, files@, raw) ==> export_result_view(r) == export_with(
            session@,
            files@,
            target@,
            clipboard,
            decode_utf8(files@[session@.output_file()]),
        ),
{
    match read_capture(session, files, raw) {
        Err(e) => Err(e),
        Ok(None) => Ok(Export::Nothing),
        Ok(Some(pair)) => {
            let (command, content) = pair;
            Ok(deliver(command.as_str(), content, target, clipboard))
        },
    }
}

/// Retrieves the last capture of `session` from `files`: without a capture
/// there is nothing to do; with the clipboard asked for, the content goes
/// there; else the record goes to the file `output`, or to a log file named
/// after the local time where no file was asked for. The clock is read only
/// where such a name is needed. In raw mode, output that is well-formed
/// UTF-8 is handed over character for character, escape sequences included.
pub fn export_last(
    session: &CaptureSession,
    files: &Files,
    output: &Option<String>,
    clipboard: bool,
    raw: bool,
) -> (r: Result<Export, CaptureError>)
    ensures
        match output {
            Some(name) => export_meets(session@, files@, name@, clipboard, raw, r),
            None => exists|stamp: Seq<char>|
                is_stamp(stamp) && export_meets(
                    session@,
                    files@,
                    log_name(stamp),
                    clipboard,
                    raw,
                    r,
                ),
        },
{
    let capture = read_capture(session, files, raw);
    let saves = !clipboard && match &capture {
        Ok(Some(_)) => true,
        _ => false,
    };
    let target = if saves {
        target_file(output)
    } else {
        String::new()
    };
    let r = match capture {
        Err(e) => Err(e),
        Ok(None) => Ok(Export::Nothing),
        Ok(Some(pair)) => {
            let (command, content) = pair;
            Ok(deliver(command.as_str(), content, target.as_str(), clipboard))
        },
    };
    proof {
        // Where nothing is saved the result is the same for every target.
        if !saves {
            assert forall|t: Seq<char>|
                export_meets(session@, files@, t, clipboard, raw, r) by {}
        }
        if output is None {
            let stamp = if saves {
                choose|stamp: Seq<char>| is_stamp(stamp) && target@ == log_name(stamp)
            } else {
                epoch_stamp()
            };
            lemma_epoch_stamp();
            assert(is_stamp(stamp) && export_meets(
                session@,
                files@,
                log_name(stamp),
                clipboard,
                raw,
                r,
            ));
        }
    }
    r
}

} // verus!

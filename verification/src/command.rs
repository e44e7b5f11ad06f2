//! What the command line asks for, decided on plain values: the requests of
//! the shell integration and the edits of the skip list.

use vstd::prelude::*;
use vstd::string::*;
use crate::capture::{cleanup_ops, prepare_ops, should_prepare_at, CaptureSession};
use crate::config::{
    lemma_skip_list_round_trip, Config, ConfigView,
};
use crate::files::{apply_ops, ops_view, text_at, Disk, FileOp, FileOpView, Files};
use crate::skip_list::{
    contains_entry, default_skip_commands, default_skip_list, is_storable_entry,
    lemma_default_is_storable, lemma_parsed_is_storable, lemma_without, remove_entry, storable,
    texts, without,
};

verus! {

/// A request of the shell integration.
#[derive(Debug, Clone, PartialEq, Eq)]
pub enum InternalRequest {
    /// Say whether the session should be prepared for `command`.
    ShouldPrepare { command: String },
    /// Prepare the session for `command`.
    Prepare { command: String },
    /// Remove the session's files.
    Cleanup,
    /// Nothing was asked for.
    Nothing,
}

/// An `InternalRequest` in specifications.
pub enum InternalRequestView {
    ShouldPrepare { command: Seq<char> },
    Prepare { command: Seq<char> },
    Cleanup,
    Nothing,
}

impl View for InternalRequest {
    type V = InternalRequestView;

    open spec fn view(&self) -> InternalRequestView {
        match self {
            InternalRequest::ShouldPrepare { command } => InternalRequestView::ShouldPrepare {
                command: command@,
            },
            InternalRequest::Prepare { command } => InternalRequestView::Prepare {
                command: command@,
            },
            InternalRequest::Cleanup => InternalRequestView::Cleanup,
            InternalRequest::Nothing => InternalRequestView::Nothing,
        }
    }
}

/// The answer to a request of the shell integration: steps to carry out,
/// then a line to print once they have succeeded.
#[derive(Debug, Clone)]
pub struct InternalReply {
    /// The steps to carry out.
    pub ops: Vec<FileOp>,
    /// The line to print, if any.
    pub line: Option<String>,
}

/// An edit of the skip list.
#[derive(Debug, Clone, PartialEq, Eq)]
pub enum SkipEdit {
    /// Add `pattern` unless it is there.
    Add { pattern: String },
    /// Remove `pattern` wherever it is.
    Remove { pattern: String },
    /// Empty the list.
    Clear,
    /// Go back to the built-in list.
    Reset,
}

/// A `SkipEdit` in specifications.
pub enum SkipEditView {
    Add { pattern: Seq<char> },
    Remove { pattern: Seq<char> },
    Clear,
    Reset,
}

impl View for SkipEdit {
    type V = SkipEditView;

    open spec fn view(&self) -> SkipEditView {
        match self {
            SkipEdit::Add { pattern } => SkipEditView::Add { pattern: pattern@ },
            SkipEdit::Remove { pattern } => SkipEditView::Remove { pattern: pattern@ },
            SkipEdit::Clear => SkipEditView::Clear,
            SkipEdit::Reset => SkipEditView::Reset,
        }
    }
}

/// What an edit of the skip list came to.
#[derive(Debug, Clone, Copy, PartialEq, Eq)]
pub enum SkipOutcome {
    /// The pattern was added.
    Added,
    /// The pattern was there already; nothing is written.
    AlreadyPresent,
    /// The pattern was removed.
    Removed,
    /// The pattern was not there; nothing is written.
    NotPresent,
    /// The list was emptied.
    Cleared,
    /// The built-in list was put back.
    Reset,
}

/// The result of an edit: what it came to and the steps that save the list.
#[derive(Debug, Clone)]
pub struct SkipUpdate {
    /// What the edit came to.
    pub outcome: SkipOutcome,
    /// The steps to carry out; none where the list stays as it is.
    pub ops: Vec<FileOp>,
}

/// What the `config` subcommand asks for.
#[derive(Debug, Clone, PartialEq, Eq)]
pub enum ConfigRequest {
    /// Show the skip list.
    List,
    /// Edit the skip list.
    Edit { edit: SkipEdit },
    /// Nothing was asked for.
    Nothing,
}

/// A `ConfigRequest` in specifications.
pub enum ConfigRequestView {
    List,
    Edit { edit: SkipEditView },
    Nothing,
}

impl View for ConfigRequest {
    type V = ConfigRequestView;

    open spec fn view(&self) -> ConfigRequestView {
        match self {
            ConfigRequest::List => ConfigRequestView::List,
            ConfigRequest::Edit { edit } => ConfigRequestView::Edit { edit: edit@ },
            ConfigRequest::Nothing => ConfigRequestView::Nothing,
        }
    }
}

/// The request that the options of the shell integration make: asking
/// whether to prepare comes before preparing, preparing before cleaning up.
pub open spec fn internal_request_spec(
    should_prepare: Option<String>,
    prepare: Option<String>,
    cleanup: bool,
) -> InternalRequestView {
    match should_prepare {
        Some(command) => InternalRequestView::ShouldPrepare { command: command@ },
        None => match prepare {
            Some(command) => InternalRequestView::Prepare { command: command@ },
            None => if cleanup {
                InternalRequestView::Cleanup
            } else {
                InternalRequestView::Nothing
            },
        },
    }
}

/// The steps that answer `request` for the session `cfg`.
pub open spec fn internal_ops(cfg: ConfigView, request: InternalRequestView) -> Seq<FileOpView> {
    match request {
        InternalRequestView::ShouldPrepare { command } => Seq::empty(),
        InternalRequestView::Prepare { command } => prepare_ops(cfg, command),
        InternalRequestView::Cleanup => cleanup_ops(cfg),
        InternalRequestView::Nothing => Seq::empty(),
    }
}

/// The line that answers `request` for the session `cfg` on the files
/// `disk`: `true` or `false` to the question, the path of the output file
/// after preparing, nothing else.
pub open spec fn internal_line(cfg: ConfigView, disk: Disk, request: InternalRequestView) -> Option<
    Seq<char>,
> {
    match request {
        InternalRequestView::ShouldPrepare { command } => Some(
            if should_prepare_at(cfg, disk, command) {
                "true"@
            } else {
                "false"@
            },
        ),
        InternalRequestView::Prepare { command } => Some(cfg.output_file()),
        InternalRequestView::Cleanup => None,
        InternalRequestView::Nothing => None,
    }
}

/// The request that the options of the `config` subcommand make: listing
/// comes first, then adding, removing, clearing and resetting, in this order.
pub open spec fn config_request_spec(
    list: bool,
    add: Option<String>,
    remove: Option<String>,
    clear: bool,
    reset: bool,
) -> ConfigRequestView {
    if list {
        ConfigRequestView::List
    } else {
        match add {
            Some(pattern) => ConfigRequestView::Edit { edit: SkipEditView::Add { pattern: pattern@ } },
            None => match remove {
                Some(pattern) => ConfigRequestView::Edit {
                    edit: SkipEditView::Remove { pattern: pattern@ },
                },
                None => if clear {
                    ConfigRequestView::Edit { edit: SkipEditView::Clear }
                } else if reset {
                    ConfigRequestView::Edit { edit: SkipEditView::Reset }
                } else {
                    ConfigRequestView::Nothing
                },
            },
        }
    }
}

/// The skip list after `edit`, or `None` where the edit leaves the list as
/// it is and nothing is to be written.
pub open spec fn edited_list(current: Seq<Seq<char>>, edit: SkipEditView) -> Option<
    Seq<Seq<char>>,
> {
    match edit {
        SkipEditView::Add { pattern } => if current.contains(pattern) {
            None
        } else {
            Some(current.push(pattern))
        },
        SkipEditView::Remove { pattern } => if current.contains(pattern) {
            Some(without(current, pattern))
        } else {
            None
        },
        SkipEditView::Clear => Some(Seq::empty()),
        SkipEditView::Reset => Some(default_skip_list()),
    }
}

/// What `edit` comes to on the list `current`.
pub open spec fn edit_outcome(current: Seq<Seq<char>>, edit: SkipEditView) -> SkipOutcome {
    match edit {
        SkipEditView::Add { pattern } => if current.contains(pattern) {
            SkipOutcome::AlreadyPresent
        } else {
            SkipOutcome::Added
        },
        SkipEditView::Remove { pattern } => if current.contains(pattern) {
            SkipOutcome::Removed
        } else {
            SkipOutcome::NotPresent
        },
        SkipEditView::Clear => SkipOutcome::Cleared,
        SkipEditView::Reset => SkipOutcome::Reset,
    }
}

/// The steps that `edit` calls for under the configuration `cfg` on the
/// files `disk`.
pub open spec fn edit_ops(cfg: ConfigView, disk: Disk, edit: SkipEditView) -> Seq<FileOpView> {
    match edited_list(cfg.skip_commands(disk), edit) {
        Some(list) => cfg.save_skip_commands(list),
        None => Seq::empty(),
    }
}

/// The skip list in force is always storable.
pub proof fn lemma_skip_list_storable(cfg: ConfigView, disk: Disk)
    ensures
        storable(cfg.skip_commands(disk)),
{
    lemma_default_is_storable();
    match text_at(disk, cfg.skip_commands_file()) {
        Some(content) => {
            lemma_parsed_is_storable(content);
        },
        None => {},
    }
}

/// An edit takes effect on the next read: once its steps have succeeded, the
/// skip list in force is the edited list. A pattern to add must be storable.
pub proof fn lemma_edit_takes_effect(cfg: ConfigView, disk: Disk, edit: SkipEditView)
    requires
        edit matches SkipEditView::Add { pattern } ==> is_storable_entry(pattern),
    ensures
        cfg.skip_commands(apply_ops(disk, edit_ops(cfg, disk, edit))) == match edited_list(
            cfg.skip_commands(disk),
            edit,
        ) {
            Some(list) => list,
            None => cfg.skip_commands(disk),
        },
{
    let current = cfg.skip_commands(disk);
    lemma_skip_list_storable(cfg, disk);
    lemma_default_is_storable();
    match edited_list(current, edit) {
        Some(list) => {
            assert(storable(list)) by {
                match edit {
                    SkipEditView::Add { pattern } => {},
                    SkipEditView::Remove { pattern } => {
                        lemma_without(current, pattern);
                        assert forall|i: int| 0 <= i < list.len() implies is_storable_entry(
                            #[trigger] list[i],
                        ) by {
                            assert(list.contains(list[i]));
                            assert(current.contains(list[i]));
                        }
                    },
                    SkipEditView::Clear => {},
                    SkipEditView::Reset => {},
                }
            }
            lemma_skip_list_round_trip(cfg, disk, list);
        },
        None => {},
    }
}

/// Edits keep the skip list free of duplicates: adding leaves out what is
/// there already, and removing takes out every occurrence.
pub proof fn lemma_edit_keeps_distinct(current: Seq<Seq<char>>, edit: SkipEditView)
    requires
        current.no_duplicates(),
    ensures
        edited_list(current, edit) matches Some(list) ==> list.no_duplicates(),
        edit matches SkipEditView::Remove { pattern } ==> (edited_list(current, edit) matches Some(
            list,
        ) ==> !list.contains(pattern)),
{
    lemma_default_is_storable();
    match edit {
        SkipEditView::Add { pattern } => {
            if !current.contains(pattern) {
                let list = current.push(pattern);
                assert forall|i: int, j: int| 0 <= i < j < list.len() implies list[i]
                    != list[j] by {
                    if j == current.len() {
                        assert(current.contains(current[i]));
                    }
                }
            }
        },
        SkipEditView::Remove { pattern } => {
            lemma_without(current, pattern);
        },
        SkipEditView::Clear => {},
        SkipEditView::Reset => {},
    }
}

/// Reads the request of the shell integration from its options.
pub fn internal_request(
    should_prepare: Option<String>,
    prepare: Option<String>,
    cleanup: bool,
) -> (r: InternalRequest)
    ensures
        r@ == internal_request_spec(should_prepare, prepare, cleanup),
{
    match should_prepare {
        Some(command) => InternalRequest::ShouldPrepare { command },
        None => match prepare {
            Some(command) => InternalRequest::Prepare { command },
            None => if cleanup {
                InternalRequest::Cleanup
            } else {
                InternalRequest::Nothing
            },
        },
    }
}

/// Answers a request of the shell integration for `session` on `files`.
pub fn handle_internal_command(
    session: &CaptureSession,
    files: &Files,
    request: &InternalRequest,
) -> (r: InternalReply)
    ensures
        ops_view(r.ops@) == internal_ops(session@, request@),
        match r.line {
            Some(line) => internal_line(session@, files@, request@) == Some(line@),
            None => internal_line(session@, files@, request@) is None,
        },
{
    match request {
        InternalRequest::ShouldPrepare { command } => {
            let line = if session.should_prepare(files, command.as_str()) {
                String::from_str("true")
            } else {
                String::from_str("false")
            };
            let ops: Vec<FileOp> = Vec::new();
            assert(ops_view(ops@) =~= Seq::<FileOpView>::empty());
            InternalReply { ops, line: Some(line) }
        },
        InternalRequest::Prepare { command } => {
            let prepared = session.prepare_new_command(command.as_str());
            InternalReply { ops: prepared.ops, line: Some(prepared.output_file) }
        },
        InternalRequest::Cleanup => InternalReply { ops: session.cleanup(), line: None },
        InternalRequest::Nothing => {
            let ops: Vec<FileOp> = Vec::new();
            assert(ops_view(ops@) =~= Seq::<FileOpView>::empty());
            InternalReply { ops, line: None }
        },
    }
}

/// Reads the request of the `config` subcommand from its options.
pub fn config_request(
    list: bool,
    add: Option<String>,
    remove: Option<String>,
    clear: bool,
    reset: bool,
) -> (r: ConfigRequest)
    ensures
        r@ == config_request_spec(list, add, remove, clear, reset),
{
    if list {
        return ConfigRequest::List;
    }
    match add {
        Some(pattern) => ConfigRequest::Edit { edit: SkipEdit::Add { pattern } },
        None => match remove {
            Some(pattern) => ConfigRequest::Edit { edit: SkipEdit::Remove { pattern } },
            None => if clear {
                ConfigRequest::Edit { edit: SkipEdit::Clear }
            } else if reset {
                ConfigRequest::Edit { edit: SkipEdit::Reset }
            } else {
                ConfigRequest::Nothing
            },
        },
    }
}

/// Edits the skip list that `config` finds in `files`: the whole new list is
/// saved, or nothing is written where the list stays as it is.
pub fn edit_skip_commands(config: &Config, files: &Files, edit: &SkipEdit) -> (r: SkipUpdate)
    ensures
        r.outcome == edit_outcome(config@.skip_commands(files@), edit@),
        ops_view(r.ops@) == edit_ops(config@, files@, edit@),
{
    let ghost current = config@.skip_commands(files@);
    match edit {
        SkipEdit::Add { pattern } => {
            let mut list = config.skip_commands(files);
            if !contains_entry(&list, pattern.as_str()) {
                list.push(pattern.clone());
                assert(texts(list@) =~= current.push(pattern@));
                SkipUpdate { outcome: SkipOutcome::Added, ops: config.save_skip_commands(list.as_slice()) }
            } else {
                let ops: Vec<FileOp> = Vec::new();
                assert(ops_view(ops@) =~= Seq::<FileOpView>::empty());
                SkipUpdate { outcome: SkipOutcome::AlreadyPresent, ops }
            }
        },
        SkipEdit::Remove { pattern } => {
            let list = config.skip_commands(files);
            if contains_entry(&list, pattern.as_str()) {
                let kept = remove_entry(&list, pattern.as_str());
                SkipUpdate { outcome: SkipOutcome::Removed, ops: config.save_skip_commands(kept.as_slice()) }
            } else {
                let ops: Vec<FileOp> = Vec::new();
                assert(ops_view(ops@) =~= Seq::<FileOpView>::empty());
                SkipUpdate { outcome: SkipOutcome::NotPresent, ops }
            }
        },
        SkipEdit::Clear => {
            let list: Vec<String> = Vec::new();
            assert(texts(list@) =~= Seq::<Seq<char>>::empty());
            SkipUpdate { outcome: SkipOutcome::Cleared, ops: config.save_skip_commands(list.as_slice()) }
        },
        SkipEdit::Reset => {
            let list = default_skip_commands();
            SkipUpdate { outcome: SkipOutcome::Reset, ops: config.save_skip_commands(list.as_slice()) }
        },
    }
}

} // verus!

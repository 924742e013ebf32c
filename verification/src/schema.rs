//! What the tools take and what they return.
use vstd::prelude::*;

verus! {

/// The input of `list-sessions`.
#[derive(Debug)]
pub struct ListSessionsInput {
    /// Optional zellij session name. Ignored because zellij session listing is
    /// global, but accepted for input-shape consistency with the other tools.
    pub session: Option<String>,
}

/// The input of `list-panes`.
#[derive(Debug)]
pub struct ListPanesInput {
    /// Optional zellij session name. If omitted, the zellij CLI uses the
    /// current session from its inherited zellij environment. For caller-side
    /// session detection, use `ZELLIJ_SESSION_NAME`; `ZELLIJ` is only a
    /// presence marker.
    pub session: Option<String>,
}

/// The input of `spawn-pane` and `spawn-pane-with-target`.
#[derive(Debug)]
pub struct SpawnPaneInput {
    /// Working directory for the new pane. Required: zellij's `new-pane` defaults
    /// to the parent process cwd otherwise, which is rarely what the agent wants.
    pub cwd: String,
    /// Optional command to run in the new pane (argv split). If omitted, the pane
    /// runs the user's default shell.
    pub command: Option<Vec<String>>,
    /// Optional split direction relative to the focused pane: `"right"`, `"down"`,
    /// `"left"` or `"up"`. If omitted, zellij chooses the largest available space.
    pub direction: Option<String>,
    /// If true, open the pane as a floating overlay rather than splitting.
    pub floating: Option<bool>,
    /// Optional human-readable name for the new pane.
    pub name: Option<String>,
    /// If set, after spawning, focus is restored to this pane id (e.g. the
    /// caller's own pane). Use this to spawn background panes without losing focus.
    pub keep_focus_on: Option<String>,
    /// If set, focus this pane before spawning so the new split is anchored next
    /// to it rather than the current focus.
    pub target_pane_id: Option<String>,
    /// Optional zellij session name (see list-panes).
    pub session: Option<String>,
}

/// The input of `send-text`.
#[derive(Debug)]
pub struct SendTextInput {
    /// Pane ID, e.g. `terminal_3` or `plugin_1`. Bare integers are accepted by
    /// zellij as `terminal_<n>`.
    pub pane_id: String,
    /// Text to write to the pane. Sent via `zellij action write-chars`.
    pub text: String,
    /// If true, follow the text with a submit key. Default: false (just type).
    pub submit: Option<bool>,
    /// Submit key when `submit: true`. `"enter"` (default) sends byte 13 (CR);
    /// `"shift_enter"` sends byte 10 (LF), useful for multi-line composers that
    /// treat shift+enter as newline-without-submit.
    pub newline_mode: Option<String>,
    /// Optional zellij session name.
    pub session: Option<String>,
}

/// The input of `read-pane`.
#[derive(Debug)]
pub struct ReadPaneInput {
    /// Pane ID, e.g. `terminal_3`.
    pub pane_id: String,
    /// If true, include scrollback buffer. Default: viewport only.
    pub full: Option<bool>,
    /// Optional zellij session name.
    pub session: Option<String>,
}

/// The input of `focus-pane` and `kill-pane`.
#[derive(Debug)]
pub struct PaneTargetInput {
    /// Pane ID.
    pub pane_id: String,
    /// Optional zellij session name.
    pub session: Option<String>,
}

/// The input of `resize-pane`.
#[derive(Debug)]
pub struct ResizePaneInput {
    /// Pane ID.
    pub pane_id: String,
    /// Resize operation. Must be `"increase"` or `"decrease"`.
    pub direction: String,
    /// Optional zellij session name.
    pub session: Option<String>,
}

/// One zellij session.
#[derive(Debug, PartialEq, Eq)]
pub struct SessionSummary {
    /// Zellij session name.
    pub name: String,
    /// Session age in whole seconds, parsed from zellij's "Created ... ago" text.
    pub created_age_seconds: u64,
    /// True if zellij marks this session as current/attached.
    pub is_attached: bool,
    /// True if zellij marks this session as exited.
    pub is_exited: bool,
}

/// What a [`SessionSummary`] says.
#[verifier::ext_equal]
pub struct SessionModel {
    pub name: Seq<char>,
    pub created_age_seconds: int,
    pub is_attached: bool,
    pub is_exited: bool,
}

impl DeepView for SessionSummary {
    type V = SessionModel;

    open spec fn deep_view(&self) -> SessionModel {
        SessionModel {
            name: self.name@,
            created_age_seconds: self.created_age_seconds as int,
            is_attached: self.is_attached,
            is_exited: self.is_exited,
        }
    }
}

/// One zellij pane.
#[derive(Debug, PartialEq, Eq)]
pub struct PaneSummary {
    /// Stable pane id in the form `terminal_<n>` or `plugin_<n>`.
    pub id: String,
    /// User-visible pane title.
    pub title: String,
    /// True if this is the focused pane in its tab.
    pub is_focused: bool,
    /// True if this is a plugin pane (vs a regular terminal pane).
    pub is_plugin: bool,
    /// True if floating.
    pub is_floating: bool,
    /// Has the underlying command exited?
    pub exited: bool,
    /// Tab id this pane lives in.
    pub tab_id: u64,
    /// Tab name.
    pub tab_name: String,
    /// The command running in the pane, if known.
    pub command: Option<String>,
    /// Working directory of the running command, if known.
    pub cwd: Option<String>,
}

/// What a [`PaneSummary`] says.
#[verifier::ext_equal]
pub struct PaneModel {
    pub id: Seq<char>,
    pub title: Seq<char>,
    pub is_focused: bool,
    pub is_plugin: bool,
    pub is_floating: bool,
    pub exited: bool,
    pub tab_id: u64,
    pub tab_name: Seq<char>,
    pub command: Option<Seq<char>>,
    pub cwd: Option<Seq<char>>,
}

impl DeepView for PaneSummary {
    type V = PaneModel;

    open spec fn deep_view(&self) -> PaneModel {
        PaneModel {
            id: self.id@,
            title: self.title@,
            is_focused: self.is_focused,
            is_plugin: self.is_plugin,
            is_floating: self.is_floating,
            exited: self.exited,
            tab_id: self.tab_id,
            tab_name: self.tab_name@,
            command: self.command.deep_view(),
            cwd: self.cwd.deep_view(),
        }
    }
}

/// The output of `list-panes`.
#[derive(Debug)]
pub struct ListPanesOutput {
    pub panes: Vec<PaneSummary>,
}

impl DeepView for ListPanesOutput {
    type V = Seq<PaneModel>;

    open spec fn deep_view(&self) -> Seq<PaneModel> {
        self.panes.deep_view()
    }
}

/// The output of `list-sessions`.
#[derive(Debug)]
pub struct ListSessionsOutput {
    pub sessions: Vec<SessionSummary>,
}

impl DeepView for ListSessionsOutput {
    type V = Seq<SessionModel>;

    open spec fn deep_view(&self) -> Seq<SessionModel> {
        self.sessions.deep_view()
    }
}

/// The output of `spawn-pane` and `spawn-pane-with-target`.
#[derive(Debug)]
pub struct SpawnPaneOutput {
    /// The id of the newly created pane.
    pub pane_id: String,
}

impl DeepView for SpawnPaneOutput {
    type V = Seq<char>;

    open spec fn deep_view(&self) -> Seq<char> {
        self.pane_id@
    }
}

/// The output of the tools that act on a pane and have nothing to return.
#[derive(Debug)]
pub struct OkOutput {
    pub ok: bool,
}

impl DeepView for OkOutput {
    type V = bool;

    open spec fn deep_view(&self) -> bool {
        self.ok
    }
}

/// The output of `read-pane`.
#[derive(Debug)]
pub struct ReadPaneOutput {
    pub text: String,
}

impl DeepView for ReadPaneOutput {
    type V = Seq<char>;

    open spec fn deep_view(&self) -> Seq<char> {
        self.text@
    }
}

/// What an outcome stands for, by the meaning of its value and the words of its error.
pub open spec fn outcome<T: DeepView>(r: Result<T, String>) -> Result<T::V, Seq<char>> {
    match r {
        Ok(value) => Ok(value.deep_view()),
        Err(e) => Err(e@),
    }
}

} // verus!

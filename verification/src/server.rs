//! The tools: what each does with a request, step by step, and what it answers.
//!
//! - A pane id is required wherever a tool acts on a pane. None falls back to the focus.
//! - `spawn-pane` takes `keep_focus_on`, so that a caller can open background panes without
//!   losing its seat in the foreground pane.
//! - `spawn-pane-with-target` anchors a new split at a specific existing pane.
use crate::command::{
    captured, focus_outcome, focused, run_capturing, run_text, Run, RunModel, Step, StepModel,
};
use crate::json::{json_document, parse_json, Json, JsonModel};
use crate::outside::{lowercase, to_lowercase};
use crate::panes::{or_false, panes_of, parse_panes};
use crate::schema::{
    outcome, ListPanesInput, ListPanesOutput, ListSessionsInput, ListSessionsOutput, OkOutput,
    PaneModel, PaneTargetInput, ReadPaneInput, ReadPaneOutput, ResizePaneInput, SendTextInput,
    SessionModel, SpawnPaneInput, SpawnPaneOutput,
};
use crate::sessions::{parse_sessions, sessions_of};
use crate::text::same;
use crate::zellij;
use crate::zellij::{
    as_text, close_pane_args, dump_screen_args, focus_args, list_panes_args, list_sessions_args,
    new_pane_next, new_pane_start, resize_next, resize_run, write_byte_args, write_chars_args,
    NewPane, NewPaneModel, PaneRequest, RequestModel, ResizeModel, ResizePane,
};
use vstd::prelude::*;

verus! {

/// `message` under the name of the tool that reports it.
fn tool_error(tool_name: &str, message: &str) -> (r: String)
    ensures
        r@ == tool_name@ + ": "@ + message@,
{
    let mut text = tool_name.to_owned();
    text.append(": ");
    text.append(message);
    text
}

/// The answer of `list-sessions` to what the listing printed.
pub open spec fn sessions_answer(listed: Result<Seq<char>, Seq<char>>) -> Result<
    Seq<SessionModel>,
    Seq<char>,
> {
    match listed {
        Err(e) => Err("list-sessions"@ + ": "@ + e),
        Ok(raw) => match sessions_of(raw) {
            Ok(sessions) => Ok(sessions),
            Err(e) => Err("list-sessions"@ + ": "@ + e + "\nraw: "@ + raw),
        },
    }
}

/// The answer of `list-panes` to a document that was read.
pub open spec fn panes_answer(document: JsonModel) -> Result<Seq<PaneModel>, Seq<char>> {
    match panes_of(document) {
        Some(panes) => Ok(panes),
        None => Err("list-panes"@ + ": "@ + "zellij output was not a JSON array"@),
    }
}

/// The answer of `list-panes` to what the listing printed.
pub open spec fn listing_answer(listed: Result<Seq<char>, Seq<char>>) -> Result<
    Seq<PaneModel>,
    Seq<char>,
> {
    match listed {
        Err(e) => Err("list-panes"@ + ": "@ + e),
        Ok(raw) => match json_document(raw) {
            Err(e) => Err(
                "list-panes"@ + ": "@ + "failed to parse zellij JSON: "@ + e + "\nraw: "@ + raw,
            ),
            Ok(document) => panes_answer(document),
        },
    }
}

/// A call of `list-sessions` that waits for the listing.
#[derive(Debug)]
pub struct ListSessions {}

/// A call of `list-panes` that waits for the listing.
#[derive(Debug)]
pub struct ListPanes {}

/// A call of `read-pane` that waits for the text of the pane.
#[derive(Debug)]
pub struct ReadPane {}

/// A call of `focus-pane` that waits for the focus to move.
#[derive(Debug)]
pub struct FocusPane {}

/// A call of `kill-pane` that waits for the pane to close.
#[derive(Debug)]
pub struct KillPane {}

impl DeepView for ListSessions {
    type V = ();

    open spec fn deep_view(&self) -> () {
        ()
    }
}

impl DeepView for ListPanes {
    type V = ();

    open spec fn deep_view(&self) -> () {
        ()
    }
}

impl DeepView for ReadPane {
    type V = ();

    open spec fn deep_view(&self) -> () {
        ()
    }
}

impl DeepView for FocusPane {
    type V = ();

    open spec fn deep_view(&self) -> () {
        ()
    }
}

impl DeepView for KillPane {
    type V = ();

    open spec fn deep_view(&self) -> () {
        ()
    }
}

/// A single run without delay.
pub open spec fn one_run<T>(args: Seq<Seq<char>>) -> StepModel<(), T> {
    StepModel::Run { delay_ms: 0, args, state: () }
}

/// Starts `list-sessions`. The listing is global: the session of the input is ignored.
pub fn list_sessions(input: ListSessionsInput) -> (r: Step<ListSessions, ListSessionsOutput>)
    ensures
        r.deep_view() == one_run::<Seq<SessionModel>>(list_sessions_args()),
{
    let ListSessionsInput { session: _session } = input;
    Step::Run { delay_ms: 0, args: zellij::list_sessions(), state: ListSessions {  } }
}

/// The answer of `list-sessions` to what the listing printed.
pub fn answer_sessions(listed: Result<String, String>) -> (r: Result<ListSessionsOutput, String>)
    ensures
        outcome(r) == sessions_answer(outcome(listed)),
{
    match listed {
        Err(e) => Err(tool_error("list-sessions", e.as_str())),
        Ok(raw) => match parse_sessions(raw.as_str()) {
            Ok(sessions) => Ok(ListSessionsOutput { sessions }),
            Err(e) => {
                let mut message = tool_error("list-sessions", e.as_str());
                message.append("\nraw: ");
                message.append(raw.as_str());
                Err(message)
            },
        },
    }
}

impl ListSessions {
    /// Answers with what the listing came to.
    pub fn resume(self, run: Run) -> (r: Step<ListSessions, ListSessionsOutput>)
        ensures
            r.deep_view() == StepModel::<(), Seq<SessionModel>>::Done(
                sessions_answer(captured(outcome(run), "list-sessions"@)),
            ),
    {
        Step::Done(answer_sessions(run_capturing(&run, "list-sessions")))
    }
}

/// Starts `list-panes`.
pub fn list_panes(input: ListPanesInput) -> (r: Step<ListPanes, ListPanesOutput>)
    ensures
        r.deep_view() == one_run::<Seq<PaneModel>>(list_panes_args(input.session.deep_view())),
{
    Step::Run {
        delay_ms: 0,
        args: zellij::list_panes_json(as_text(&input.session)),
        state: ListPanes {  },
    }
}

/// The answer of `list-panes` to a document that was read.
pub fn answer_document(document: &Json) -> (r: Result<ListPanesOutput, String>)
    ensures
        outcome(r) == panes_answer(document@),
{
    match parse_panes(document) {
        Some(panes) => Ok(ListPanesOutput { panes }),
        None => Err(tool_error("list-panes", "zellij output was not a JSON array")),
    }
}

/// The answer of `list-panes` to what the listing printed.
pub fn answer_panes(listed: Result<String, String>) -> (r: Result<ListPanesOutput, String>)
    ensures
        outcome(r) == listing_answer(outcome(listed)),
{
    match listed {
        Err(e) => Err(tool_error("list-panes", e.as_str())),
        Ok(raw) => match parse_json(raw.as_str()) {
            Err(e) => {
                let mut message = tool_error("list-panes", "failed to parse zellij JSON: ");
                message.append(e.as_str());
                message.append("\nraw: ");
                message.append(raw.as_str());
                Err(message)
            },
            Ok(document) => answer_document(&document),
        },
    }
}

impl ListPanes {
    /// Answers with what the listing came to.
    pub fn resume(self, run: Run) -> (r: Step<ListPanes, ListPanesOutput>)
        ensures
            r.deep_view() == StepModel::<(), Seq<PaneModel>>::Done(
                listing_answer(captured(outcome(run), "action list-panes"@)),
            ),
    {
        Step::Done(answer_panes(run_capturing(&run, "action list-panes")))
    }
}

/// Starts `read-pane`.
pub fn read_pane(input: ReadPaneInput) -> (r: Step<ReadPane, ReadPaneOutput>)
    ensures
        r.deep_view() == one_run::<Seq<char>>(
            dump_screen_args(input.session.deep_view(), input.pane_id@, or_false(input.full)),
        ),
{
    Step::Run {
        delay_ms: 0,
        args: zellij::dump_screen(
            as_text(&input.session),
            input.pane_id.as_str(),
            input.full.unwrap_or(false),
        ),
        state: ReadPane {  },
    }
}

/// `result` with its error, if it is one, under the name of the tool that reports it.
pub open spec fn reported<T>(tool_name: Seq<char>, result: Result<T, Seq<char>>) -> Result<
    T,
    Seq<char>,
> {
    match result {
        Ok(value) => Ok(value),
        Err(e) => Err(tool_name + ": "@ + e),
    }
}

impl ReadPane {
    /// Answers with what the pane shows.
    pub fn resume(self, run: Run) -> (r: Step<ReadPane, ReadPaneOutput>)
        ensures
            r.deep_view() == StepModel::<(), Seq<char>>::Done(
                reported("read-pane"@, captured(outcome(run), "action dump-screen"@)),
            ),
    {
        match run_capturing(&run, "action dump-screen") {
            Ok(text) => Step::Done(Ok(ReadPaneOutput { text })),
            Err(e) => Step::Done(Err(tool_error("read-pane", e.as_str()))),
        }
    }
}

/// The answer of a tool that acts on a pane: that it is done, or the error.
pub open spec fn acted<T>(tool_name: Seq<char>, result: Result<T, Seq<char>>) -> Result<
    bool,
    Seq<char>,
> {
    match result {
        Ok(_) => Ok(true),
        Err(e) => Err(tool_name + ": "@ + e),
    }
}

/// Starts `focus-pane`.
pub fn focus_pane(input: PaneTargetInput) -> (r: Step<FocusPane, OkOutput>)
    ensures
        r.deep_view() == one_run::<bool>(focus_args(input.session.deep_view(), input.pane_id@)),
{
    Step::Run {
        delay_ms: 0,
        args: zellij::focus_pane_id(as_text(&input.session), input.pane_id.as_str()),
        state: FocusPane {  },
    }
}

impl FocusPane {
    /// Answers whether the focus has moved.
    pub fn resume(self, run: Run) -> (r: Step<FocusPane, OkOutput>)
        ensures
            r.deep_view() == StepModel::<(), bool>::Done(
                acted("focus-pane"@, focused(run_text(outcome(run)))),
            ),
    {
        match focus_outcome(&run) {
            Ok(()) => Step::Done(Ok(OkOutput { ok: true })),
            Err(e) => Step::Done(Err(tool_error("focus-pane", e.as_str()))),
        }
    }
}

/// Starts `kill-pane`.
pub fn kill_pane(input: PaneTargetInput) -> (r: Step<KillPane, OkOutput>)
    ensures
        r.deep_view() == one_run::<bool>(
            close_pane_args(input.session.deep_view(), input.pane_id@),
        ),
{
    Step::Run {
        delay_ms: 0,
        args: zellij::close_pane(as_text(&input.session), input.pane_id.as_str()),
        state: KillPane {  },
    }
}

impl KillPane {
    /// Answers whether the pane has closed.
    pub fn resume(self, run: Run) -> (r: Step<KillPane, OkOutput>)
        ensures
            r.deep_view() == StepModel::<(), bool>::Done(
                acted("kill-pane"@, captured(outcome(run), "action close-pane"@)),
            ),
    {
        match run_capturing(&run, "action close-pane") {
            Ok(_) => Step::Done(Ok(OkOutput { ok: true })),
            Err(e) => Step::Done(Err(tool_error("kill-pane", e.as_str()))),
        }
    }
}

/// Whether `direction`, in lowercase, is a way to resize a pane.
pub open spec fn is_resize_direction(direction: Seq<char>) -> bool {
    direction == "increase"@ || direction == "decrease"@
}

/// A call of `resize-pane` that waits for the pane to be resized.
#[derive(Debug)]
pub struct ResizeCall {
    task: ResizePane,
}

impl DeepView for ResizeCall {
    type V = ResizeModel;

    closed spec fn deep_view(&self) -> ResizeModel {
        self.task.deep_view()
    }
}

/// The step of `resize-pane` that a step of the resize comes to.
pub open spec fn resize_reports(step: StepModel<ResizeModel, ()>) -> StepModel<ResizeModel, bool> {
    match step {
        StepModel::Run { delay_ms, args, state } => StepModel::Run { delay_ms, args, state },
        StepModel::Done(result) => StepModel::Done(acted("resize-pane"@, result)),
    }
}

/// The first step of `resize-pane`, where `lowered` is the lowercase of `direction`.
pub open spec fn resize_call_start(
    session: Option<Seq<char>>,
    pane_id: Seq<char>,
    direction: Seq<char>,
    lowered: Seq<char>,
) -> StepModel<ResizeModel, bool> {
    if is_resize_direction(lowered) {
        resize_reports(
            resize_run(ResizeModel { session, pane_id, direction: lowered, failures: 0 }, 0),
        )
    } else {
        StepModel::Done(
            Err(
                "resize-pane"@ + ": "@ + "direction must be `increase` or `decrease`, got `"@
                    + direction + "`"@,
            ),
        )
    }
}

/// Starts `resize-pane`. The case of the direction does not matter.
pub fn resize_pane(input: ResizePaneInput) -> (r: Step<ResizeCall, OkOutput>)
    ensures
        r.deep_view() == resize_call_start(
            input.session.deep_view(),
            input.pane_id@,
            input.direction@,
            lowercase(input.direction@),
        ),
{
    let lowered = to_lowercase(input.direction.as_str());
    start_resize(&input, lowered.as_str())
}

/// Starts `resize-pane`, where `lowered` is the lowercase of the direction.
pub fn start_resize(input: &ResizePaneInput, lowered: &str) -> (r: Step<ResizeCall, OkOutput>)
    ensures
        r.deep_view() == resize_call_start(
            input.session.deep_view(),
            input.pane_id@,
            input.direction@,
            lowered@,
        ),
{
    if !same(lowered, "increase") && !same(lowered, "decrease") {
        let mut message = tool_error(
            "resize-pane",
            "direction must be `increase` or `decrease`, got `",
        );
        message.append(input.direction.as_str());
        message.append("`");
        return Step::Done(Err(message));
    }
    ResizeCall::report(
        zellij::resize_pane(as_text(&input.session), input.pane_id.as_str(), lowered),
    )
}

impl ResizeCall {
    /// Goes on with what a run came to.
    pub fn resume(self, run: Run) -> (r: Step<ResizeCall, OkOutput>)
        ensures
            r.deep_view() == resize_reports(resize_next(self.deep_view(), outcome(run))),
    {
        ResizeCall::report(self.task.resume(run))
    }

    /// Answers with a step of the resize.
    fn report(step: Step<ResizePane, ()>) -> (r: Step<ResizeCall, OkOutput>)
        ensures
            r.deep_view() == resize_reports(step.deep_view()),
    {
        match step {
            Step::Run { delay_ms, args, state } => Step::Run {
                delay_ms,
                args,
                state: ResizeCall { task: state },
            },
            Step::Done(Ok(())) => Step::Done(Ok(OkOutput { ok: true })),
            Step::Done(Err(e)) => Step::Done(Err(tool_error("resize-pane", e.as_str()))),
        }
    }
}

/// The byte of the submit key of a newline mode, where `mode` is in lowercase.
pub open spec fn submit_byte(mode: Seq<char>) -> Option<u8> {
    if mode == "enter"@ {
        Some(13)
    } else if mode == "shift_enter"@ {
        Some(10)
    } else {
        None
    }
}

/// The newline mode that an input asks for: `enter` by default.
pub open spec fn newline_mode(mode: Option<Seq<char>>) -> Seq<char> {
    match mode {
        Some(mode) => mode,
        None => "enter"@,
    }
}

/// A call of `send-text` that waits for the text or for the submit key to be written.
#[derive(Debug)]
pub struct SendText {
    session: Option<String>,
    pane_id: String,
    submit: bool,
    newline_mode: Option<String>,
    typed: bool,
}

/// What a [`SendText`] says.
#[verifier::ext_equal]
pub struct SendTextModel {
    pub session: Option<Seq<char>>,
    pub pane_id: Seq<char>,
    /// Whether a submit key follows the text.
    pub submit: bool,
    pub newline_mode: Option<Seq<char>>,
    /// Whether the text has been written, so that the submit key is awaited.
    pub typed: bool,
}

impl DeepView for SendText {
    type V = SendTextModel;

    closed spec fn deep_view(&self) -> SendTextModel {
        SendTextModel {
            session: self.session.deep_view(),
            pane_id: self.pane_id@,
            submit: self.submit,
            newline_mode: self.newline_mode.deep_view(),
            typed: self.typed,
        }
    }
}

/// The step of `send-text` after the text has been written and is to be submitted, where
/// `mode` is the newline mode in lowercase.
pub open spec fn send_text_submits(state: SendTextModel, mode: Seq<char>) -> StepModel<
    SendTextModel,
    bool,
> {
    match submit_byte(mode) {
        Some(byte) => StepModel::Run {
            delay_ms: 0,
            args: write_byte_args(state.session, state.pane_id, byte),
            state: SendTextModel { typed: true, ..state },
        },
        None => StepModel::Done(
            Err(
                "send-text"@ + ": "@ + "newline_mode must be `enter` or `shift_enter`, got `"@
                    + mode + "`"@,
            ),
        ),
    }
}

/// The step of `send-text` after one run.
pub open spec fn send_text_next(state: SendTextModel, run: RunModel) -> StepModel<
    SendTextModel,
    bool,
> {
    if state.typed {
        match captured(run, "action write"@) {
            Err(e) => StepModel::Done(
                Err("send-text"@ + ": "@ + "submit byte write failed: "@ + e),
            ),
            Ok(_) => StepModel::Done(Ok(true)),
        }
    } else {
        match captured(run, "action write-chars"@) {
            Err(e) => StepModel::Done(Err("send-text"@ + ": "@ + "write-chars failed: "@ + e)),
            Ok(_) => if state.submit {
                send_text_submits(state, lowercase(newline_mode(state.newline_mode)))
            } else {
                StepModel::Done(Ok(true))
            },
        }
    }
}

/// The first step of `send-text`.
pub open spec fn send_text_start(input: SendTextInput) -> StepModel<SendTextModel, bool> {
    StepModel::Run {
        delay_ms: 0,
        args: write_chars_args(input.session.deep_view(), input.pane_id@, input.text@),
        state: SendTextModel {
            session: input.session.deep_view(),
            pane_id: input.pane_id@,
            submit: or_false(input.submit),
            newline_mode: input.newline_mode.deep_view(),
            typed: false,
        },
    }
}

/// Starts `send-text`: the text is written first, and the submit key, if any, after it.
pub fn send_text(input: SendTextInput) -> (r: Step<SendText, OkOutput>)
    ensures
        r.deep_view() == send_text_start(input),
{
    Step::Run {
        delay_ms: 0,
        args: zellij::write_chars(
            as_text(&input.session),
            input.pane_id.as_str(),
            input.text.as_str(),
        ),
        state: SendText {
            session: input.session,
            pane_id: input.pane_id,
            submit: input.submit.unwrap_or(false),
            newline_mode: input.newline_mode,
            typed: false,
        },
    }
}

impl SendText {
    /// Goes on with what a run came to.
    pub fn resume(self, run: Run) -> (r: Step<SendText, OkOutput>)
        ensures
            r.deep_view() == send_text_next(self.deep_view(), outcome(run)),
    {
        if self.typed {
            return match run_capturing(&run, "action write") {
                Ok(_) => Step::Done(Ok(OkOutput { ok: true })),
                Err(e) => {
                    let mut message = tool_error("send-text", "submit byte write failed: ");
                    message.append(e.as_str());
                    Step::Done(Err(message))
                },
            };
        }
        match run_capturing(&run, "action write-chars") {
            Err(e) => {
                let mut message = tool_error("send-text", "write-chars failed: ");
                message.append(e.as_str());
                Step::Done(Err(message))
            },
            Ok(_) => if self.submit {
                let mode = match &self.newline_mode {
                    Some(mode) => to_lowercase(mode.as_str()),
                    None => to_lowercase("enter"),
                };
                self.press_submit(mode.as_str())
            } else {
                Step::Done(Ok(OkOutput { ok: true }))
            },
        }
    }

    /// Goes on to write the submit key, where `mode` is the newline mode in lowercase.
    pub fn press_submit(self, mode: &str) -> (r: Step<SendText, OkOutput>)
        ensures
            r.deep_view() == send_text_submits(self.deep_view(), mode@),
    {
        let byte: u8 = if same(mode, "enter") {
            13
        } else if same(mode, "shift_enter") {
            10
        } else {
            let mut message = tool_error(
                "send-text",
                "newline_mode must be `enter` or `shift_enter`, got `",
            );
            message.append(mode);
            message.append("`");
            return Step::Done(Err(message));
        };
        Step::Run {
            delay_ms: 0,
            args: zellij::write_byte(as_text(&self.session), self.pane_id.as_str(), byte),
            state: SendText {
                session: self.session,
                pane_id: self.pane_id,
                submit: self.submit,
                newline_mode: self.newline_mode,
                typed: true,
            },
        }
    }
}

/// Whether `direction`, in lowercase, is a way to split a pane.
pub open spec fn is_split_direction(direction: Seq<char>) -> bool {
    ||| direction == "right"@
    ||| direction == "down"@
    ||| direction == "left"@
    ||| direction == "up"@
}

/// How far a call that opens a pane has come.
#[derive(Debug)]
enum SpawnPhase {
    FocusTarget(PaneRequest, String),
    Open(NewPane),
    RestoreAfterFailure(String),
    Restore(String, String),
}

/// How far a call that opens a pane has come.
pub enum SpawnPhaseModel {
    /// The pane to split next to is being focused.
    FocusTarget(RequestModel, Seq<char>),
    /// The pane is being opened.
    Open(NewPaneModel),
    /// The pane could not be opened, for a reason that will be reported, and the focus is
    /// being restored.
    RestoreAfterFailure(Seq<char>),
    /// The pane, of this id, has been opened, and the focus is being restored to another.
    Restore(Seq<char>, Seq<char>),
}

/// A call of `spawn-pane` or `spawn-pane-with-target`.
#[derive(Debug)]
pub struct SpawnPane {
    tool_name: String,
    session: Option<String>,
    keep_focus_on: Option<String>,
    phase: SpawnPhase,
}

/// What a call that opens a pane keeps from its input until the end.
#[verifier::ext_equal]
pub struct SpawnContext {
    pub tool_name: Seq<char>,
    pub session: Option<Seq<char>>,
    pub keep_focus_on: Option<Seq<char>>,
}

/// What a [`SpawnPane`] says.
#[verifier::ext_equal]
pub struct SpawnModel {
    pub context: SpawnContext,
    pub phase: SpawnPhaseModel,
}

impl SpawnPane {
    closed spec fn context(self) -> SpawnContext {
        SpawnContext {
            tool_name: self.tool_name@,
            session: self.session.deep_view(),
            keep_focus_on: self.keep_focus_on.deep_view(),
        }
    }
}

impl DeepView for SpawnPane {
    type V = SpawnModel;

    closed spec fn deep_view(&self) -> SpawnModel {
        SpawnModel {
            context: self.context(),
            phase: match self.phase {
                SpawnPhase::FocusTarget(request, target) => SpawnPhaseModel::FocusTarget(
                    request.deep_view(),
                    target@,
                ),
                SpawnPhase::Open(task) => SpawnPhaseModel::Open(task.deep_view()),
                SpawnPhase::RestoreAfterFailure(message) => SpawnPhaseModel::RestoreAfterFailure(
                    message@,
                ),
                SpawnPhase::Restore(pane_id, keep) => SpawnPhaseModel::Restore(pane_id@, keep@),
            },
        }
    }
}

/// The step of a call that a step of opening its pane comes to. Whether the pane could be
/// opened or not, the focus is restored where the call asks for it.
pub open spec fn spawn_opens(
    context: SpawnContext,
    step: StepModel<NewPaneModel, Seq<char>>,
) -> StepModel<SpawnModel, Seq<char>> {
    match step {
        StepModel::Run { delay_ms, args, state } => StepModel::Run {
            delay_ms,
            args,
            state: SpawnModel { context, phase: SpawnPhaseModel::Open(state) },
        },
        StepModel::Done(result) => match context.keep_focus_on {
            None => StepModel::Done(reported(context.tool_name, result)),
            Some(keep) => StepModel::Run {
                delay_ms: 0,
                args: focus_args(context.session, keep),
                state: SpawnModel {
                    context,
                    phase: match result {
                        Ok(pane_id) => SpawnPhaseModel::Restore(pane_id, keep),
                        Err(e) => SpawnPhaseModel::RestoreAfterFailure(
                            context.tool_name + ": "@ + e,
                        ),
                    },
                },
            },
        },
    }
}

/// The first step of a call that opens a pane, where the direction of `request` is in
/// lowercase.
pub open spec fn spawn_start(
    context: SpawnContext,
    target: Option<Seq<char>>,
    request: RequestModel,
) -> StepModel<SpawnModel, Seq<char>> {
    if request.direction is Some && !is_split_direction(request.direction->0) {
        StepModel::Done(
            Err(
                context.tool_name + ": "@ + "direction must be one of right|down|left|up, got `"@
                    + request.direction->0 + "`"@,
            ),
        )
    } else {
        match target {
            Some(target) => StepModel::Run {
                delay_ms: 0,
                args: focus_args(context.session, target),
                state: SpawnModel {
                    context,
                    phase: SpawnPhaseModel::FocusTarget(request, target),
                },
            },
            None => spawn_opens(context, new_pane_start(request)),
        }
    }
}

/// The step of a call that opens a pane after one run.
pub open spec fn spawn_next(state: SpawnModel, run: RunModel) -> StepModel<SpawnModel, Seq<char>> {
    let context = state.context;
    match state.phase {
        SpawnPhaseModel::FocusTarget(request, target) => match focused(run_text(run)) {
            Err(e) => StepModel::Done(
                Err(
                    context.tool_name + ": "@ + "focusing target pane `"@ + target + "` failed: "@
                        + e,
                ),
            ),
            Ok(_) => spawn_opens(context, new_pane_start(request)),
        },
        SpawnPhaseModel::Open(task) => spawn_opens(context, new_pane_next(task, run)),
        SpawnPhaseModel::RestoreAfterFailure(message) => StepModel::Done(Err(message)),
        SpawnPhaseModel::Restore(pane_id, keep) => match focused(run_text(run)) {
            Ok(_) => StepModel::Done(Ok(pane_id)),
            Err(e) => StepModel::Done(
                Err(
                    context.tool_name + ": "@ + "pane `"@ + pane_id
                        + "` created, but restoring focus to `"@ + keep + "` failed: "@ + e,
                ),
            ),
        },
    }
}

/// What a call keeps from its input until the end.
pub open spec fn spawn_context(input: SpawnPaneInput, tool_name: Seq<char>) -> SpawnContext {
    SpawnContext {
        tool_name,
        session: input.session.deep_view(),
        keep_focus_on: input.keep_focus_on.deep_view(),
    }
}

/// The pane that an input asks for, split in `direction`.
pub open spec fn spawn_request(input: SpawnPaneInput, direction: Option<Seq<char>>) -> RequestModel {
    RequestModel {
        session: input.session.deep_view(),
        cwd: input.cwd@,
        direction,
        floating: or_false(input.floating),
        name: input.name.deep_view(),
        command: input.command.deep_view(),
    }
}

/// The direction of an input in lowercase.
pub open spec fn lowered_direction(input: SpawnPaneInput) -> Option<Seq<char>> {
    match input.direction {
        Some(direction) => Some(lowercase(direction@)),
        None => None,
    }
}

/// Starts a call of the tool `tool_name` that opens a pane. The case of the direction does
/// not matter.
pub fn spawn_pane_impl(input: SpawnPaneInput, tool_name: &str) -> (r: Step<
    SpawnPane,
    SpawnPaneOutput,
>)
    ensures
        r.deep_view() == spawn_start(
            spawn_context(input, tool_name@),
            input.target_pane_id.deep_view(),
            spawn_request(input, lowered_direction(input)),
        ),
{
    let direction = match &input.direction {
        Some(direction) => Some(to_lowercase(direction.as_str())),
        None => None,
    };
    start_spawn(input, tool_name, direction)
}

/// Starts a call of the tool `tool_name` that opens a pane, where `direction` is the direction
/// of the input in lowercase.
pub fn start_spawn(input: SpawnPaneInput, tool_name: &str, direction: Option<String>) -> (r: Step<
    SpawnPane,
    SpawnPaneOutput,
>)
    ensures
        r.deep_view() == spawn_start(
            spawn_context(input, tool_name@),
            input.target_pane_id.deep_view(),
            spawn_request(input, direction.deep_view()),
        ),
{
    if let Some(d) = &direction {
        let d = d.as_str();
        if !same(d, "right") && !same(d, "down") && !same(d, "left") && !same(d, "up") {
            let mut message = tool_error(
                tool_name,
                "direction must be one of right|down|left|up, got `",
            );
            message.append(d);
            message.append("`");
            return Step::Done(Err(message));
        }
    }
    let request = PaneRequest {
        session: input.session.clone(),
        cwd: input.cwd,
        direction,
        floating: input.floating.unwrap_or(false),
        name: input.name,
        command: input.command,
    };
    assert(request.deep_view() =~= spawn_request(input, direction.deep_view()));
    match input.target_pane_id {
        Some(target) => Step::Run {
            delay_ms: 0,
            args: zellij::focus_pane_id(as_text(&input.session), target.as_str()),
            state: SpawnPane {
                tool_name: tool_name.to_owned(),
                session: input.session,
                keep_focus_on: input.keep_focus_on,
                phase: SpawnPhase::FocusTarget(request, target),
            },
        },
        None => SpawnPane::follow(
            tool_name.to_owned(),
            input.session,
            input.keep_focus_on,
            zellij::open_pane(request),
        ),
    }
}

/// Starts `spawn-pane`.
pub fn spawn_pane(input: SpawnPaneInput) -> (r: Step<SpawnPane, SpawnPaneOutput>)
    ensures
        r.deep_view() == spawn_start(
            spawn_context(input, "spawn-pane"@),
            input.target_pane_id.deep_view(),
            spawn_request(input, lowered_direction(input)),
        ),
{
    spawn_pane_impl(input, "spawn-pane")
}

/// Starts `spawn-pane-with-target`.
pub fn spawn_pane_with_target(input: SpawnPaneInput) -> (r: Step<SpawnPane, SpawnPaneOutput>)
    ensures
        r.deep_view() == spawn_start(
            spawn_context(input, "spawn-pane-with-target"@),
            input.target_pane_id.deep_view(),
            spawn_request(input, lowered_direction(input)),
        ),
{
    spawn_pane_impl(input, "spawn-pane-with-target")
}

impl SpawnPane {
    /// Goes on with what a run came to.
    pub fn resume(self, run: Run) -> (r: Step<SpawnPane, SpawnPaneOutput>)
        ensures
            r.deep_view() == spawn_next(self.deep_view(), outcome(run)),
    {
        let SpawnPane { tool_name, session, keep_focus_on, phase } = self;
        match phase {
            SpawnPhase::FocusTarget(request, target) => match focus_outcome(&run) {
                Err(e) => {
                    let mut message = tool_error(tool_name.as_str(), "focusing target pane `");
                    message.append(target.as_str());
                    message.append("` failed: ");
                    message.append(e.as_str());
                    Step::Done(Err(message))
                },
                Ok(()) => SpawnPane::follow(
                    tool_name,
                    session,
                    keep_focus_on,
                    zellij::open_pane(request),
                ),
            },
            SpawnPhase::Open(task) => SpawnPane::follow(
                tool_name,
                session,
                keep_focus_on,
                task.resume(run),
            ),
            SpawnPhase::RestoreAfterFailure(message) => Step::Done(Err(message)),
            SpawnPhase::Restore(pane_id, keep) => match focus_outcome(&run) {
                Ok(()) => Step::Done(Ok(SpawnPaneOutput { pane_id })),
                Err(e) => {
                    let mut message = tool_error(tool_name.as_str(), "pane `");
                    message.append(pane_id.as_str());
                    message.append("` created, but restoring focus to `");
                    message.append(keep.as_str());
                    message.append("` failed: ");
                    message.append(e.as_str());
                    Step::Done(Err(message))
                },
            },
        }
    }

    /// Goes on with a step of opening the pane.
    fn follow(
        tool_name: String,
        session: Option<String>,
        keep_focus_on: Option<String>,
        step: Step<NewPane, String>,
    ) -> (r: Step<SpawnPane, SpawnPaneOutput>)
        ensures
            r.deep_view() == spawn_opens(
                SpawnContext {
                    tool_name: tool_name@,
                    session: session.deep_view(),
                    keep_focus_on: keep_focus_on.deep_view(),
                },
                step.deep_view(),
            ),
    {
        let result = match step {
            Step::Run { delay_ms, args, state } => {
                return Step::Run {
                    delay_ms,
                    args,
                    state: SpawnPane {
                        tool_name,
                        session,
                        keep_focus_on,
                        phase: SpawnPhase::Open(state),
                    },
                };
            },
            Step::Done(Ok(pane_id)) => Ok(pane_id),
            Step::Done(Err(e)) => Err(tool_error(tool_name.as_str(), e.as_str())),
        };
        match keep_focus_on {
            None => match result {
                Ok(pane_id) => Step::Done(Ok(SpawnPaneOutput { pane_id })),
                Err(message) => Step::Done(Err(message)),
            },
            Some(keep) => Step::Run {
                delay_ms: 0,
                args: zellij::focus_pane_id(as_text(&session), keep.as_str()),
                state: SpawnPane {
                    tool_name,
                    session,
                    keep_focus_on: Some(keep.clone()),
                    phase: match result {
                        Ok(pane_id) => SpawnPhase::Restore(pane_id, keep),
                        Err(message) => SpawnPhase::RestoreAfterFailure(message),
                    },
                },
            },
        }
    }
}

} // verus!

//! What each tool promises, in terms of the input of a call, the runs that it asks for and
//! what they come to. A law here speaks of whatever the functions of a tool may return.
use crate::command::{
    captured, focus_outcome, focused, is_pane_not_found, run_capturing, run_text, Run, Step,
};
use crate::json::json_document;
use crate::number::decimal_spec;
use crate::outside::{lowercase, text_of};
use crate::panes::panes_of;
use crate::schema::{
    outcome, ListPanesInput, ListPanesOutput, ListSessionsInput, ListSessionsOutput, OkOutput,
    PaneTargetInput, ReadPaneInput, ReadPaneOutput, ResizePaneInput, SendTextInput,
};
use crate::server;
use crate::server::{
    resize_pane, send_text, start_resize, FocusPane, KillPane, ListPanes, ListSessions, ReadPane,
    ResizeCall, SendText,
};
use crate::sessions::sessions_of;
use crate::text::trim_spec;
use crate::text_laws::law_contains_is_being_a_part;
use crate::zellij;
use crate::zellij::{retry_delay, ResizePane};
use vstd::prelude::*;

verus! {

/// Whether a call went through `steps`, each from what the run before it came to, where
/// `resume` is what takes a run.
pub open spec fn went<S, T, F: FnOnce(S, Run) -> Step<S, T>>(
    resume: F,
    steps: Seq<Step<S, T>>,
    runs: Seq<Run>,
) -> bool {
    &&& steps.len() == runs.len() + 1
    &&& forall|i: int|
        0 <= i < runs.len() ==> #[trigger] steps[i] is Run && call_ensures(
            resume,
            (steps[i]->state, runs[i]),
            steps[i + 1],
        )
}

/// Whether a step asks for a run of `zellij` with `args` after `delay_ms` milliseconds.
pub open spec fn asks<S, T>(step: Step<S, T>, delay_ms: int, args: Seq<Seq<char>>) -> bool {
    step matches Step::Run { delay_ms: d, args: a, .. } && d == delay_ms && a.deep_view() == args
}

/// Whether a step ends a call with the error `message`.
pub open spec fn fails<S, T>(step: Step<S, T>, message: Seq<char>) -> bool {
    step matches Step::Done(Err(e)) && e@ == message
}

/// Whether a step ends a call that has nothing to return.
pub open spec fn is_done<S>(step: Step<S, OkOutput>) -> bool {
    step matches Step::Done(Ok(output)) && output.ok
}

/// An option of a command with its value, where it has one.
pub open spec fn given(flag: Seq<char>, value: Option<Seq<char>>) -> Seq<Seq<char>> {
    match value {
        Some(value) => seq![flag, value],
        None => seq![],
    }
}

/// Whether `text` holds `part`.
pub open spec fn holds(text: Seq<char>, part: Seq<char>) -> bool {
    exists|l: Seq<char>, r: Seq<char>| text == #[trigger] (l + part + r)
}

/// Whether a run was started and reported success.
pub open spec fn succeeded(run: Run) -> bool {
    run matches Ok(output) && output.success
}

/// What a run printed.
pub open spec fn out_text(run: Run) -> Seq<char> {
    text_of(run->Ok_0.stdout@)
}

/// What a run printed about errors.
pub open spec fn err_text(run: Run) -> Seq<char> {
    text_of(run->Ok_0.stderr@)
}

/// Whether a run left the focus on its pane: it succeeded, or says that the focus was there.
pub open spec fn moved_focus(run: Run) -> bool {
    succeeded(run) || (run is Ok && holds(trim_spec(err_text(run)), "already focused"@))
}

/// An exit code in the words of a failure.
pub open spec fn exit_words(code: Option<i32>) -> Seq<char> {
    match code {
        None => "None"@,
        Some(code) => if code < 0 {
            "Some("@ + ("-"@ + decimal_spec((-code) as nat)) + ")"@
        } else {
            "Some("@ + decimal_spec(code as nat) + ")"@
        },
    }
}

/// The words in which a run of `context` is reported that did not succeed.
pub open spec fn failure(run: Run, context: Seq<char>) -> Seq<char> {
    match run {
        Err(e) => "failed to spawn zellij ("@ + context + "): "@ + e@,
        Ok(output) => "zellij "@ + context + " failed (exit "@ + exit_words(output.code) + "): "@
            + if trim_spec(err_text(run)).len() > 0 {
            trim_spec(err_text(run))
        } else if trim_spec(out_text(run)).len() > 0 {
            " / stdout: "@ + trim_spec(out_text(run))
        } else {
            seq![]
        },
    }
}

pub(crate) proof fn lemma_said(run: Run, context: Seq<char>)
    ensures
        captured(outcome(run), context) == if succeeded(run) {
            Ok::<Seq<char>, Seq<char>>(out_text(run))
        } else {
            Err(failure(run, context))
        },
        focused(run_text(outcome(run))) == if moved_focus(run) {
            Ok::<(), Seq<char>>(())
        } else {
            Err(failure(run, "action focus-pane-id"@))
        },
{
    lemma_failure(run, context);
    lemma_failure(run, "action focus-pane-id"@);
    if let Ok(output) = run {
        law_contains_is_being_a_part(trim_spec(err_text(run)), "already focused"@);
    }
}

proof fn lemma_failure(run: Run, context: Seq<char>)
    ensures
        !succeeded(run) ==> captured(outcome(run), context) == Err::<Seq<char>, Seq<char>>(
            failure(run, context),
        ),
{
    if let Ok(output) = run {
        let head = "zellij "@ + context + " failed (exit "@ + exit_words(output.code) + "): "@;
        let err = trim_spec(err_text(run));
        let out = trim_spec(out_text(run));
        assert(exit_words(output.code) =~= crate::command::code_text(output.code));
        if err.len() == 0 {
            assert(err =~= seq![]);
            assert(head + err + (" / stdout: "@ + out) =~= head + (" / stdout: "@ + out));
            assert(head + err + seq![] =~= head + seq![]);
        } else {
            assert(head + err + seq![] =~= head + err);
        }
    }
}

/// A run that succeeded comes to what it printed. One that did not comes to an error that
/// says in which words it could not be started, or its exit code and what it printed about
/// errors, or else what it printed at all.
pub proof fn law_run_is_reported(run: Run, context: &str, r: Result<String, String>)
    requires
        call_ensures(run_capturing, (&run, context), r),
    ensures
        succeeded(run) ==> (r matches Ok(text) && text@ == out_text(run)),
        !succeeded(run) ==> (r matches Err(e) && e@ == failure(run, context@)),
{
    lemma_said(run, context@);
}

/// A run that moves the focus fails only where it did not succeed and does not say that the
/// pane had the focus already.
pub proof fn law_focus_is_reported(run: Run, r: Result<(), String>)
    requires
        call_ensures(focus_outcome, (&run,), r),
    ensures
        moved_focus(run) <==> r is Ok,
        !moved_focus(run) ==> (r matches Err(e) && e@ == failure(run, "action focus-pane-id"@)),
{
    lemma_said(run, "action focus-pane-id"@);
}

/// Whether a message says that zellij does not know the pane.
pub open spec fn says_unknown(message: Seq<char>) -> bool {
    holds(message, "Pane with id"@) && holds(message, "not found"@)
}

proof fn lemma_unknown(message: Seq<char>)
    ensures
        crate::command::pane_not_found(message) <==> says_unknown(message),
{
    law_contains_is_being_a_part(message, "Pane with id"@);
    law_contains_is_being_a_part(message, "not found"@);
}

/// A message says that zellij does not know the pane exactly when it holds both `Pane with id`
/// and `not found`.
pub proof fn law_unknown_pane_message(message: &str, r: bool)
    requires
        call_ensures(is_pane_not_found, (message,), r),
    ensures
        r <==> says_unknown(message@),
{
    lemma_unknown(message@);
}

/// The arguments that list the panes and the sessions.
pub proof fn law_listing_commands(
    session: Option<&str>,
    panes: Vec<String>,
    sessions: Vec<String>,
    prefix: Vec<String>,
)
    requires
        call_ensures(zellij::list_panes_json, (session,), panes),
        call_ensures(zellij::list_sessions, (), sessions),
        call_ensures(zellij::zellij, (session,), prefix),
    ensures
        panes.deep_view() == given("--session"@, session.deep_view()) + seq![
            "action"@,
            "list-panes"@,
            "-j"@,
            "-a"@,
        ],
        sessions.deep_view() == seq!["list-sessions"@, "-n"@],
        prefix.deep_view() == given("--session"@, session.deep_view()),
{
}

/// The arguments that act on a pane: the session if one is given, the action, and the pane.
pub proof fn law_pane_commands(
    session: Option<&str>,
    pane_id: &str,
    full: bool,
    focus: Vec<String>,
    dump: Vec<String>,
    close: Vec<String>,
)
    requires
        call_ensures(zellij::focus_pane_id, (session, pane_id), focus),
        call_ensures(zellij::dump_screen, (session, pane_id, full), dump),
        call_ensures(zellij::close_pane, (session, pane_id), close),
    ensures
        focus.deep_view() == given("--session"@, session.deep_view()) + seq![
            "action"@,
            "focus-pane-id"@,
            pane_id@,
        ],
        dump.deep_view() == given("--session"@, session.deep_view()) + seq![
            "action"@,
            "dump-screen"@,
            "--pane-id"@,
            pane_id@,
        ] + if full {
            seq!["--full"@]
        } else {
            seq![]
        },
        close.deep_view() == given("--session"@, session.deep_view()) + seq![
            "action"@,
            "close-pane"@,
            "--pane-id"@,
            pane_id@,
        ],
{
}

/// The arguments that write to a pane hold the text as it is, and the byte in decimal.
pub proof fn law_write_commands(
    session: Option<&str>,
    pane_id: &str,
    text: &str,
    byte: u8,
    chars: Vec<String>,
    key: Vec<String>,
)
    requires
        call_ensures(zellij::write_chars, (session, pane_id, text), chars),
        call_ensures(zellij::write_byte, (session, pane_id, byte), key),
    ensures
        chars.deep_view() == given("--session"@, session.deep_view()) + seq![
            "action"@,
            "write-chars"@,
            "--pane-id"@,
            pane_id@,
            text@,
        ],
        key.deep_view() == given("--session"@, session.deep_view()) + seq![
            "action"@,
            "write"@,
            "--pane-id"@,
            pane_id@,
            decimal_spec(byte as nat),
        ],
{
}

/// `list-sessions` runs the listing whatever session is given, and answers with the sessions
/// that it printed, with why it failed, or with why it could not be read and what was printed.
pub proof fn law_list_sessions_call(
    input: ListSessionsInput,
    step: Step<ListSessions, ListSessionsOutput>,
    run: Run,
    answer: Step<ListSessions, ListSessionsOutput>,
)
    requires
        call_ensures(server::list_sessions, (input,), step),
        call_ensures(ListSessions::resume, (step->state, run), answer),
    ensures
        asks(step, 0, seq!["list-sessions"@, "-n"@]),
        !succeeded(run) ==> fails(
            answer,
            "list-sessions"@ + ": "@ + failure(run, "list-sessions"@),
        ),
        succeeded(run) ==> match sessions_of(out_text(run)) {
            Ok(sessions) => answer matches Step::Done(Ok(output)) && output.sessions.deep_view()
                == sessions,
            Err(e) => fails(answer, "list-sessions"@ + ": "@ + e + "\nraw: "@ + out_text(run)),
        },
{
    lemma_said(run, "list-sessions"@);
}

/// `list-panes` runs the listing in the given session, and answers with the panes that it
/// printed, with why it failed, or with why it could not be read and what was printed.
pub proof fn law_list_panes_call(
    input: ListPanesInput,
    step: Step<ListPanes, ListPanesOutput>,
    run: Run,
    answer: Step<ListPanes, ListPanesOutput>,
)
    requires
        call_ensures(server::list_panes, (input,), step),
        call_ensures(ListPanes::resume, (step->state, run), answer),
    ensures
        asks(
            step,
            0,
            given("--session"@, input.session.deep_view()) + seq![
                "action"@,
                "list-panes"@,
                "-j"@,
                "-a"@,
            ],
        ),
        !succeeded(run) ==> fails(
            answer,
            "list-panes"@ + ": "@ + failure(run, "action list-panes"@),
        ),
        succeeded(run) ==> match json_document(out_text(run)) {
            Err(e) => fails(
                answer,
                "list-panes"@ + ": "@ + "failed to parse zellij JSON: "@ + e + "\nraw: "@
                    + out_text(run),
            ),
            Ok(document) => match panes_of(document) {
                Some(panes) => answer matches Step::Done(Ok(output)) && output.panes.deep_view()
                    == panes,
                None => fails(
                    answer,
                    "list-panes"@ + ": "@ + "zellij output was not a JSON array"@,
                ),
            },
        },
{
    lemma_said(run, "action list-panes"@);
}

/// `read-pane` dumps the given pane, with its scrollback exactly when that is asked for, and
/// answers with what was printed, unchanged, or with why it failed.
pub proof fn law_read_pane_call(
    input: ReadPaneInput,
    step: Step<ReadPane, ReadPaneOutput>,
    run: Run,
    answer: Step<ReadPane, ReadPaneOutput>,
)
    requires
        call_ensures(server::read_pane, (input,), step),
        call_ensures(ReadPane::resume, (step->state, run), answer),
    ensures
        asks(
            step,
            0,
            given("--session"@, input.session.deep_view()) + seq![
                "action"@,
                "dump-screen"@,
                "--pane-id"@,
                input.pane_id@,
            ] + if input.full == Some(true) {
                seq!["--full"@]
            } else {
                seq![]
            },
        ),
        succeeded(run) ==> (answer matches Step::Done(Ok(output)) && output.text@ == out_text(run)),
        !succeeded(run) ==> fails(answer, "read-pane"@ + ": "@ + failure(run, "action dump-screen"@)),
{
    lemma_said(run, "action dump-screen"@);
}

/// `focus-pane` focuses the given pane, and fails only where the focus did not get there.
pub proof fn law_focus_pane_call(
    input: PaneTargetInput,
    step: Step<FocusPane, OkOutput>,
    run: Run,
    answer: Step<FocusPane, OkOutput>,
)
    requires
        call_ensures(server::focus_pane, (input,), step),
        call_ensures(FocusPane::resume, (step->state, run), answer),
    ensures
        asks(
            step,
            0,
            given("--session"@, input.session.deep_view()) + seq![
                "action"@,
                "focus-pane-id"@,
                input.pane_id@,
            ],
        ),
        moved_focus(run) ==> is_done(answer),
        !moved_focus(run) ==> fails(
            answer,
            "focus-pane"@ + ": "@ + failure(run, "action focus-pane-id"@),
        ),
{
    lemma_said(run, "action focus-pane-id"@);
}

/// `kill-pane` closes the given pane, and answers whether that succeeded.
pub proof fn law_kill_pane_call(
    input: PaneTargetInput,
    step: Step<KillPane, OkOutput>,
    run: Run,
    answer: Step<KillPane, OkOutput>,
)
    requires
        call_ensures(server::kill_pane, (input,), step),
        call_ensures(KillPane::resume, (step->state, run), answer),
    ensures
        asks(
            step,
            0,
            given("--session"@, input.session.deep_view()) + seq![
                "action"@,
                "close-pane"@,
                "--pane-id"@,
                input.pane_id@,
            ],
        ),
        succeeded(run) ==> is_done(answer),
        !succeeded(run) ==> fails(answer, "kill-pane"@ + ": "@ + failure(run, "action close-pane"@)),
{
    lemma_said(run, "action close-pane"@);
}

/// How long is waited before the run number `n`, where the runs before it are tries.
pub open spec fn pause_before(n: int) -> int {
    if n <= 0 {
        0
    } else if n == 1 {
        20
    } else if n == 2 {
        40
    } else if n == 3 {
        80
    } else if n == 4 {
        160
    } else {
        320
    }
}

pub(crate) proof fn lemma_pause(n: int)
    ensures
        0 <= n <= 4 ==> retry_delay(n) == pause_before(n + 1),
{
    reveal_with_fuel(retry_delay, 6);
}

/// Whether `step` is the first of a call of `resize-pane` on `input`, where `lowered` is the
/// direction in lowercase.
pub open spec fn resize_began(
    input: ResizePaneInput,
    lowered: &str,
    step: Step<ResizeCall, OkOutput>,
) -> bool {
    ||| call_ensures(resize_pane, (input,), step) && lowered@ == lowercase(input.direction@)
    ||| call_ensures(start_resize, (&input, lowered), step)
}

proof fn lemma_resize_trace(
    input: ResizePaneInput,
    lowered: &str,
    steps: Seq<Step<ResizeCall, OkOutput>>,
    runs: Seq<Run>,
    i: int,
)
    requires
        resize_began(input, lowered, steps[0]),
        went(ResizeCall::resume, steps, runs),
        0 <= i < steps.len(),
        steps[i] is Run,
    ensures
        lowered@ == "increase"@ || lowered@ == "decrease"@,
        i <= 4,
        asks(
            steps[i],
            pause_before(i),
            given("--session"@, input.session.deep_view()) + seq![
                "action"@,
                "resize"@,
                "--pane-id"@,
                input.pane_id@,
                lowered@,
            ],
        ),
        ({
            let state = steps[i].deep_view()->state;
            &&& state.session == input.session.deep_view()
            &&& state.pane_id == input.pane_id@
            &&& state.direction == lowered@
            &&& state.failures == i
        }),
    decreases i,
{
    if i > 0 {
        assert(steps[i - 1] is Run);
        lemma_resize_trace(input, lowered, steps, runs, i - 1);
        lemma_pause(i - 1);
    }
}

/// Every run of a call of `resize-pane` resizes the pane of its input, in the session of its
/// input, in the direction of its input in lowercase: once at first, and again after 20, 40,
/// 80 and 160 milliseconds.
pub proof fn law_resize_runs(
    input: ResizePaneInput,
    lowered: &str,
    steps: Seq<Step<ResizeCall, OkOutput>>,
    runs: Seq<Run>,
    i: int,
)
    requires
        resize_began(input, lowered, steps[0]),
        went(ResizeCall::resume, steps, runs),
        0 <= i < steps.len(),
        steps[i] is Run,
    ensures
        i <= 4,
        asks(
            steps[i],
            pause_before(i),
            given("--session"@, input.session.deep_view()) + seq![
                "action"@,
                "resize"@,
                "--pane-id"@,
                input.pane_id@,
                lowered@,
            ],
        ),
{
    lemma_resize_trace(input, lowered, steps, runs, i);
}

/// A call of `resize-pane` asks for a run exactly when the direction is `increase` or
/// `decrease` in lowercase, and else is an error that quotes the direction as it was given.
pub proof fn law_resize_direction_decides(
    input: ResizePaneInput,
    lowered: &str,
    step: Step<ResizeCall, OkOutput>,
)
    requires
        resize_began(input, lowered, step),
    ensures
        lowered@ == "increase"@ || lowered@ == "decrease"@ <==> step is Run,
        step !is Run ==> fails(
            step,
            "resize-pane"@ + ": "@ + "direction must be `increase` or `decrease`, got `"@
                + input.direction@ + "`"@,
        ),
{
}

/// Runs of two calls of `resize-pane` whose directions differ in lowercase differ.
pub proof fn law_resize_directions_run_differently(
    a: ResizePaneInput,
    b: ResizePaneInput,
    x: Step<ResizeCall, OkOutput>,
    y: Step<ResizeCall, OkOutput>,
)
    requires
        call_ensures(resize_pane, (a,), x),
        call_ensures(resize_pane, (b,), y),
        x is Run,
        y is Run,
        lowercase(a.direction@) != lowercase(b.direction@),
    ensures
        x->args.deep_view() != y->args.deep_view(),
{
    let p = x->args.deep_view();
    let q = y->args.deep_view();
    assert(p.last() == lowercase(a.direction@));
    assert(q.last() == lowercase(b.direction@));
}

/// A run of `resize-pane` ends the call where it succeeds, and where it fails for another
/// reason than that zellij does not know the pane; a pane that is not known is tried again, at
/// most four times.
pub proof fn law_resize_goes_on_while_the_pane_is_unknown(
    input: ResizePaneInput,
    lowered: &str,
    steps: Seq<Step<ResizeCall, OkOutput>>,
    runs: Seq<Run>,
    i: int,
)
    requires
        resize_began(input, lowered, steps[0]),
        went(ResizeCall::resume, steps, runs),
        0 <= i < runs.len(),
    ensures
        succeeded(runs[i]) ==> is_done(steps[i + 1]),
        !succeeded(runs[i]) ==> if says_unknown(failure(runs[i], "action resize"@)) && i < 4 {
            steps[i + 1] is Run
        } else {
            fails(steps[i + 1], "resize-pane"@ + ": "@ + failure(runs[i], "action resize"@))
        },
{
    assert(steps[i] is Run);
    lemma_resize_trace(input, lowered, steps, runs, i);
    lemma_said(runs[i], "action resize"@);
    lemma_unknown(failure(runs[i], "action resize"@));
}

proof fn lemma_resize_task_trace(
    session: Option<&str>,
    pane_id: &str,
    direction: &str,
    steps: Seq<Step<ResizePane, ()>>,
    runs: Seq<Run>,
    i: int,
)
    requires
        call_ensures(zellij::resize_pane, (session, pane_id, direction), steps[0]),
        went(ResizePane::resume, steps, runs),
        0 <= i < steps.len(),
        steps[i] is Run,
    ensures
        i <= 4,
        asks(
            steps[i],
            pause_before(i),
            given("--session"@, session.deep_view()) + seq![
                "action"@,
                "resize"@,
                "--pane-id"@,
                pane_id@,
                direction@,
            ],
        ),
        ({
            let state = steps[i].deep_view()->state;
            &&& state.session == session.deep_view()
            &&& state.pane_id == pane_id@
            &&& state.direction == direction@
            &&& state.failures == i
        }),
    decreases i,
{
    if i > 0 {
        assert(steps[i - 1] is Run);
        lemma_resize_task_trace(session, pane_id, direction, steps, runs, i - 1);
        lemma_pause(i - 1);
    }
}

/// A resize runs the same command every time, and goes on only while zellij does not know the
/// pane.
pub proof fn law_resize_task(
    session: Option<&str>,
    pane_id: &str,
    direction: &str,
    steps: Seq<Step<ResizePane, ()>>,
    runs: Seq<Run>,
    i: int,
)
    requires
        call_ensures(zellij::resize_pane, (session, pane_id, direction), steps[0]),
        went(ResizePane::resume, steps, runs),
        0 <= i < steps.len(),
    ensures
        i == 0 ==> steps[i] is Run,
        steps[i] is Run ==> asks(
            steps[i],
            pause_before(i),
            given("--session"@, session.deep_view()) + seq![
                "action"@,
                "resize"@,
                "--pane-id"@,
                pane_id@,
                direction@,
            ],
        ),
        i < runs.len() && succeeded(runs[i]) ==> (steps[i + 1] matches Step::Done(Ok(()))),
        i < runs.len() && !succeeded(runs[i]) ==> if says_unknown(
            failure(runs[i], "action resize"@),
        ) && i < 4 {
            steps[i + 1] is Run
        } else {
            fails(steps[i + 1], failure(runs[i], "action resize"@))
        },
{
    if steps[i] is Run {
        lemma_resize_task_trace(session, pane_id, direction, steps, runs, i);
    }
    if i < runs.len() {
        lemma_said(runs[i], "action resize"@);
        lemma_unknown(failure(runs[i], "action resize"@));
    }
}

/// The newline mode of an input in lowercase: `enter` where none is given.
pub open spec fn mode_of(input: SendTextInput) -> Seq<char> {
    match input.newline_mode {
        Some(mode) => lowercase(mode@),
        None => "enter"@,
    }
}

proof fn lemma_mode(input: SendTextInput)
    ensures
        lowercase(crate::server::newline_mode(input.newline_mode.deep_view())) == mode_of(input),
{
    crate::laws::law_newline_modes_are_lowercase("enter"@);
}

/// The first run of a call of `send-text` types the text of its input, all of it and nothing
/// else, into the pane of its input.
pub proof fn law_text_is_typed_verbatim(input: SendTextInput, step: Step<SendText, OkOutput>)
    requires
        call_ensures(send_text, (input,), step),
    ensures
        asks(
            step,
            0,
            given("--session"@, input.session.deep_view()) + seq![
                "action"@,
                "write-chars"@,
                "--pane-id"@,
                input.pane_id@,
                input.text@,
            ],
        ),
{
}

proof fn lemma_byte_text()
    ensures
        decimal_spec(13) == "13"@,
        decimal_spec(10) == "10"@,
{
    reveal_with_fuel(decimal_spec, 3);
    reveal_strlit("13");
    reveal_strlit("10");
    assert(decimal_spec(13) =~= "13"@);
    assert(decimal_spec(10) =~= "10"@);
}

/// The step after the text has been written, where `mode` is the newline mode in lowercase:
/// the byte 13 for `enter`, the byte 10 for `shift_enter`, and an error for any other mode.
pub open spec fn submits(
    input: SendTextInput,
    mode: Seq<char>,
    step: Step<SendText, OkOutput>,
) -> bool {
    let head = given("--session"@, input.session.deep_view()) + seq![
        "action"@,
        "write"@,
        "--pane-id"@,
        input.pane_id@,
    ];
    if mode == "enter"@ {
        asks(step, 0, head + seq!["13"@])
    } else if mode == "shift_enter"@ {
        asks(step, 0, head + seq!["10"@])
    } else {
        fails(
            step,
            "send-text"@ + ": "@ + "newline_mode must be `enter` or `shift_enter`, got `"@ + mode
                + "`"@,
        )
    }
}

proof fn lemma_submits(
    input: SendTextInput,
    mode: Seq<char>,
    state: crate::server::SendTextModel,
    step: Step<SendText, OkOutput>,
)
    requires
        state.session == input.session.deep_view(),
        state.pane_id == input.pane_id@,
        step.deep_view() == crate::server::send_text_submits(state, mode),
    ensures
        submits(input, mode, step),
{
    lemma_byte_text();
    let session = crate::zellij::session_args(input.session.deep_view());
    assert(session + seq!["action"@, "write"@, "--pane-id"@, input.pane_id@] + seq!["13"@] =~= session
        + seq!["action"@, "write"@, "--pane-id"@, input.pane_id@, "13"@]);
    assert(session + seq!["action"@, "write"@, "--pane-id"@, input.pane_id@] + seq!["10"@] =~= session
        + seq!["action"@, "write"@, "--pane-id"@, input.pane_id@, "10"@]);
    reveal_strlit("enter");
    reveal_strlit("shift_enter");
}

/// What follows the text: nothing where no submit is asked for, and else the submit key of the
/// newline mode of the input, as the second and last run. No run but the first types text.
pub proof fn law_send_text_submits_once(
    input: SendTextInput,
    steps: Seq<Step<SendText, OkOutput>>,
    runs: Seq<Run>,
)
    requires
        call_ensures(send_text, (input,), steps[0]),
        went(SendText::resume, steps, runs),
    ensures
        runs.len() <= 2,
        runs.len() >= 1 && !succeeded(runs[0]) ==> fails(
            steps[1],
            "send-text"@ + ": "@ + "write-chars failed: "@ + failure(runs[0], "action write-chars"@),
        ),
        runs.len() >= 1 && succeeded(runs[0]) && input.submit != Some(true) ==> is_done(steps[1]),
        runs.len() >= 1 && succeeded(runs[0]) && input.submit == Some(true) ==> submits(
            input,
            mode_of(input),
            steps[1],
        ),
        runs.len() == 2 && succeeded(runs[1]) ==> is_done(steps[2]),
        runs.len() == 2 && !succeeded(runs[1]) ==> fails(
            steps[2],
            "send-text"@ + ": "@ + "submit byte write failed: "@ + failure(
                runs[1],
                "action write"@,
            ),
        ),
{
    lemma_mode(input);
    if runs.len() >= 1 {
        assert(steps[0] is Run);
        lemma_said(runs[0], "action write-chars"@);
        let state = steps[0].deep_view()->state;
        if succeeded(runs[0]) && input.submit == Some(true) {
            lemma_submits(input, mode_of(input), state, steps[1]);
        }
        if runs.len() >= 2 {
            assert(steps[1] is Run);
            lemma_said(runs[1], "action write"@);
            if runs.len() >= 3 {
                assert(steps[2] is Run);
            }
        }
    }
}

/// The submit key goes to the pane of the input, whatever mode is pressed.
pub proof fn law_submit_key_of_a_mode(
    input: SendTextInput,
    mode: &str,
    step: Step<SendText, OkOutput>,
    pressed: Step<SendText, OkOutput>,
)
    requires
        call_ensures(send_text, (input,), step),
        call_ensures(SendText::press_submit, (step->state, mode), pressed),
    ensures
        submits(input, mode@, pressed),
{
    lemma_submits(input, mode@, step.deep_view()->state, pressed);
}

} // verus!

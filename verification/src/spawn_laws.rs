//! What the tools that open a pane promise, in terms of the input of a call, the runs that it
//! asks for and what they come to.
use crate::call_laws::{
    asks, failure, fails, given, lemma_pause, lemma_said, moved_focus, out_text, pause_before,
    succeeded, went,
};
use crate::command::{Run, Step};
use crate::laws::{lemma_spawn_start, lemma_spawn_step, spawn_budget, spawn_wf};
use crate::outside::lowercase;
use crate::panes::{listing_shows, pane_named};
use crate::schema::{outcome, SpawnPaneInput, SpawnPaneOutput};
use crate::server::{
    spawn_context, spawn_opens, spawn_pane, spawn_pane_impl, spawn_pane_with_target,
    spawn_request, start_spawn, SpawnPane,
};
use crate::text::trim_spec;
use crate::zellij::{
    new_pane, new_pane_args, open_pane, wait_for_listed_pane, NewPane, PaneRequest, PaneWait,
    WaitModel,
};
use vstd::prelude::*;

verus! {

/// The arguments that list the panes of a session.
pub open spec fn listing_words(session: Option<Seq<char>>) -> Seq<Seq<char>> {
    given("--session"@, session) + seq!["action"@, "list-panes"@, "-j"@, "-a"@]
}

/// Whether `step` is what a listing comes to that has to show a pane, where `found` says
/// whether the step is right if it does and `missing` whether the step is right if it does not.
pub open spec fn listing_decides<S, T>(
    run: Run,
    target: (bool, u64),
    step: Step<S, T>,
    found: bool,
    missing: bool,
) -> bool {
    if !succeeded(run) {
        fails(step, failure(run, "action list-panes"@))
    } else {
        match listing_shows(out_text(run), target) {
            Err(e) => fails(step, e),
            Ok(true) => found,
            Ok(false) => missing,
        }
    }
}

proof fn lemma_wait_trace(
    session: Option<&str>,
    pane_id: &str,
    steps: Seq<Step<PaneWait, bool>>,
    runs: Seq<Run>,
    i: int,
)
    requires
        call_ensures(wait_for_listed_pane, (session, pane_id), steps[0]),
        went(PaneWait::resume, steps, runs),
        0 <= i < steps.len(),
        steps[i] is Run,
    ensures
        i <= 5,
        asks(steps[i], pause_before(i), listing_words(session.deep_view())),
        pane_named(pane_id@) is Some,
        steps[i].deep_view()->state == (WaitModel {
            session: session.deep_view(),
            target: pane_named(pane_id@)->0,
            failures: i,
        }),
    decreases i,
{
    if i > 0 {
        assert(steps[i - 1] is Run);
        lemma_wait_trace(session, pane_id, steps, runs, i - 1);
        lemma_pause(i - 1);
    }
}

/// A wait for a pane lists the panes at most six times, at first and again after 20, 40, 80,
/// 160 and 320 milliseconds. It ends with the first listing that shows the pane or cannot be
/// read, or with the sixth. An id that names no pane is an error.
pub proof fn law_wait_lists_the_panes(
    session: Option<&str>,
    pane_id: &str,
    steps: Seq<Step<PaneWait, bool>>,
    runs: Seq<Run>,
    i: int,
)
    requires
        call_ensures(wait_for_listed_pane, (session, pane_id), steps[0]),
        went(PaneWait::resume, steps, runs),
        0 <= i < steps.len(),
    ensures
        pane_named(pane_id@) is None ==> fails(steps[0], "invalid pane id `"@ + pane_id@ + "`"@),
        pane_named(pane_id@) is Some ==> steps[0] is Run,
        steps[i] is Run ==> i <= 5 && asks(
            steps[i],
            pause_before(i),
            listing_words(session.deep_view()),
        ),
        i < runs.len() ==> listing_decides(
            runs[i],
            pane_named(pane_id@)->0,
            steps[i + 1],
            steps[i + 1] == Step::<PaneWait, bool>::Done(Ok(true)),
            if i < 5 {
                steps[i + 1] is Run
            } else {
                steps[i + 1] == Step::<PaneWait, bool>::Done(Ok(false))
            },
        ),
{
    if steps[i] is Run {
        lemma_wait_trace(session, pane_id, steps, runs, i);
    }
    if i < runs.len() {
        assert(steps[i] is Run);
        lemma_said(runs[i], "action list-panes"@);
    }
}

/// The arguments that open the pane that `request` describes, split in `direction`.
pub open spec fn opening_words(request: PaneRequest, direction: Option<Seq<char>>) -> Seq<
    Seq<char>,
> {
    given("--session"@, request.session.deep_view()) + seq![
        "action"@,
        "new-pane"@,
        "--cwd"@,
        request.cwd@,
    ] + given("--direction"@, direction) + (if request.floating {
        seq!["--floating"@]
    } else {
        seq![]
    }) + given("--name"@, request.name.deep_view()) + (match request.command {
        Some(argv) => if argv@.len() > 0 {
            seq!["--"@] + argv.deep_view()
        } else {
            seq![]
        },
        None => seq![],
    })
}

/// Whether `step` is the first of opening the pane that `request` describes.
pub open spec fn opening_began(request: PaneRequest, step: Step<NewPane, String>) -> bool {
    call_ensures(open_pane, (request,), step)
}

/// A pane that is asked for by its parts is opened as the pane that has these parts.
pub proof fn law_new_pane_opens_what_is_asked_for(
    session: Option<&str>,
    cwd: &str,
    direction: Option<&str>,
    floating: bool,
    name: Option<&str>,
    command: Option<&[String]>,
    request: PaneRequest,
    x: Step<NewPane, String>,
    y: Step<NewPane, String>,
)
    requires
        call_ensures(new_pane, (session, cwd, direction, floating, name, command), x),
        opening_began(request, y),
        request.session.deep_view() == session.deep_view(),
        request.cwd@ == cwd@,
        request.direction.deep_view() == direction.deep_view(),
        request.floating == floating,
        request.name.deep_view() == name.deep_view(),
        request.command.deep_view() == command.deep_view(),
    ensures
        x.deep_view() == y.deep_view(),
        asks(x, 0, opening_words(request, direction.deep_view())),
{
    lemma_opening_words(request, direction.deep_view());
}

proof fn lemma_opening_words(request: PaneRequest, direction: Option<Seq<char>>)
    ensures
        new_pane_args(request.deep_view(), direction) == opening_words(request, direction),
{
    if let Some(argv) = request.command {
        assert(argv.deep_view().len() == argv@.len());
    }
}

/// The pane id that a run of `new-pane` printed.
pub open spec fn printed_id(run: Run) -> Seq<char> {
    trim_spec(out_text(run))
}

/// Whether `step` is what a run of `new-pane` comes to: an error if it failed, if it printed
/// no id or if what it printed names no pane, and else a listing.
pub open spec fn opening_decides(run: Run, step: Step<NewPane, String>) -> bool {
    if !succeeded(run) {
        fails(step, failure(run, "action new-pane"@))
    } else if printed_id(run).len() == 0 {
        fails(step, "zellij new-pane returned empty pane id"@)
    } else if pane_named(printed_id(run)) is None {
        fails(step, "invalid pane id `"@ + printed_id(run) + "`"@)
    } else {
        step is Run
    }
}

proof fn lemma_opened(run: Run)
    ensures
        crate::zellij::opened_pane(outcome(run)) == if !succeeded(run) {
            Err::<Seq<char>, Seq<char>>(failure(run, "action new-pane"@))
        } else if printed_id(run).len() == 0 {
            Err("zellij new-pane returned empty pane id"@)
        } else {
            Ok(printed_id(run))
        },
{
    lemma_said(run, "action new-pane"@);
}

proof fn lemma_opening_trace(
    request: PaneRequest,
    steps: Seq<Step<NewPane, String>>,
    runs: Seq<Run>,
    i: int,
)
    requires
        opening_began(request, steps[0]),
        went(NewPane::resume, steps, runs),
        0 <= i < steps.len(),
        steps[i] is Run,
    ensures
        i <= 13,
        i >= 7 ==> request.direction is Some,
        i == 0 ==> asks(steps[i], 0, opening_words(request, request.direction.deep_view())),
        i == 7 ==> asks(steps[i], 0, opening_words(request, None)),
        0 < i < 7 ==> asks(
            steps[i],
            pause_before(i - 1),
            listing_words(request.session.deep_view()),
        ),
        7 < i ==> asks(
            steps[i],
            pause_before(i - 8),
            listing_words(request.session.deep_view()),
        ),
        ({
            let state = steps[i].deep_view()->state;
            let start: int = if i < 7 {
                0
            } else {
                7
            };
            let id = printed_id(runs[start]);
            &&& state.request == request.deep_view()
            &&& state.directed == if i < 7 {
                None
            } else {
                Some(printed_id(runs[0]))
            }
            &&& i == start ==> state.opened is None
            &&& i != start ==> pane_named(id) is Some && state.opened == Some(
                (
                    id,
                    WaitModel {
                        session: request.session.deep_view(),
                        target: pane_named(id)->0,
                        failures: i - start - 1,
                    },
                ),
            )
        }),
    decreases i,
{
    lemma_opening_words(request, request.direction.deep_view());
    lemma_opening_words(request, None);
    if i > 0 {
        assert(steps[i - 1] is Run);
        lemma_opening_trace(request, steps, runs, i - 1);
        lemma_opened(runs[i - 1]);
        lemma_said(runs[i - 1], "action list-panes"@);
        lemma_pause(i - 2);
        lemma_pause(i - 9);
    }
}

/// The runs that the opening of a pane asks for. The first opens the pane as it is requested;
/// up to six listings follow. Only where a direction is requested an eighth run opens the pane
/// again, as it is requested but without a direction, and up to six listings follow that.
pub proof fn law_opening_runs(
    request: PaneRequest,
    steps: Seq<Step<NewPane, String>>,
    runs: Seq<Run>,
    i: int,
)
    requires
        opening_began(request, steps[0]),
        went(NewPane::resume, steps, runs),
        0 <= i < steps.len(),
        steps[i] is Run,
    ensures
        i <= 13,
        i >= 7 ==> request.direction is Some,
        i == 0 ==> asks(steps[i], 0, opening_words(request, request.direction.deep_view())),
        i == 7 ==> asks(steps[i], 0, opening_words(request, None)),
        0 < i < 7 ==> asks(
            steps[i],
            pause_before(i - 1),
            listing_words(request.session.deep_view()),
        ),
        7 < i ==> asks(
            steps[i],
            pause_before(i - 8),
            listing_words(request.session.deep_view()),
        ),
{
    lemma_opening_trace(request, steps, runs, i);
}

/// How the opening of a pane goes on after each run. What a run of `new-pane` printed is the
/// id that is looked for and returned, once a listing shows it. A pane that six listings do
/// not show is opened again if a direction was requested and that was not done yet, and is an
/// error else.
pub proof fn law_opening_goes_on(
    request: PaneRequest,
    steps: Seq<Step<NewPane, String>>,
    runs: Seq<Run>,
    i: int,
)
    requires
        opening_began(request, steps[0]),
        went(NewPane::resume, steps, runs),
        0 <= i < runs.len(),
    ensures
        steps[0] is Run,
        i == 0 || i == 7 ==> opening_decides(runs[i], steps[i + 1]),
        0 < i < 7 ==> listing_decides(
            runs[i],
            pane_named(printed_id(runs[0]))->0,
            steps[i + 1],
            hands_out(steps[i + 1], printed_id(runs[0])),
            if i < 6 || request.direction is Some {
                steps[i + 1] is Run
            } else {
                fails(
                    steps[i + 1],
                    "zellij new-pane returned `"@ + printed_id(runs[0])
                        + "`, but the pane did not appear in list-panes"@,
                )
            },
        ),
        7 < i ==> listing_decides(
            runs[i],
            pane_named(printed_id(runs[7]))->0,
            steps[i + 1],
            hands_out(steps[i + 1], printed_id(runs[7])),
            if i < 13 {
                steps[i + 1] is Run
            } else {
                fails(
                    steps[i + 1],
                    "zellij new-pane returned `"@ + printed_id(runs[7])
                        + "` after retrying without direction, but the pane did not appear in list-panes; directed spawn had returned `"@
                        + printed_id(runs[0]) + "`"@,
                )
            },
        ),
{
    assert(steps[i] is Run);
    lemma_opening_trace(request, steps, runs, i);
    lemma_opened(runs[i]);
    lemma_said(runs[i], "action list-panes"@);
}

/// Whether a step ends the opening of a pane with the id `pane_id`.
pub open spec fn hands_out(step: Step<NewPane, String>, pane_id: Seq<char>) -> bool {
    step matches Step::Done(Ok(id)) && id@ == pane_id
}

/// Whether `step` is the first of a call of the tool `tool_name` that opens a pane for `input`,
/// where `direction` is the direction of the input in lowercase.
pub open spec fn spawn_began(
    input: SpawnPaneInput,
    tool_name: &str,
    direction: Option<String>,
    step: Step<SpawnPane, SpawnPaneOutput>,
) -> bool {
    ||| call_ensures(start_spawn, (input, tool_name, direction), step)
    ||| in_lowercase(input, direction) && call_ensures(spawn_pane_impl, (input, tool_name), step)
    ||| in_lowercase(input, direction) && tool_name@ == "spawn-pane"@ && call_ensures(
        spawn_pane,
        (input,),
        step,
    )
    ||| in_lowercase(input, direction) && tool_name@ == "spawn-pane-with-target"@ && call_ensures(
        spawn_pane_with_target,
        (input,),
        step,
    )
}

/// Whether `direction` is the direction of an input in lowercase.
pub open spec fn in_lowercase(input: SpawnPaneInput, direction: Option<String>) -> bool {
    match input.direction {
        Some(d) => direction matches Some(lowered) && lowered@ == lowercase(d@),
        None => direction is None,
    }
}

/// Whether a direction can be split in, or is left to zellij.
pub open spec fn can_split(direction: Option<String>) -> bool {
    direction matches Some(d) ==> d@ == "right"@ || d@ == "down"@ || d@ == "left"@ || d@ == "up"@
}

/// The arguments that focus a pane.
pub open spec fn focus_words(session: Option<Seq<char>>, pane_id: Seq<char>) -> Seq<Seq<char>> {
    given("--session"@, session) + seq!["action"@, "focus-pane-id"@, pane_id]
}

/// Whether a step ends a call that opened the pane `pane_id`.
pub open spec fn spawned(step: Step<SpawnPane, SpawnPaneOutput>, pane_id: Seq<char>) -> bool {
    step matches Step::Done(Ok(output)) && output.pane_id@ == pane_id
}

/// A call asks for a run exactly when its direction can be split in; else it is an error that
/// quotes the direction in lowercase.
pub proof fn law_spawn_direction_decides(
    input: SpawnPaneInput,
    tool_name: &str,
    direction: Option<String>,
    step: Step<SpawnPane, SpawnPaneOutput>,
)
    requires
        spawn_began(input, tool_name, direction, step),
    ensures
        can_split(direction) <==> step is Run,
        !can_split(direction) ==> fails(
            step,
            tool_name@ + ": "@ + "direction must be one of right|down|left|up, got `"@
                + direction->0@ + "`"@,
        ),
{
}

/// Where a pane to split next to is given, the first run focuses it. If that pane cannot be
/// focused the call is over; if it can, the pane is opened next.
pub proof fn law_spawn_focuses_its_target(
    input: SpawnPaneInput,
    tool_name: &str,
    direction: Option<String>,
    steps: Seq<Step<SpawnPane, SpawnPaneOutput>>,
    runs: Seq<Run>,
    target: String,
    request: PaneRequest,
)
    requires
        spawn_began(input, tool_name, direction, steps[0]),
        can_split(direction),
        went(SpawnPane::resume, steps, runs),
        input.target_pane_id == Some(target),
        asked_for(input, direction, request),
    ensures
        asks(steps[0], 0, focus_words(input.session.deep_view(), target@)),
        runs.len() > 0 && moved_focus(runs[0]) ==> asks(
            steps[1],
            0,
            opening_words(request, direction.deep_view()),
        ),
        runs.len() > 0 && !moved_focus(runs[0]) ==> fails(
            steps[1],
            tool_name@ + ": "@ + "focusing target pane `"@ + target@ + "` failed: "@ + failure(
                runs[0],
                "action focus-pane-id"@,
            ),
        ),
{
    lemma_opening_words(request, direction.deep_view());
    lemma_asked_for(input, direction, request);
    if runs.len() > 0 {
        assert(steps[0] is Run);
        lemma_said(runs[0], "action focus-pane-id"@);
    }
}

/// Where no pane to split next to is given, the first run opens the pane.
pub proof fn law_spawn_opens_at_once(
    input: SpawnPaneInput,
    tool_name: &str,
    direction: Option<String>,
    step: Step<SpawnPane, SpawnPaneOutput>,
    request: PaneRequest,
)
    requires
        spawn_began(input, tool_name, direction, step),
        can_split(direction),
        input.target_pane_id is None,
        asked_for(input, direction, request),
    ensures
        asks(step, 0, opening_words(request, direction.deep_view())),
{
    lemma_opening_words(request, direction.deep_view());
    lemma_asked_for(input, direction, request);
}

/// Whether `request` describes the pane that an input asks for.
pub open spec fn asked_for(
    input: SpawnPaneInput,
    direction: Option<String>,
    request: PaneRequest,
) -> bool {
    &&& request.session.deep_view() == input.session.deep_view()
    &&& request.cwd@ == input.cwd@
    &&& request.direction.deep_view() == direction.deep_view()
    &&& request.floating <==> input.floating == Some(true)
    &&& request.name.deep_view() == input.name.deep_view()
    &&& request.command.deep_view() == input.command.deep_view()
}

proof fn lemma_asked_for(input: SpawnPaneInput, direction: Option<String>, request: PaneRequest)
    requires
        asked_for(input, direction, request),
    ensures
        request.deep_view() == spawn_request(input, direction.deep_view()),
{
    assert(request.deep_view() =~= spawn_request(input, direction.deep_view()));
}

proof fn lemma_spawn_trace(
    input: SpawnPaneInput,
    tool_name: &str,
    direction: Option<String>,
    steps: Seq<Step<SpawnPane, SpawnPaneOutput>>,
    runs: Seq<Run>,
    i: int,
)
    requires
        spawn_began(input, tool_name, direction, steps[0]),
        went(SpawnPane::resume, steps, runs),
        0 <= i < steps.len(),
        steps[i] is Run,
    ensures
        ({
            let step = steps[i].deep_view();
            &&& spawn_wf(step->args, step->state)
            &&& step->state.context == spawn_context(input, tool_name@)
            &&& step->state.phase is FocusTarget ==> i == 0 && input.target_pane_id is Some
            &&& i == 0 && input.target_pane_id is Some ==> step->state.phase is FocusTarget
            &&& 0 < spawn_budget(step->state) <= 16 - i
        }),
    decreases i,
{
    let request = spawn_request(input, direction.deep_view());
    if i > 0 {
        assert(steps[i - 1] is Run);
        lemma_spawn_trace(input, tool_name, direction, steps, runs, i - 1);
        let before = steps[i - 1].deep_view();
        lemma_spawn_step(before->args, before->state, outcome(runs[i - 1]));
    } else {
        lemma_spawn_start(
            spawn_context(input, tool_name@),
            input.target_pane_id.deep_view(),
            request,
        );
    }
}

/// Where an input names a pane to keep the focus on, a call that could start ends with a run
/// that focuses that pane in the session of the input, whether a pane could be opened or not,
/// and whether a pane to split next to is given or not. The one exception is that such a pane
/// is given and could not be focused.
pub proof fn law_focus_ends_where_it_is_kept(
    input: SpawnPaneInput,
    tool_name: &str,
    direction: Option<String>,
    steps: Seq<Step<SpawnPane, SpawnPaneOutput>>,
    runs: Seq<Run>,
    keep: String,
)
    requires
        spawn_began(input, tool_name, direction, steps[0]),
        can_split(direction),
        went(SpawnPane::resume, steps, runs),
        steps.last() is Done,
        input.keep_focus_on == Some(keep),
    ensures
        runs.len() > 0,
        asks(steps[runs.len() - 1], 0, focus_words(input.session.deep_view(), keep@)) || (
        runs.len() == 1 && input.target_pane_id is Some && !moved_focus(runs[0])),
{
    law_spawn_direction_decides(input, tool_name, direction, steps[0]);
    assert(runs.len() > 0) by {
        if runs.len() == 0 {
            assert(steps.last() == steps[0]);
        }
    }
    let n = runs.len() - 1;
    assert(steps[n] is Run);
    lemma_spawn_trace(input, tool_name, direction, steps, runs, n);
    let step = steps[n].deep_view();
    lemma_spawn_step(step->args, step->state, outcome(runs[n]));
    lemma_said(runs[n], "action focus-pane-id"@);
    lemma_restores_at_once(input, tool_name, direction, steps, runs, n);
}

/// A run that focuses the pane to keep the focus on waits for nothing.
proof fn lemma_restores_at_once(
    input: SpawnPaneInput,
    tool_name: &str,
    direction: Option<String>,
    steps: Seq<Step<SpawnPane, SpawnPaneOutput>>,
    runs: Seq<Run>,
    i: int,
)
    requires
        spawn_began(input, tool_name, direction, steps[0]),
        went(SpawnPane::resume, steps, runs),
        0 <= i < steps.len(),
        steps[i] is Run,
    ensures
        ({
            let step = steps[i].deep_view();
            step->state.phase is Restore || step->state.phase is RestoreAfterFailure
                ==> step->delay_ms == 0
        }),
{
    if i > 0 {
        assert(steps[i - 1] is Run);
    }
}

/// A call that opens a pane is over after at most sixteen runs.
pub proof fn law_spawn_takes_sixteen_runs_at_most(
    input: SpawnPaneInput,
    tool_name: &str,
    direction: Option<String>,
    steps: Seq<Step<SpawnPane, SpawnPaneOutput>>,
    runs: Seq<Run>,
)
    requires
        spawn_began(input, tool_name, direction, steps[0]),
        went(SpawnPane::resume, steps, runs),
    ensures
        runs.len() <= 16,
        runs.len() == 16 ==> steps.last() is Done,
{
    if runs.len() > 16 {
        assert(steps[16] is Run);
        lemma_spawn_trace(input, tool_name, direction, steps, runs, 16);
    }
    if runs.len() == 16 && steps[16] is Run {
        lemma_spawn_trace(input, tool_name, direction, steps, runs, 16);
    }
}

/// Whether a step of a call says what a step of opening its pane says: it asks for the same
/// run, and where the opening is over it returns what that returned, or first asks for a run
/// that restores the focus.
pub open spec fn tells(
    input: SpawnPaneInput,
    tool_name: Seq<char>,
    opening: Step<NewPane, String>,
    step: Step<SpawnPane, SpawnPaneOutput>,
) -> bool {
    match opening {
        Step::Run { delay_ms, args, .. } => asks(step, delay_ms as int, args.deep_view()),
        Step::Done(result) => match input.keep_focus_on {
            Some(keep) => asks(step, 0, focus_words(input.session.deep_view(), keep@)),
            None => match result {
                Ok(pane_id) => spawned(step, pane_id@),
                Err(e) => fails(step, tool_name + ": "@ + e@),
            },
        },
    }
}

/// How many runs a call takes before it opens its pane.
pub open spec fn runs_before_opening(input: SpawnPaneInput) -> int {
    if input.target_pane_id is Some {
        1
    } else {
        0
    }
}

proof fn lemma_spawn_tells(
    input: SpawnPaneInput,
    tool_name: &str,
    direction: Option<String>,
    steps: Seq<Step<SpawnPane, SpawnPaneOutput>>,
    runs: Seq<Run>,
    request: PaneRequest,
    opening: Seq<Step<NewPane, String>>,
    j: int,
)
    requires
        spawn_began(input, tool_name, direction, steps[0]),
        can_split(direction),
        went(SpawnPane::resume, steps, runs),
        asked_for(input, direction, request),
        opening_began(request, opening[0]),
        runs_before_opening(input) + opening.len() <= steps.len(),
        went(
            NewPane::resume,
            opening,
            runs.subrange(
                runs_before_opening(input),
                runs_before_opening(input) + opening.len() - 1,
            ),
        ),
        input.target_pane_id is Some ==> moved_focus(runs[0]),
        0 <= j < opening.len(),
    ensures
        steps[j + runs_before_opening(input)].deep_view() == spawn_opens(
            spawn_context(input, tool_name@),
            opening[j].deep_view(),
        ),
    decreases j,
{
    let d = runs_before_opening(input);
    let inner = runs.subrange(d, d + opening.len() - 1);
    if j > 0 {
        lemma_spawn_tells(
            input,
            tool_name,
            direction,
            steps,
            runs,
            request,
            opening,
            j - 1,
        );
        assert(opening[j - 1] is Run);
        assert(steps[j - 1 + d] is Run);
        assert(inner[j - 1] == runs[j - 1 + d]);
    } else {
        lemma_asked_for(input, direction, request);
        if d == 1 {
            assert(steps[0] is Run);
            lemma_said(runs[0], "action focus-pane-id"@);
        }
    }
}

/// Once the pane to split next to has been focused, where one is given, a call asks for the
/// runs of opening the pane that its input describes, one by one, and ends as that ends.
/// Where a pane to keep the focus on is given, one more run follows: a pane that was opened is
/// returned if the focus could be restored, and a failure to open one is reported in any case.
pub proof fn law_spawn_follows_the_opening(
    input: SpawnPaneInput,
    tool_name: &str,
    direction: Option<String>,
    steps: Seq<Step<SpawnPane, SpawnPaneOutput>>,
    runs: Seq<Run>,
    request: PaneRequest,
    opening: Seq<Step<NewPane, String>>,
    j: int,
)
    requires
        spawn_began(input, tool_name, direction, steps[0]),
        can_split(direction),
        went(SpawnPane::resume, steps, runs),
        asked_for(input, direction, request),
        opening_began(request, opening[0]),
        runs_before_opening(input) + opening.len() <= steps.len(),
        went(
            NewPane::resume,
            opening,
            runs.subrange(
                runs_before_opening(input),
                runs_before_opening(input) + opening.len() - 1,
            ),
        ),
        input.target_pane_id is Some ==> moved_focus(runs[0]),
        0 <= j < opening.len(),
    ensures
        tells(input, tool_name@, opening[j], steps[j + runs_before_opening(input)]),
        opening[j] is Done && j + runs_before_opening(input) < runs.len() ==> {
            let last = runs[j + runs_before_opening(input)];
            let end = steps[j + runs_before_opening(input) + 1];
            &&& input.keep_focus_on is Some
            &&& match opening[j]->Done_0 {
                Err(e) => fails(end, tool_name@ + ": "@ + e@),
                Ok(pane_id) => if moved_focus(last) {
                    spawned(end, pane_id@)
                } else {
                    fails(
                        end,
                        tool_name@ + ": "@ + "pane `"@ + pane_id@
                            + "` created, but restoring focus to `"@ + input.keep_focus_on->0@
                            + "` failed: "@ + failure(last, "action focus-pane-id"@),
                    )
                },
            }
        },
{
    let d = runs_before_opening(input);
    lemma_spawn_tells(input, tool_name, direction, steps, runs, request, opening, j);
    if opening[j] is Done && j + d < runs.len() {
        assert(steps[j + d] is Run);
        lemma_said(runs[j + d], "action focus-pane-id"@);
    }
}

} // verus!

//! What holds of the tasks and tools from their first step to their last.
use crate::command::{
    after, captured, code_text, failure_text, focused, pane_not_found, printed, run_text, RunModel, StepModel, TextModel,
};
use crate::outside::{ascii_lowercase, lowercase};
use crate::panes::pane_named;
use crate::schema::SendTextInput;
use crate::server::{
    acted, is_resize_direction, is_split_direction, resize_call_start, resize_reports,
    reported, send_text_next, send_text_start, spawn_next, spawn_opens, spawn_start, submit_byte, SendTextModel,
    SpawnContext, SpawnModel, SpawnPhaseModel,
};
use crate::text::{contains_spec, occurs_at, trim_spec};
use crate::zellij::{
    close_pane_args, dump_screen_args, focus_args, list_panes_args, listed_by, new_pane_args,
    new_pane_next, new_pane_start, new_pane_waits, opened_pane, resize_args, resize_next,
    resize_run, retry_delay, session_args, unlisted_text, wait_next, wait_start, write_byte_args,
    write_chars_args, NewPaneModel, RequestModel, ResizeModel, WaitModel,
};
use vstd::prelude::*;

verus! {

/// The step that a wait comes to.
pub open spec fn wait_after(step: StepModel<WaitModel, bool>, runs: Seq<RunModel>) -> StepModel<
    WaitModel,
    bool,
> {
    after(|state: WaitModel, run: RunModel| wait_next(state, run), step, runs)
}

/// The step that the opening of a pane comes to.
pub open spec fn new_pane_after(
    step: StepModel<NewPaneModel, Seq<char>>,
    runs: Seq<RunModel>,
) -> StepModel<NewPaneModel, Seq<char>> {
    after(|state: NewPaneModel, run: RunModel| new_pane_next(state, run), step, runs)
}

/// The step that a resize comes to.
pub open spec fn resize_after(step: StepModel<ResizeModel, ()>, runs: Seq<RunModel>) -> StepModel<
    ResizeModel,
    (),
> {
    after(|state: ResizeModel, run: RunModel| resize_next(state, run), step, runs)
}

/// The step that a call of `resize-pane` comes to.
pub open spec fn resize_call_after(
    step: StepModel<ResizeModel, bool>,
    runs: Seq<RunModel>,
) -> StepModel<ResizeModel, bool> {
    after(
        |state: ResizeModel, run: RunModel| resize_reports(resize_next(state, run)),
        step,
        runs,
    )
}

/// The step that a call of `send-text` comes to.
pub open spec fn send_text_after(
    step: StepModel<SendTextModel, bool>,
    runs: Seq<RunModel>,
) -> StepModel<SendTextModel, bool> {
    after(|state: SendTextModel, run: RunModel| send_text_next(state, run), step, runs)
}

/// The step that a call that opens a pane comes to.
pub open spec fn spawn_after(step: StepModel<SpawnModel, Seq<char>>, runs: Seq<RunModel>) -> StepModel<
    SpawnModel,
    Seq<char>,
> {
    after(|state: SpawnModel, run: RunModel| spawn_next(state, run), step, runs)
}

/// A wait for a pane comes to what the first listing says that is not just without the pane,
/// or else to what the sixth listing says.
pub proof fn law_wait_ends_at_the_deciding_listing(
    session: Option<Seq<char>>,
    pane_id: Seq<char>,
    runs: Seq<RunModel>,
    deciding: int,
)
    requires
        pane_named(pane_id) is Some,
        0 <= deciding < runs.len(),
        deciding <= 5,
        forall|i: int|
            0 <= i < deciding ==> listed_by(#[trigger] runs[i], pane_named(pane_id)->0) == Ok::<
                bool,
                Seq<char>,
            >(false),
        deciding < 5 ==> listed_by(runs[deciding], pane_named(pane_id)->0) != Ok::<bool, Seq<char>>(
            false,
        ),
    ensures
        wait_after(wait_start(session, pane_id), runs) == StepModel::<WaitModel, bool>::Done(
            listed_by(runs[deciding], pane_named(pane_id)->0),
        ),
{
    let target = pane_named(pane_id)->0;
    lemma_wait(
        0,
        list_panes_args(session),
        WaitModel { session, target, failures: 0 },
        runs,
        deciding,
    );
}

proof fn lemma_wait(
    delay_ms: int,
    args: Seq<Seq<char>>,
    state: WaitModel,
    runs: Seq<RunModel>,
    deciding: int,
)
    requires
        0 <= deciding < runs.len(),
        state.failures + deciding <= 5,
        forall|i: int|
            0 <= i < deciding ==> listed_by(#[trigger] runs[i], state.target) == Ok::<
                bool,
                Seq<char>,
            >(false),
        state.failures + deciding < 5 ==> listed_by(runs[deciding], state.target) != Ok::<
            bool,
            Seq<char>,
        >(false),
    ensures
        wait_after(StepModel::Run { delay_ms, args, state }, runs) == StepModel::<
            WaitModel,
            bool,
        >::Done(listed_by(runs[deciding], state.target)),
    decreases deciding,
{
    reveal_with_fuel(after, 2);
    let rest = runs.drop_first();
    match wait_next(state, runs[0]) {
        StepModel::Run { delay_ms, args, state: later } => {
            assert(deciding > 0);
            assert forall|i: int| 0 <= i < deciding - 1 implies listed_by(
                #[trigger] rest[i],
                later.target,
            ) == Ok::<bool, Seq<char>>(false) by {
                assert(rest[i] == runs[i + 1]);
            }
            assert(rest[deciding - 1] == runs[deciding]);
            lemma_wait(delay_ms, args, later, rest, deciding - 1);
        },
        StepModel::Done(_) => {
            if deciding > 0 {
                assert(listed_by(runs[0], state.target) == Ok::<bool, Seq<char>>(false));
            }
        },
    }
}

/// Whether a run of a resize says that zellij does not know the pane.
pub open spec fn unknown_pane(run: RunModel) -> bool {
    captured(run, "action resize"@) is Err && pane_not_found(
        captured(run, "action resize"@)->Err_0,
    )
}

/// What a run of a resize says when it is the last.
pub open spec fn resize_result(run: RunModel) -> Result<(), Seq<char>> {
    match captured(run, "action resize"@) {
        Ok(_) => Ok(()),
        Err(e) => Err(e),
    }
}

/// A resize comes to what the first run says that does not miss the pane, or else to what the
/// fifth run says. So an error of another kind is reported at once, and that of a pane that
/// is really missing is reported in the words of zellij.
pub proof fn law_resize_ends_at_the_deciding_run(
    session: Option<Seq<char>>,
    pane_id: Seq<char>,
    direction: Seq<char>,
    runs: Seq<RunModel>,
    deciding: int,
)
    requires
        0 <= deciding < runs.len(),
        deciding <= 4,
        forall|i: int| 0 <= i < deciding ==> unknown_pane(#[trigger] runs[i]),
        deciding < 4 ==> !unknown_pane(runs[deciding]),
    ensures
        resize_after(
            resize_run(ResizeModel { session, pane_id, direction, failures: 0 }, 0),
            runs,
        ) == StepModel::<ResizeModel, ()>::Done(resize_result(runs[deciding])),
{
    lemma_resize(0, ResizeModel { session, pane_id, direction, failures: 0 }, runs, deciding);
}

proof fn lemma_resize(delay_ms: int, state: ResizeModel, runs: Seq<RunModel>, deciding: int)
    requires
        0 <= deciding < runs.len(),
        state.failures + deciding <= 4,
        forall|i: int| 0 <= i < deciding ==> unknown_pane(#[trigger] runs[i]),
        state.failures + deciding < 4 ==> !unknown_pane(runs[deciding]),
    ensures
        resize_after(resize_run(state, delay_ms), runs) == StepModel::<ResizeModel, ()>::Done(
            resize_result(runs[deciding]),
        ),
    decreases deciding,
{
    reveal_with_fuel(after, 2);
    let rest = runs.drop_first();
    match resize_next(state, runs[0]) {
        StepModel::Run { delay_ms, args, state: later } => {
            assert(deciding > 0);
            assert forall|i: int| 0 <= i < deciding - 1 implies unknown_pane(#[trigger] rest[i]) by {
                assert(rest[i] == runs[i + 1]);
            }
            assert(rest[deciding - 1] == runs[deciding]);
            lemma_resize(delay_ms, later, rest, deciding - 1);
        },
        StepModel::Done(_) => {
            if deciding > 0 {
                assert(unknown_pane(runs[0]));
            }
        },
    }
}

/// What holds of the opening of a pane at every step: the wait is for the pane that the
/// returned id names, in the session of the request, and only a request with a direction is
/// tried a second time.
pub open spec fn new_pane_wf(state: NewPaneModel) -> bool {
    &&& state.opened matches Some((pane_id, wait)) ==> {
        &&& pane_named(pane_id) == Some(wait.target)
        &&& wait.session == state.request.session
        &&& 0 <= wait.failures <= 5
    }
    &&& state.directed is Some ==> state.request.direction is Some
}

/// How many runs the opening of a pane may still take.
pub open spec fn new_pane_budget(state: NewPaneModel) -> int {
    (match state.opened {
        None => 7,
        Some((_, wait)) => 6 - wait.failures,
    }) + (if state.request.direction is Some && state.directed is None {
        7int
    } else {
        0
    })
}

proof fn lemma_new_pane_step(state: NewPaneModel, run: RunModel)
    requires
        new_pane_wf(state),
    ensures
        new_pane_next(state, run) matches StepModel::Run { args, state: later, .. } ==> {
            &&& new_pane_wf(later)
            &&& later.request == state.request
            &&& 0 < new_pane_budget(later) < new_pane_budget(state)
            &&& session_args(state.request.session).is_prefix_of(args)
        },
        new_pane_next(state, run) matches StepModel::Done(Ok(pane_id)) ==> shows_named(
            run,
            pane_id,
        ),
{
    lemma_args_in_session(state.request.session, state.request);
}

/// Whether a run is a listing that shows the pane that `pane_id` names.
pub open spec fn shows_named(run: RunModel, pane_id: Seq<char>) -> bool {
    pane_named(pane_id) is Some && listed_by(run, pane_named(pane_id)->0) == Ok::<bool, Seq<char>>(
        true,
    )
}

proof fn lemma_args_in_session(session: Option<Seq<char>>, request: RequestModel)
    ensures
        session_args(session).is_prefix_of(list_panes_args(session)),
        forall|direction: Option<Seq<char>>|
            session_args(request.session).is_prefix_of(
                #[trigger] new_pane_args(request, direction),
            ),
        forall|pane_id: Seq<char>|
            session_args(session).is_prefix_of(#[trigger] focus_args(session, pane_id)),
{
}

/// The opening of a pane is over after at most seven runs, or fourteen where a direction is
/// requested.
pub proof fn law_new_pane_ends(request: RequestModel, runs: Seq<RunModel>)
    requires
        runs.len() >= if request.direction is Some {
            14int
        } else {
            7int
        },
    ensures
        new_pane_after(new_pane_start(request), runs) is Done,
{
    lemma_new_pane_ends(
        0,
        new_pane_args(request, request.direction),
        NewPaneModel { request, directed: None, opened: None },
        runs,
    );
}

proof fn lemma_new_pane_ends(
    delay_ms: int,
    args: Seq<Seq<char>>,
    state: NewPaneModel,
    runs: Seq<RunModel>,
)
    requires
        new_pane_wf(state),
        runs.len() >= new_pane_budget(state),
    ensures
        new_pane_after(StepModel::Run { delay_ms, args, state }, runs) is Done,
    decreases runs.len(),
{
    reveal_with_fuel(after, 2);
    lemma_new_pane_step(state, runs[0]);
    match new_pane_next(state, runs[0]) {
        StepModel::Run { delay_ms, args, state: later } => {
            lemma_new_pane_ends(delay_ms, args, later, runs.drop_first());
        },
        StepModel::Done(_) => {},
    }
}

/// An id that the opening of a pane returns is that of a pane which one of its runs has
/// listed.
pub proof fn law_new_pane_returns_a_listed_pane(
    request: RequestModel,
    runs: Seq<RunModel>,
    pane_id: Seq<char>,
)
    requires
        new_pane_after(new_pane_start(request), runs) == StepModel::<NewPaneModel, Seq<char>>::Done(
            Ok(pane_id),
        ),
    ensures
        exists|i: int| 0 <= i < runs.len() && #[trigger] shows_named(runs[i], pane_id),
{
    lemma_new_pane_listed(
        0,
        new_pane_args(request, request.direction),
        NewPaneModel { request, directed: None, opened: None },
        runs,
        pane_id,
    );
}

proof fn lemma_new_pane_listed(
    delay_ms: int,
    args: Seq<Seq<char>>,
    state: NewPaneModel,
    runs: Seq<RunModel>,
    pane_id: Seq<char>,
)
    requires
        new_pane_wf(state),
        new_pane_after(StepModel::Run { delay_ms, args, state }, runs) == StepModel::<
            NewPaneModel,
            Seq<char>,
        >::Done(Ok(pane_id)),
    ensures
        exists|i: int| 0 <= i < runs.len() && #[trigger] shows_named(runs[i], pane_id),
    decreases runs.len(),
{
    reveal_with_fuel(after, 2);
    if runs.len() > 0 {
        lemma_new_pane_step(state, runs[0]);
        match new_pane_next(state, runs[0]) {
            StepModel::Run { delay_ms, args, state: later } => {
                let rest = runs.drop_first();
                lemma_new_pane_listed(delay_ms, args, later, rest, pane_id);
                let i = choose|i: int|
                    0 <= i < rest.len() && #[trigger] shows_named(rest[i], pane_id);
                assert(shows_named(runs[i + 1], pane_id));
            },
            StepModel::Done(_) => {
                assert(shows_named(runs[0], pane_id));
            },
        }
    }
}

/// An id that the opening of a pane returns is one that zellij printed when it opened a pane.
pub proof fn law_new_pane_returns_a_printed_id(
    request: RequestModel,
    runs: Seq<RunModel>,
    pane_id: Seq<char>,
)
    requires
        new_pane_after(new_pane_start(request), runs) == StepModel::<NewPaneModel, Seq<char>>::Done(
            Ok(pane_id),
        ),
    ensures
        exists|i: int|
            0 <= i < runs.len() && #[trigger] opened_pane(runs[i]) == Ok::<Seq<char>, Seq<char>>(
                pane_id,
            ),
{
    lemma_new_pane_printed(
        0,
        new_pane_args(request, request.direction),
        NewPaneModel { request, directed: None, opened: None },
        runs,
        pane_id,
    );
}

proof fn lemma_new_pane_printed(
    delay_ms: int,
    args: Seq<Seq<char>>,
    state: NewPaneModel,
    runs: Seq<RunModel>,
    pane_id: Seq<char>,
)
    requires
        new_pane_after(StepModel::Run { delay_ms, args, state }, runs) == StepModel::<
            NewPaneModel,
            Seq<char>,
        >::Done(Ok(pane_id)),
    ensures
        (exists|i: int|
            0 <= i < runs.len() && #[trigger] opened_pane(runs[i]) == Ok::<Seq<char>, Seq<char>>(
                pane_id,
            )) || (state.opened is Some && (state.opened->0).0 == pane_id),
    decreases runs.len(),
{
    reveal_with_fuel(after, 2);
    if runs.len() > 0 {
        match new_pane_next(state, runs[0]) {
            StepModel::Run { delay_ms, args, state: later } => {
                let rest = runs.drop_first();
                lemma_new_pane_printed(delay_ms, args, later, rest, pane_id);
                if exists|i: int|
                    0 <= i < rest.len() && #[trigger] opened_pane(rest[i]) == Ok::<
                        Seq<char>,
                        Seq<char>,
                    >(pane_id) {
                    let i = choose|i: int|
                        0 <= i < rest.len() && #[trigger] opened_pane(rest[i]) == Ok::<
                            Seq<char>,
                            Seq<char>,
                        >(pane_id);
                    assert(opened_pane(runs[i + 1]) == Ok::<Seq<char>, Seq<char>>(pane_id));
                } else if state.opened is None {
                    assert(opened_pane(runs[0]) == Ok::<Seq<char>, Seq<char>>(pane_id));
                }
            },
            StepModel::Done(_) => {},
        }
    }
}

/// Once zellij has returned an id, the opening of a pane comes to what the wait for that pane
/// comes to: the id if the listing shows it, the error of the wait if it fails, and an error
/// of its own if the pane never appears and no direction was requested.
pub proof fn law_new_pane_follows_the_wait(
    request: RequestModel,
    runs: Seq<RunModel>,
    pane_id: Seq<char>,
    waited: Result<bool, Seq<char>>,
)
    requires
        runs.len() > 0,
        opened_pane(runs[0]) == Ok::<Seq<char>, Seq<char>>(pane_id),
        wait_after(wait_start(request.session, pane_id), runs.drop_first()) == StepModel::<
            WaitModel,
            bool,
        >::Done(waited),
        request.direction is None || waited != Ok::<bool, Seq<char>>(false),
    ensures
        new_pane_after(new_pane_start(request), runs) == StepModel::<NewPaneModel, Seq<char>>::Done(
            match waited {
                Err(e) => Err(e),
                Ok(true) => Ok(pane_id),
                Ok(false) => Err(unlisted_text(None, pane_id)),
            },
        ),
{
    reveal_with_fuel(after, 2);
    let step = wait_start(request.session, pane_id);
    match step {
        StepModel::Run { delay_ms, args, state } => {
            lemma_new_pane_follows(
                delay_ms,
                args,
                NewPaneModel { request, directed: None, opened: Some((pane_id, state)) },
                state,
                runs.drop_first(),
                waited,
            );
        },
        StepModel::Done(_) => {},
    }
}

proof fn lemma_new_pane_follows(
    delay_ms: int,
    args: Seq<Seq<char>>,
    state: NewPaneModel,
    wait: WaitModel,
    runs: Seq<RunModel>,
    waited: Result<bool, Seq<char>>,
)
    requires
        state.opened is Some,
        (state.opened->0).1 == wait,
        state.directed is None,
        wait_after(StepModel::Run { delay_ms, args, state: wait }, runs) == StepModel::<
            WaitModel,
            bool,
        >::Done(waited),
        state.request.direction is None || waited != Ok::<bool, Seq<char>>(false),
    ensures
        new_pane_after(StepModel::Run { delay_ms, args, state }, runs) == new_pane_waits(
            state.request,
            None,
            (state.opened->0).0,
            StepModel::Done(waited),
        ),
    decreases runs.len(),
{
    reveal_with_fuel(after, 2);
    if runs.len() > 0 {
        match wait_next(wait, runs[0]) {
            StepModel::Run { delay_ms, args, state: later } => {
                lemma_new_pane_follows(
                    delay_ms,
                    args,
                    NewPaneModel { opened: Some(((state.opened->0).0, later)), ..state },
                    later,
                    runs.drop_first(),
                    waited,
                );
            },
            StepModel::Done(_) => {},
        }
    }
}

/// A split in a requested direction whose pane is missing from six listings is given up: the
/// pane is opened again without the direction, and all else as it was requested.
pub proof fn law_directed_pane_falls_back(
    request: RequestModel,
    runs: Seq<RunModel>,
    pane_id: Seq<char>,
)
    requires
        request.direction is Some,
        runs.len() >= 7,
        opened_pane(runs[0]) == Ok::<Seq<char>, Seq<char>>(pane_id),
        pane_named(pane_id) is Some,
        forall|i: int|
            1 <= i <= 6 ==> listed_by(#[trigger] runs[i], pane_named(pane_id)->0) == Ok::<
                bool,
                Seq<char>,
            >(false),
    ensures
        new_pane_after(new_pane_start(request), runs) == new_pane_after(
            (StepModel::Run {
                delay_ms: 0,
                args: new_pane_args(request, None),
                state: NewPaneModel { request, directed: Some(pane_id), opened: None },
            }),
            runs.skip(7),
        ),
{
    reveal_with_fuel(after, 2);
    let rest = runs.drop_first();
    let wait = WaitModel {
        session: request.session,
        target: pane_named(pane_id)->0,
        failures: 0,
    };
    assert forall|i: int| 0 <= i < 6 implies listed_by(#[trigger] rest[i], wait.target) == Ok::<
        bool,
        Seq<char>,
    >(false) by {
        assert(rest[i] == runs[i + 1]);
    }
    lemma_directed_gives_up(
        0,
        list_panes_args(request.session),
        NewPaneModel { request, directed: None, opened: Some((pane_id, wait)) },
        wait,
        rest,
    );
    assert(rest.skip(6) =~= runs.skip(7));
}

proof fn lemma_directed_gives_up(
    delay_ms: int,
    args: Seq<Seq<char>>,
    state: NewPaneModel,
    wait: WaitModel,
    runs: Seq<RunModel>,
)
    requires
        state.request.direction is Some,
        state.directed is None,
        state.opened is Some,
        (state.opened->0).1 == wait,
        0 <= wait.failures <= 5,
        runs.len() >= 6 - wait.failures,
        forall|i: int|
            0 <= i < 6 - wait.failures ==> listed_by(#[trigger] runs[i], wait.target) == Ok::<
                bool,
                Seq<char>,
            >(false),
    ensures
        new_pane_after(StepModel::Run { delay_ms, args, state }, runs) == new_pane_after(
            (StepModel::Run {
                delay_ms: 0,
                args: new_pane_args(state.request, None),
                state: NewPaneModel {
                    request: state.request,
                    directed: Some((state.opened->0).0),
                    opened: None,
                },
            }),
            runs.skip(6 - wait.failures),
        ),
    decreases 6 - wait.failures,
{
    let rest = runs.drop_first();
    assert(listed_by(runs[0], wait.target) == Ok::<bool, Seq<char>>(false));
    if wait.failures < 5 {
        let later = WaitModel { failures: wait.failures + 1, ..wait };
        assert forall|i: int| 0 <= i < 6 - later.failures implies listed_by(
            #[trigger] rest[i],
            later.target,
        ) == Ok::<bool, Seq<char>>(false) by {
            assert(rest[i] == runs[i + 1]);
        }
        lemma_directed_gives_up(
            retry_delay(wait.failures),
            list_panes_args(wait.session),
            NewPaneModel { opened: Some(((state.opened->0).0, later)), ..state },
            later,
            rest,
        );
        assert(rest.skip(6 - later.failures) =~= runs.skip(6 - wait.failures));
    } else {
        assert(rest =~= runs.skip(1));
    }
}

/// What holds of a call that opens a pane at every step, where `args` are the arguments of
/// the run that it waits for.
pub open spec fn spawn_wf(args: Seq<Seq<char>>, state: SpawnModel) -> bool {
    &&& session_args(state.context.session).is_prefix_of(args)
    &&& match state.phase {
        SpawnPhaseModel::FocusTarget(request, target) => {
            &&& request.session == state.context.session
            &&& args == focus_args(state.context.session, target)
        },
        SpawnPhaseModel::Open(task) => {
            &&& new_pane_wf(task)
            &&& task.request.session == state.context.session
        },
        SpawnPhaseModel::RestoreAfterFailure(_) => {
            &&& state.context.keep_focus_on is Some
            &&& args == focus_args(state.context.session, state.context.keep_focus_on->0)
        },
        SpawnPhaseModel::Restore(_, keep) => {
            &&& state.context.keep_focus_on == Some(keep)
            &&& args == focus_args(state.context.session, keep)
        },
    }
}

/// How many runs a call that opens a pane may still take.
pub open spec fn spawn_budget(state: SpawnModel) -> int {
    match state.phase {
        SpawnPhaseModel::FocusTarget(..) => 16,
        SpawnPhaseModel::Open(task) => 1 + new_pane_budget(task),
        SpawnPhaseModel::RestoreAfterFailure(_) => 1,
        SpawnPhaseModel::Restore(..) => 1,
    }
}

/// What a step of a call that opens a pane keeps from the state before it.
pub open spec fn spawn_keeps(state: SpawnModel, step: StepModel<SpawnModel, Seq<char>>) -> bool {
    step matches StepModel::Run { args, state: later, .. } ==> {
        &&& spawn_wf(args, later)
        &&& later.context == state.context
        &&& 0 < spawn_budget(later) < spawn_budget(state)
        &&& later.phase !is FocusTarget
    }
}

pub(crate) proof fn lemma_spawn_step(args: Seq<Seq<char>>, state: SpawnModel, run: RunModel)
    requires
        spawn_wf(args, state),
    ensures
        spawn_keeps(state, spawn_next(state, run)),
        spawn_next(state, run) is Done && state.context.keep_focus_on is Some ==> state.phase !is Open,
        spawn_next(state, run) matches StepModel::Run { state: later, .. } ==> (
        later.phase matches SpawnPhaseModel::Restore(pane_id, _) ==> shows_named(run, pane_id)),
        spawn_next(state, run) matches StepModel::Done(Ok(pane_id)) ==> shows_named(run, pane_id)
            || (state.phase matches SpawnPhaseModel::Restore(opened, _) && opened == pane_id),
{
    match state.phase {
        SpawnPhaseModel::FocusTarget(request, _) => {
            lemma_args_in_session(state.context.session, request);
        },
        SpawnPhaseModel::Open(task) => {
            lemma_new_pane_step(task, run);
            lemma_args_in_session(state.context.session, task.request);
        },
        _ => {},
    }
}

pub(crate) proof fn lemma_spawn_start(
    context: SpawnContext,
    target: Option<Seq<char>>,
    request: RequestModel,
)
    requires
        request.session == context.session,
    ensures
        spawn_start(context, target, request) matches StepModel::Run { args, state, .. } ==> {
            &&& spawn_wf(args, state)
            &&& state.context == context
            &&& 0 < spawn_budget(state) <= 16
            &&& state.phase is FocusTarget || state.phase is Open
        },
{
    lemma_args_in_session(context.session, request);
}

/// A call that opens a pane is over after at most sixteen runs.
pub proof fn law_spawn_ends(
    context: SpawnContext,
    target: Option<Seq<char>>,
    request: RequestModel,
    runs: Seq<RunModel>,
)
    requires
        request.session == context.session,
        runs.len() >= 16,
    ensures
        spawn_after(spawn_start(context, target, request), runs) is Done,
{
    lemma_spawn_start(context, target, request);
    match spawn_start(context, target, request) {
        StepModel::Run { delay_ms, args, state } => {
            lemma_spawn_ends(delay_ms, args, state, runs);
        },
        StepModel::Done(_) => {},
    }
}

proof fn lemma_spawn_ends(
    delay_ms: int,
    args: Seq<Seq<char>>,
    state: SpawnModel,
    runs: Seq<RunModel>,
)
    requires
        spawn_wf(args, state),
        0 < spawn_budget(state) <= runs.len(),
    ensures
        spawn_after(StepModel::Run { delay_ms, args, state }, runs) is Done,
    decreases runs.len(),
{
    reveal_with_fuel(after, 2);
    lemma_spawn_step(args, state, runs[0]);
    match spawn_next(state, runs[0]) {
        StepModel::Run { delay_ms, args, state: later } => {
            lemma_spawn_ends(delay_ms, args, later, runs.drop_first());
        },
        StepModel::Done(_) => {},
    }
}

/// An id that a call returns is that of a pane which one of its runs has listed.
pub proof fn law_spawn_returns_a_listed_pane(
    context: SpawnContext,
    target: Option<Seq<char>>,
    request: RequestModel,
    runs: Seq<RunModel>,
    pane_id: Seq<char>,
)
    requires
        request.session == context.session,
        spawn_after(spawn_start(context, target, request), runs) == StepModel::<
            SpawnModel,
            Seq<char>,
        >::Done(Ok(pane_id)),
    ensures
        exists|i: int| 0 <= i < runs.len() && #[trigger] shows_named(runs[i], pane_id),
{
    lemma_spawn_start(context, target, request);
    match spawn_start(context, target, request) {
        StepModel::Run { delay_ms, args, state } => {
            lemma_spawn_listed(delay_ms, args, state, runs, pane_id);
        },
        StepModel::Done(_) => {},
    }
}

proof fn lemma_spawn_listed(
    delay_ms: int,
    args: Seq<Seq<char>>,
    state: SpawnModel,
    runs: Seq<RunModel>,
    pane_id: Seq<char>,
)
    requires
        spawn_wf(args, state),
        spawn_after(StepModel::Run { delay_ms, args, state }, runs) == StepModel::<
            SpawnModel,
            Seq<char>,
        >::Done(Ok(pane_id)),
    ensures
        (exists|i: int| 0 <= i < runs.len() && #[trigger] shows_named(runs[i], pane_id)) || (
        state.phase matches SpawnPhaseModel::Restore(opened, _) && opened == pane_id),
    decreases runs.len(),
{
    reveal_with_fuel(after, 2);
    if runs.len() > 0 {
        lemma_spawn_step(args, state, runs[0]);
        match spawn_next(state, runs[0]) {
            StepModel::Run { delay_ms, args, state: later } => {
                let rest = runs.drop_first();
                lemma_spawn_listed(delay_ms, args, later, rest, pane_id);
                if exists|i: int| 0 <= i < rest.len() && #[trigger] shows_named(rest[i], pane_id) {
                    let i = choose|i: int|
                        0 <= i < rest.len() && #[trigger] shows_named(rest[i], pane_id);
                    assert(shows_named(runs[i + 1], pane_id));
                } else {
                    assert(shows_named(runs[0], pane_id));
                }
            },
            StepModel::Done(_) => {},
        }
    }
}

/// Every run that a call asks for is pinned to the session of its input.
pub proof fn law_spawn_stays_in_its_session(
    context: SpawnContext,
    target: Option<Seq<char>>,
    request: RequestModel,
    runs: Seq<RunModel>,
)
    requires
        request.session == context.session,
    ensures
        spawn_after(spawn_start(context, target, request), runs) matches StepModel::Run {
            args,
            ..
        } ==> session_args(context.session).is_prefix_of(args),
{
    lemma_spawn_reaches(context, target, request, runs);
}

/// A call that is asked to keep the focus ends in one of two ways: the pane to split next to
/// could not be focused, before anything was opened, or its last run puts the focus where it
/// was asked to be, whether a pane could be opened or not.
pub proof fn law_spawn_restores_the_focus(
    context: SpawnContext,
    target: Option<Seq<char>>,
    request: RequestModel,
    runs: Seq<RunModel>,
    last: RunModel,
)
    requires
        request.session == context.session,
        context.keep_focus_on is Some,
        spawn_after(spawn_start(context, target, request), runs) is Run,
        spawn_next(
            spawn_after(spawn_start(context, target, request), runs)->state,
            last,
        ) is Done,
    ensures
        (runs.len() == 0 && target is Some) || spawn_after(
            spawn_start(context, target, request),
            runs,
        )->args == focus_args(context.session, context.keep_focus_on->0),
{
    lemma_spawn_reaches(context, target, request, runs);
    let step = spawn_after(spawn_start(context, target, request), runs);
    lemma_spawn_step(step->args, step->state, last);
}

proof fn lemma_spawn_reaches(
    context: SpawnContext,
    target: Option<Seq<char>>,
    request: RequestModel,
    runs: Seq<RunModel>,
)
    requires
        request.session == context.session,
    ensures
        spawn_after(spawn_start(context, target, request), runs) matches StepModel::Run {
            args,
            state,
            ..
        } ==> {
            &&& spawn_wf(args, state)
            &&& state.context == context
            &&& state.phase is FocusTarget ==> runs.len() == 0 && target is Some
        },
{
    lemma_spawn_start(context, target, request);
    match spawn_start(context, target, request) {
        StepModel::Run { delay_ms, args, state } => {
            lemma_spawn_reaches_from(delay_ms, args, state, runs);
        },
        StepModel::Done(_) => {},
    }
}

proof fn lemma_spawn_reaches_from(
    delay_ms: int,
    args: Seq<Seq<char>>,
    state: SpawnModel,
    runs: Seq<RunModel>,
)
    requires
        spawn_wf(args, state),
    ensures
        spawn_after(StepModel::Run { delay_ms, args, state }, runs) matches StepModel::Run {
            args: reached_args,
            state: reached,
            ..
        } ==> {
            &&& spawn_wf(reached_args, reached)
            &&& reached.context == state.context
            &&& reached.phase is FocusTarget ==> runs.len() == 0 && state.phase is FocusTarget
        },
    decreases runs.len(),
{
    reveal_with_fuel(after, 2);
    if runs.len() > 0 {
        lemma_spawn_step(args, state, runs[0]);
        match spawn_next(state, runs[0]) {
            StepModel::Run { delay_ms, args, state: later } => {
                lemma_spawn_reaches_from(delay_ms, args, later, runs.drop_first());
            },
            StepModel::Done(_) => {},
        }
    }
}

/// Where a pane to split next to is given, it is focused first. If that succeeds, the call
/// goes on as one without such a pane; if it fails, the call is over and nothing is opened.
pub proof fn law_target_is_focused_first(
    context: SpawnContext,
    target: Seq<char>,
    request: RequestModel,
    runs: Seq<RunModel>,
)
    requires
        request.direction is Some ==> is_split_direction(request.direction->0),
        runs.len() > 0,
    ensures
        spawn_start(context, Some(target), request) matches StepModel::Run { args, .. } && args
            == focus_args(context.session, target),
        spawn_after(spawn_start(context, Some(target), request), runs) == match focused(
            run_text(runs[0]),
        ) {
            Ok(_) => spawn_after(spawn_start(context, None, request), runs.drop_first()),
            Err(e) => StepModel::Done(
                Err(
                    context.tool_name + ": "@ + "focusing target pane `"@ + target + "` failed: "@
                        + e,
                ),
            ),
        },
{
    reveal_with_fuel(after, 2);
}

/// Where neither a pane to split next to nor one to keep the focus on is given, a call is the
/// opening of its pane, with an error under the name of the tool.
pub proof fn law_spawn_is_the_opening(
    context: SpawnContext,
    request: RequestModel,
    runs: Seq<RunModel>,
    result: Result<Seq<char>, Seq<char>>,
)
    requires
        request.direction is Some ==> is_split_direction(request.direction->0),
        context.keep_focus_on is None,
        new_pane_after(new_pane_start(request), runs) == StepModel::<NewPaneModel, Seq<char>>::Done(
            result,
        ),
    ensures
        spawn_after(spawn_start(context, None, request), runs) == StepModel::<
            SpawnModel,
            Seq<char>,
        >::Done(reported(context.tool_name, result)),
{
    lemma_spawn_is_the_opening(context, new_pane_start(request), runs);
}

proof fn lemma_spawn_is_the_opening(
    context: SpawnContext,
    step: StepModel<NewPaneModel, Seq<char>>,
    runs: Seq<RunModel>,
)
    requires
        context.keep_focus_on is None,
    ensures
        spawn_after(spawn_opens(context, step), runs) == spawn_opens(
            context,
            new_pane_after(step, runs),
        ),
    decreases runs.len(),
{
    reveal_with_fuel(after, 2);
    if let StepModel::Run { delay_ms, args, state } = step {
        if runs.len() > 0 {
            lemma_spawn_is_the_opening(context, new_pane_next(state, runs[0]), runs.drop_first());
        }
    }
}

/// Where a pane to keep the focus on is given, the run after the opening of the pane decides:
/// a pane that was opened is returned if the focus could be restored, and a failure to open
/// one is reported whether the focus could be restored or not.
pub proof fn law_spawn_restores_after_the_opening(
    context: SpawnContext,
    request: RequestModel,
    runs: Seq<RunModel>,
    taken: int,
    result: Result<Seq<char>, Seq<char>>,
)
    requires
        request.direction is Some ==> is_split_direction(request.direction->0),
        context.keep_focus_on is Some,
        0 <= taken < runs.len(),
        forall|fewer: int|
            0 <= fewer < taken ==> new_pane_after(
                new_pane_start(request),
                #[trigger] runs.take(fewer),
            ) is Run,
        new_pane_after(new_pane_start(request), runs.take(taken)) == StepModel::<
            NewPaneModel,
            Seq<char>,
        >::Done(result),
    ensures
        spawn_after(spawn_start(context, None, request), runs) == StepModel::<
            SpawnModel,
            Seq<char>,
        >::Done(
            match result {
                Err(e) => Err(context.tool_name + ": "@ + e),
                Ok(pane_id) => match focused(run_text(runs[taken])) {
                    Ok(_) => Ok(pane_id),
                    Err(e) => Err(
                        context.tool_name + ": "@ + "pane `"@ + pane_id
                            + "` created, but restoring focus to `"@ + context.keep_focus_on->0
                            + "` failed: "@ + e,
                    ),
                },
            },
        ),
{
    lemma_spawn_opening(context, new_pane_start(request), runs, taken);
    reveal_with_fuel(after, 2);
    assert(runs.skip(taken)[0] == runs[taken]);
}

proof fn lemma_spawn_opening(
    context: SpawnContext,
    step: StepModel<NewPaneModel, Seq<char>>,
    runs: Seq<RunModel>,
    taken: int,
)
    requires
        0 <= taken <= runs.len(),
        forall|fewer: int|
            0 <= fewer < taken ==> new_pane_after(step, #[trigger] runs.take(fewer)) is Run,
        new_pane_after(step, runs.take(taken)) is Done,
    ensures
        spawn_after(spawn_opens(context, step), runs) == spawn_after(
            spawn_opens(context, new_pane_after(step, runs.take(taken))),
            runs.skip(taken),
        ),
    decreases taken,
{
    if taken == 0 {
        assert(runs.skip(0) =~= runs);
        assert(runs.take(0).len() == 0);
    } else {
        assert(new_pane_after(step, runs.take(0)) is Run);
        let rest = runs.drop_first();
        let next = new_pane_next(step->state, runs[0]);
        assert forall|fewer: int| 0 < fewer <= taken implies new_pane_after(
            step,
            #[trigger] runs.take(fewer),
        ) == new_pane_after(next, rest.take(fewer - 1)) by {
            assert(runs.take(fewer).drop_first() =~= rest.take(fewer - 1));
            assert(runs.take(fewer)[0] == runs[0]);
        }
        assert forall|fewer: int| 0 <= fewer < taken - 1 implies new_pane_after(
            next,
            #[trigger] rest.take(fewer),
        ) is Run by {
            assert(new_pane_after(step, runs.take(fewer + 1)) is Run);
        }
        lemma_spawn_opening(context, next, rest, taken - 1);
        assert(rest.skip(taken - 1) =~= runs.skip(taken));
    }
}

/// Whether a command is pinned to `session` and acts on the pane `pane_id`.
pub open spec fn names_pane(
    args: Seq<Seq<char>>,
    session: Option<Seq<char>>,
    pane_id: Seq<char>,
) -> bool {
    let n = session_args(session).len() as int;
    &&& session_args(session).is_prefix_of(args)
    &&& args.len() > n + 2
    &&& args[n] == "action"@
    &&& {
        ||| args[n + 1] == "focus-pane-id"@ && args[n + 2] == pane_id
        ||| args.len() > n + 3 && args[n + 2] == "--pane-id"@ && args[n + 3] == pane_id
    }
}

/// Every command that acts on a pane names that pane: none falls back to the focus.
pub proof fn law_pane_commands_name_their_pane(
    session: Option<Seq<char>>,
    pane_id: Seq<char>,
    text: Seq<char>,
    byte: u8,
    full: bool,
)
    ensures
        names_pane(focus_args(session, pane_id), session, pane_id),
        names_pane(resize_args(session, pane_id, text), session, pane_id),
        names_pane(write_chars_args(session, pane_id, text), session, pane_id),
        names_pane(write_byte_args(session, pane_id, byte), session, pane_id),
        names_pane(dump_screen_args(session, pane_id, full), session, pane_id),
        names_pane(close_pane_args(session, pane_id), session, pane_id),
{
}

/// Every run that a call of `send-text` asks for names the pane of its input.
pub proof fn law_send_text_names_its_pane(input: SendTextInput, runs: Seq<RunModel>)
    ensures
        send_text_after(send_text_start(input), runs) matches StepModel::Run { args, .. }
            ==> names_pane(args, input.session.deep_view(), input.pane_id@),
{
    reveal_with_fuel(after, 4);
    let session = input.session.deep_view();
    law_pane_commands_name_their_pane(session, input.pane_id@, input.text@, 13, false);
    law_pane_commands_name_their_pane(session, input.pane_id@, input.text@, 10, false);
}

/// A call of `send-text` is over after two runs, and after one where nothing is submitted.
pub proof fn law_send_text_ends(input: SendTextInput, runs: Seq<RunModel>)
    requires
        runs.len() >= if input.submit == Some(true) {
            2int
        } else {
            1int
        },
    ensures
        send_text_after(send_text_start(input), runs) is Done,
{
    reveal_with_fuel(after, 4);
}

/// A newline mode that is accepted is its own lowercase, so that it is accepted as it is
/// written.
pub proof fn law_newline_modes_are_lowercase(mode: Seq<char>)
    requires
        submit_byte(mode) is Some,
    ensures
        lowercase(mode) == mode,
{
    reveal_strlit("enter");
    reveal_strlit("shift_enter");
    assert(ascii_lowercase(mode) =~= mode);
}

/// Where no newline mode is given, text that is to be submitted is followed by the byte 13.
pub proof fn law_default_submit_key_is_enter(state: SendTextModel, run: RunModel)
    requires
        !state.typed,
        state.submit,
        state.newline_mode is None,
        captured(run, "action write-chars"@) is Ok,
    ensures
        send_text_next(state, run) matches StepModel::Run { args, .. } && args == write_byte_args(
            state.session,
            state.pane_id,
            13,
        ),
{
    law_newline_modes_are_lowercase("enter"@);
}

/// A direction that is accepted is its own lowercase, so that it is accepted as it is written.
pub proof fn law_directions_are_lowercase(direction: Seq<char>)
    requires
        is_split_direction(direction) || is_resize_direction(direction),
    ensures
        lowercase(direction) == direction,
{
    reveal_strlit("right");
    reveal_strlit("down");
    reveal_strlit("left");
    reveal_strlit("up");
    reveal_strlit("increase");
    reveal_strlit("decrease");
    assert(ascii_lowercase(direction) =~= direction);
}

/// A direction that is not accepted runs nothing.
pub proof fn law_bad_direction_runs_nothing(
    context: SpawnContext,
    target: Option<Seq<char>>,
    request: RequestModel,
    session: Option<Seq<char>>,
    pane_id: Seq<char>,
    direction: Seq<char>,
    lowered: Seq<char>,
)
    ensures
        request.direction is Some && !is_split_direction(request.direction->0) <==> spawn_start(
            context,
            target,
            request,
        ) is Done,
        !is_resize_direction(lowered) <==> resize_call_start(
            session,
            pane_id,
            direction,
            lowered,
        ) is Done,
{
}

proof fn lemma_resize_call(step: StepModel<ResizeModel, ()>, runs: Seq<RunModel>)
    ensures
        resize_call_after(resize_reports(step), runs) == resize_reports(resize_after(step, runs)),
    decreases runs.len(),
{
    reveal_with_fuel(after, 2);
    match step {
        StepModel::Run { delay_ms, args, state } => {
            if runs.len() > 0 {
                lemma_resize_call(resize_next(state, runs[0]), runs.drop_first());
            }
        },
        StepModel::Done(_) => {},
    }
}

/// A call of `resize-pane` answers with what the deciding run says: the first that does not
/// miss the pane, or else the fifth.
pub proof fn law_resize_call_answers_with_the_deciding_run(
    session: Option<Seq<char>>,
    pane_id: Seq<char>,
    direction: Seq<char>,
    lowered: Seq<char>,
    runs: Seq<RunModel>,
    deciding: int,
)
    requires
        is_resize_direction(lowered),
        0 <= deciding < runs.len(),
        deciding <= 4,
        forall|i: int| 0 <= i < deciding ==> unknown_pane(#[trigger] runs[i]),
        deciding < 4 ==> !unknown_pane(runs[deciding]),
    ensures
        resize_call_after(resize_call_start(session, pane_id, direction, lowered), runs)
            == StepModel::<ResizeModel, bool>::Done(
            acted("resize-pane"@, resize_result(runs[deciding])),
        ),
{
    let state = ResizeModel { session, pane_id, direction: lowered, failures: 0 };
    law_resize_ends_at_the_deciding_run(session, pane_id, lowered, runs, deciding);
    lemma_resize_call(resize_run(state, 0), runs);
}

/// Every run that a call of `resize-pane` asks for names the pane of its input and the
/// direction in lowercase.
pub proof fn law_resize_names_its_pane(
    session: Option<Seq<char>>,
    pane_id: Seq<char>,
    direction: Seq<char>,
    lowered: Seq<char>,
    runs: Seq<RunModel>,
)
    ensures
        resize_call_after(
            resize_call_start(session, pane_id, direction, lowered),
            runs,
        ) matches StepModel::Run { args, .. } ==> {
            &&& args == resize_args(session, pane_id, lowered)
            &&& names_pane(args, session, pane_id)
        },
{
    law_pane_commands_name_their_pane(session, pane_id, lowered, 0, false);
    let state = ResizeModel { session, pane_id, direction: lowered, failures: 0 };
    lemma_resize_call(resize_run(state, 0), runs);
    lemma_resize_repeats(0, state, runs);
}

proof fn lemma_resize_repeats(delay_ms: int, state: ResizeModel, runs: Seq<RunModel>)
    ensures
        resize_after(resize_run(state, delay_ms), runs) matches StepModel::Run { args, .. } ==> args
            == resize_args(state.session, state.pane_id, state.direction),
    decreases runs.len(),
{
    reveal_with_fuel(after, 2);
    if runs.len() > 0 {
        match resize_next(state, runs[0]) {
            StepModel::Run { delay_ms, args, state: later } => {
                lemma_resize_repeats(delay_ms, later, runs.drop_first());
            },
            StepModel::Done(_) => {},
        }
    }
}

proof fn lemma_contains_part(s: Seq<char>, part: Seq<char>, at: int, pattern: Seq<char>)
    requires
        occurs_at(s, part, at),
        contains_spec(part, pattern),
    ensures
        contains_spec(s, pattern),
{
    let inner = choose|inner: int| occurs_at(part, pattern, inner);
    assert(s.subrange(at + inner, at + inner + pattern.len()) =~= part.subrange(
        inner,
        inner + pattern.len(),
    )) by {
        assert forall|i: int| 0 <= i < pattern.len() implies s[at + inner + i] == #[trigger] part[inner
            + i] by {
            assert(s.subrange(at, at + part.len())[inner + i] == part[inner + i]);
        }
    }
    assert(occurs_at(s, pattern, at + inner));
}

/// A run that failed is reported with what zellij printed about errors, word for word, or,
/// where it printed nothing about them, with what else it printed.
pub proof fn law_failure_quotes_zellij(output: TextModel, context: Seq<char>)
    requires
        !output.success,
    ensures
        printed(Ok(output), context) == Err::<Seq<char>, Seq<char>>(failure_text(output, context)),
        contains_spec(failure_text(output, context), trim_spec(output.stderr)),
        trim_spec(output.stderr).len() == 0 ==> contains_spec(
            failure_text(output, context),
            trim_spec(output.stdout),
        ),
{
    let whole = failure_text(output, context);
    let stderr = trim_spec(output.stderr);
    let stdout = trim_spec(output.stdout);
    let head = "zellij "@ + context + " failed (exit "@ + code_text(output.code)
        + "): "@;
    assert(whole.subrange(head.len() as int, (head.len() + stderr.len()) as int) =~= stderr);
    assert(occurs_at(whole, stderr, head.len() as int));
    if stderr.len() == 0 {
        let at = whole.len() - stdout.len();
        assert(whole.subrange(at, whole.len() as int) =~= stdout);
        assert(occurs_at(whole, stdout, at));
    }
}

/// A run that says about errors that the pane was not found is reported in words that say so.
pub proof fn law_missing_pane_is_recognised(output: TextModel, context: Seq<char>)
    requires
        !output.success,
        pane_not_found(trim_spec(output.stderr)),
    ensures
        pane_not_found(failure_text(output, context)),
{
    law_failure_quotes_zellij(output, context);
    let whole = failure_text(output, context);
    let stderr = trim_spec(output.stderr);
    let at = choose|at: int| occurs_at(whole, stderr, at);
    lemma_contains_part(whole, stderr, at, "Pane with id"@);
    lemma_contains_part(whole, stderr, at, "not found"@);
}

} // verus!

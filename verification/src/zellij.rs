//! The zellij command line: the arguments of each action, and the tasks that take several
//! runs.
use crate::command::{
    captured, is_pane_not_found, pane_not_found, run_capturing, Run, RunModel, Step, StepModel,
};
use crate::number::{decimal, decimal_spec};
use crate::panes::{listing_shows, owned, pane_is_listed, pane_named, parse_pane_id};
use crate::schema::outcome;
use crate::text::{trim, trim_spec};
use vstd::prelude::*;

verus! {

/// The arguments that pin a command to a named session, if one is named.
pub open spec fn session_args(session: Option<Seq<char>>) -> Seq<Seq<char>> {
    match session {
        Some(name) => seq!["--session"@, name],
        None => seq![],
    }
}

/// The arguments that list the panes as JSON.
pub open spec fn list_panes_args(session: Option<Seq<char>>) -> Seq<Seq<char>> {
    session_args(session) + seq!["action"@, "list-panes"@, "-j"@, "-a"@]
}

/// The arguments that list the sessions.
pub open spec fn list_sessions_args() -> Seq<Seq<char>> {
    seq!["list-sessions"@, "-n"@]
}

/// The arguments that move the focus to a pane.
pub open spec fn focus_args(session: Option<Seq<char>>, pane_id: Seq<char>) -> Seq<Seq<char>> {
    session_args(session) + seq!["action"@, "focus-pane-id"@, pane_id]
}

/// The arguments that resize a pane.
pub open spec fn resize_args(
    session: Option<Seq<char>>,
    pane_id: Seq<char>,
    direction: Seq<char>,
) -> Seq<Seq<char>> {
    session_args(session) + seq!["action"@, "resize"@, "--pane-id"@, pane_id, direction]
}

/// The arguments that type text into a pane.
pub open spec fn write_chars_args(
    session: Option<Seq<char>>,
    pane_id: Seq<char>,
    text: Seq<char>,
) -> Seq<Seq<char>> {
    session_args(session) + seq!["action"@, "write-chars"@, "--pane-id"@, pane_id, text]
}

/// The arguments that send one byte to a pane.
pub open spec fn write_byte_args(
    session: Option<Seq<char>>,
    pane_id: Seq<char>,
    byte: u8,
) -> Seq<Seq<char>> {
    session_args(session) + seq![
        "action"@,
        "write"@,
        "--pane-id"@,
        pane_id,
        decimal_spec(byte as nat),
    ]
}

/// The arguments that print what a pane shows, or with `full` its scrollback too.
pub open spec fn dump_screen_args(
    session: Option<Seq<char>>,
    pane_id: Seq<char>,
    full: bool,
) -> Seq<Seq<char>> {
    session_args(session) + seq!["action"@, "dump-screen"@, "--pane-id"@, pane_id] + (if full {
        seq!["--full"@]
    } else {
        seq![]
    })
}

/// The arguments that close a pane.
pub open spec fn close_pane_args(session: Option<Seq<char>>, pane_id: Seq<char>) -> Seq<
    Seq<char>,
> {
    session_args(session) + seq!["action"@, "close-pane"@, "--pane-id"@, pane_id]
}

/// The arguments of an option, if it has a value.
pub open spec fn option_args(option: Seq<char>, value: Option<Seq<char>>) -> Seq<Seq<char>> {
    match value {
        Some(value) => seq![option, value],
        None => seq![],
    }
}

/// The arguments that hand a command to a new pane; an empty command is none.
pub open spec fn command_args(command: Option<Seq<Seq<char>>>) -> Seq<Seq<char>> {
    match command {
        Some(argv) => if argv.len() > 0 {
            seq!["--"@] + argv
        } else {
            seq![]
        },
        None => seq![],
    }
}

/// The arguments that open the pane that `request` describes, split in `direction`.
pub open spec fn new_pane_args(request: RequestModel, direction: Option<Seq<char>>) -> Seq<
    Seq<char>,
> {
    session_args(request.session) + seq!["action"@, "new-pane"@, "--cwd"@, request.cwd]
        + option_args("--direction"@, direction) + (if request.floating {
        seq!["--floating"@]
    } else {
        seq![]
    }) + option_args("--name"@, request.name) + command_args(request.command)
}

/// Appends one argument.
fn push(args: &mut Vec<String>, arg: &str)
    ensures
        final(args).deep_view() == old(args).deep_view().push(arg@),
{
    args.push(arg.to_owned());
    assert(args.deep_view() =~= old(args).deep_view().push(arg@));
}

/// The text in an optional string.
pub(crate) fn as_text(s: &Option<String>) -> (r: Option<&str>)
    ensures
        r.deep_view() == s.deep_view(),
{
    match s {
        Some(s) => Some(s.as_str()),
        None => None,
    }
}

/// The arguments that pin a command to a named session, if one is named.
pub fn zellij(session: Option<&str>) -> (r: Vec<String>)
    ensures
        r.deep_view() == session_args(session.deep_view()),
{
    let mut args: Vec<String> = Vec::new();
    assert(args.deep_view() =~= seq![]);
    if let Some(name) = session {
        push(&mut args, "--session");
        push(&mut args, name);
    }
    assert(args.deep_view() =~= session_args(session.deep_view()));
    args
}

/// The arguments of `zellij action list-panes -j -a`, which prints the panes as JSON.
pub fn list_panes_json(session: Option<&str>) -> (r: Vec<String>)
    ensures
        r.deep_view() == list_panes_args(session.deep_view()),
{
    let mut args = zellij(session);
    push(&mut args, "action");
    push(&mut args, "list-panes");
    push(&mut args, "-j");
    push(&mut args, "-a");
    assert(args.deep_view() =~= list_panes_args(session.deep_view()));
    args
}

/// The arguments of `zellij list-sessions -n`, which prints the sessions without formatting.
pub fn list_sessions() -> (r: Vec<String>)
    ensures
        r.deep_view() == list_sessions_args(),
{
    let mut args = zellij(None);
    push(&mut args, "list-sessions");
    push(&mut args, "-n");
    assert(args.deep_view() =~= list_sessions_args());
    args
}

/// The arguments of `zellij action focus-pane-id <pane_id>`.
pub fn focus_pane_id(session: Option<&str>, pane_id: &str) -> (r: Vec<String>)
    ensures
        r.deep_view() == focus_args(session.deep_view(), pane_id@),
{
    let mut args = zellij(session);
    push(&mut args, "action");
    push(&mut args, "focus-pane-id");
    push(&mut args, pane_id);
    assert(args.deep_view() =~= focus_args(session.deep_view(), pane_id@));
    args
}

/// The arguments of `zellij action resize --pane-id <pane_id> <increase|decrease>`.
fn resize_command(session: Option<&str>, pane_id: &str, direction: &str) -> (r: Vec<String>)
    ensures
        r.deep_view() == resize_args(session.deep_view(), pane_id@, direction@),
{
    let mut args = zellij(session);
    push(&mut args, "action");
    push(&mut args, "resize");
    push(&mut args, "--pane-id");
    push(&mut args, pane_id);
    push(&mut args, direction);
    assert(args.deep_view() =~= resize_args(session.deep_view(), pane_id@, direction@));
    args
}

/// The arguments of `zellij action write-chars --pane-id <pane_id> <text>`.
pub fn write_chars(session: Option<&str>, pane_id: &str, text: &str) -> (r: Vec<String>)
    ensures
        r.deep_view() == write_chars_args(session.deep_view(), pane_id@, text@),
{
    let mut args = zellij(session);
    push(&mut args, "action");
    push(&mut args, "write-chars");
    push(&mut args, "--pane-id");
    push(&mut args, pane_id);
    push(&mut args, text);
    assert(args.deep_view() =~= write_chars_args(session.deep_view(), pane_id@, text@));
    args
}

/// The arguments of `zellij action write --pane-id <pane_id> <byte>`, which sends one byte.
pub fn write_byte(session: Option<&str>, pane_id: &str, byte: u8) -> (r: Vec<String>)
    ensures
        r.deep_view() == write_byte_args(session.deep_view(), pane_id@, byte),
{
    let mut args = zellij(session);
    push(&mut args, "action");
    push(&mut args, "write");
    push(&mut args, "--pane-id");
    push(&mut args, pane_id);
    push(&mut args, decimal(byte as u64).as_str());
    assert(args.deep_view() =~= write_byte_args(session.deep_view(), pane_id@, byte));
    args
}

/// The arguments of `zellij action dump-screen --pane-id <pane_id>`, which prints what the
/// pane shows, or with `full` its scrollback too.
pub fn dump_screen(session: Option<&str>, pane_id: &str, full: bool) -> (r: Vec<String>)
    ensures
        r.deep_view() == dump_screen_args(session.deep_view(), pane_id@, full),
{
    let mut args = zellij(session);
    push(&mut args, "action");
    push(&mut args, "dump-screen");
    push(&mut args, "--pane-id");
    push(&mut args, pane_id);
    if full {
        push(&mut args, "--full");
    }
    assert(args.deep_view() =~= dump_screen_args(session.deep_view(), pane_id@, full));
    args
}

/// The arguments of `zellij action close-pane --pane-id <pane_id>`.
pub fn close_pane(session: Option<&str>, pane_id: &str) -> (r: Vec<String>)
    ensures
        r.deep_view() == close_pane_args(session.deep_view(), pane_id@),
{
    let mut args = zellij(session);
    push(&mut args, "action");
    push(&mut args, "close-pane");
    push(&mut args, "--pane-id");
    push(&mut args, pane_id);
    assert(args.deep_view() =~= close_pane_args(session.deep_view(), pane_id@));
    args
}

/// A pane to open.
#[derive(Debug)]
pub struct PaneRequest {
    pub session: Option<String>,
    pub cwd: String,
    pub direction: Option<String>,
    pub floating: bool,
    pub name: Option<String>,
    pub command: Option<Vec<String>>,
}

/// What a [`PaneRequest`] says.
#[verifier::ext_equal]
pub struct RequestModel {
    pub session: Option<Seq<char>>,
    pub cwd: Seq<char>,
    pub direction: Option<Seq<char>>,
    pub floating: bool,
    pub name: Option<Seq<char>>,
    pub command: Option<Seq<Seq<char>>>,
}

impl DeepView for PaneRequest {
    type V = RequestModel;

    open spec fn deep_view(&self) -> RequestModel {
        RequestModel {
            session: self.session.deep_view(),
            cwd: self.cwd@,
            direction: self.direction.deep_view(),
            floating: self.floating,
            name: self.name.deep_view(),
            command: self.command.deep_view(),
        }
    }
}

/// The arguments of `zellij action new-pane`.
fn new_pane_command(request: &PaneRequest, direction: Option<&str>) -> (r: Vec<String>)
    ensures
        r.deep_view() == new_pane_args(request.deep_view(), direction.deep_view()),
{
    let ghost model = request.deep_view();
    let mut args = zellij(as_text(&request.session));
    push(&mut args, "action");
    push(&mut args, "new-pane");
    push(&mut args, "--cwd");
    push(&mut args, request.cwd.as_str());
    if let Some(direction) = direction {
        push(&mut args, "--direction");
        push(&mut args, direction);
    }
    assert(args.deep_view() =~= session_args(model.session) + seq![
        "action"@,
        "new-pane"@,
        "--cwd"@,
        model.cwd,
    ] + option_args("--direction"@, direction.deep_view()));
    if request.floating {
        push(&mut args, "--floating");
    }
    if let Some(name) = as_text(&request.name) {
        push(&mut args, "--name");
        push(&mut args, name);
    }
    let ghost before = args.deep_view();
    assert(before + command_args(model.command) =~= new_pane_args(model, direction.deep_view()));
    if let Some(argv) = &request.command {
        if argv.len() > 0 {
            push(&mut args, "--");
            let mut i: usize = 0;
            assert(args.deep_view() =~= before + (seq!["--"@] + argv.deep_view().take(0)));
            while i < argv.len()
                invariant
                    i <= argv.len(),
                    args.deep_view() == before + (seq!["--"@] + argv.deep_view().take(i as int)),
                decreases argv.len() - i,
            {
                push(&mut args, argv[i].as_str());
                assert(args.deep_view() =~= before + (seq!["--"@] + argv.deep_view().take(i + 1)));
                i = i + 1;
            }
            assert(argv.deep_view().take(i as int) =~= argv.deep_view());
        }
    }
    assert(args.deep_view() =~= before + command_args(model.command));
    args
}

/// How long to wait after the failure number `failures`, counted from zero: 20 milliseconds,
/// and twice as long each time.
pub open spec fn retry_delay(failures: int) -> int
    decreases failures,
{
    if failures <= 0 {
        20
    } else {
        2 * retry_delay(failures - 1)
    }
}

/// How long to wait after the failure number `failures`.
fn delay_after(failures: u8) -> (r: u64)
    requires
        failures <= 4,
    ensures
        r == retry_delay(failures as int),
{
    proof {
        reveal_with_fuel(retry_delay, 6);
    }
    match failures {
        0 => 20,
        1 => 40,
        2 => 80,
        3 => 160,
        _ => 320,
    }
}

/// The wait for a pane to appear in the listing.
#[derive(Debug)]
pub struct PaneWait {
    session: Option<String>,
    target: (bool, u64),
    failures: u8,
}

/// What a [`PaneWait`] says.
#[verifier::ext_equal]
pub struct WaitModel {
    /// The session whose panes are listed.
    pub session: Option<Seq<char>>,
    /// The pane that is waited for.
    pub target: (bool, u64),
    /// How many listings have not shown it.
    pub failures: int,
}

impl DeepView for PaneWait {
    type V = WaitModel;

    closed spec fn deep_view(&self) -> WaitModel {
        WaitModel {
            session: self.session.deep_view(),
            target: self.target,
            failures: self.failures as int,
        }
    }
}

/// How many listings are asked for again.
pub open spec fn listing_retries() -> int {
    5
}

/// The first step of a wait: an id that names no pane is an error, any other is looked for.
pub open spec fn wait_start(session: Option<Seq<char>>, pane_id: Seq<char>) -> StepModel<
    WaitModel,
    bool,
> {
    match pane_named(pane_id) {
        None => StepModel::Done(Err("invalid pane id `"@ + pane_id + "`"@)),
        Some(target) => StepModel::Run {
            delay_ms: 0,
            args: list_panes_args(session),
            state: WaitModel { session, target, failures: 0 },
        },
    }
}

/// Whether a run of `zellij action list-panes` shows the pane `target`.
pub open spec fn listed_by(run: RunModel, target: (bool, u64)) -> Result<bool, Seq<char>> {
    match captured(run, "action list-panes"@) {
        Err(e) => Err(e),
        Ok(raw) => listing_shows(raw, target),
    }
}

/// The step of a wait after one listing. A pane that is not listed yet is looked for again.
pub open spec fn wait_next(state: WaitModel, run: RunModel) -> StepModel<WaitModel, bool> {
    let listed = listed_by(run, state.target);
    if listed == Ok::<bool, Seq<char>>(false) && state.failures < listing_retries() {
        StepModel::Run {
            delay_ms: retry_delay(state.failures),
            args: list_panes_args(state.session),
            state: WaitModel { failures: state.failures + 1, ..state },
        }
    } else {
        StepModel::Done(listed)
    }
}

/// Starts to wait until the listing shows the pane that `pane_id` names.
pub fn wait_for_listed_pane(session: Option<&str>, pane_id: &str) -> (r: Step<PaneWait, bool>)
    ensures
        r.deep_view() == wait_start(session.deep_view(), pane_id@),
{
    match parse_pane_id(pane_id) {
        None => {
            let mut message = "invalid pane id `".to_owned();
            message.append(pane_id);
            message.append("`");
            Step::Done(Err(message))
        },
        Some(target) => Step::Run {
            delay_ms: 0,
            args: list_panes_json(session),
            state: PaneWait { session: owned(session), target, failures: 0 },
        },
    }
}

impl PaneWait {
    /// Goes on with what a listing printed. After six listings without the pane the wait is
    /// over.
    pub fn resume(self, run: Run) -> (r: Step<PaneWait, bool>)
        ensures
            r.deep_view() == wait_next(self.deep_view(), outcome(run)),
    {
        let raw = match run_capturing(&run, "action list-panes") {
            Ok(raw) => raw,
            Err(e) => {
                return Step::Done(Err(e));
            },
        };
        match pane_is_listed(raw.as_str(), self.target) {
            Err(e) => Step::Done(Err(e)),
            Ok(found) => if found || self.failures >= 5 {
                Step::Done(Ok(found))
            } else {
                Step::Run {
                    delay_ms: delay_after(self.failures),
                    args: list_panes_json(as_text(&self.session)),
                    state: PaneWait {
                        session: self.session,
                        target: self.target,
                        failures: self.failures + 1,
                    },
                }
            },
        }
    }
}

/// The opening of a pane that has to appear in the listing before its id is handed out.
#[derive(Debug)]
pub struct NewPane {
    request: PaneRequest,
    directed: Option<String>,
    opened: Option<(String, PaneWait)>,
}

/// What a [`NewPane`] says.
#[verifier::ext_equal]
pub struct NewPaneModel {
    /// The pane to open.
    pub request: RequestModel,
    /// The id that the split in the requested direction returned, once that pane has not
    /// appeared and another is opened without a direction.
    pub directed: Option<Seq<char>>,
    /// The id that zellij returned and the wait for that pane, once it has returned one.
    pub opened: Option<(Seq<char>, WaitModel)>,
}

impl DeepView for NewPane {
    type V = NewPaneModel;

    closed spec fn deep_view(&self) -> NewPaneModel {
        NewPaneModel {
            request: self.request.deep_view(),
            directed: self.directed.deep_view(),
            opened: match self.opened {
                Some((pane_id, wait)) => Some((pane_id@, wait.deep_view())),
                None => None,
            },
        }
    }
}

/// The id that a run of `zellij action new-pane` printed.
pub open spec fn opened_pane(run: RunModel) -> Result<Seq<char>, Seq<char>> {
    match captured(run, "action new-pane"@) {
        Err(e) => Err(e),
        Ok(stdout) => if trim_spec(stdout).len() == 0 {
            Err("zellij new-pane returned empty pane id"@)
        } else {
            Ok(trim_spec(stdout))
        },
    }
}

/// The words in which a pane is reported that was never listed.
pub open spec fn unlisted_text(directed: Option<Seq<char>>, pane_id: Seq<char>) -> Seq<char> {
    match directed {
        None => "zellij new-pane returned `"@ + pane_id
            + "`, but the pane did not appear in list-panes"@,
        Some(first) => "zellij new-pane returned `"@ + pane_id
            + "` after retrying without direction, but the pane did not appear in list-panes; directed spawn had returned `"@
            + first + "`"@,
    }
}

/// The first step of opening a pane.
pub open spec fn new_pane_start(request: RequestModel) -> StepModel<NewPaneModel, Seq<char>> {
    StepModel::Run {
        delay_ms: 0,
        args: new_pane_args(request, request.direction),
        state: NewPaneModel { request, directed: None, opened: None },
    }
}

/// The step of opening a pane that a step of the wait for it comes to.
pub open spec fn new_pane_waits(
    request: RequestModel,
    directed: Option<Seq<char>>,
    pane_id: Seq<char>,
    wait: StepModel<WaitModel, bool>,
) -> StepModel<NewPaneModel, Seq<char>> {
    match wait {
        StepModel::Run { delay_ms, args, state } => StepModel::Run {
            delay_ms,
            args,
            state: NewPaneModel { request, directed, opened: Some((pane_id, state)) },
        },
        StepModel::Done(Err(e)) => StepModel::Done(Err(e)),
        StepModel::Done(Ok(found)) => if found {
            StepModel::Done(Ok(pane_id))
        } else if request.direction is Some && directed is None {
            StepModel::Run {
                delay_ms: 0,
                args: new_pane_args(request, None),
                state: NewPaneModel { request, directed: Some(pane_id), opened: None },
            }
        } else {
            StepModel::Done(Err(unlisted_text(directed, pane_id)))
        },
    }
}

/// The step of opening a pane after one run.
pub open spec fn new_pane_next(state: NewPaneModel, run: RunModel) -> StepModel<
    NewPaneModel,
    Seq<char>,
> {
    match state.opened {
        None => match opened_pane(run) {
            Err(e) => StepModel::Done(Err(e)),
            Ok(pane_id) => new_pane_waits(
                state.request,
                state.directed,
                pane_id,
                wait_start(state.request.session, pane_id),
            ),
        },
        Some((pane_id, wait)) => new_pane_waits(
            state.request,
            state.directed,
            pane_id,
            wait_next(wait, run),
        ),
    }
}

/// The id that a run of `zellij action new-pane` printed.
fn run_new_pane(run: &Run) -> (r: Result<String, String>)
    ensures
        outcome(r) == opened_pane(outcome(*run)),
{
    match run_capturing(run, "action new-pane") {
        Err(e) => Err(e),
        Ok(stdout) => {
            let pane_id = trim(stdout.as_str());
            if pane_id.is_empty() {
                Err("zellij new-pane returned empty pane id".to_owned())
            } else {
                Ok(pane_id.to_owned())
            }
        },
    }
}

/// The arguments of a command as strings of their own.
fn owned_args(command: Option<&[String]>) -> (r: Option<Vec<String>>)
    ensures
        r.deep_view() == command.deep_view(),
{
    match command {
        None => None,
        Some(argv) => {
            let mut out: Vec<String> = Vec::new();
            let mut i: usize = 0;
            assert(out.deep_view() =~= argv.deep_view().take(0));
            while i < argv.len()
                invariant
                    i <= argv.len(),
                    out.deep_view() == argv.deep_view().take(i as int),
                decreases argv.len() - i,
            {
                push(&mut out, argv[i].as_str());
                assert(out.deep_view() =~= argv.deep_view().take(i + 1));
                i = i + 1;
            }
            assert(argv.deep_view().take(i as int) =~= argv.deep_view());
            Some(out)
        },
    }
}

/// Starts `zellij action new-pane [--direction <dir>] [--floating] [--name <n>] [-- cmd...]`.
/// The task returns the id of the new pane as zellij printed it (e.g. `terminal_42`), once the
/// listing shows that pane.
pub fn new_pane(
    session: Option<&str>,
    cwd: &str,
    direction: Option<&str>,
    floating: bool,
    name: Option<&str>,
    command: Option<&[String]>,
) -> (r: Step<NewPane, String>)
    ensures
        r.deep_view() == new_pane_start(
            RequestModel {
                session: session.deep_view(),
                cwd: cwd@,
                direction: direction.deep_view(),
                floating,
                name: name.deep_view(),
                command: command.deep_view(),
            },
        ),
{
    open_pane(
        PaneRequest {
            session: owned(session),
            cwd: cwd.to_owned(),
            direction: owned(direction),
            floating,
            name: owned(name),
            command: owned_args(command),
        },
    )
}

/// Starts to open the pane that `request` describes.
pub fn open_pane(request: PaneRequest) -> (r: Step<NewPane, String>)
    ensures
        r.deep_view() == new_pane_start(request.deep_view()),
{
    Step::Run {
        delay_ms: 0,
        args: new_pane_command(&request, as_text(&request.direction)),
        state: NewPane { request, directed: None, opened: None },
    }
}

impl NewPane {
    /// Goes on with what a run came to.
    ///
    /// Zellij 0.44.1 can return an id for a directed split in a detached session without
    /// inserting an addressable pane. Its automatic placement does open one, so a pane is
    /// opened without a direction before an id is handed out that no later action could use.
    pub fn resume(self, run: Run) -> (r: Step<NewPane, String>)
        ensures
            r.deep_view() == new_pane_next(self.deep_view(), outcome(run)),
    {
        let NewPane { request, directed, opened } = self;
        match opened {
            None => match run_new_pane(&run) {
                Err(e) => Step::Done(Err(e)),
                Ok(pane_id) => {
                    let wait = wait_for_listed_pane(as_text(&request.session), pane_id.as_str());
                    NewPane::await_listing(request, directed, pane_id, wait)
                },
            },
            Some((pane_id, wait)) => NewPane::await_listing(
                request,
                directed,
                pane_id,
                wait.resume(run),
            ),
        }
    }

    /// Goes on with a step of the wait for the pane `pane_id`.
    fn await_listing(
        request: PaneRequest,
        directed: Option<String>,
        pane_id: String,
        wait: Step<PaneWait, bool>,
    ) -> (r: Step<NewPane, String>)
        ensures
            r.deep_view() == new_pane_waits(
                request.deep_view(),
                directed.deep_view(),
                pane_id@,
                wait.deep_view(),
            ),
    {
        match wait {
            Step::Run { delay_ms, args, state } => Step::Run {
                delay_ms,
                args,
                state: NewPane { request, directed, opened: Some((pane_id, state)) },
            },
            Step::Done(Err(e)) => Step::Done(Err(e)),
            Step::Done(Ok(found)) => {
                if found {
                    return Step::Done(Ok(pane_id));
                }
                match directed {
                    None => if request.direction.is_some() {
                        Step::Run {
                            delay_ms: 0,
                            args: new_pane_command(&request, None),
                            state: NewPane { request, directed: Some(pane_id), opened: None },
                        }
                    } else {
                        let mut message = "zellij new-pane returned `".to_owned();
                        message.append(pane_id.as_str());
                        message.append("`, but the pane did not appear in list-panes");
                        Step::Done(Err(message))
                    },
                    Some(first) => {
                        let mut message = "zellij new-pane returned `".to_owned();
                        message.append(pane_id.as_str());
                        message.append(
                            "` after retrying without direction, but the pane did not appear in list-panes; directed spawn had returned `",
                        );
                        message.append(first.as_str());
                        message.append("`");
                        Step::Done(Err(message))
                    },
                }
            },
        }
    }
}

/// The resizing of a pane.
#[derive(Debug)]
pub struct ResizePane {
    session: Option<String>,
    pane_id: String,
    direction: String,
    failures: u8,
}

/// What a [`ResizePane`] says.
#[verifier::ext_equal]
pub struct ResizeModel {
    pub session: Option<Seq<char>>,
    pub pane_id: Seq<char>,
    pub direction: Seq<char>,
    /// How often zellij has not known the pane.
    pub failures: int,
}

impl DeepView for ResizePane {
    type V = ResizeModel;

    closed spec fn deep_view(&self) -> ResizeModel {
        ResizeModel {
            session: self.session.deep_view(),
            pane_id: self.pane_id@,
            direction: self.direction@,
            failures: self.failures as int,
        }
    }
}

/// How often a resize is tried again.
pub open spec fn resize_retries() -> int {
    4
}

/// The run that a resize asks for.
pub open spec fn resize_run(state: ResizeModel, delay_ms: int) -> StepModel<ResizeModel, ()> {
    StepModel::Run {
        delay_ms,
        args: resize_args(state.session, state.pane_id, state.direction),
        state,
    }
}

/// The step of a resize after one run. A pane that zellij does not know yet is tried again.
pub open spec fn resize_next(state: ResizeModel, run: RunModel) -> StepModel<ResizeModel, ()> {
    match captured(run, "action resize"@) {
        Ok(_) => StepModel::Done(Ok(())),
        Err(e) => if pane_not_found(e) && state.failures < resize_retries() {
            resize_run(
                ResizeModel { failures: state.failures + 1, ..state },
                retry_delay(state.failures),
            )
        } else {
            StepModel::Done(Err(e))
        },
    }
}

/// Starts `zellij action resize --pane-id <pane_id> <increase|decrease>`.
pub fn resize_pane(session: Option<&str>, pane_id: &str, direction: &str) -> (r: Step<
    ResizePane,
    (),
>)
    ensures
        r.deep_view() == resize_run(
            ResizeModel {
                session: session.deep_view(),
                pane_id: pane_id@,
                direction: direction@,
                failures: 0,
            },
            0,
        ),
{
    Step::Run {
        delay_ms: 0,
        args: resize_command(session, pane_id, direction),
        state: ResizePane {
            session: owned(session),
            pane_id: pane_id.to_owned(),
            direction: direction.to_owned(),
            failures: 0,
        },
    }
}

impl ResizePane {
    /// Goes on with what a run came to.
    ///
    /// Zellij can print the id of a new pane before its resize action knows that pane. A short
    /// retry keeps a resize right after a spawn reliable, and a pane that is really missing is
    /// still reported in the words of zellij.
    pub fn resume(self, run: Run) -> (r: Step<ResizePane, ()>)
        ensures
            r.deep_view() == resize_next(self.deep_view(), outcome(run)),
    {
        match run_capturing(&run, "action resize") {
            Ok(_) => Step::Done(Ok(())),
            Err(e) => if self.failures < 4 && is_pane_not_found(e.as_str()) {
                Step::Run {
                    delay_ms: delay_after(self.failures),
                    args: resize_command(
                        as_text(&self.session),
                        self.pane_id.as_str(),
                        self.direction.as_str(),
                    ),
                    state: ResizePane {
                        session: self.session,
                        pane_id: self.pane_id,
                        direction: self.direction,
                        failures: self.failures + 1,
                    },
                }
            } else {
                Step::Done(Err(e))
            },
        }
    }
}

} // verus!

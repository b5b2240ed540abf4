use vstd::prelude::*;
use crate::affinity::Affinity;
use crate::priority::{Priority, class_of};

verus! {

/// The resolved command line: what to run and how to adjust it.
pub struct Params {
    pub executable: String,
    pub executable_parameters: Vec<String>,
    pub priority: Option<Priority>,
    pub affinity: Option<Affinity>,
    pub verbose: bool,
}

/// Why a launch ended before the program's own exit status could be relayed.
#[derive(Debug, Clone, Copy, PartialEq, Eq, Structural)]
pub enum Failure {
    /// A priority or affinity was asked for where the platform has neither.
    Unsupported,
    Launch,
    OpenHandle,
    SetAffinity,
    SetPriority,
    Wait,
}

/// The exit status of this tool after any failure of its own.
pub const FAILURE_EXIT_CODE: i32 = 1;

/// What the driver is to do next.
#[derive(Debug, Clone, Copy, PartialEq, Eq, Structural)]
pub enum Action {
    /// Print the resolved parameters.
    ShowParams,
    /// Start the program as a child process.
    Launch,
    /// Print the child's process id.
    ShowPid(u32),
    /// Open a handle to the child that may set its scheduling attributes.
    OpenHandle(u32),
    /// Apply this affinity mask to the child.
    SetAffinity(usize),
    /// Apply this OS priority class to the child.
    SetPriority(u32),
    /// Block until the child exits.
    Wait,
    /// Exit with this status; the launch is over.
    Exit(i32),
    /// Report this failure and exit with `FAILURE_EXIT_CODE`; the launch is over.
    Abort(Failure),
}

/// What came of the last action.
#[derive(Debug, Clone, Copy, PartialEq, Eq, Structural)]
pub enum Event {
    /// The action succeeded.
    Done,
    /// The child was started with this process id.
    Launched(u32),
    /// The child exited, with its exit code when it has one.
    Exited(Option<i32>),
    /// The action failed.
    Failed,
}

/// The exit status relayed for a child that ended with `code`: the code
/// itself, or 1 when the child has none (killed by a signal, say).
pub open spec fn relayed_code(code: Option<i32>) -> i32 {
    match code {
        Some(c) => c,
        None => 1,
    }
}

/// The single action `a` when `b` holds, else nothing.
pub open spec fn step_if(b: bool, a: Action) -> Seq<Action> {
    if b {
        seq![a]
    } else {
        seq![]
    }
}

/// Every action of a launch that goes well, in order: show the parameters
/// (verbose), launch, show the pid (verbose), open a handle (where the
/// platform has scheduling attributes), set the affinity, set the priority
/// (each when asked for), wait.
pub open spec fn plan(
    verbose: bool,
    supported: bool,
    affinity: Option<usize>,
    priority: Option<Priority>,
    pid: u32,
) -> Seq<Action> {
    step_if(verbose, Action::ShowParams)
        + seq![Action::Launch]
        + step_if(verbose, Action::ShowPid(pid))
        + step_if(supported, Action::OpenHandle(pid))
        + step_if(affinity is Some, Action::SetAffinity(affinity->Some_0))
        + step_if(priority is Some, Action::SetPriority(class_of(priority->Some_0)))
        + seq![Action::Wait]
}

/// The abstract state of a launch.
pub ghost struct SessionModel {
    pub verbose: bool,
    /// The platform can set priority classes and affinity masks.
    pub supported: bool,
    pub affinity: Option<usize>,
    pub priority: Option<Priority>,
    /// The child's process id, once launched.
    pub pid: u32,
    /// Index in `steps` of the pending action.
    pub pos: nat,
    /// The final action, once the launch is over.
    pub end: Option<Action>,
}

pub open spec fn steps(m: SessionModel) -> Seq<Action> {
    plan(m.verbose, m.supported, m.affinity, m.priority, m.pid)
}

pub open spec fn pending(m: SessionModel) -> Action {
    match m.end {
        Some(a) => a,
        None => steps(m)[m.pos as int],
    }
}

/// The failure reported when action `a` does not succeed.
pub open spec fn failure_of(a: Action) -> Failure {
    match a {
        Action::OpenHandle(_) => Failure::OpenHandle,
        Action::SetAffinity(_) => Failure::SetAffinity,
        Action::SetPriority(_) => Failure::SetPriority,
        Action::Wait => Failure::Wait,
        _ => Failure::Launch,
    }
}

/// The state after event `e` answers the pending action of `m`. Showing
/// cannot fail; every other action is done only on the event that reports
/// its success, and any other event ends the launch with its failure.
pub open spec fn next(m: SessionModel, e: Event) -> SessionModel {
    if m.end is Some {
        m
    } else {
        let a = steps(m)[m.pos as int];
        let forward = SessionModel { pos: m.pos + 1, ..m };
        let fail = SessionModel { end: Some(Action::Abort(failure_of(a))), ..m };
        match a {
            Action::ShowParams | Action::ShowPid(_) => forward,
            Action::Launch => match e {
                Event::Launched(pid) => SessionModel { pid, pos: m.pos + 1, ..m },
                _ => fail,
            },
            Action::Wait => match e {
                Event::Exited(code) => SessionModel {
                    end: Some(Action::Exit(relayed_code(code))),
                    ..m
                },
                _ => fail,
            },
            _ => match e {
                Event::Done => forward,
                _ => fail,
            },
        }
    }
}

/// The state of a fresh launch of `params`.
pub open spec fn initial(params: Params, supported: bool) -> SessionModel {
    SessionModel {
        verbose: params.verbose,
        supported,
        affinity: match params.affinity {
            Some(a) => Some(a.0),
            None => None,
        },
        priority: params.priority,
        pid: 0,
        pos: 0,
        end: if !supported && (params.affinity is Some || params.priority is Some) {
            Some(Action::Abort(Failure::Unsupported))
        } else {
            None
        },
    }
}

/// The state after `events` answer one pending action each, in order.
pub open spec fn after(m: SessionModel, events: Seq<Event>) -> SessionModel
    decreases events.len(),
{
    if events.len() == 0 {
        m
    } else {
        next(after(m, events.drop_last()), events.last())
    }
}

/// The event that reports success of action `a` in a launch whose child
/// gets id `pid` and ends with `code`.
pub open spec fn success_of(a: Action, pid: u32, code: Option<i32>) -> Event {
    match a {
        Action::Launch => Event::Launched(pid),
        Action::Wait => Event::Exited(code),
        _ => Event::Done,
    }
}

/// The actions of a plan that come after the launch.
pub open spec fn child_steps(
    verbose: bool,
    supported: bool,
    affinity: Option<usize>,
    priority: Option<Priority>,
    pid: u32,
) -> Seq<Action> {
    step_if(verbose, Action::ShowPid(pid))
        + step_if(supported, Action::OpenHandle(pid))
        + step_if(affinity is Some, Action::SetAffinity(affinity->Some_0))
        + step_if(priority is Some, Action::SetPriority(class_of(priority->Some_0)))
        + seq![Action::Wait]
}

/// A step that works on the child once it runs.
pub open spec fn is_child_work(a: Action) -> bool {
    a is OpenHandle || a is SetAffinity || a is SetPriority || a is Wait
}

/// A launch in progress: hands out one action at a time and takes back what
/// came of it.
pub struct Session {
    verbose: bool,
    supported: bool,
    affinity: Option<usize>,
    priority: Option<Priority>,
    pid: u32,
    pos: usize,
    end: Option<Action>,
}

impl View for Session {
    type V = SessionModel;

    closed spec fn view(&self) -> SessionModel {
        SessionModel {
            verbose: self.verbose,
            supported: self.supported,
            affinity: self.affinity,
            priority: self.priority,
            pid: self.pid,
            pos: self.pos as nat,
            end: self.end,
        }
    }
}

impl Session {
    /// The pending action is a step of the plan, or the launch is over.
    pub open spec fn wf(&self) -> bool {
        match self@.end {
            Some(a) => a is Exit || a is Abort,
            None => self@.pos < steps(self@).len(),
        }
    }

    /// A launch of `params`; `supported` tells whether the platform can set
    /// priority classes and affinity masks. Where it cannot and either was
    /// asked for, the launch is over before any process starts.
    pub fn new(params: &Params, supported: bool) -> (r: Session)
        ensures
            r.wf(),
            r@ == initial(*params, supported),
    {
        let affinity = match params.affinity {
            Some(a) => Some(a.mask()),
            None => None,
        };
        let end = if !supported && (params.affinity.is_some() || params.priority.is_some()) {
            Some(Action::Abort(Failure::Unsupported))
        } else {
            None
        };
        Session {
            verbose: params.verbose,
            supported,
            affinity,
            priority: params.priority,
            pid: 0,
            pos: 0,
            end,
        }
    }

    fn steps(&self) -> (r: Vec<Action>)
        ensures
            r@ == steps(self@),
    {
        let mut v: Vec<Action> = Vec::new();
        if self.verbose {
            v.push(Action::ShowParams);
        }
        v.push(Action::Launch);
        if self.verbose {
            v.push(Action::ShowPid(self.pid));
        }
        if self.supported {
            v.push(Action::OpenHandle(self.pid));
        }
        if let Some(m) = self.affinity {
            v.push(Action::SetAffinity(m));
        }
        if let Some(p) = self.priority {
            v.push(Action::SetPriority(p.class()));
        }
        v.push(Action::Wait);
        assert(v@ =~= steps(self@));
        v
    }

    /// The action the driver is to perform now.
    pub fn pending(&self) -> (r: Action)
        requires
            self.wf(),
        ensures
            r == pending(self@),
    {
        match self.end {
            Some(a) => a,
            None => {
                let s = self.steps();
                s[self.pos]
            },
        }
    }

    /// Takes what came of the pending action and returns the next one.
    pub fn advance(&mut self, e: Event) -> (r: Action)
        requires
            old(self).wf(),
        ensures
            final(self).wf(),
            final(self)@ == next(old(self)@, e),
            r == pending(final(self)@),
    {
        if self.end.is_none() {
            let a = self.steps()[self.pos];
            let failed = Some(Action::Abort(a.failure()));
            match a {
                Action::ShowParams | Action::ShowPid(_) => {
                    self.pos = self.pos + 1;
                },
                Action::Launch => match e {
                    Event::Launched(pid) => {
                        self.pid = pid;
                        self.pos = self.pos + 1;
                    },
                    _ => {
                        self.end = failed;
                    },
                },
                Action::Wait => match e {
                    Event::Exited(code) => {
                        self.end = Some(Action::Exit(relayed_exit_code(code)));
                    },
                    _ => {
                        self.end = failed;
                    },
                },
                _ => match e {
                    Event::Done => {
                        self.pos = self.pos + 1;
                    },
                    _ => {
                        self.end = failed;
                    },
                },
            }
        }
        self.pending()
    }
}

impl Action {
    /// The failure reported when this action does not succeed.
    pub fn failure(self) -> (r: Failure)
        ensures
            r == failure_of(self),
    {
        match self {
            Action::OpenHandle(_) => Failure::OpenHandle,
            Action::SetAffinity(_) => Failure::SetAffinity,
            Action::SetPriority(_) => Failure::SetPriority,
            Action::Wait => Failure::Wait,
            _ => Failure::Launch,
        }
    }
}

/// The exit status relayed for a child that ended with `code`.
pub fn relayed_exit_code(code: Option<i32>) -> (r: i32)
    ensures
        r == relayed_code(code),
{
    match code {
        Some(c) => c,
        None => 1,
    }
}

/// With verbose output, the parameters are shown before the launch and the
/// child's id right after it, before any work on the child begins.
pub proof fn lemma_verbose_output_first(
    supported: bool,
    affinity: Option<usize>,
    priority: Option<Priority>,
    pid: u32,
)
    ensures
        ({
            let s = plan(true, supported, affinity, priority, pid);
            &&& s[0] == Action::ShowParams
            &&& s[1] == Action::Launch
            &&& s[2] == Action::ShowPid(pid)
            &&& forall|i: int| 0 <= i < s.len() && is_child_work(#[trigger] s[i]) ==> i > 2
        }),
{
    let s = plan(true, supported, affinity, priority, pid);
    let rest = step_if(supported, Action::OpenHandle(pid)) + step_if(
        affinity is Some,
        Action::SetAffinity(affinity->Some_0),
    ) + step_if(priority is Some, Action::SetPriority(class_of(priority->Some_0))) + seq![
        Action::Wait,
    ];
    assert(s =~= seq![Action::ShowParams, Action::Launch, Action::ShowPid(pid)] + rest);
}

/// The child is launched before any work on it, the affinity is set before
/// the priority, and the wait comes last.
pub proof fn lemma_plan_order(
    verbose: bool,
    supported: bool,
    affinity: Option<usize>,
    priority: Option<Priority>,
    pid: u32,
)
    ensures
        ({
            let s = plan(verbose, supported, affinity, priority, pid);
            &&& s.last() == Action::Wait
            &&& forall|i: int, j: int|
                0 <= i < s.len() && 0 <= j < s.len() && #[trigger] s[i] == Action::Launch
                    && is_child_work(#[trigger] s[j]) ==> i < j
            &&& forall|i: int, j: int|
                0 <= i < s.len() && 0 <= j < s.len() && (#[trigger] s[i]) is SetAffinity
                    && (#[trigger] s[j]) is SetPriority ==> i < j
        }),
{
    let s = plan(verbose, supported, affinity, priority, pid);
    let head = step_if(verbose, Action::ShowParams) + seq![Action::Launch] + step_if(
        verbose,
        Action::ShowPid(pid),
    );
    let tail = step_if(supported, Action::OpenHandle(pid)) + step_if(
        affinity is Some,
        Action::SetAffinity(affinity->Some_0),
    ) + step_if(priority is Some, Action::SetPriority(class_of(priority->Some_0)));
    assert(s =~= head + tail + seq![Action::Wait]);
    assert forall|i: int, j: int|
        0 <= i < s.len() && 0 <= j < s.len() && #[trigger] s[i] == Action::Launch
            && is_child_work(#[trigger] s[j]) implies i < j by {
        assert(i < head.len());
        assert(j >= head.len());
    }
}

/// A launch that is over stays over, whatever events follow.
pub proof fn lemma_end_is_final(m: SessionModel, events: Seq<Event>)
    requires
        m.end is Some,
    ensures
        after(m, events) == m,
    decreases events.len(),
{
    if events.len() > 0 {
        lemma_end_is_final(m, events.drop_last());
    }
}

/// When the program cannot be started, the launch aborts with that failure
/// and never waits, whatever events follow.
pub proof fn lemma_failed_launch_never_waits(m: SessionModel, e: Event, events: Seq<Event>)
    requires
        m.end is None,
        pending(m) == Action::Launch,
        !(e is Launched),
    ensures
        pending(after(next(m, e), events)) == Action::Abort(Failure::Launch),
{
    lemma_end_is_final(next(m, e), events);
}

/// Once the child exits, the launch ends with its exit code, or with 1
/// when it has none.
pub proof fn lemma_exit_code_relayed(m: SessionModel, code: Option<i32>)
    requires
        m.end is None,
        pending(m) == Action::Wait,
    ensures
        pending(next(m, Event::Exited(code))) == Action::Exit(relayed_code(code)),
        code matches Some(c) ==> pending(next(m, Event::Exited(code))) == Action::Exit(c),
        code is None ==> pending(next(m, Event::Exited(code))) == Action::Exit(1),
{
}

/// Two launches of the same parameters that see the same events end with
/// the same action: nothing carries over from one launch to the next.
pub proof fn lemma_relaunch_agrees(
    first: Params,
    second: Params,
    supported: bool,
    events: Seq<Event>,
)
    requires
        first.verbose == second.verbose,
        first.affinity == second.affinity,
        first.priority == second.priority,
    ensures
        pending(after(initial(first, supported), events)) == pending(
            after(initial(second, supported), events),
        ),
{
    assert(initial(first, supported) == initial(second, supported));
}

proof fn lemma_plan_split(
    verbose: bool,
    supported: bool,
    affinity: Option<usize>,
    priority: Option<Priority>,
    pid: u32,
)
    ensures
        plan(verbose, supported, affinity, priority, pid) =~= step_if(verbose, Action::ShowParams)
            + seq![Action::Launch] + child_steps(verbose, supported, affinity, priority, pid),
        ({
            let c = child_steps(verbose, supported, affinity, priority, pid);
            &&& c.len() == child_steps(verbose, supported, affinity, priority, 0).len()
            &&& c.last() == Action::Wait
            &&& forall|i: int| 0 <= i < c.len() ==> !(#[trigger] c[i] is Launch)
            &&& forall|i: int| 0 <= i < c.len() - 1 ==> !(#[trigger] c[i] is Wait)
        }),
{
    let c = child_steps(verbose, supported, affinity, priority, pid);
    let body = step_if(verbose, Action::ShowPid(pid))
        + step_if(supported, Action::OpenHandle(pid))
        + step_if(affinity is Some, Action::SetAffinity(affinity->Some_0))
        + step_if(priority is Some, Action::SetPriority(class_of(priority->Some_0)));
    assert(c =~= body + seq![Action::Wait]);
    assert forall|i: int| 0 <= i < c.len() - 1 implies !(#[trigger] c[i] is Wait) by {
        assert(c[i] == body[i]);
    }
}

proof fn lemma_success_prefix(m: SessionModel, pid: u32, code: Option<i32>, k: nat)
    requires
        m.end is None,
        m.pos == 0,
        m.pid == 0,
        k < steps(SessionModel { pid, ..m }).len(),
    ensures
        ({
            let s = steps(SessionModel { pid, ..m });
            let events = s.map_values(|a: Action| success_of(a, pid, code));
            let launch: nat = if m.verbose { 1 } else { 0 };
            after(m, events.take(k as int)) == SessionModel {
                pid: if k > launch { pid } else { 0 },
                pos: k,
                ..m
            }
        }),
    decreases k,
{
    let s = steps(SessionModel { pid, ..m });
    let events = s.map_values(|a: Action| success_of(a, pid, code));
    let launch: nat = if m.verbose { 1 } else { 0 };
    lemma_plan_split(m.verbose, m.supported, m.affinity, m.priority, pid);
    lemma_plan_split(m.verbose, m.supported, m.affinity, m.priority, 0);
    if k > 0 {
        lemma_success_prefix(m, pid, code, (k - 1) as nat);
        let prev = after(m, events.take(k - 1));
        assert(events.take(k as int).drop_last() =~= events.take(k - 1));
        let j = k - 1;
        let c = child_steps(m.verbose, m.supported, m.affinity, m.priority, pid);
        if j < launch {
            assert(steps(prev)[j] == Action::ShowParams);
            assert(s[j] == Action::ShowParams);
        } else if j == launch {
            assert(steps(prev)[j] == Action::Launch);
            assert(s[j] == Action::Launch);
        } else {
            assert(prev.pid == pid);
            assert(steps(prev) == s);
            assert(s[j] == c[j - launch - 1]);
        }
    }
}

/// A launch in which every step succeeds hands out its plan in order, then
/// ends with the child's exit code, or with 1 when the child has none.
pub proof fn lemma_successful_launch(
    params: Params,
    supported: bool,
    pid: u32,
    code: Option<i32>,
)
    requires
        initial(params, supported).end is None,
    ensures
        ({
            let m = initial(params, supported);
            let s = steps(SessionModel { pid, ..m });
            let events = s.map_values(|a: Action| success_of(a, pid, code));
            &&& forall|k: int| 0 <= k < s.len() ==> pending(#[trigger] after(m, events.take(k))) == s[k]
            &&& pending(after(m, events)) == Action::Exit(relayed_code(code))
        }),
{
    let m = initial(params, supported);
    let s = steps(SessionModel { pid, ..m });
    let events = s.map_values(|a: Action| success_of(a, pid, code));
    let launch: nat = if m.verbose { 1 } else { 0 };
    lemma_plan_split(m.verbose, m.supported, m.affinity, m.priority, pid);
    lemma_plan_split(m.verbose, m.supported, m.affinity, m.priority, 0);
    assert forall|k: int| 0 <= k < s.len() implies pending(#[trigger] after(m, events.take(k))) == s[k] by {
        lemma_success_prefix(m, pid, code, k as nat);
        let cur = after(m, events.take(k));
        if k > launch {
            assert(steps(cur) == s);
        }
    }
    let last = s.len() - 1;
    lemma_success_prefix(m, pid, code, last as nat);
    assert(events =~= events.take(s.len() as int));
    assert(events.drop_last() =~= events.take(last));
    let prev = after(m, events.take(last));
    assert(steps(prev) == s);
    assert(s[last] == Action::Wait);
}

} // verus!

//! The provisioning flow as a state machine. The caller performs each
//! [`Action`] (a filesystem call or a prompt) and reports what happened as an
//! [`Event`]; [`Provisioner::step`] decides what comes next.

use vstd::prelude::*;

use crate::naming::{plan_names, plan_spec};

verus! {

/// How a provisioning run ended.
#[derive(Clone, Copy, Debug, PartialEq, Eq, Structural)]
pub enum Outcome {
    /// The base directory was missing and has been created; nothing else
    /// was done in this run.
    BaseCreated,
    /// The base directory was missing and creating it failed.
    BaseCreateFailed,
    /// The user declined to create the missing base directory, or declined
    /// to clear the existing one.
    Declined,
    /// Removing the base directory's contents failed.
    RemoveFailed,
    /// The base directory was removed but recreating it failed.
    RecreateFailed,
    /// Every child directory was attempted; which ones were created is
    /// recorded per child.
    Completed,
}

/// Where the provisioning flow stands.
#[derive(Clone, Copy, Debug, PartialEq, Eq, Structural)]
pub enum Phase {
    /// Waiting to learn whether the base directory exists.
    Start,
    /// The base directory is missing; waiting for the answer to "create it?".
    ConfirmCreate,
    /// Waiting for the base directory, with its ancestors, to be created.
    CreatingBase,
    /// Waiting for the answer to "clear the base directory?".
    ConfirmClear { base_is_cwd: bool },
    /// Waiting for the base directory to be removed with all it holds.
    Removing,
    /// Waiting for the removed base directory to be created again, empty.
    Recreating,
    /// Waiting for the child directory with this index to be created.
    CreatingChild(usize),
    /// The run is over.
    Finished(Outcome),
}

/// What the caller is to do next.
#[derive(Clone, Copy, Debug, PartialEq, Eq, Structural)]
pub enum Action {
    /// Find out whether the base directory exists, and whether it is the
    /// process's working directory.
    Probe,
    /// Say that the base directory is missing and ask whether to create it.
    AskCreate,
    /// Create the base directory, with any missing ancestors.
    CreateBase,
    /// Warn that everything in the base directory will be removed and ask
    /// whether that is fine; the warning is sharper when the base directory
    /// is the working directory.
    AskClear { base_is_cwd: bool },
    /// Remove the base directory with everything in it.
    RemoveBase,
    /// Create the base directory again.
    RecreateBase,
    /// Create the child directory with this index, directly under the base.
    CreateChild(usize),
    /// The last reply was neither yes nor no: say so and ask again.
    Reprompt,
    /// Nothing more to do.
    Stop(Outcome),
}

/// What the caller observed after carrying out an action.
#[derive(Clone, Copy, Debug, PartialEq, Eq, Structural)]
pub enum Event {
    /// Whether the base directory exists, and whether it is the working
    /// directory.
    Probed { exists: bool, is_cwd: bool },
    /// The reply to a question: `Some(true)` for yes, `Some(false)` for no,
    /// `None` for an unrecognized reply.
    Answered(Option<bool>),
    /// A filesystem action finished; `true` when it succeeded.
    Done(bool),
}

/// The abstract state of a provisioning run.
pub struct ProvisionerView {
    pub base_path: Seq<char>,
    pub clear_existing: bool,
    /// The names of the child directories, in the order they are created.
    pub children: Seq<Seq<char>>,
    pub phase: Phase,
    /// For each child attempted so far, in order, whether it was created.
    pub created: Seq<bool>,
}

/// The action that a phase waits on.
pub open spec fn action_of(p: Phase) -> Action {
    match p {
        Phase::Start => Action::Probe,
        Phase::ConfirmCreate => Action::AskCreate,
        Phase::CreatingBase => Action::CreateBase,
        Phase::ConfirmClear { base_is_cwd } => Action::AskClear { base_is_cwd },
        Phase::Removing => Action::RemoveBase,
        Phase::Recreating => Action::RecreateBase,
        Phase::CreatingChild(i) => Action::CreateChild(i),
        Phase::Finished(o) => Action::Stop(o),
    }
}

/// Whether an action touches the filesystem.
pub open spec fn is_fs_action(a: Action) -> bool {
    ||| a is CreateBase
    ||| a is RemoveBase
    ||| a is RecreateBase
    ||| a is CreateChild
}

/// The phase that follows child `i` of `n`: the next child, or the end.
pub open spec fn phase_after_child(i: int, n: int) -> Phase {
    if i + 1 < n {
        Phase::CreatingChild((i + 1) as usize)
    } else {
        Phase::Finished(Outcome::Completed)
    }
}

/// The phase in which child creation starts: the first child, or the end
/// when there are none.
pub open spec fn first_child_phase(n: int) -> Phase {
    phase_after_child(-1, n)
}

/// The state in which a run starts.
pub open spec fn initial_view(
    base_path: Seq<char>,
    names: Seq<Seq<char>>,
    clear_existing: bool,
    repeat_count: nat,
) -> ProvisionerView {
    ProvisionerView {
        base_path,
        clear_existing,
        children: plan_spec(names, repeat_count),
        phase: Phase::Start,
        created: seq![],
    }
}

/// The states that a run can be in.
pub open spec fn wf_view(v: ProvisionerView) -> bool {
    &&& v.children.len() <= usize::MAX
    &&& match v.phase {
        Phase::CreatingChild(i) => i < v.children.len() && v.created.len() == i,
        Phase::Finished(Outcome::Completed) => v.created.len() == v.children.len(),
        _ => v.created.len() == 0,
    }
}

/// The state moved to phase `p`, and the action that `p` waits on.
pub open spec fn with_phase(v: ProvisionerView, p: Phase) -> (ProvisionerView, Action) {
    (ProvisionerView { phase: p, ..v }, action_of(p))
}

/// One step of the flow: the next state, and the action it asks for. An
/// event that does not answer what the current phase waits on changes
/// nothing, and the pending action is asked for again.
pub open spec fn transition(v: ProvisionerView, e: Event) -> (ProvisionerView, Action) {
    let unchanged = (v, action_of(v.phase));
    match v.phase {
        Phase::Start => match e {
            Event::Probed { exists, is_cwd } => if !exists {
                with_phase(v, Phase::ConfirmCreate)
            } else if v.clear_existing {
                with_phase(v, Phase::ConfirmClear { base_is_cwd: is_cwd })
            } else {
                with_phase(v, first_child_phase(v.children.len() as int))
            },
            _ => unchanged,
        },
        Phase::ConfirmCreate => match e {
            Event::Answered(Some(true)) => with_phase(v, Phase::CreatingBase),
            Event::Answered(Some(false)) => with_phase(v, Phase::Finished(Outcome::Declined)),
            Event::Answered(None) => (v, Action::Reprompt),
            _ => unchanged,
        },
        Phase::CreatingBase => match e {
            Event::Done(true) => with_phase(v, Phase::Finished(Outcome::BaseCreated)),
            Event::Done(false) => with_phase(v, Phase::Finished(Outcome::BaseCreateFailed)),
            _ => unchanged,
        },
        Phase::ConfirmClear { .. } => match e {
            Event::Answered(Some(true)) => with_phase(v, Phase::Removing),
            Event::Answered(Some(false)) => with_phase(v, Phase::Finished(Outcome::Declined)),
            Event::Answered(None) => (v, Action::Reprompt),
            _ => unchanged,
        },
        Phase::Removing => match e {
            Event::Done(true) => with_phase(v, Phase::Recreating),
            Event::Done(false) => with_phase(v, Phase::Finished(Outcome::RemoveFailed)),
            _ => unchanged,
        },
        Phase::Recreating => match e {
            Event::Done(true) => with_phase(v, first_child_phase(v.children.len() as int)),
            Event::Done(false) => with_phase(v, Phase::Finished(Outcome::RecreateFailed)),
            _ => unchanged,
        },
        Phase::CreatingChild(i) => match e {
            Event::Done(ok) => {
                let p = phase_after_child(i as int, v.children.len() as int);
                (ProvisionerView { phase: p, created: v.created.push(ok), ..v }, action_of(p))
            },
            _ => unchanged,
        },
        Phase::Finished(_) => unchanged,
    }
}

/// The final state and the actions asked for when the events are fed in
/// order, one step each.
pub open spec fn run(v: ProvisionerView, events: Seq<Event>) -> (ProvisionerView, Seq<Action>)
    decreases events.len(),
{
    if events.len() == 0 {
        (v, seq![])
    } else {
        let (next, a) = transition(v, events[0]);
        let (last, rest) = run(next, events.drop_first());
        (last, seq![a] + rest)
    }
}

/// A provisioning run: the base directory, the child directories to create
/// in it, and how far the run has got.
pub struct Provisioner {
    base_path: String,
    clear_existing: bool,
    children: Vec<String>,
    phase: Phase,
    created: Vec<bool>,
}

impl View for Provisioner {
    type V = ProvisionerView;

    closed spec fn view(&self) -> ProvisionerView {
        ProvisionerView {
            base_path: self.base_path@,
            clear_existing: self.clear_existing,
            children: self.children.deep_view(),
            phase: self.phase,
            created: self.created@,
        }
    }
}

impl Provisioner {
    /// Starts a run on `base_path` that creates `repeat_count` copies of each
    /// of `names` (see `plan_names`), after clearing the base directory first
    /// when `clear_existing` is set.
    pub fn new(base_path: String, names: &Vec<String>, clear_existing: bool, repeat_count: u64) -> (r:
        Provisioner)
        ensures
            r@ == initial_view(base_path@, names.deep_view(), clear_existing, repeat_count as nat),
            wf_view(r@),
    {
        let children = plan_names(names, repeat_count);
        let n = children.len();
        assert(children.deep_view().len() == n);
        let r = Provisioner {
            base_path,
            clear_existing,
            children,
            phase: Phase::Start,
            created: Vec::new(),
        };
        r
    }

    /// The action that the run waits on.
    pub fn pending(&self) -> (a: Action)
        ensures
            a == action_of(self@.phase),
    {
        match self.phase {
            Phase::Start => Action::Probe,
            Phase::ConfirmCreate => Action::AskCreate,
            Phase::CreatingBase => Action::CreateBase,
            Phase::ConfirmClear { base_is_cwd } => Action::AskClear { base_is_cwd },
            Phase::Removing => Action::RemoveBase,
            Phase::Recreating => Action::RecreateBase,
            Phase::CreatingChild(i) => Action::CreateChild(i),
            Phase::Finished(o) => Action::Stop(o),
        }
    }

    fn enter(&mut self, p: Phase) -> (a: Action)
        ensures
            (final(self)@, a) == with_phase(old(self)@, p),
    {
        self.phase = p;
        self.pending()
    }

    fn first_child(&self) -> (p: Phase)
        ensures
            p == first_child_phase(self@.children.len() as int),
    {
        if self.children.len() > 0 {
            Phase::CreatingChild(0)
        } else {
            Phase::Finished(Outcome::Completed)
        }
    }

    /// Feeds in what was observed after the pending action, and returns the
    /// next action.
    pub fn step(&mut self, event: Event) -> (a: Action)
        requires
            wf_view(old(self)@),
        ensures
            (final(self)@, a) == transition(old(self)@, event),
            wf_view(final(self)@),
    {
        match self.phase {
            Phase::Start => match event {
                Event::Probed { exists, is_cwd } => {
                    if !exists {
                        self.enter(Phase::ConfirmCreate)
                    } else if self.clear_existing {
                        self.enter(Phase::ConfirmClear { base_is_cwd: is_cwd })
                    } else {
                        let p = self.first_child();
                        self.enter(p)
                    }
                },
                _ => self.pending(),
            },
            Phase::ConfirmCreate => match event {
                Event::Answered(Some(true)) => self.enter(Phase::CreatingBase),
                Event::Answered(Some(false)) => self.enter(Phase::Finished(Outcome::Declined)),
                Event::Answered(None) => Action::Reprompt,
                _ => self.pending(),
            },
            Phase::CreatingBase => match event {
                Event::Done(true) => self.enter(Phase::Finished(Outcome::BaseCreated)),
                Event::Done(false) => self.enter(Phase::Finished(Outcome::BaseCreateFailed)),
                _ => self.pending(),
            },
            Phase::ConfirmClear { .. } => match event {
                Event::Answered(Some(true)) => self.enter(Phase::Removing),
                Event::Answered(Some(false)) => self.enter(Phase::Finished(Outcome::Declined)),
                Event::Answered(None) => Action::Reprompt,
                _ => self.pending(),
            },
            Phase::Removing => match event {
                Event::Done(true) => self.enter(Phase::Recreating),
                Event::Done(false) => self.enter(Phase::Finished(Outcome::RemoveFailed)),
                _ => self.pending(),
            },
            Phase::Recreating => match event {
                Event::Done(true) => {
                    let p = self.first_child();
                    self.enter(p)
                },
                Event::Done(false) => self.enter(Phase::Finished(Outcome::RecreateFailed)),
                _ => self.pending(),
            },
            Phase::CreatingChild(i) => match event {
                Event::Done(ok) => {
                    self.created.push(ok);
                    let p = if i + 1 < self.children.len() {
                        Phase::CreatingChild(i + 1)
                    } else {
                        Phase::Finished(Outcome::Completed)
                    };
                    self.enter(p)
                },
                _ => self.pending(),
            },
            Phase::Finished(_) => self.pending(),
        }
    }

    /// The base directory.
    pub fn base_path(&self) -> (r: &String)
        ensures
            r@ == self@.base_path,
    {
        &self.base_path
    }

    /// Whether the base directory is cleared before the children are created.
    pub fn clear_existing(&self) -> (r: bool)
        ensures
            r == self@.clear_existing,
    {
        self.clear_existing
    }

    /// The names of the child directories, in the order they are created.
    pub fn children(&self) -> (r: &Vec<String>)
        ensures
            r.deep_view() == self@.children,
    {
        &self.children
    }

    /// For each child attempted so far, in order, whether it was created.
    pub fn created(&self) -> (r: &Vec<bool>)
        ensures
            r@ == self@.created,
    {
        &self.created
    }

    /// Where the run stands.
    pub fn phase(&self) -> (r: Phase)
        ensures
            r == self@.phase,
    {
        self.phase
    }
}

} // verus!

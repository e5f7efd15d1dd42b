//! What a whole provisioning run does, proved from the step relation.

use vstd::prelude::*;

use crate::answer::reply_spec;
use crate::naming::{copies_spec, indexed_name, plan_spec};
use crate::provision::{
    Action, Event, Outcome, Phase, ProvisionerView, action_of, initial_view, is_fs_action,
    phase_after_child, run, transition, wf_view,
};

verus! {

/// The events that report the results of a series of filesystem actions.
pub open spec fn done_events(oks: Seq<bool>) -> Seq<Event> {
    Seq::new(oks.len(), |k: int| Event::Done(oks[k]))
}

/// The actions asked for while children `i`, `i + 1`, ... of `n` are
/// created: each reported result leads to the next child, the last to the
/// end of the run.
pub open spec fn child_actions(i: int, n: int) -> Seq<Action> {
    Seq::new((n - i) as nat, |k: int| action_of(phase_after_child(i + k, n)))
}

/// Phases from which the run can only end without touching anything but
/// the base directory itself.
pub open spec fn base_only(p: Phase) -> bool {
    ||| p is ConfirmCreate
    ||| p is CreatingBase
    ||| p matches Phase::Finished(o) && o != Outcome::Completed
}

proof fn lemma_run_step(v: ProvisionerView, events: Seq<Event>)
    requires
        events.len() > 0,
    ensures
        run(v, events).0 == run(transition(v, events[0]).0, events.drop_first()).0,
        run(v, events).1 == seq![transition(v, events[0]).1] + run(
            transition(v, events[0]).0,
            events.drop_first(),
        ).1,
{
}

/// Once the run is over, every further event leaves the state as it is, and
/// only the end of the run is reported again.
pub proof fn lemma_finished_stays(v: ProvisionerView, events: Seq<Event>)
    requires
        v.phase is Finished,
    ensures
        run(v, events).0 == v,
        run(v, events).1 == Seq::new(events.len(), |k: int| action_of(v.phase)),
    decreases events.len(),
{
    if events.len() > 0 {
        lemma_finished_stays(v, events.drop_first());
        assert(run(v, events).1 =~= Seq::new(events.len(), |k: int| action_of(v.phase)));
    }
}

/// After the base directory was found missing, no run removes it or creates
/// any child directory, and no child is recorded, whatever happens next.
pub proof fn lemma_base_only_closed(v: ProvisionerView, events: Seq<Event>)
    requires
        base_only(v.phase),
    ensures
        base_only(run(v, events).0.phase),
        run(v, events).0.created == v.created,
        forall|k: int|
            0 <= k < run(v, events).1.len() ==> !(#[trigger] run(v, events).1[k] is CreateChild),
        forall|k: int|
            0 <= k < run(v, events).1.len() ==> !(#[trigger] run(v, events).1[k] is RemoveBase),
        forall|k: int|
            0 <= k < run(v, events).1.len() ==> !(#[trigger] run(v, events).1[k] is RecreateBase),
    decreases events.len(),
{
    if events.len() > 0 {
        let next = transition(v, events[0]).0;
        lemma_base_only_closed(next, events.drop_first());
        let acts = run(v, events).1;
        let rest = run(next, events.drop_first()).1;
        assert(acts == seq![transition(v, events[0]).1] + rest);
        assert forall|k: int| 0 <= k < acts.len() implies !(#[trigger] acts[k] is CreateChild) && !(
        acts[k] is RemoveBase) && !(acts[k] is RecreateBase) by {
            if k > 0 {
                assert(acts[k] == rest[k - 1]);
            }
        }
    }
}

/// A missing base directory, once the user agrees, is created with nothing
/// else done in the same run: creation is asked for right after the "yes",
/// success ends the run, and no event that follows leads to removing the
/// base or creating a child.
pub proof fn lemma_missing_base_confirmed(
    base_path: Seq<char>,
    names: Seq<Seq<char>>,
    clear_existing: bool,
    repeat_count: nat,
    is_cwd: bool,
    rest: Seq<Event>,
)
    ensures
        ({
            let v0 = initial_view(base_path, names, clear_existing, repeat_count);
            let events = seq![Event::Probed { exists: false, is_cwd }, Event::Answered(Some(true))]
                + rest;
            let (last, acts) = run(v0, events);
            &&& acts[0] == Action::AskCreate
            &&& acts[1] == Action::CreateBase
            &&& rest.len() > 0 && rest[0] == Event::Done(true) ==> acts[2] == Action::Stop(
                Outcome::BaseCreated,
            )
            &&& last.created.len() == 0
            &&& forall|k: int| 0 <= k < acts.len() ==> !(#[trigger] acts[k] is CreateChild)
            &&& forall|k: int| 0 <= k < acts.len() ==> !(#[trigger] acts[k] is RemoveBase)
            &&& forall|k: int| 0 <= k < acts.len() ==> !(#[trigger] acts[k] is RecreateBase)
        }),
{
    let v0 = initial_view(base_path, names, clear_existing, repeat_count);
    let events = seq![Event::Probed { exists: false, is_cwd }, Event::Answered(Some(true))] + rest;
    let v1 = transition(v0, events[0]).0;
    let v2 = transition(v1, Event::Answered(Some(true))).0;
    lemma_run_step(v0, events);
    assert(events.drop_first() =~= seq![Event::Answered(Some(true))] + rest);
    lemma_run_step(v1, events.drop_first());
    assert(events.drop_first().drop_first() =~= rest);
    lemma_base_only_closed(v2, rest);
    if rest.len() > 0 {
        lemma_run_step(v2, rest);
    }
    let acts = run(v0, events).1;
    let tail = run(v2, rest).1;
    assert(acts =~= seq![Action::AskCreate, Action::CreateBase] + tail);
    assert forall|k: int| 0 <= k < acts.len() implies !(#[trigger] acts[k] is CreateChild) && !(
    acts[k] is RemoveBase) && !(acts[k] is RecreateBase) by {
        if k >= 2 {
            assert(acts[k] == tail[k - 2]);
        }
    }
}

/// Declining to create a missing base directory ends the run: no action
/// after the question touches the filesystem, and the state no longer
/// changes.
pub proof fn lemma_missing_base_declined(
    base_path: Seq<char>,
    names: Seq<Seq<char>>,
    clear_existing: bool,
    repeat_count: nat,
    is_cwd: bool,
    rest: Seq<Event>,
)
    ensures
        ({
            let v0 = initial_view(base_path, names, clear_existing, repeat_count);
            let events = seq![Event::Probed { exists: false, is_cwd }, Event::Answered(Some(false))]
                + rest;
            let (last, acts) = run(v0, events);
            &&& acts[0] == Action::AskCreate
            &&& forall|k: int| 1 <= k < acts.len() ==> #[trigger] acts[k] == Action::Stop(
                Outcome::Declined,
            )
            &&& forall|k: int| 0 <= k < acts.len() ==> !is_fs_action(#[trigger] acts[k])
            &&& last.phase == Phase::Finished(Outcome::Declined)
            &&& last.created.len() == 0
        }),
{
    let v0 = initial_view(base_path, names, clear_existing, repeat_count);
    let events = seq![Event::Probed { exists: false, is_cwd }, Event::Answered(Some(false))]
        + rest;
    let v1 = transition(v0, events[0]).0;
    let v2 = transition(v1, Event::Answered(Some(false))).0;
    lemma_run_step(v0, events);
    assert(events.drop_first() =~= seq![Event::Answered(Some(false))] + rest);
    lemma_run_step(v1, events.drop_first());
    assert(events.drop_first().drop_first() =~= rest);
    lemma_finished_stays(v2, rest);
    let acts = run(v0, events).1;
    let tail = run(v2, rest).1;
    assert(acts =~= seq![Action::AskCreate, Action::Stop(Outcome::Declined)] + tail);
    assert forall|k: int| 0 <= k < acts.len() implies !is_fs_action(#[trigger] acts[k]) && (k >= 1
        ==> acts[k] == Action::Stop(Outcome::Declined)) by {
        if k >= 2 {
            assert(acts[k] == tail[k - 2]);
        }
    }
}

/// Child creation is best effort: from child `i` on, one reported result per
/// remaining child, success or failure, leads through every later child in
/// order to the end of the run, and each result is recorded.
pub proof fn lemma_children_all_attempted(v: ProvisionerView, oks: Seq<bool>)
    requires
        wf_view(v),
        v.phase is CreatingChild,
        oks.len() == v.children.len() - v.phase->CreatingChild_0,
    ensures
        ({
            let i = v.phase->CreatingChild_0 as int;
            let (last, acts) = run(v, done_events(oks));
            &&& last.phase == Phase::Finished(Outcome::Completed)
            &&& last.created == v.created + oks
            &&& last.children == v.children
            &&& last.base_path == v.base_path
            &&& acts == child_actions(i, v.children.len() as int)
        }),
    decreases oks.len(),
{
    let i = v.phase->CreatingChild_0 as int;
    let n = v.children.len() as int;
    let events = done_events(oks);
    let (next, a) = transition(v, events[0]);
    lemma_run_step(v, events);
    assert(events.drop_first() =~= done_events(oks.drop_first()));
    if i + 1 < n {
        lemma_children_all_attempted(next, oks.drop_first());
        assert(next.created + oks.drop_first() =~= v.created + oks);
        assert(run(v, events).1 =~= child_actions(i, n));
    } else {
        assert(oks.drop_first().len() == 0);
        assert(next.created =~= v.created + oks);
        assert(run(v, events).1 =~= child_actions(i, n));
    }
}

/// Clearing, once the user agrees: the base directory is removed, created
/// again, and then every child directory is asked for in order, each one
/// whatever became of the ones before; the run ends with every result
/// recorded.
pub proof fn lemma_clear_confirmed(
    base_path: Seq<char>,
    names: Seq<Seq<char>>,
    repeat_count: nat,
    is_cwd: bool,
    oks: Seq<bool>,
)
    requires
        plan_spec(names, repeat_count).len() <= usize::MAX,
        oks.len() == plan_spec(names, repeat_count).len(),
    ensures
        ({
            let v0 = initial_view(base_path, names, true, repeat_count);
            let n = oks.len() as int;
            let events = seq![
                Event::Probed { exists: true, is_cwd },
                Event::Answered(Some(true)),
                Event::Done(true),
                Event::Done(true),
            ] + done_events(oks);
            let (last, acts) = run(v0, events);
            &&& acts.len() == n + 4
            &&& acts[0] == Action::AskClear { base_is_cwd: is_cwd }
            &&& acts[1] == Action::RemoveBase
            &&& acts[2] == Action::RecreateBase
            &&& forall|k: int| 0 <= k < n ==> #[trigger] acts[3 + k] == Action::CreateChild(
                k as usize,
            )
            &&& acts[n + 3] == Action::Stop(Outcome::Completed)
            &&& last.phase == Phase::Finished(Outcome::Completed)
            &&& last.created == oks
        }),
{
    let v0 = initial_view(base_path, names, true, repeat_count);
    let n = oks.len() as int;
    let events = seq![
        Event::Probed { exists: true, is_cwd },
        Event::Answered(Some(true)),
        Event::Done(true),
        Event::Done(true),
    ] + done_events(oks);
    let v1 = transition(v0, events[0]).0;
    let v2 = transition(v1, Event::Answered(Some(true))).0;
    let v3 = transition(v2, Event::Done(true)).0;
    let v4 = transition(v3, Event::Done(true)).0;
    let e1 = events.drop_first();
    let e2 = e1.drop_first();
    let e3 = e2.drop_first();
    lemma_run_step(v0, events);
    assert(e1 =~= seq![Event::Answered(Some(true)), Event::Done(true), Event::Done(true)]
        + done_events(oks));
    lemma_run_step(v1, e1);
    assert(e2 =~= seq![Event::Done(true), Event::Done(true)] + done_events(oks));
    lemma_run_step(v2, e2);
    assert(e3 =~= seq![Event::Done(true)] + done_events(oks));
    lemma_run_step(v3, e3);
    assert(e3.drop_first() =~= done_events(oks));
    let tail = run(v4, done_events(oks)).1;
    if n > 0 {
        lemma_children_all_attempted(v4, oks);
        assert(v0.created + oks =~= oks);
    } else {
        lemma_finished_stays(v4, done_events(oks));
        assert(oks =~= seq![]);
    }
    let acts = run(v0, events).1;
    assert(acts =~= seq![
        Action::AskClear { base_is_cwd: is_cwd },
        Action::RemoveBase,
        Action::RecreateBase,
        action_of(phase_after_child(-1, n)),
    ] + tail);
    assert forall|k: int| 0 <= k < n implies #[trigger] acts[3 + k] == Action::CreateChild(
        k as usize,
    ) by {
        if k > 0 {
            assert(acts[3 + k] == tail[k - 1]);
            assert(tail[k - 1] == action_of(phase_after_child(k - 1, n)));
        }
    }
    if n > 0 {
        assert(acts[n + 3] == tail[n - 1]);
    }
}

/// Replies that are neither yes nor no, however many, leave the run as it
/// is: each one only asks for the question again.
pub proof fn lemma_unrecognized_replies(v: ProvisionerView, lines: Seq<Seq<char>>)
    requires
        v.phase is ConfirmCreate || v.phase is ConfirmClear,
        forall|k: int| 0 <= k < lines.len() ==> reply_spec(#[trigger] lines[k]) is None,
    ensures
        ({
            let events = Seq::new(lines.len(), |k: int| Event::Answered(reply_spec(lines[k])));
            &&& run(v, events).0 == v
            &&& run(v, events).1 == Seq::new(lines.len(), |k: int| Action::Reprompt)
        }),
    decreases lines.len(),
{
    if lines.len() > 0 {
        let events = Seq::new(lines.len(), |k: int| Event::Answered(reply_spec(lines[k])));
        let rest = lines.drop_first();
        assert(reply_spec(lines[0]) is None);
        lemma_run_step(v, events);
        assert(events.drop_first() =~= Seq::new(
            rest.len(),
            |k: int| Event::Answered(reply_spec(rest[k])),
        ));
        lemma_unrecognized_replies(v, rest);
        assert(run(v, events).1 =~= Seq::new(lines.len(), |k: int| Action::Reprompt));
    }
}

/// The child names hold `count` copies of each requested name, in the order
/// given: copy `j` (from 0) of name `i` stands at `i * count + j` and is named
/// by `indexed_name(names[i], j + 1)`.
pub proof fn lemma_plan_layout(names: Seq<Seq<char>>, count: nat)
    ensures
        plan_spec(names, count).len() == names.len() * count,
        forall|i: int, j: int|
            0 <= i < names.len() && 0 <= j < count ==> #[trigger] plan_spec(names, count)[i
                * count + j] == indexed_name(names[i], (j + 1) as nat),
    decreases names.len(),
{
    if names.len() > 0 {
        let init = names.drop_last();
        lemma_plan_layout(init, count);
        let m = init.len();
        assert((m + 1) * count == m * count + count) by (nonlinear_arith);
        assert forall|i: int, j: int|
            0 <= i < names.len() && 0 <= j < count implies #[trigger] plan_spec(names, count)[i
            * count + j] == indexed_name(names[i], (j + 1) as nat) by {
            if i < m {
                assert(i * count + j < m * count) by (nonlinear_arith)
                    requires
                        i < m,
                        j < count,
                ;
                assert(0 <= i * count) by (nonlinear_arith)
                    requires
                        0 <= i,
                ;
                assert(init[i] == names[i]);
            } else {
                assert(i == m);
                assert(plan_spec(names, count)[i * count + j] == copies_spec(names.last(), count)[j]);
            }
        }
    }
}

} // verus!

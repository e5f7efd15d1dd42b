use dir_provisioner::answer::parse_answer;
use dir_provisioner::provision::{Action, Event, Outcome, Phase, Provisioner};

fn provisioner(names: &[&str], clear: bool, count: u64) -> Provisioner {
    let names: Vec<String> = names.iter().map(|s| s.to_string()).collect();
    Provisioner::new("/tmp/base".to_string(), &names, clear, count)
}

fn is_fs_action(a: Action) -> bool {
    matches!(
        a,
        Action::CreateBase | Action::RemoveBase | Action::RecreateBase | Action::CreateChild(_)
    )
}

#[test]
fn run_starts_with_a_probe() {
    let p = provisioner(&["a"], false, 1);
    assert_eq!(p.pending(), Action::Probe);
    assert_eq!(p.phase(), Phase::Start);
    assert_eq!(p.base_path(), "/tmp/base");
    assert!(!p.clear_existing());
    assert!(p.created().is_empty());
}

#[test]
fn missing_base_created_after_yes_and_nothing_else() {
    let mut p = provisioner(&["a", "b"], true, 1);
    assert_eq!(p.step(Event::Probed { exists: false, is_cwd: false }), Action::AskCreate);
    assert_eq!(p.step(Event::Answered(Some(true))), Action::CreateBase);
    assert_eq!(p.step(Event::Done(true)), Action::Stop(Outcome::BaseCreated));
    assert_eq!(p.step(Event::Done(true)), Action::Stop(Outcome::BaseCreated));
    assert!(p.created().is_empty());
}

#[test]
fn missing_base_creation_failure_ends_the_run() {
    let mut p = provisioner(&["a"], false, 1);
    p.step(Event::Probed { exists: false, is_cwd: false });
    p.step(Event::Answered(Some(true)));
    assert_eq!(p.step(Event::Done(false)), Action::Stop(Outcome::BaseCreateFailed));
    assert_eq!(p.phase(), Phase::Finished(Outcome::BaseCreateFailed));
}

#[test]
fn declining_missing_base_touches_nothing() {
    let mut p = provisioner(&["a"], false, 1);
    assert_eq!(p.step(Event::Probed { exists: false, is_cwd: false }), Action::AskCreate);
    let a = p.step(Event::Answered(Some(false)));
    assert_eq!(a, Action::Stop(Outcome::Declined));
    for e in [
        Event::Done(true),
        Event::Answered(Some(true)),
        Event::Probed { exists: true, is_cwd: false },
    ] {
        let a = p.step(e);
        assert!(!is_fs_action(a));
        assert_eq!(a, Action::Stop(Outcome::Declined));
    }
    assert!(p.created().is_empty());
}

#[test]
fn clear_confirmed_removes_recreates_then_creates_children() {
    let mut p = provisioner(&["a", "b"], true, 1);
    assert_eq!(
        p.step(Event::Probed { exists: true, is_cwd: false }),
        Action::AskClear { base_is_cwd: false }
    );
    assert_eq!(p.step(Event::Answered(Some(true))), Action::RemoveBase);
    assert_eq!(p.step(Event::Done(true)), Action::RecreateBase);
    assert_eq!(p.step(Event::Done(true)), Action::CreateChild(0));
    assert_eq!(p.step(Event::Done(true)), Action::CreateChild(1));
    assert_eq!(p.step(Event::Done(true)), Action::Stop(Outcome::Completed));
    assert_eq!(p.created(), &vec![true, true]);
    assert_eq!(p.children(), &vec!["a".to_string(), "b".to_string()]);
}

#[test]
fn clearing_the_working_directory_gets_its_own_warning() {
    let mut p = provisioner(&["a"], true, 1);
    assert_eq!(
        p.step(Event::Probed { exists: true, is_cwd: true }),
        Action::AskClear { base_is_cwd: true }
    );
}

#[test]
fn clear_declined_ends_the_run() {
    let mut p = provisioner(&["a"], true, 1);
    p.step(Event::Probed { exists: true, is_cwd: false });
    assert_eq!(p.step(Event::Answered(Some(false))), Action::Stop(Outcome::Declined));
    assert!(p.created().is_empty());
}

#[test]
fn remove_failure_stops_before_children() {
    let mut p = provisioner(&["a"], true, 1);
    p.step(Event::Probed { exists: true, is_cwd: false });
    p.step(Event::Answered(Some(true)));
    assert_eq!(p.step(Event::Done(false)), Action::Stop(Outcome::RemoveFailed));
    assert_eq!(p.step(Event::Done(true)), Action::Stop(Outcome::RemoveFailed));
}

#[test]
fn recreate_failure_stops_before_children() {
    let mut p = provisioner(&["a"], true, 1);
    p.step(Event::Probed { exists: true, is_cwd: false });
    p.step(Event::Answered(Some(true)));
    p.step(Event::Done(true));
    assert_eq!(p.step(Event::Done(false)), Action::Stop(Outcome::RecreateFailed));
    assert!(p.created().is_empty());
}

#[test]
fn existing_base_without_clearing_goes_to_children() {
    let mut p = provisioner(&["a"], false, 1);
    assert_eq!(p.step(Event::Probed { exists: true, is_cwd: true }), Action::CreateChild(0));
    assert_eq!(p.step(Event::Done(true)), Action::Stop(Outcome::Completed));
}

#[test]
fn no_children_completes_at_once() {
    let mut p = provisioner(&[], false, 1);
    assert_eq!(
        p.step(Event::Probed { exists: true, is_cwd: false }),
        Action::Stop(Outcome::Completed)
    );
    let mut q = provisioner(&[], true, 1);
    q.step(Event::Probed { exists: true, is_cwd: false });
    q.step(Event::Answered(Some(true)));
    q.step(Event::Done(true));
    assert_eq!(q.step(Event::Done(true)), Action::Stop(Outcome::Completed));
}

#[test]
fn existing_child_failure_does_not_stop_the_rest() {
    let mut p = provisioner(&["a", "exists", "c"], false, 1);
    assert_eq!(p.step(Event::Probed { exists: true, is_cwd: false }), Action::CreateChild(0));
    assert_eq!(p.step(Event::Done(true)), Action::CreateChild(1));
    assert_eq!(p.step(Event::Done(false)), Action::CreateChild(2));
    assert_eq!(p.step(Event::Done(true)), Action::Stop(Outcome::Completed));
    assert_eq!(p.created(), &vec![true, false, true]);
}

#[test]
fn repeated_copies_are_created_in_order() {
    let mut p = provisioner(&["foo"], false, 3);
    assert_eq!(
        p.children(),
        &vec!["foo".to_string(), "foo_2".to_string(), "foo_3".to_string()]
    );
    assert_eq!(p.step(Event::Probed { exists: true, is_cwd: false }), Action::CreateChild(0));
    assert_eq!(p.step(Event::Done(true)), Action::CreateChild(1));
    assert_eq!(p.step(Event::Done(true)), Action::CreateChild(2));
    assert_eq!(p.step(Event::Done(true)), Action::Stop(Outcome::Completed));
}

#[test]
fn unrecognized_reply_reprompts_without_change() {
    let mut p = provisioner(&["a"], true, 1);
    p.step(Event::Probed { exists: false, is_cwd: false });
    for line in ["maybe", "", "yep", "0"] {
        assert_eq!(p.step(Event::Answered(parse_answer(line))), Action::Reprompt);
        assert_eq!(p.phase(), Phase::ConfirmCreate);
        assert_eq!(p.pending(), Action::AskCreate);
    }
    assert_eq!(p.step(Event::Answered(parse_answer(" YES\n"))), Action::CreateBase);

    let mut q = provisioner(&["a"], true, 1);
    q.step(Event::Probed { exists: true, is_cwd: false });
    assert_eq!(q.step(Event::Answered(parse_answer("what"))), Action::Reprompt);
    assert_eq!(q.phase(), Phase::ConfirmClear { base_is_cwd: false });
    assert_eq!(q.step(Event::Answered(parse_answer("No"))), Action::Stop(Outcome::Declined));
}

#[test]
fn events_out_of_turn_are_ignored() {
    let mut p = provisioner(&["a"], false, 1);
    assert_eq!(p.step(Event::Done(true)), Action::Probe);
    assert_eq!(p.step(Event::Answered(Some(true))), Action::Probe);
    p.step(Event::Probed { exists: true, is_cwd: false });
    assert_eq!(p.step(Event::Answered(None)), Action::CreateChild(0));
    assert_eq!(p.phase(), Phase::CreatingChild(0));
    assert!(p.created().is_empty());
}

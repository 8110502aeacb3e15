use stalker::expand::{collect_targets, WalkItem};
use stalker::monitor::{on_signal, triggers, Batch, CommandOutcome, Signal, UnitAction, WatchEvent};
use stalker::template::substitute_path;

fn strings(items: &[&str]) -> Vec<String> {
    items.iter().map(|s| s.to_string()).collect()
}

#[test]
fn placeholder_is_replaced_everywhere() {
    assert_eq!(substitute_path("echo {path} {path}", "/tmp/x"), "echo /tmp/x /tmp/x");
}

#[test]
fn template_without_placeholder_is_unchanged() {
    assert_eq!(substitute_path("make test", "/tmp/x"), "make test");
    assert_eq!(substitute_path("echo {pat} {PATH} path}", "/tmp/x"), "echo {pat} {PATH} path}");
}

#[test]
fn adjacent_and_edge_placeholders() {
    assert_eq!(substitute_path("{path}{path}", "ab"), "abab");
    assert_eq!(substitute_path("{{path}}", "p"), "{p}");
    assert_eq!(substitute_path("", "p"), "");
}

#[test]
fn substituted_path_is_not_read_again() {
    assert_eq!(substitute_path("cat {path}", "{path}"), "cat {path}");
}

#[test]
fn path_is_put_in_without_escaping() {
    assert_eq!(substitute_path("rm {path}", "a b; ls"), "rm a b; ls");
}

#[test]
fn only_a_write_of_the_target_triggers() {
    let t = "/tmp/watched";
    assert!(triggers(&WatchEvent::Write(t.to_string()), t));
    assert!(!triggers(&WatchEvent::Write("/tmp/other".to_string()), t));
    assert!(!triggers(&WatchEvent::NoticeWrite(t.to_string()), t));
    assert!(!triggers(&WatchEvent::Create(t.to_string()), t));
    assert!(!triggers(&WatchEvent::Remove(t.to_string()), t));
    assert!(!triggers(&WatchEvent::Rename(t.to_string(), t.to_string()), t));
    assert!(!triggers(&WatchEvent::Rescan, t));
}

fn run_all(batch: &mut Batch, outputs: &[CommandOutcome]) -> (Vec<String>, Vec<String>) {
    let mut started = Vec::new();
    let mut printed = Vec::new();
    let mut k = 0;
    while let Some(cmd) = batch.start_next() {
        started.push(cmd);
        assert!(batch.start_next().is_none());
        let outcome = match &outputs[k] {
            CommandOutcome::Finished(s) => CommandOutcome::Finished(s.clone()),
            CommandOutcome::OutputNotText => CommandOutcome::OutputNotText,
            CommandOutcome::NotStarted => CommandOutcome::NotStarted,
        };
        if let Some(text) = batch.finish(outcome) {
            printed.push(text);
        }
        k += 1;
    }
    (started, printed)
}

#[test]
fn batch_runs_commands_in_list_order() {
    let mut b = Batch::new(&strings(&["A {path}", "B", "C {path}"]), "/p");
    assert_eq!(b.len(), 3);
    let outs = [
        CommandOutcome::Finished("a".to_string()),
        CommandOutcome::Finished("b".to_string()),
        CommandOutcome::Finished("c".to_string()),
    ];
    let (started, printed) = run_all(&mut b, &outs);
    assert_eq!(started, strings(&["A /p", "B", "C /p"]));
    assert_eq!(printed, strings(&["a", "b", "c"]));
    assert!(b.is_complete());
    assert_eq!(b.failures(), 0);
}

#[test]
fn failed_command_does_not_stop_the_batch() {
    let mut b = Batch::new(&strings(&["one", "two", "three"]), "/p");
    let outs = [
        CommandOutcome::NotStarted,
        CommandOutcome::OutputNotText,
        CommandOutcome::Finished("3".to_string()),
    ];
    let (started, printed) = run_all(&mut b, &outs);
    assert_eq!(started, strings(&["one", "two", "three"]));
    assert_eq!(printed, strings(&["3"]));
    assert_eq!(b.failures(), 2);
    assert!(b.is_complete());
}

#[test]
fn finish_without_running_command_changes_nothing() {
    let mut b = Batch::new(&strings(&["x"]), "/p");
    assert!(b.finish(CommandOutcome::Finished("early".to_string())).is_none());
    assert!(!b.is_complete());
    assert_eq!(b.start_next(), Some("x".to_string()));
}

#[test]
fn empty_action_list_gives_empty_batch() {
    let mut b = Batch::new(&Vec::new(), "/p");
    assert!(b.is_complete());
    assert!(b.start_next().is_none());
}

#[test]
fn change_of_watched_path_runs_its_actions() {
    let templates = strings(&["echo changed: {path}"]);
    let signal = Signal::Event(WatchEvent::Write("/tmp/watched".to_string()));
    match on_signal("/tmp/watched", &templates, signal) {
        UnitAction::Run(mut b) => {
            assert_eq!(b.start_next(), Some("echo changed: /tmp/watched".to_string()));
            assert_eq!(
                b.finish(CommandOutcome::Finished("changed: /tmp/watched\n".to_string())),
                Some("changed: /tmp/watched\n".to_string())
            );
            assert!(b.is_complete());
        }
        _ => panic!("expected a batch"),
    }
}

#[test]
fn other_notifications_are_ignored() {
    let templates = strings(&["echo {path}"]);
    for ev in [
        WatchEvent::NoticeWrite("/tmp/watched".to_string()),
        WatchEvent::Chmod("/tmp/watched".to_string()),
        WatchEvent::Write("/tmp/elsewhere".to_string()),
        WatchEvent::Error("boom".to_string()),
    ] {
        assert!(matches!(on_signal("/tmp/watched", &templates, Signal::Event(ev)), UnitAction::Ignore));
    }
}

#[test]
fn lost_channel_or_cancel_stops_the_unit() {
    let templates = strings(&["echo {path}"]);
    assert!(matches!(on_signal("/t", &templates, Signal::Lost), UnitAction::Stop));
    assert!(matches!(on_signal("/t", &templates, Signal::Cancel), UnitAction::Stop));
}

#[test]
fn unreadable_nodes_are_skipped_and_reported() {
    let items = vec![
        WalkItem::Entry("/w".to_string()),
        WalkItem::Unreadable("denied: /w/a".to_string()),
        WalkItem::Entry("/w/b".to_string()),
        WalkItem::Entry("/w/b/c".to_string()),
    ];
    let e = collect_targets(&items);
    assert_eq!(e.targets, strings(&["/w", "/w/b", "/w/b/c"]));
    assert_eq!(e.errors, strings(&["denied: /w/a"]));
}

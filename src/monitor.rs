//! What a monitoring unit does with the notifications for its target, and
//! how the commands of one change are run: one at a time, in list order.
use vstd::prelude::*;
use crate::listfile::views;
use crate::template::{substitute, substitute_path};

verus! {

/// A debounced change notification, with its paths as text.
pub enum WatchEvent {
    /// Sent at once on the first write to a path.
    NoticeWrite(String),
    /// Sent at once on the first removal or rename of a path.
    NoticeRemove(String),
    /// A path was created and stayed quiet for the debounce window.
    Create(String),
    /// A path was written to and stayed quiet for the debounce window.
    Write(String),
    /// The attributes of a path changed.
    Chmod(String),
    /// A path was removed.
    Remove(String),
    /// A path was moved: from the first to the second.
    Rename(String, String),
    /// The watched tree has to be scanned again.
    Rescan,
    /// The watcher met an error, described by the text.
    Error(String),
}

/// What a monitoring unit receives while it waits.
pub enum Signal {
    /// A notification from the watcher of the unit's target.
    Event(WatchEvent),
    /// The watcher's channel failed: the monitor is lost.
    Lost,
    /// Monitoring is to end.
    Cancel,
}

/// What a monitoring unit does with a signal.
pub enum UnitAction {
    /// Nothing: keep waiting.
    Ignore,
    /// Run this batch of commands, then wait again.
    Run(Batch),
    /// Stop this unit; the other units go on.
    Stop,
}

/// How one command of a batch ended.
pub enum CommandOutcome {
    /// It ran; its standard output, as text.
    Finished(String),
    /// It ran, but its standard output was not valid text.
    OutputNotText,
    /// It could not be started.
    NotStarted,
}

/// The commands that one change of a target runs, and how far they got.
pub struct Batch {
    commands: Vec<String>,
    next: usize,
    running: bool,
    failures: usize,
}

/// The commands that the templates give for the changed path, in list order.
pub open spec fn plan(templates: Seq<Seq<char>>, path: Seq<char>) -> Seq<Seq<char>> {
    templates.map_values(|t: Seq<char>| substitute(t, path))
}

/// A notification that runs the actions of `target`: a write to the target
/// itself, reported once its debounce window has passed.
pub open spec fn is_change_of(event: WatchEvent, target: Seq<char>) -> bool {
    match event {
        WatchEvent::Write(p) => p@ == target,
        _ => false,
    }
}

/// Whether `event` is a change of `target` that its actions run for.
pub fn triggers(event: &WatchEvent, target: &str) -> (r: bool)
    ensures
        r == is_change_of(*event, target@),
{
    match event {
        WatchEvent::Write(p) => {
            let t = String::from_str(target);
            *p == t
        },
        _ => false,
    }
}

impl Batch {
    /// The commands of the batch, in the order they run.
    pub closed spec fn commands(&self) -> Seq<Seq<char>> {
        views(self.commands@)
    }

    /// How many commands have finished.
    pub closed spec fn done(&self) -> nat {
        self.next as nat
    }

    /// Whether a command has been started and has not yet finished.
    pub closed spec fn is_running(&self) -> bool {
        self.running
    }

    /// How many of the finished commands failed.
    pub closed spec fn failed(&self) -> nat {
        self.failures as nat
    }

    pub closed spec fn wf(&self) -> bool {
        &&& self.next <= self.commands@.len()
        &&& self.running ==> self.next < self.commands@.len()
        &&& self.failures <= self.next
    }

    /// The batch that one change of `path` runs: each template with the path
    /// put in, in the order of the list; nothing has run yet.
    pub fn new(templates: &Vec<String>, path: &str) -> (r: Batch)
        ensures
            r.wf(),
            r.commands() == plan(views(templates@), path@),
            r.done() == 0,
            !r.is_running(),
            r.failed() == 0,
    {
        let mut commands: Vec<String> = Vec::new();
        let mut i: usize = 0;
        while i < templates.len()
            invariant
                i <= templates@.len(),
                views(commands@) == plan(views(templates@.subrange(0, i as int)), path@),
            decreases templates@.len() - i,
        {
            let c = substitute_path(templates[i].as_str(), path);
            let ghost before = commands@;
            let ghost done = views(templates@.subrange(0, i as int));
            let ghost t = templates@[i as int]@;
            assert(c@ == substitute(t, path@));
            commands.push(c);
            assert(views(commands@) =~= views(before).push(c@));
            assert(views(templates@.subrange(0, i + 1)) =~= done.push(t));
            assert(plan(done.push(t), path@) =~= plan(done, path@).push(substitute(t, path@)));
            assert(views(commands@) =~= plan(views(templates@.subrange(0, i + 1)), path@));
            i = i + 1;
        }
        assert(templates@.subrange(0, templates@.len() as int) =~= templates@);
        Batch { commands, next: 0, running: false, failures: 0 }
    }

    /// The number of commands in the batch.
    pub fn len(&self) -> (r: usize)
        ensures
            r == self.commands().len(),
    {
        self.commands.len()
    }

    /// Whether every command of the batch has finished.
    pub fn is_complete(&self) -> (r: bool)
        requires
            self.wf(),
        ensures
            r == (self.done() == self.commands().len()),
    {
        self.next == self.commands.len()
    }

    /// The number of commands of the batch that failed so far.
    pub fn failures(&self) -> (r: usize)
        ensures
            r == self.failed(),
    {
        self.failures
    }

    /// Starts the next command: it is handed out only when no command is
    /// running and one is left, and it is the first that has not run.
    pub fn start_next(&mut self) -> (r: Option<String>)
        requires
            old(self).wf(),
        ensures
            final(self).wf(),
            final(self).commands() == old(self).commands(),
            final(self).done() == old(self).done(),
            final(self).failed() == old(self).failed(),
            (!old(self).is_running() && old(self).done() < old(self).commands().len()) ==> (r
                matches Some(c) && c@ == old(self).commands()[old(self).done() as int]
                && final(self).is_running()),
            !(!old(self).is_running() && old(self).done() < old(self).commands().len()) ==> (
            r is None && final(self).is_running() == old(self).is_running()),
    {
        if !self.running && self.next < self.commands.len() {
            self.running = true;
            Some(self.commands[self.next].clone())
        } else {
            None
        }
    }

    /// Records how the running command ended and gives what it printed, to
    /// be shown before the next command starts. Without a running command
    /// nothing changes.
    pub fn finish(&mut self, outcome: CommandOutcome) -> (r: Option<String>)
        requires
            old(self).wf(),
        ensures
            final(self).wf(),
            final(self).commands() == old(self).commands(),
            !final(self).is_running(),
            old(self).is_running() ==> final(self).done() == old(self).done() + 1,
            old(self).is_running() ==> final(self).failed() == old(self).failed() + if outcome
                is Finished {
                0nat
            } else {
                1nat
            },
            !old(self).is_running() ==> final(self).done() == old(self).done()
                && final(self).failed() == old(self).failed(),
            old(self).is_running() && outcome is Finished ==> r == Some(outcome->Finished_0),
            !(old(self).is_running() && outcome is Finished) ==> r is None,
    {
        if !self.running || self.next >= self.commands.len() {
            return None;
        }
        self.running = false;
        self.next = self.next + 1;
        match outcome {
            CommandOutcome::Finished(text) => Some(text),
            _ => {
                self.failures = self.failures + 1;
                None
            },
        }
    }
}

/// What a monitoring unit of `target` with the action templates `templates`
/// does with `signal`: a change of the target starts a fresh batch of the
/// templates' commands for it, a lost channel or a cancellation stops the
/// unit, and any other notification is ignored.
pub fn on_signal(target: &str, templates: &Vec<String>, signal: Signal) -> (r: UnitAction)
    ensures
        (signal is Lost || signal is Cancel) ==> r is Stop,
        (signal matches Signal::Event(e) && is_change_of(e, target@)) ==> (r matches UnitAction::Run(
            b,
        ) && b.wf() && b.commands() == plan(views(templates@), target@) && b.done() == 0
            && !b.is_running() && b.failed() == 0),
        (signal matches Signal::Event(e) && !is_change_of(e, target@)) ==> r is Ignore,
{
    match signal {
        Signal::Event(e) => {
            if triggers(&e, target) {
                UnitAction::Run(Batch::new(templates, target))
            } else {
                UnitAction::Ignore
            }
        },
        _ => UnitAction::Stop,
    }
}

} // verus!

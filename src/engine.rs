use vstd::prelude::*;
use crate::cmdline::{cmdline_view, resolve_cmdline};
use crate::percent::Percent;
use crate::message::{alert_view, format_message, started_view, ProcessInfo};
use crate::table::{AlertTable, stamped, swept};

verus! {

/// The engine's configuration.
#[derive(Clone, Copy, Debug, PartialEq, Eq, Structural)]
pub struct Settings {
    /// CPU threshold in percent; usage equal to it triggers.
    pub threshold: Percent,
    /// Minimum number of seconds between two delivered alerts for one pid.
    pub cooldown_secs: u64,
}

/// One process of a snapshot.
#[derive(Clone, Debug)]
pub struct ProcessSample {
    pub pid: u64,
    pub name: String,
    /// CPU usage in percent.
    pub cpu: Percent,
    /// Start time in seconds since the Unix epoch; 0 when unknown.
    pub start_secs: u64,
}

/// What the engine decides for one process at one instant.
#[derive(Clone, Copy, Debug, PartialEq, Eq, Structural)]
pub enum Verdict {
    /// Usage under the threshold: nothing to do.
    Below,
    /// Over the threshold, but an alert was delivered less than a cooldown ago.
    Cooling,
    /// An alert is to be sent.
    Due,
}

/// What became of one notification attempt.
#[derive(Clone, Copy, Debug, PartialEq, Eq, Structural)]
pub enum Delivery {
    /// The notifier accepted the message.
    Delivered,
    /// The notifier answered that it did not deliver the message.
    Rejected,
    /// The transport failed before an answer came.
    Failed,
}

/// The decision for a process with id `pid` at usage `cpu`, at time `now`,
/// given the last-alert map `m`.
pub open spec fn verdict_of(s: Settings, m: Map<u64, u64>, pid: u64, cpu: Percent, now: u64) -> Verdict {
    if cpu.scaled() < s.threshold.scaled() {
        Verdict::Below
    } else if m.contains_key(pid) && now - m[pid] < s.cooldown_secs {
        Verdict::Cooling
    } else {
        Verdict::Due
    }
}

/// The last-alert map after an attempt for `pid` at `now` ended with `d`.
pub open spec fn after_attempt(m: Map<u64, u64>, pid: u64, now: u64, d: Delivery) -> Map<u64, u64> {
    if d == Delivery::Delivered {
        stamped(m, pid, now)
    } else {
        m
    }
}

/// The command line an alert reports for a process named `name`, given what
/// its argument block held, if it could be read.
pub open spec fn reported_cmdline(content: Option<Vec<u8>>, name: Seq<char>) -> Seq<char> {
    match content {
        Some(b) => match cmdline_view(b@) {
            Some(c) => c,
            None => name,
        },
        None => name,
    }
}

/// The alert engine: its settings and the only mutable state, the alert table.
pub struct Watcher {
    pub settings: Settings,
    pub table: AlertTable,
}

impl Watcher {
    pub open spec fn wf(&self) -> bool {
        self.settings.threshold.wf()
    }

    /// A watcher with an empty alert table.
    pub fn new(settings: Settings) -> (r: Watcher)
        requires
            settings.threshold.wf(),
        ensures
            r.wf(),
            r.settings == settings,
            r.table@ == Map::<u64, u64>::empty(),
    {
        Watcher { settings, table: AlertTable::new() }
    }

    /// Decides whether a process at usage `cpu` warrants an alert at `now`.
    pub fn verdict(&self, pid: u64, cpu: Percent, now: u64) -> (r: Verdict)
        requires
            self.wf(),
            cpu.wf(),
        ensures
            r == verdict_of(self.settings, self.table@, pid, cpu, now),
    {
        if !cpu.at_least(self.settings.threshold) {
            return Verdict::Below;
        }
        match self.table.last_alert(pid) {
            Some(at) => {
                if at > now || now - at < self.settings.cooldown_secs {
                    Verdict::Cooling
                } else {
                    Verdict::Due
                }
            },
            None => Verdict::Due,
        }
    }

    /// The first position at or after `from` in `samples` whose process is due
    /// for an alert at `now`, or `None` when the rest of the snapshot needs none.
    pub fn next_due(&self, samples: &Vec<ProcessSample>, from: usize, now: u64) -> (r: Option<usize>)
        requires
            self.wf(),
            forall|j: int| 0 <= j < samples@.len() ==> (#[trigger] samples@[j]).cpu.wf(),
        ensures
            match r {
                Some(i) => {
                    &&& from <= i < samples@.len()
                    &&& verdict_of(self.settings, self.table@, samples@[i as int].pid, samples@[i as int].cpu, now) == Verdict::Due
                    &&& forall|j: int| from <= j < i ==> verdict_of(self.settings, self.table@, #[trigger] samples@[j].pid, samples@[j].cpu, now) != Verdict::Due
                },
                None => forall|j: int| from <= j < samples@.len() ==> verdict_of(self.settings, self.table@, #[trigger] samples@[j].pid, samples@[j].cpu, now) != Verdict::Due,
            },
    {
        let mut i: usize = from;
        while i < samples.len()
            invariant
                self.wf(),
                from <= i,
                forall|j: int| 0 <= j < samples@.len() ==> (#[trigger] samples@[j]).cpu.wf(),
                forall|j: int| from <= j < i ==> verdict_of(self.settings, self.table@, #[trigger] samples@[j].pid, samples@[j].cpu, now) != Verdict::Due,
            decreases samples@.len() - i,
        {
            if self.verdict(samples[i].pid, samples[i].cpu, now) == Verdict::Due {
                return Some(i);
            }
            i = i + 1;
        }
        None
    }

    /// The alert text for `sample`, with `content` the process's argument
    /// block where it could be read.
    pub fn alert_text(&self, sample: &ProcessSample, content: &Option<Vec<u8>>) -> (r: String)
        requires
            self.wf(),
            sample.cpu.wf(),
        ensures
            r@ == alert_view(
                self.settings.threshold,
                sample.name@,
                sample.pid,
                sample.cpu,
                started_view(sample.start_secs),
                reported_cmdline(*content, sample.name@),
            ),
    {
        let cmdline = resolve_cmdline(content, &sample.name);
        let info = ProcessInfo {
            name: sample.name.clone(),
            pid: sample.pid,
            cpu: sample.cpu,
            cmdline,
            start_secs: sample.start_secs,
        };
        format_message(&info, self.settings.threshold)
    }

    /// Takes note of how an alert attempt for `pid` at `now` ended: only a
    /// delivered alert is recorded.
    pub fn report(&mut self, pid: u64, now: u64, outcome: Delivery)
        requires
            old(self).wf(),
        ensures
            final(self).wf(),
            final(self).settings == old(self).settings,
            final(self).table@ == after_attempt(old(self).table@, pid, now, outcome),
    {
        match outcome {
            Delivery::Delivered => self.table.record(pid, now),
            Delivery::Rejected | Delivery::Failed => {},
        }
    }

    /// Ends a tick: drops every record at least five cooldowns old at `now`.
    pub fn end_tick(&mut self, now: u64)
        requires
            old(self).wf(),
        ensures
            final(self).wf(),
            final(self).settings == old(self).settings,
            final(self).table@ == swept(old(self).table@, old(self).settings.cooldown_secs, now),
    {
        let cooldown = self.settings.cooldown_secs;
        self.table.sweep(cooldown, now);
    }
}

/// A process under the threshold gets no alert attempt, whatever the table holds.
pub proof fn law_below_threshold_is_quiet(s: Settings, m: Map<u64, u64>, pid: u64, cpu: Percent, now: u64)
    requires
        cpu.scaled() < s.threshold.scaled(),
    ensures
        verdict_of(s, m, pid, cpu, now) == Verdict::Below,
{
}

/// A process at or over the threshold with no record gets one attempt; when it is
/// delivered, a record stamped `now` is created.
pub proof fn law_first_alert(s: Settings, m: Map<u64, u64>, pid: u64, cpu: Percent, now: u64)
    requires
        cpu.scaled() >= s.threshold.scaled(),
        !m.contains_key(pid),
    ensures
        verdict_of(s, m, pid, cpu, now) == Verdict::Due,
        after_attempt(m, pid, now, Delivery::Delivered) == m.insert(pid, now),
{
}

/// A process whose last delivered alert is younger than the cooldown gets no
/// attempt, even over the threshold.
pub proof fn law_cooldown_suppresses(s: Settings, m: Map<u64, u64>, pid: u64, cpu: Percent, now: u64)
    requires
        m.contains_key(pid),
        now - m[pid] < s.cooldown_secs,
    ensures
        verdict_of(s, m, pid, cpu, now) != Verdict::Due,
{
}

/// Once the cooldown has run out, a process over the threshold gets a new
/// attempt; a delivered one overwrites the record's time and adds no record.
pub proof fn law_cooldown_expired(s: Settings, m: Map<u64, u64>, pid: u64, cpu: Percent, now: u64)
    requires
        cpu.scaled() >= s.threshold.scaled(),
        m.contains_key(pid),
        now - m[pid] >= s.cooldown_secs,
    ensures
        verdict_of(s, m, pid, cpu, now) == Verdict::Due,
        after_attempt(m, pid, now, Delivery::Delivered).dom() == m.dom(),
        after_attempt(m, pid, now, Delivery::Delivered)[pid] == now,
        forall|k: u64| k != pid && m.contains_key(k) ==> after_attempt(m, pid, now, Delivery::Delivered)[k] == m[k],
{
    assert(m.insert(pid, now).dom() =~= m.dom());
}

/// An attempt that was not delivered leaves the table as it was, so at any later
/// instant the process is judged exactly as if no attempt had been made; with no
/// earlier record it is due again at once.
pub proof fn law_undelivered_changes_nothing(
    s: Settings,
    m: Map<u64, u64>,
    pid: u64,
    now: u64,
    d: Delivery,
    cpu: Percent,
    later: u64,
)
    requires
        d != Delivery::Delivered,
    ensures
        after_attempt(m, pid, now, d) == m,
        verdict_of(s, after_attempt(m, pid, now, d), pid, cpu, later) == verdict_of(s, m, pid, cpu, later),
        !m.contains_key(pid) && cpu.scaled() >= s.threshold.scaled() ==> verdict_of(s, after_attempt(m, pid, now, d), pid, cpu, later) == Verdict::Due,
{
}

/// A delivered alert never moves a record's time back: an attempt is due only
/// when any record for the pid is at least a cooldown old.
pub proof fn law_stamps_never_go_back(s: Settings, m: Map<u64, u64>, pid: u64, cpu: Percent, now: u64)
    requires
        verdict_of(s, m, pid, cpu, now) == Verdict::Due,
    ensures
        forall|k: u64| m.contains_key(k) ==> #[trigger] after_attempt(m, pid, now, Delivery::Delivered)[k] >= m[k],
{
}

/// The sweep removes every record at least five cooldowns old, whatever the
/// process's usage, and keeps every other record unchanged.
pub proof fn law_sweep(m: Map<u64, u64>, cooldown: u64, now: u64)
    ensures
        forall|k: u64| m.contains_key(k) && now - m[k] >= 5 * cooldown ==> !#[trigger] swept(m, cooldown, now).contains_key(k),
        forall|k: u64| m.contains_key(k) && now - m[k] < 5 * cooldown ==> #[trigger] swept(m, cooldown, now).contains_key(k) && swept(m, cooldown, now)[k] == m[k],
        forall|k: u64| !m.contains_key(k) ==> !#[trigger] swept(m, cooldown, now).contains_key(k),
{
}

} // verus!

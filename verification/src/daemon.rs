//! The decisions of the daemon: what to do on a message, when a process's data is complete
//! enough, and what a reload changes.

use vstd::prelude::*;

use crate::applier::{application_of, Application, Applier};
use crate::config::{Config, ConfigView};
use crate::platform::linux::events::ProcEvent;
use crate::platform::linux::scheduler::ScxScheduler;
use crate::rules::loader::LoadError;
use crate::rules::matcher::{first_match, ContextView, Matcher, ProcessContext};
use crate::rules::types::{ResolvedRuleView, RuleSet, RuleSetView};
use crate::rules::validator::{refused_up_to, resolved_up_to, ValidationError};

verus! {

/// Maximum number of pending exec events buffered before new events are
/// dropped under sustained burst load.
pub const EXEC_QUEUE_CAPACITY: usize = 2048;

/// Maximum number of exec events processed concurrently after dequeue.
pub const EXEC_CONCURRENCY: usize = 32;

/// The daemon's settings.
pub struct Daemon {
    config: Config,
}

impl View for Daemon {
    type V = ConfigView;

    closed spec fn view(&self) -> ConfigView {
        self.config@
    }
}

impl Daemon {
    /// A daemon with these settings.
    pub fn new(config: Config) -> (r: Daemon)
        ensures
            r@ == config@,
    {
        Daemon { config }
    }

    /// The settings.
    pub fn config(&self) -> (r: &Config)
        ensures
            r@ == self@,
    {
        &self.config
    }
}

/// What the daemon is told.
#[derive(Clone, Copy, Debug, PartialEq, Eq, Structural)]
pub enum DaemonMessage {
    /// Something happened to a process.
    Proc(ProcEvent),
    /// Load the rules again.
    ReloadRules,
    /// Stop.
    Shutdown,
}

/// What the daemon does.
#[derive(Clone, Copy, Debug, PartialEq, Eq, Structural)]
pub enum DaemonAction {
    /// Queue the process for matching.
    Enqueue(u32),
    /// Nothing.
    Ignore,
    /// Load the rules again.
    ReloadRules,
    /// Stop.
    Stop,
}

/// The process that an event queues: one that has loaded a new binary.
pub open spec fn queued_by(event: ProcEvent) -> Option<u32> {
    match event {
        ProcEvent::Exec { pid, .. } => Some(pid),
        ProcEvent::Fork { .. } => None,
        ProcEvent::Exit { .. } => None,
    }
}

/// The process that an event queues.
pub fn handle_proc_event(event: ProcEvent) -> (r: Option<u32>)
    ensures
        r == queued_by(event),
{
    match event {
        ProcEvent::Exec { pid, .. } => Some(pid),
        ProcEvent::Fork { .. } => None,
        ProcEvent::Exit { .. } => None,
    }
}

/// What the daemon does on a message. It goes on unless it is told to stop.
pub fn handle_message(message: DaemonMessage) -> (r: DaemonAction)
    ensures
        r == match message {
            DaemonMessage::Proc(event) => match queued_by(event) {
                Some(pid) => DaemonAction::Enqueue(pid),
                None => DaemonAction::Ignore,
            },
            DaemonMessage::ReloadRules => DaemonAction::ReloadRules,
            DaemonMessage::Shutdown => DaemonAction::Stop,
        },
{
    match message {
        DaemonMessage::Proc(event) => match handle_proc_event(event) {
            Some(pid) => DaemonAction::Enqueue(pid),
            None => DaemonAction::Ignore,
        },
        DaemonMessage::ReloadRules => DaemonAction::ReloadRules,
        DaemonMessage::Shutdown => DaemonAction::Stop,
    }
}

/// How a reload ended.
#[derive(Debug)]
pub enum ReloadOutcome {
    /// The new rules are in place; this many were resolved.
    Reloaded(usize),
    /// A file could not be read; the rules stay as they were.
    LoadFailed(LoadError),
    /// A rule was refused; the rules stay as they were.
    Invalid(ValidationError),
}

/// The rules after a reload: the new ones where they could be loaded and none is refused, and
/// the old ones otherwise.
pub open spec fn rules_after_reload(
    current: Seq<ResolvedRuleView>,
    loaded: Option<RuleSetView>,
) -> Seq<ResolvedRuleView> {
    match loaded {
        Some(set) => if refused_up_to(set, set.rules.len() as int) == 0 {
            resolved_up_to(set, set.rules.len() as int)
        } else {
            current
        },
        None => current,
    }
}

/// Put the rules that were loaded in place, unless something is wrong with them.
pub fn reload_rules(matcher: &mut Matcher, loaded: Result<RuleSet, LoadError>) -> (r: ReloadOutcome)
    ensures
        final(matcher)@ == rules_after_reload(
            old(matcher)@,
            match loaded {
                Ok(set) => Some(set@),
                Err(_) => None,
            },
        ),
        match (loaded, r) {
            (Err(e), ReloadOutcome::LoadFailed(f)) => e == f,
            (Ok(set), ReloadOutcome::Reloaded(count)) => refused_up_to(
                set@,
                set@.rules.len() as int,
            ) == 0 && count == final(matcher)@.len(),
            (Ok(set), ReloadOutcome::Invalid(e)) => e.problems == refused_up_to(
                set@,
                set@.rules.len() as int,
            ) && e.problems > 0,
            _ => false,
        },
{
    match loaded {
        Ok(set) => match set.validate() {
            Ok(resolved) => {
                let count: usize = resolved.len();
                *matcher = Matcher::new(resolved);
                ReloadOutcome::Reloaded(count)
            },
            Err(e) => ReloadOutcome::Invalid(e),
        },
        Err(e) => ReloadOutcome::LoadFailed(e),
    }
}

/// A reload that fails, because a file cannot be read or a rule is refused, keeps the rules.
pub proof fn law_failed_reload_keeps_rules(
    current: Seq<ResolvedRuleView>,
    loaded: Option<RuleSetView>,
)
    requires
        loaded matches Some(set) ==> refused_up_to(set, set.rules.len() as int) != 0,
    ensures
        rules_after_reload(current, loaded) == current,
{
}

/// The application of the rule that is found for a process, or `None` where none is found.
pub fn process_exec(
    matcher: &Matcher,
    applier: &Applier,
    scheduler: &ScxScheduler,
    ctx: &ProcessContext,
) -> (r: Option<Application>)
    ensures
        match first_match(matcher@, ctx@) {
            Some(i) => r matches Some(a) && a@ == application_of(
                applier@,
                ctx@,
                matcher@[i],
                scheduler@,
            ),
            None => r is None,
        },
{
    match matcher.find_match(ctx) {
        Some(rule) => Some(applier.apply(ctx, rule, scheduler)),
        None => None,
    }
}

/// Repeated attempts to read a process's data after the first wait, as far as they have come.
pub struct ContextRetry {
    max_wait_ms: u64,
    waited_ms: u64,
    backoff_ms: u64,
    last_partial: Option<ProcessContext>,
}

/// What a [`ContextRetry`] holds: how long it may wait, how long it has waited, how long it
/// waits next unless the budget is less, and what it has read last.
#[verifier::ext_equal]
pub struct RetryView {
    pub max_wait_ms: int,
    pub waited_ms: int,
    pub backoff_ms: int,
    pub last_partial: Option<ContextView>,
}

/// What an optional context holds.
pub open spec fn context_in(ctx: Option<ProcessContext>) -> Option<ContextView> {
    match ctx {
        Some(c) => Some(c@),
        None => None,
    }
}

impl View for ContextRetry {
    type V = RetryView;

    closed spec fn view(&self) -> RetryView {
        RetryView {
            max_wait_ms: self.max_wait_ms as int,
            waited_ms: self.waited_ms as int,
            backoff_ms: self.backoff_ms as int,
            last_partial: context_in(self.last_partial),
        }
    }
}

/// What to do after an attempt.
pub enum RetryStep {
    /// Use this context.
    Ready(ProcessContext),
    /// Wait this many milliseconds and read again.
    Sleep(u64),
    /// There is no context to be had.
    GiveUp,
}

/// What a [`RetryStep`] says.
pub enum RetryStepView {
    Ready(ContextView),
    Sleep(int),
    GiveUp,
}

impl View for RetryStep {
    type V = RetryStepView;

    open spec fn view(&self) -> RetryStepView {
        match self {
            RetryStep::Ready(ctx) => RetryStepView::Ready(ctx@),
            RetryStep::Sleep(ms) => RetryStepView::Sleep(*ms as int),
            RetryStep::GiveUp => RetryStepView::GiveUp,
        }
    }
}

/// Whether everything about the process could be read.
pub open spec fn is_complete(ctx: ContextView) -> bool {
    ctx.exe is Some && ctx.cmdline is Some
}

pub open spec fn smaller(a: int, b: int) -> int {
    if a < b {
        a
    } else {
        b
    }
}

impl RetryView {
    /// Whether the time to wait is used up.
    pub open spec fn is_spent(self) -> bool {
        self.waited_ms >= self.max_wait_ms
    }

    /// How long to wait next: the backoff, or what is left of the budget.
    pub open spec fn next_sleep(self) -> int {
        smaller(self.backoff_ms, self.max_wait_ms - self.waited_ms)
    }

    /// What to do after an attempt that has read this.
    pub open spec fn decided(self, read: Option<ContextView>) -> RetryStepView {
        match read {
            Some(ctx) => if self.is_spent() || is_complete(ctx) {
                RetryStepView::Ready(ctx)
            } else {
                RetryStepView::Sleep(self.next_sleep())
            },
            None => if !self.is_spent() {
                RetryStepView::Sleep(self.next_sleep())
            } else {
                match self.last_partial {
                    Some(ctx) => RetryStepView::Ready(ctx),
                    None => RetryStepView::GiveUp,
                }
            },
        }
    }

    /// The attempts after one more that has read this and is to be followed by another.
    pub open spec fn waited(self, read: Option<ContextView>) -> RetryView {
        RetryView {
            waited_ms: self.waited_ms + self.next_sleep(),
            backoff_ms: smaller(self.backoff_ms * 2, 8),
            last_partial: if read is Some {
                read
            } else {
                self.last_partial
            },
            ..self
        }
    }

    /// What holds of the attempts at any time.
    pub open spec fn is_sound(self) -> bool {
        0 <= self.waited_ms <= self.max_wait_ms && 1 <= self.backoff_ms <= 8
    }
}

/// The attempts before the first one.
pub open spec fn no_attempt(max_wait_ms: int) -> RetryView {
    RetryView { max_wait_ms, waited_ms: 0, backoff_ms: 1, last_partial: None }
}

impl ContextRetry {
    #[verifier::type_invariant]
    spec fn is_valid(self) -> bool {
        self.waited_ms <= self.max_wait_ms && 1 <= self.backoff_ms <= 8
    }

    /// What to do on an exec event: wait for the delay before anything is read. The attempts
    /// that follow wait at most as long in all between them.
    pub fn begin(exec_delay_ms: u64) -> (r: (RetryStep, ContextRetry))
        ensures
            r.0@ == RetryStepView::Sleep(exec_delay_ms as int),
            r.1@ == no_attempt(exec_delay_ms as int),
    {
        let retry = ContextRetry {
            max_wait_ms: exec_delay_ms,
            waited_ms: 0,
            backoff_ms: 1,
            last_partial: None,
        };
        (RetryStep::Sleep(exec_delay_ms), retry)
    }

    /// What to do after an attempt: `read` is the context, or `None` where the process's data
    /// could not be read.
    pub fn step(self, read: Option<ProcessContext>) -> (r: (RetryStep, Option<ContextRetry>))
        ensures
            r.0@ == self@.decided(context_in(read)),
            match r.1 {
                Some(next) => r.0 is Sleep && next@ == self@.waited(context_in(read)),
                None => !(r.0 is Sleep),
            },
            self@.is_sound(),
    {
        proof {
            use_type_invariant(&self);
        }
        let spent = self.waited_ms >= self.max_wait_ms;
        let mut last_partial = self.last_partial;
        match read {
            Some(ctx) => {
                if spent || ctx.exe.is_some() && ctx.cmdline.is_some() {
                    return (RetryStep::Ready(ctx), None);
                }
                last_partial = Some(ctx);
            },
            None => {
                if spent {
                    return match last_partial {
                        Some(ctx) => (RetryStep::Ready(ctx), None),
                        None => (RetryStep::GiveUp, None),
                    };
                }
            },
        }
        let remaining_ms: u64 = self.max_wait_ms - self.waited_ms;
        let sleep_ms: u64 = if self.backoff_ms < remaining_ms {
            self.backoff_ms
        } else {
            remaining_ms
        };
        let backoff_ms: u64 = if self.backoff_ms * 2 < 8 {
            self.backoff_ms * 2
        } else {
            8
        };
        let next = ContextRetry {
            max_wait_ms: self.max_wait_ms,
            waited_ms: self.waited_ms + sleep_ms,
            backoff_ms,
            last_partial,
        };
        (RetryStep::Sleep(sleep_ms), Some(next))
    }
}

/// When the attempt after the first `n` comes, in milliseconds of waiting since the exec event.
pub open spec fn attempt_time(exec_delay_ms: int, reads: Seq<Option<ContextView>>, n: int) -> int {
    exec_delay_ms + after_reads(exec_delay_ms, reads, n).waited_ms
}

/// No attempt comes before the delay has passed, the first comes right after it, and the last
/// within as much time again.
pub proof fn law_nothing_is_read_before_the_delay(
    exec_delay_ms: int,
    reads: Seq<Option<ContextView>>,
    n: int,
)
    requires
        0 <= n <= reads.len(),
        exec_delay_ms >= 0,
    ensures
        attempt_time(exec_delay_ms, reads, 0) == exec_delay_ms,
        exec_delay_ms <= attempt_time(exec_delay_ms, reads, n) <= 2 * exec_delay_ms,
{
    law_backoff_schedule(exec_delay_ms, reads, n);
}

/// Waiting makes progress and never exceeds the budget: each wait takes some time, and what has
/// been waited in all stays within the budget.
pub proof fn law_waiting_stays_in_budget(v: RetryView, read: Option<ContextView>)
    requires
        v.is_sound(),
        v.decided(read) is Sleep,
    ensures
        v.decided(read)->Sleep_0 >= 1,
        v.waited(read).waited_ms == v.waited_ms + v.decided(read)->Sleep_0,
        v.waited(read).is_sound(),
{
}

/// A context with everything read is used at once.
pub proof fn law_complete_context_is_used(v: RetryView, ctx: ContextView)
    requires
        is_complete(ctx),
    ensures
        v.decided(Some(ctx)) == RetryStepView::Ready(ctx),
{
}

/// Without a budget there is one attempt.
pub proof fn law_no_budget_no_wait(read: Option<ContextView>)
    ensures
        !(no_attempt(0).decided(read) is Sleep),
        read matches Some(ctx) ==> no_attempt(0).decided(read) == RetryStepView::Ready(ctx),
        read is None ==> no_attempt(0).decided(read) is GiveUp,
{
}

/// The attempts after the first `n` reads, each of which was followed by a wait.
pub open spec fn after_reads(max_wait_ms: int, reads: Seq<Option<ContextView>>, n: int) -> RetryView
    decreases n,
{
    if n <= 0 {
        no_attempt(max_wait_ms)
    } else {
        after_reads(max_wait_ms, reads, n - 1).waited(reads[n - 1])
    }
}

/// How long the waits grow: doubling from one millisecond up to eight.
pub open spec fn backoff_before(attempt: int) -> int {
    if attempt <= 0 {
        1
    } else if attempt == 1 {
        2
    } else if attempt == 2 {
        4
    } else {
        8
    }
}

/// The waits double from one millisecond up to eight, the last one cut to what is left, so that
/// there are no more waits than milliseconds in the budget.
pub proof fn law_backoff_schedule(max_wait_ms: int, reads: Seq<Option<ContextView>>, n: int)
    requires
        0 <= n <= reads.len(),
        max_wait_ms >= 0,
    ensures
        after_reads(max_wait_ms, reads, n).backoff_ms == backoff_before(n),
        after_reads(max_wait_ms, reads, n).is_sound(),
        after_reads(max_wait_ms, reads, n).max_wait_ms == max_wait_ms,
        after_reads(max_wait_ms, reads, n).next_sleep() == smaller(
            backoff_before(n),
            max_wait_ms - after_reads(max_wait_ms, reads, n).waited_ms,
        ),
        after_reads(max_wait_ms, reads, n).waited_ms >= smaller(n, max_wait_ms),
    decreases n,
{
    if n > 0 {
        law_backoff_schedule(max_wait_ms, reads, n - 1);
    }
}

/// What was read last is never lost: the attempts give up only where no read has ever
/// succeeded.
pub proof fn law_partial_context_is_kept(
    max_wait_ms: int,
    reads: Seq<Option<ContextView>>,
    n: int,
)
    requires
        0 <= n <= reads.len(),
    ensures
        after_reads(max_wait_ms, reads, n).last_partial is None <==> forall|i: int|
            0 <= i < n ==> (#[trigger] reads[i]) is None,
        after_reads(max_wait_ms, reads, n).decided(None) is GiveUp ==> forall|i: int|
            0 <= i < n ==> (#[trigger] reads[i]) is None,
    decreases n,
{
    if n > 0 {
        law_partial_context_is_kept(max_wait_ms, reads, n - 1);
    }
}

} // verus!

//! The daemon: what it queues, when it reads a process again, and which rules it goes by.

use vstd::prelude::*;

use crate::daemon::{
    after_reads, no_attempt, queued_by, rules_after_reload, RetryStepView, RetryView,
};
use crate::platform::linux::events::ProcEvent;
use crate::rules::matcher::ContextView;
use crate::rules::types::{ResolvedRuleView, RuleSetView};
use crate::rules::validator::{is_refused, refused_up_to, resolution, resolved_up_to};

verus! {

/// A process is queued by its own execution and by nothing else.
pub proof fn law_only_executions_queue(event: ProcEvent, pid: u32)
    ensures
        queued_by(event) == Some(pid) <==> event is Exec && event->Exec_pid == pid,
{
}

proof fn lemma_resolved_in_order(set: RuleSetView, n: int)
    requires
        0 <= n <= set.rules.len(),
    ensures
        resolved_up_to(set, n).len() + refused_up_to(set, n) == n,
        0 <= refused_up_to(set, n),
        refused_up_to(set, n) == 0 <==> forall|i: int|
            0 <= i < n ==> !is_refused(set.types, #[trigger] set.rules[i]),
        refused_up_to(set, n) == 0 ==> forall|i: int|
            0 <= i < n ==> #[trigger] resolved_up_to(set, n)[i] == resolution(
                set.types,
                set.rules[i],
            ),
    decreases n,
{
    if n > 0 {
        lemma_resolved_in_order(set, n - 1);
        if refused_up_to(set, n) == 0 {
            assert(resolved_up_to(set, n - 1).len() == n - 1);
        }
    }
}

/// Rules that are all accepted replace the ones before, each resolved and each in its place. One
/// that is refused, or a file that cannot be read, keeps the ones before.
pub proof fn law_reload_takes_all_or_nothing(
    current: Seq<ResolvedRuleView>,
    set: RuleSetView,
    i: int,
)
    ensures
        rules_after_reload(current, None) == current,
        0 <= i < set.rules.len() && is_refused(set.types, set.rules[i]) ==> rules_after_reload(
            current,
            Some(set),
        ) == current,
        (forall|k: int| 0 <= k < set.rules.len() ==> !is_refused(set.types, #[trigger] set.rules[k]))
            ==> {
            let rules = rules_after_reload(current, Some(set));
            &&& rules.len() == set.rules.len()
            &&& 0 <= i < set.rules.len() ==> rules[i] == resolution(set.types, set.rules[i])
        },
{
    lemma_resolved_in_order(set, set.rules.len() as int);
}

/// Every rule is resolved or counted as refused, and the resolved ones keep their order: one more
/// rule at the end adds to one of the two alone.
pub proof fn law_each_rule_is_resolved_or_refused(set: RuleSetView, n: int)
    requires
        0 <= n < set.rules.len(),
    ensures
        resolved_up_to(set, 0).len() == 0,
        refused_up_to(set, 0) == 0,
        is_refused(set.types, set.rules[n]) ==> resolved_up_to(set, n + 1) == resolved_up_to(set, n)
            && refused_up_to(set, n + 1) == refused_up_to(set, n) + 1,
        !is_refused(set.types, set.rules[n]) ==> resolved_up_to(set, n + 1) == resolved_up_to(
            set,
            n,
        ) + seq![resolution(set.types, set.rules[n])] && refused_up_to(set, n + 1)
            == refused_up_to(set, n),
        resolved_up_to(set, n + 1).len() + refused_up_to(set, n + 1) == n + 1,
{
    lemma_resolved_in_order(set, n + 1);
}

/// While there is time, a process that could not be read, or only in part, is read again after a
/// wait that is as long as the backoff says and no longer than the time that is left; when the
/// time is over, what was read is used, or else what was read before, or else nothing.
pub proof fn law_reads_go_on_while_there_is_time(v: RetryView, ctx: ContextView)
    requires
        v.is_sound(),
    ensures
        v.waited_ms < v.max_wait_ms && (ctx.exe is None || ctx.cmdline is None) ==> v.decided(
            Some(ctx),
        ) is Sleep,
        v.waited_ms < v.max_wait_ms ==> v.decided(None) is Sleep,
        v.waited_ms < v.max_wait_ms ==> {
            let wait = v.decided(None)->Sleep_0;
            &&& wait <= v.backoff_ms
            &&& wait <= v.max_wait_ms - v.waited_ms
            &&& wait == v.backoff_ms || wait == v.max_wait_ms - v.waited_ms
        },
        v.decided(Some(ctx)) is Sleep ==> v.decided(Some(ctx)) == v.decided(None),
        ctx.exe is Some && ctx.cmdline is Some ==> v.decided(Some(ctx)) == RetryStepView::Ready(ctx),
        v.waited_ms >= v.max_wait_ms ==> v.decided(Some(ctx)) == RetryStepView::Ready(ctx),
        v.waited_ms >= v.max_wait_ms && v.last_partial is Some ==> v.decided(None)
            == RetryStepView::Ready(v.last_partial->0),
        v.waited_ms >= v.max_wait_ms && v.last_partial is None ==> v.decided(None)
            == RetryStepView::GiveUp,
{
}

/// The wait doubles each time up to eight milliseconds, and the budget stays.
pub proof fn law_wait_doubles_up_to_eight(v: RetryView, read: Option<ContextView>, max_wait_ms: int)
    requires
        v.is_sound(),
    ensures
        v.backoff_ms <= 4 ==> v.waited(read).backoff_ms == v.backoff_ms + v.backoff_ms,
        v.backoff_ms > 4 ==> v.waited(read).backoff_ms == 8,
        v.waited(read).max_wait_ms == v.max_wait_ms,
        read is Some ==> v.waited(read).last_partial == read,
        read is None ==> v.waited(read).last_partial == v.last_partial,
        no_attempt(max_wait_ms) == (RetryView {
            max_wait_ms,
            waited_ms: 0,
            backoff_ms: 1,
            last_partial: None,
        }),
{
}

/// What is kept of the reads is the last that succeeded.
pub proof fn law_last_read_is_kept(
    max_wait_ms: int,
    reads: Seq<Option<ContextView>>,
    n: int,
    k: int,
)
    requires
        0 <= k < n <= reads.len(),
        reads[k] is Some,
        forall|i: int| k < i < n ==> (#[trigger] reads[i]) is None,
    ensures
        after_reads(max_wait_ms, reads, n).last_partial == reads[k],
    decreases n,
{
    if k < n - 1 {
        assert(reads[n - 1] is None);
        law_last_read_is_kept(max_wait_ms, reads, n - 1, k);
    }
}

} // verus!

//! Which sched_ext scheduler is active, and how rules are translated for it.

use vstd::prelude::*;

use crate::text::{lowercase, same_text, starts_with, text_in, trim, trimmed};

verus! {

/// The currently active sched-ext scheduler, or `NoScheduler` if CFS is running.
#[derive(Clone, Debug, PartialEq, Eq)]
pub enum ScxScheduler {
    Lavd,
    Layered,
    Rusty,
    Bpfland,
    Unknown(String),
    /// No scx scheduler active (CFS / other).
    NoScheduler,
}

/// What a [`ScxScheduler`] stands for.
pub enum SchedulerView {
    Lavd,
    Layered,
    Rusty,
    Bpfland,
    Unknown(Seq<char>),
    NoScheduler,
}

impl View for ScxScheduler {
    type V = SchedulerView;

    open spec fn view(&self) -> SchedulerView {
        match self {
            ScxScheduler::Lavd => SchedulerView::Lavd,
            ScxScheduler::Layered => SchedulerView::Layered,
            ScxScheduler::Rusty => SchedulerView::Rusty,
            ScxScheduler::Bpfland => SchedulerView::Bpfland,
            ScxScheduler::Unknown(name) => SchedulerView::Unknown(name@),
            ScxScheduler::NoScheduler => SchedulerView::NoScheduler,
        }
    }
}

/// How arbiter translates rules into kernel hints for the active scheduler.
#[derive(Clone, Copy, Debug, PartialEq, Eq, Structural)]
pub enum Strategy {
    /// nice + cgroup.weight - respected by lavd, rusty, bpfland, and most
    /// scx schedulers that honour UNIX priority.
    NiceAndWeight,
    /// Generate a scx_layered layer-spec JSON file so layered can
    /// automatically assign processes to layers via regex or comm rules.
    LayeredJson,
    /// Fallback on a plain CFS system: nice, ionice, and oom_score_adj only.
    BasicHints,
}

impl Strategy {
    /// The variant's name.
    pub open spec fn name_of(self) -> Seq<char> {
        match self {
            Strategy::NiceAndWeight => "NiceAndWeight"@,
            Strategy::LayeredJson => "LayeredJson"@,
            Strategy::BasicHints => "BasicHints"@,
        }
    }

    /// The variant's name.
    pub fn name(self) -> (s: String)
        ensures
            s@ == self.name_of(),
    {
        match self {
            Strategy::NiceAndWeight => "NiceAndWeight".to_owned(),
            Strategy::LayeredJson => "LayeredJson".to_owned(),
            Strategy::BasicHints => "BasicHints".to_owned(),
        }
    }
}

impl SchedulerView {
    /// The strategy that suits the scheduler.
    pub open spec fn strategy(self) -> Strategy {
        match self {
            SchedulerView::Layered => Strategy::LayeredJson,
            SchedulerView::NoScheduler => Strategy::BasicHints,
            _ => Strategy::NiceAndWeight,
        }
    }

    /// The name under which the scheduler is reported.
    pub open spec fn display(self) -> Seq<char> {
        match self {
            SchedulerView::Lavd => "scx_lavd"@,
            SchedulerView::Layered => "scx_layered"@,
            SchedulerView::Rusty => "scx_rusty"@,
            SchedulerView::Bpfland => "scx_bpfland"@,
            SchedulerView::Unknown(name) => name,
            SchedulerView::NoScheduler => "none (CFS)"@,
        }
    }
}

impl ScxScheduler {
    /// The strategy that suits the scheduler.
    pub fn strategy(&self) -> (r: Strategy)
        ensures
            r == self@.strategy(),
    {
        match self {
            ScxScheduler::Lavd
            | ScxScheduler::Rusty
            | ScxScheduler::Bpfland
            | ScxScheduler::Unknown(_) => Strategy::NiceAndWeight,
            ScxScheduler::Layered => Strategy::LayeredJson,
            ScxScheduler::NoScheduler => Strategy::BasicHints,
        }
    }

    /// The name under which the scheduler is reported.
    pub fn display(&self) -> (s: String)
        ensures
            s@ == self@.display(),
    {
        match self {
            ScxScheduler::Lavd => "scx_lavd".to_owned(),
            ScxScheduler::Layered => "scx_layered".to_owned(),
            ScxScheduler::Rusty => "scx_rusty".to_owned(),
            ScxScheduler::Bpfland => "scx_bpfland".to_owned(),
            ScxScheduler::Unknown(name) => name.clone(),
            ScxScheduler::NoScheduler => "none (CFS)".to_owned(),
        }
    }
}

/// Whether the lower-case form of `name` begins with `prefix`.
pub open spec fn begins_with(name: Seq<char>, prefix: Seq<char>) -> bool {
    prefix.is_prefix_of(lowercase(name))
}

/// The scheduler that an ops name stands for. The kernel may report a version suffix behind
/// the name, so the beginning decides, in any case of letters.
pub open spec fn scheduler_named(name: Seq<char>) -> SchedulerView {
    if begins_with(name, "scx_lavd"@) || begins_with(name, "lavd"@) {
        SchedulerView::Lavd
    } else if begins_with(name, "scx_layered"@) || begins_with(name, "layered"@) {
        SchedulerView::Layered
    } else if begins_with(name, "scx_rusty"@) || begins_with(name, "rusty"@) {
        SchedulerView::Rusty
    } else if begins_with(name, "scx_bpfland"@) || begins_with(name, "bpfland"@) {
        SchedulerView::Bpfland
    } else {
        SchedulerView::Unknown(name)
    }
}

/// The scheduler that an ops name stands for.
fn scheduler_from_name(name: String) -> (r: ScxScheduler)
    ensures
        r@ == scheduler_named(name@),
{
    let lower = name.as_str().to_lowercase();
    let lc = lower.as_str();
    if starts_with(lc, "scx_lavd") || starts_with(lc, "lavd") {
        ScxScheduler::Lavd
    } else if starts_with(lc, "scx_layered") || starts_with(lc, "layered") {
        ScxScheduler::Layered
    } else if starts_with(lc, "scx_rusty") || starts_with(lc, "rusty") {
        ScxScheduler::Rusty
    } else if starts_with(lc, "scx_bpfland") || starts_with(lc, "bpfland") {
        ScxScheduler::Bpfland
    } else {
        ScxScheduler::Unknown(name)
    }
}

/// The scheduler that the two sysfs files tell of.
pub open spec fn detected(state: Option<Seq<char>>, ops: Option<Seq<char>>) -> SchedulerView {
    match state {
        None => SchedulerView::NoScheduler,
        Some(text) => if trimmed(text) != "enabled"@ {
            SchedulerView::NoScheduler
        } else {
            match ops {
                None => SchedulerView::Unknown("unknown"@),
                Some(name) => scheduler_named(trimmed(name)),
            }
        },
    }
}

/// The scheduler that is running, from the contents of `/sys/kernel/sched_ext/state` and
/// `/sys/kernel/sched_ext/root/ops`; `None` stands for a file that could not be read.
pub fn detect(state: &Option<String>, ops: &Option<String>) -> (r: ScxScheduler)
    ensures
        r@ == detected(text_in(*state), text_in(*ops)),
{
    match state {
        None => ScxScheduler::NoScheduler,
        Some(text) => if !same_text(trim(text.as_str()).as_str(), "enabled") {
            ScxScheduler::NoScheduler
        } else {
            match ops {
                None => ScxScheduler::Unknown("unknown".to_owned()),
                Some(name) => scheduler_from_name(trim(name.as_str())),
            }
        },
    }
}

} // verus!

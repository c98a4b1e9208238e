//! Translation of priorities into cgroup v2 weights.

use vstd::prelude::*;

use crate::platform::linux::scheduler::Strategy;
use crate::rules::types::IoClass;

verus! {

/// The cgroup weight to write: the configured one, under a strategy that uses weights.
pub fn effective_cgroup_weight(strategy: Strategy, configured_weight: Option<u64>) -> (r: Option<
    u64,
>)
    ensures
        r == effective_weight(strategy, configured_weight),
{
    if strategy == Strategy::NiceAndWeight {
        configured_weight
    } else {
        None
    }
}

/// The cgroup weight to write.
pub open spec fn effective_weight(strategy: Strategy, configured_weight: Option<u64>) -> Option<
    u64,
> {
    if strategy == Strategy::NiceAndWeight {
        configured_weight
    } else {
        None
    }
}

/// The priority level that counts: four where none is given, and never above seven.
pub open spec fn level_of(level: Option<u8>) -> int {
    match level {
        None => 4,
        Some(n) => if n > 7 {
            7
        } else {
            n as int
        },
    }
}

/// The `io.weight` for an IO class and level. The classes cover the ranges 800 to 1000, 100 to
/// 800 and 1 to 50, and level zero has the highest weight of its class.
pub open spec fn io_weight(ioclass: Option<IoClass>, level: Option<u8>) -> Option<u16> {
    let up = 7 - level_of(level);
    match ioclass {
        None => None,
        Some(IoClass::NoClass) => None,
        Some(IoClass::RealTime) => Some((800 + up * 200 / 7) as u16),
        Some(IoClass::BestEffort) => Some((100 + up * 100) as u16),
        Some(IoClass::Idle) => Some((1 + up * 7) as u16),
    }
}

/// The `io.weight` for an IO class and level.
pub fn ionice_to_io_weight(ioclass: Option<IoClass>, level: Option<u8>) -> (r: Option<u16>)
    ensures
        r == io_weight(ioclass, level),
{
    let class = match ioclass {
        None => {
            return None;
        },
        Some(class) => class,
    };
    let given: u8 = match level {
        Some(n) => n,
        None => 4,
    };
    let prio: u16 = if given > 7 {
        7
    } else {
        given as u16
    };
    match class {
        IoClass::RealTime => Some(800 + ((7 - prio) * 200) / 7),
        IoClass::BestEffort => Some(100 + ((7 - prio) * 700) / 7),
        IoClass::Idle => Some(1 + ((7 - prio) * 49) / 7),
        IoClass::NoClass => None,
    }
}

/// Every weight lies in the range that the kernel accepts, and in the range of its class.
pub proof fn law_io_weight_ranges(class: IoClass, level: Option<u8>)
    ensures
        class != IoClass::NoClass ==> io_weight(Some(class), level) is Some,
        class == IoClass::RealTime ==> 800 <= io_weight(Some(class), level)->0 <= 1000,
        class == IoClass::BestEffort ==> 100 <= io_weight(Some(class), level)->0 <= 800,
        class == IoClass::Idle ==> 1 <= io_weight(Some(class), level)->0 <= 50,
{
}

/// Within a class a more urgent level, which is a lower one, never has a lower weight.
pub proof fn law_io_weight_monotone(class: IoClass, urgent: u8, relaxed: u8)
    requires
        urgent <= relaxed,
        class != IoClass::NoClass,
    ensures
        io_weight(Some(class), Some(urgent))->0 >= io_weight(Some(class), Some(relaxed))->0,
{
}

/// A more urgent class never has a lower weight, whatever the levels.
pub proof fn law_io_weight_classes_ordered(a: Option<u8>, b: Option<u8>)
    ensures
        io_weight(Some(IoClass::RealTime), a)->0 >= io_weight(Some(IoClass::BestEffort), b)->0,
        io_weight(Some(IoClass::BestEffort), a)->0 > io_weight(Some(IoClass::Idle), b)->0,
{
}

} // verus!

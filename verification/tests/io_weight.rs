use arbiter::applier::io_weight::{effective_cgroup_weight, ionice_to_io_weight};
use arbiter::platform::linux::scheduler::Strategy;
use arbiter::rules::types::IoClass;

#[test]
fn only_nice_and_weight_strategy_writes_weight() {
    assert_eq!(
        effective_cgroup_weight(Strategy::NiceAndWeight, Some(900)),
        Some(900)
    );
    assert_eq!(
        effective_cgroup_weight(Strategy::BasicHints, Some(900)),
        None
    );
    assert_eq!(
        effective_cgroup_weight(Strategy::LayeredJson, Some(900)),
        None
    );
}

#[test]
fn ionice_maps_to_expected_io_weight_ranges() {
    assert_eq!(ionice_to_io_weight(Some(IoClass::NoClass), Some(0)), None);
    assert_eq!(
        ionice_to_io_weight(Some(IoClass::RealTime), Some(0)),
        Some(1000)
    );
    assert_eq!(
        ionice_to_io_weight(Some(IoClass::RealTime), Some(7)),
        Some(800)
    );
    assert_eq!(
        ionice_to_io_weight(Some(IoClass::BestEffort), Some(0)),
        Some(800)
    );
    assert_eq!(
        ionice_to_io_weight(Some(IoClass::BestEffort), Some(7)),
        Some(100)
    );
    assert_eq!(ionice_to_io_weight(Some(IoClass::Idle), Some(0)), Some(50));
    assert_eq!(ionice_to_io_weight(Some(IoClass::Idle), Some(7)), Some(1));
}

#[test]
fn more_urgent_levels_weigh_more() {
    for class in [IoClass::RealTime, IoClass::BestEffort] {
        for level in 0..7u8 {
            let urgent = ionice_to_io_weight(Some(class), Some(level)).unwrap();
            let relaxed = ionice_to_io_weight(Some(class), Some(level + 1)).unwrap();
            assert!(urgent >= relaxed);
        }
    }
}

#[test]
fn classes_never_overlap() {
    let least_real_time = ionice_to_io_weight(Some(IoClass::RealTime), Some(7)).unwrap();
    let most_best_effort = ionice_to_io_weight(Some(IoClass::BestEffort), Some(0)).unwrap();
    let least_best_effort = ionice_to_io_weight(Some(IoClass::BestEffort), Some(200)).unwrap();
    let idle = ionice_to_io_weight(Some(IoClass::Idle), Some(0)).unwrap();
    assert!(least_real_time >= most_best_effort);
    assert!(least_best_effort >= idle);
    assert!(idle >= 1);
}

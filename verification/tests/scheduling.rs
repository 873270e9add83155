use subblock_host::paths::HostFlavor;
use subblock_host::schedule::{schedule, ScheduleConfig, Step};

#[test]
fn sp1_host_builds_aggregation_input_first_and_never_proves() {
    let cfg = ScheduleConfig::for_flavor(HostFlavor::Sp1, 2, true, true, false);
    assert!(!cfg.prove);
    assert!(!cfg.dump_elfs);
    assert_eq!(
        schedule(&cfg),
        vec![
            Step::BuildAggregationStdin,
            Step::DumpAggregationStdin,
            Step::BuildSubblockStdin(0),
            Step::DumpSubblockStdin(0),
            Step::EmulateSubblock(0),
            Step::BuildSubblockStdin(1),
            Step::DumpSubblockStdin(1),
            Step::EmulateSubblock(1),
            Step::EmulateAggregation,
        ]
    );
}

#[test]
fn sp1_host_without_execution_only_writes_inputs() {
    let cfg = ScheduleConfig::for_flavor(HostFlavor::Sp1, 1, false, false, true);
    assert_eq!(
        schedule(&cfg),
        vec![
            Step::BuildAggregationStdin,
            Step::DumpAggregationStdin,
            Step::BuildSubblockStdin(0),
            Step::DumpSubblockStdin(0),
        ]
    );
}

#[test]
fn pico_host_proves_each_subblock_then_aggregates() {
    let cfg = ScheduleConfig::for_flavor(HostFlavor::Pico, 2, false, true, false);
    assert_eq!(
        schedule(&cfg),
        vec![
            Step::BuildSubblockStdin(0),
            Step::ProveSubblock(0),
            Step::BuildSubblockStdin(1),
            Step::ProveSubblock(1),
            Step::BuildAggregationStdin,
            Step::ProveAggregation,
        ]
    );
}

#[test]
fn pico_host_without_prove_flag_proves_nothing() {
    let cfg = ScheduleConfig::for_flavor(HostFlavor::Pico, 2, true, false, false);
    let steps = schedule(&cfg);
    assert!(!steps.iter().any(|s| matches!(s, Step::ProveSubblock(_) | Step::ProveAggregation)));
    assert_eq!(
        steps,
        vec![
            Step::BuildSubblockStdin(0),
            Step::EmulateSubblock(0),
            Step::BuildSubblockStdin(1),
            Step::EmulateSubblock(1),
            Step::BuildAggregationStdin,
            Step::EmulateAggregation,
        ]
    );
}

#[test]
fn pico_host_with_dump_writes_elfs_and_both_inputs() {
    let cfg = ScheduleConfig::for_flavor(HostFlavor::Pico, 1, true, true, true);
    assert_eq!(
        schedule(&cfg),
        vec![
            Step::DumpProgramElfs,
            Step::BuildSubblockStdin(0),
            Step::DumpSubblockStdin(0),
            Step::ProveSubblock(0),
            Step::EmulateSubblock(0),
            Step::BuildAggregationStdin,
            Step::DumpAggregationStdin,
            Step::ProveAggregation,
            Step::EmulateAggregation,
        ]
    );
}

#[test]
fn no_subblocks_still_aggregates() {
    let cfg = ScheduleConfig::for_flavor(HostFlavor::Pico, 0, false, true, false);
    assert_eq!(schedule(&cfg), vec![Step::BuildAggregationStdin, Step::ProveAggregation]);
}

#[test]
fn one_proof_per_subblock_in_order() {
    let cfg = ScheduleConfig::for_flavor(HostFlavor::Pico, 5, true, true, true);
    let proved: Vec<usize> = schedule(&cfg)
        .into_iter()
        .filter_map(|s| match s {
            Step::ProveSubblock(i) => Some(i),
            _ => None,
        })
        .collect();
    assert_eq!(proved, vec![0, 1, 2, 3, 4]);
}

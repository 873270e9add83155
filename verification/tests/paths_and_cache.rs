use subblock_host::cache::{
    cache_entry_dir, cache_lookup_path, cache_read_path, cache_write_path, choose_input_source,
    settle_cache_probe, CacheOutcome, CacheProbe, HostError, InputSource,
};
use subblock_host::paths::{
    aggregation_elf_file, aggregation_stdin_file, artifacts_dir, gas_segment, join_path,
    numbered_bin_file, subblock_elf_file,
    resolve_dump_dir, subblock_stdins_dir, HostFlavor,
};

#[test]
fn join_inserts_one_separator() {
    assert_eq!(join_path("a", "b"), "a/b");
    assert_eq!(join_path("a/", "b"), "a/b");
    assert_eq!(join_path("", "b"), "b");
    assert_eq!(join_path(".", "block1"), "./block1");
    assert_eq!(join_path("/", "x/y.bin"), "/x/y.bin");
}

#[test]
fn join_agrees_with_path_join_for_relative_parts() {
    for (base, part) in [("a", "b"), ("a/", "b"), ("", "b"), ("/tmp/x", "input/1/2.bin"), (".", "gas5")] {
        let expected = std::path::Path::new(base).join(part);
        assert_eq!(join_path(base, part), expected.to_str().unwrap());
    }
}

#[test]
fn gas_segment_names_the_limit() {
    assert_eq!(gas_segment(Some(30_000_000)), "gas30000000");
    assert_eq!(gas_segment(None), "gasUNSET");
}

#[test]
fn dump_dir_defaults_to_current_directory() {
    assert_eq!(resolve_dump_dir(None, 5, None), "./block5/gasUNSET");
}

#[test]
fn dump_dir_uses_given_directory_and_gas_limit() {
    assert_eq!(
        resolve_dump_dir(Some("/tmp/dumps"), 21_000_000, Some("30000000")),
        "/tmp/dumps/block21000000/gas30000000"
    );
}

#[test]
fn dump_dir_ignores_an_unparsable_gas_limit() {
    assert_eq!(resolve_dump_dir(Some("out/"), 7, Some("lots")), "out/block7/gasUNSET");
    assert_eq!(resolve_dump_dir(Some("out"), 7, Some("")), "out/block7/gasUNSET");
}

#[test]
fn artifact_paths() {
    let dir = artifacts_dir(42);
    assert_eq!(dir, "./artifacts/42");
    assert_eq!(aggregation_stdin_file(HostFlavor::Sp1, &dir), "./artifacts/42/agg-stdin.bin");
    assert_eq!(aggregation_stdin_file(HostFlavor::Pico, "dump"), "dump/agg_stdin.bin");
    assert_eq!(subblock_elf_file("dump"), "dump/subblock_elf.bin");
    assert_eq!(aggregation_elf_file("dump/"), "dump/agg_elf.bin");
    let stdins = subblock_stdins_dir(HostFlavor::Sp1, &dir);
    assert_eq!(stdins, "./artifacts/42/subblock-stdins");
    assert_eq!(numbered_bin_file(&stdins, 3), "./artifacts/42/subblock-stdins/3.bin");
    assert_eq!(subblock_stdins_dir(HostFlavor::Pico, "dump"), "dump/subblock_stdins");
}

#[test]
fn cache_paths() {
    assert_eq!(cache_read_path(HostFlavor::Sp1, "/c", 1, 100), "/c/input/1/100.bin");
    assert_eq!(cache_read_path(HostFlavor::Pico, "/c", 1, 100), "/c/subblock-input/1/100.bin");
    assert_eq!(cache_entry_dir(HostFlavor::Sp1, "/c", 1), "/c/input/1");
    assert_eq!(cache_write_path(HostFlavor::Sp1, "/c", 1, 100), "/c/input/1/100.bin");
    assert_eq!(cache_entry_dir(HostFlavor::Pico, "/c", 1), "/c/subblock-input/1");
    assert_eq!(cache_write_path(HostFlavor::Pico, "/c", 1, 100), "/c/subblock-input/1/100.bin");
}

#[test]
fn each_host_reads_the_entry_it_writes() {
    for flavor in [HostFlavor::Sp1, HostFlavor::Pico] {
        for (dir, chain, block) in [("cache", 1u64, 20_000_000u64), ("/var/c/", 11155111, 0), ("", 0, 9)] {
            assert_eq!(
                cache_write_path(flavor, dir, chain, block),
                cache_read_path(flavor, dir, chain, block)
            );
        }
    }
}

#[test]
fn lookup_needs_a_cache_directory() {
    assert_eq!(cache_lookup_path(HostFlavor::Sp1, None, 1, 2), None);
    assert_eq!(
        cache_lookup_path(HostFlavor::Sp1, Some("c"), 1, 2),
        Some("c/input/1/2.bin".to_string())
    );
}

#[test]
fn cache_probe_outcomes() {
    assert!(matches!(settle_cache_probe::<u32>(CacheProbe::Absent), CacheOutcome::Miss));
    assert!(matches!(settle_cache_probe(CacheProbe::Loaded(9u32)), CacheOutcome::Hit(9)));
    assert!(matches!(settle_cache_probe::<u32>(CacheProbe::Unreadable), CacheOutcome::DiscardThenMiss));
}

#[test]
fn input_source_choice() {
    assert_eq!(choose_input_source(true, false), Ok(InputSource::Cache));
    assert_eq!(choose_input_source(true, true), Ok(InputSource::Cache));
    assert_eq!(choose_input_source(false, true), Ok(InputSource::Rpc));
    assert_eq!(choose_input_source(false, false), Err(HostError::NoInputSource));
}

#[test]
fn each_block_has_its_own_cache_entry() {
    let a = cache_read_path(HostFlavor::Sp1, "c", 1, 23);
    let b = cache_read_path(HostFlavor::Sp1, "c", 12, 3);
    let c = cache_read_path(HostFlavor::Sp1, "c", 1, 24);
    assert_ne!(a, b);
    assert_ne!(a, c);
}

#[test]
fn settling_an_unreadable_entry_twice_is_a_miss_both_times() {
    let first = settle_cache_probe::<u32>(CacheProbe::Unreadable);
    assert!(matches!(first, CacheOutcome::DiscardThenMiss));
    let second = settle_cache_probe::<u32>(CacheProbe::Absent);
    assert!(matches!(second, CacheOutcome::Miss));
}

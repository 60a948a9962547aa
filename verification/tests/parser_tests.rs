use smaps_spy_tui::parser::{detect_file_type, parse_file, FileType};

/// A process's memory map in the rich format.
fn smaps_text() -> &'static str {
    "\
     55d4c8a00000-55d4c8a02000 r--p 00000000 08:01 1311346                    /usr/bin/cat\n\
     Size:                  8 kB\n\
     KernelPageSize:        4 kB\n\
     MMUPageSize:           4 kB\n\
     Rss:                   8 kB\n\
     Pss:                   8 kB\n\
     Shared_Clean:          0 kB\n\
     Shared_Dirty:          0 kB\n\
     Private_Clean:         8 kB\n\
     Private_Dirty:         0 kB\n\
     Referenced:            8 kB\n\
     Anonymous:             0 kB\n\
     LazyFree:              0 kB\n\
     AnonHugePages:         0 kB\n\
     ShmemPmdMapped:        0 kB\n\
     FilePmdMapped:         0 kB\n\
     Shared_Hugetlb:        0 kB\n\
     Private_Hugetlb:       0 kB\n\
     Swap:                  0 kB\n\
     SwapPss:               0 kB\n\
     Locked:                0 kB\n\
     THPeligible:    0\n\
     VmFlags: rd mr mw me dw sd\n\
     55d4c8a02000-55d4c8a07000 r-xp 00002000 08:01 1311346                    /usr/bin/cat\n\
     Size:                 20 kB\n\
     KernelPageSize:        4 kB\n\
     MMUPageSize:           4 kB\n\
     Rss:                  20 kB\n\
     Pss:                  20 kB\n\
     Shared_Clean:          0 kB\n\
     Shared_Dirty:          0 kB\n\
     Private_Clean:        20 kB\n\
     Private_Dirty:         0 kB\n\
     Referenced:           20 kB\n\
     Anonymous:             0 kB\n\
     LazyFree:              0 kB\n\
     AnonHugePages:         0 kB\n\
     ShmemPmdMapped:        0 kB\n\
     FilePmdMapped:         0 kB\n\
     Shared_Hugetlb:        0 kB\n\
     Private_Hugetlb:       0 kB\n\
     Swap:                  0 kB\n\
     SwapPss:               0 kB\n\
     Locked:                0 kB\n\
     THPeligible:    0\n\
     VmFlags: rd ex mr mw me dw sd\n\
     55d4c8a07000-55d4c8a0a000 r--p 00007000 08:01 1311346                    /usr/bin/cat\n\
     Size:                 12 kB\n\
     KernelPageSize:        4 kB\n\
     MMUPageSize:           4 kB\n\
     Rss:                  12 kB\n\
     Pss:                  12 kB\n\
     Shared_Clean:          0 kB\n\
     Shared_Dirty:          0 kB\n\
     Private_Clean:        12 kB\n\
     Private_Dirty:         0 kB\n\
     Referenced:           12 kB\n\
     Anonymous:             0 kB\n\
     LazyFree:              0 kB\n\
     AnonHugePages:         0 kB\n\
     ShmemPmdMapped:        0 kB\n\
     FilePmdMapped:         0 kB\n\
     Shared_Hugetlb:        0 kB\n\
     Private_Hugetlb:       0 kB\n\
     Swap:                  0 kB\n\
     SwapPss:               0 kB\n\
     Locked:                0 kB\n\
     THPeligible:    0\n\
     VmFlags: rd mr mw me dw sd\n\
     55d4c8a0a000-55d4c8a0b000 r--p 00009000 08:01 1311346                    /usr/bin/cat\n\
     Size:                  4 kB\n\
     KernelPageSize:        4 kB\n\
     MMUPageSize:           4 kB\n\
     Rss:                   4 kB\n\
     Pss:                   4 kB\n\
     Shared_Clean:          0 kB\n\
     Shared_Dirty:          0 kB\n\
     Private_Clean:         4 kB\n\
     Private_Dirty:         0 kB\n\
     Referenced:            4 kB\n\
     Anonymous:             0 kB\n\
     LazyFree:              0 kB\n\
     AnonHugePages:         0 kB\n\
     ShmemPmdMapped:        0 kB\n\
     FilePmdMapped:         0 kB\n\
     Shared_Hugetlb:        0 kB\n\
     Private_Hugetlb:       0 kB\n\
     Swap:                  0 kB\n\
     SwapPss:               0 kB\n\
     Locked:                0 kB\n\
     THPeligible:    0\n\
     VmFlags: rd mr mw me dw ac sd\n\
     55d4c8a0b000-55d4c8a0c000 rw-p 0000a000 08:01 1311346                    /usr/bin/cat\n\
     Size:                  4 kB\n\
     KernelPageSize:        4 kB\n\
     MMUPageSize:           4 kB\n\
     Rss:                   4 kB\n\
     Pss:                   4 kB\n\
     Shared_Clean:          0 kB\n\
     Shared_Dirty:          0 kB\n\
     Private_Clean:         4 kB\n\
     Private_Dirty:         0 kB\n\
     Referenced:            4 kB\n\
     Anonymous:             0 kB\n\
     LazyFree:              0 kB\n\
     AnonHugePages:         0 kB\n\
     ShmemPmdMapped:        0 kB\n\
     FilePmdMapped:         0 kB\n\
     Shared_Hugetlb:        0 kB\n\
     Private_Hugetlb:       0 kB\n\
     Swap:                  0 kB\n\
     SwapPss:               0 kB\n\
     Locked:                0 kB\n\
     THPeligible:    0\n\
     VmFlags: rd wr mr mw me dw ac sd\n\
     55d4c9f3b000-55d4c9f5c000 rw-p 00000000 00:00 0                          [heap]\n\
     Size:                132 kB\n\
     KernelPageSize:        4 kB\n\
     MMUPageSize:           4 kB\n\
     Rss:                   4 kB\n\
     Pss:                   4 kB\n\
     Shared_Clean:          0 kB\n\
     Shared_Dirty:          0 kB\n\
     Private_Clean:         4 kB\n\
     Private_Dirty:         0 kB\n\
     Referenced:            4 kB\n\
     Anonymous:             0 kB\n\
     LazyFree:              0 kB\n\
     AnonHugePages:         0 kB\n\
     ShmemPmdMapped:        0 kB\n\
     FilePmdMapped:         0 kB\n\
     Shared_Hugetlb:        0 kB\n\
     Private_Hugetlb:       0 kB\n\
     Swap:                  0 kB\n\
     SwapPss:               0 kB\n\
     Locked:                0 kB\n\
     THPeligible:    0\n\
     VmFlags: rd wr mr mw me ac sd\n\
     7f2c5e000000-7f2c5e022000 r--p 00000000 08:01 1315220                    /usr/lib/x86_64-linux-gnu/libc-2.31.so\n\
     Size:                136 kB\n\
     KernelPageSize:        4 kB\n\
     MMUPageSize:           4 kB\n\
     Rss:                 132 kB\n\
     Pss:                   2 kB\n\
     Shared_Clean:          0 kB\n\
     Shared_Dirty:          0 kB\n\
     Private_Clean:       132 kB\n\
     Private_Dirty:         0 kB\n\
     Referenced:          132 kB\n\
     Anonymous:             0 kB\n\
     LazyFree:              0 kB\n\
     AnonHugePages:         0 kB\n\
     ShmemPmdMapped:        0 kB\n\
     FilePmdMapped:         0 kB\n\
     Shared_Hugetlb:        0 kB\n\
     Private_Hugetlb:       0 kB\n\
     Swap:                  0 kB\n\
     SwapPss:               0 kB\n\
     Locked:                0 kB\n\
     THPeligible:    0\n\
     VmFlags: rd mr mw me sd\n\
     7f2c5e022000-7f2c5e19a000 r-xp 00022000 08:01 1315220                    /usr/lib/x86_64-linux-gnu/libc-2.31.so\n\
     Size:               1504 kB\n\
     KernelPageSize:        4 kB\n\
     MMUPageSize:           4 kB\n\
     Rss:                 876 kB\n\
     Pss:                  13 kB\n\
     Shared_Clean:          0 kB\n\
     Shared_Dirty:          0 kB\n\
     Private_Clean:       876 kB\n\
     Private_Dirty:         0 kB\n\
     Referenced:          876 kB\n\
     Anonymous:             0 kB\n\
     LazyFree:              0 kB\n\
     AnonHugePages:         0 kB\n\
     ShmemPmdMapped:        0 kB\n\
     FilePmdMapped:         0 kB\n\
     Shared_Hugetlb:        0 kB\n\
     Private_Hugetlb:       0 kB\n\
     Swap:                  0 kB\n\
     SwapPss:               0 kB\n\
     Locked:                0 kB\n\
     THPeligible:    0\n\
     VmFlags: rd ex mr mw me sd\n\
     7f2c5e19a000-7f2c5e1e8000 r--p 0019a000 08:01 1315220                    /usr/lib/x86_64-linux-gnu/libc-2.31.so\n\
     Size:                312 kB\n\
     KernelPageSize:        4 kB\n\
     MMUPageSize:           4 kB\n\
     Rss:                 128 kB\n\
     Pss:                   1 kB\n\
     Shared_Clean:          0 kB\n\
     Shared_Dirty:          0 kB\n\
     Private_Clean:       128 kB\n\
     Private_Dirty:         0 kB\n\
     Referenced:          128 kB\n\
     Anonymous:             0 kB\n\
     LazyFree:              0 kB\n\
     AnonHugePages:         0 kB\n\
     ShmemPmdMapped:        0 kB\n\
     FilePmdMapped:         0 kB\n\
     Shared_Hugetlb:        0 kB\n\
     Private_Hugetlb:       0 kB\n\
     Swap:                  0 kB\n\
     SwapPss:               0 kB\n\
     Locked:                0 kB\n\
     THPeligible:    0\n\
     VmFlags: rd mr mw me sd\n\
     7f2c5e1e8000-7f2c5e1ec000 r--p 001e7000 08:01 1315220                    /usr/lib/x86_64-linux-gnu/libc-2.31.so\n\
     Size:                 16 kB\n\
     KernelPageSize:        4 kB\n\
     MMUPageSize:           4 kB\n\
     Rss:                  16 kB\n\
     Pss:                  16 kB\n\
     Shared_Clean:          0 kB\n\
     Shared_Dirty:          0 kB\n\
     Private_Clean:        16 kB\n\
     Private_Dirty:         0 kB\n\
     Referenced:           16 kB\n\
     Anonymous:             0 kB\n\
     LazyFree:              0 kB\n\
     AnonHugePages:         0 kB\n\
     ShmemPmdMapped:        0 kB\n\
     FilePmdMapped:         0 kB\n\
     Shared_Hugetlb:        0 kB\n\
     Private_Hugetlb:       0 kB\n\
     Swap:                  0 kB\n\
     SwapPss:               0 kB\n\
     Locked:                0 kB\n\
     THPeligible:    0\n\
     VmFlags: rd mr mw me ac sd\n\
     7f2c5e1ec000-7f2c5e1ee000 rw-p 001eb000 08:01 1315220                    /usr/lib/x86_64-linux-gnu/libc-2.31.so\n\
     Size:                  8 kB\n\
     KernelPageSize:        4 kB\n\
     MMUPageSize:           4 kB\n\
     Rss:                   8 kB\n\
     Pss:                   8 kB\n\
     Shared_Clean:          0 kB\n\
     Shared_Dirty:          0 kB\n\
     Private_Clean:         8 kB\n\
     Private_Dirty:         0 kB\n\
     Referenced:            8 kB\n\
     Anonymous:             0 kB\n\
     LazyFree:              0 kB\n\
     AnonHugePages:         0 kB\n\
     ShmemPmdMapped:        0 kB\n\
     FilePmdMapped:         0 kB\n\
     Shared_Hugetlb:        0 kB\n\
     Private_Hugetlb:       0 kB\n\
     Swap:                  0 kB\n\
     SwapPss:               0 kB\n\
     Locked:                0 kB\n\
     THPeligible:    0\n\
     VmFlags: rd wr mr mw me ac sd\n\
     7f2c5e1ee000-7f2c5e1f2000 rw-p 00000000 00:00 0\n\
     Size:                 16 kB\n\
     KernelPageSize:        4 kB\n\
     MMUPageSize:           4 kB\n\
     Rss:                  12 kB\n\
     Pss:                  12 kB\n\
     Shared_Clean:          0 kB\n\
     Shared_Dirty:          0 kB\n\
     Private_Clean:        12 kB\n\
     Private_Dirty:         0 kB\n\
     Referenced:           12 kB\n\
     Anonymous:             0 kB\n\
     LazyFree:              0 kB\n\
     AnonHugePages:         0 kB\n\
     ShmemPmdMapped:        0 kB\n\
     FilePmdMapped:         0 kB\n\
     Shared_Hugetlb:        0 kB\n\
     Private_Hugetlb:       0 kB\n\
     Swap:                  0 kB\n\
     SwapPss:               0 kB\n\
     Locked:                0 kB\n\
     THPeligible:    0\n\
     VmFlags: rd wr mr mw me ac sd\n\
     7ffc1a6d5000-7ffc1a6f6000 rw-p 00000000 00:00 0                          [stack]\n\
     Size:                132 kB\n\
     KernelPageSize:        4 kB\n\
     MMUPageSize:           4 kB\n\
     Rss:                  12 kB\n\
     Pss:                  12 kB\n\
     Shared_Clean:          0 kB\n\
     Shared_Dirty:          0 kB\n\
     Private_Clean:        12 kB\n\
     Private_Dirty:         0 kB\n\
     Referenced:           12 kB\n\
     Anonymous:             0 kB\n\
     LazyFree:              0 kB\n\
     AnonHugePages:         0 kB\n\
     ShmemPmdMapped:        0 kB\n\
     FilePmdMapped:         0 kB\n\
     Shared_Hugetlb:        0 kB\n\
     Private_Hugetlb:       0 kB\n\
     Swap:                  0 kB\n\
     SwapPss:               0 kB\n\
     Locked:                0 kB\n\
     THPeligible:    0\n\
     VmFlags: rd wr mr mw me gd ac\n\
     7ffc1a7c3000-7ffc1a7c6000 r--p 00000000 00:00 0                          [vvar]\n\
     Size:                 12 kB\n\
     KernelPageSize:        4 kB\n\
     MMUPageSize:           4 kB\n\
     Rss:                   0 kB\n\
     Pss:                   0 kB\n\
     Shared_Clean:          0 kB\n\
     Shared_Dirty:          0 kB\n\
     Private_Clean:         0 kB\n\
     Private_Dirty:         0 kB\n\
     Referenced:            0 kB\n\
     Anonymous:             0 kB\n\
     LazyFree:              0 kB\n\
     AnonHugePages:         0 kB\n\
     ShmemPmdMapped:        0 kB\n\
     FilePmdMapped:         0 kB\n\
     Shared_Hugetlb:        0 kB\n\
     Private_Hugetlb:       0 kB\n\
     Swap:                  0 kB\n\
     SwapPss:               0 kB\n\
     Locked:                0 kB\n\
     THPeligible:    0\n\
     VmFlags: rd mr pf io de dd sd\n\
     7ffc1a7c6000-7ffc1a7c7000 r-xp 00000000 00:00 0                          [vdso]\n\
     Size:                  4 kB\n\
     KernelPageSize:        4 kB\n\
     MMUPageSize:           4 kB\n\
     Rss:                   4 kB\n\
     Pss:                   0 kB\n\
     Shared_Clean:          0 kB\n\
     Shared_Dirty:          0 kB\n\
     Private_Clean:         4 kB\n\
     Private_Dirty:         0 kB\n\
     Referenced:            4 kB\n\
     Anonymous:             0 kB\n\
     LazyFree:              0 kB\n\
     AnonHugePages:         0 kB\n\
     ShmemPmdMapped:        0 kB\n\
     FilePmdMapped:         0 kB\n\
     Shared_Hugetlb:        0 kB\n\
     Private_Hugetlb:       0 kB\n\
     Swap:                  0 kB\n\
     SwapPss:               0 kB\n\
     Locked:                0 kB\n\
     THPeligible:    0\n\
     VmFlags: rd ex mr mw me de sd\n\
     ffffffffff600000-ffffffffff601000 --xp 00000000 00:00 0                  [vsyscall]\n\
     Size:                  4 kB\n\
     KernelPageSize:        4 kB\n\
     MMUPageSize:           4 kB\n\
     Rss:                   0 kB\n\
     Pss:                   0 kB\n\
     Shared_Clean:          0 kB\n\
     Shared_Dirty:          0 kB\n\
     Private_Clean:         0 kB\n\
     Private_Dirty:         0 kB\n\
     Referenced:            0 kB\n\
     Anonymous:             0 kB\n\
     LazyFree:              0 kB\n\
     AnonHugePages:         0 kB\n\
     ShmemPmdMapped:        0 kB\n\
     FilePmdMapped:         0 kB\n\
     Shared_Hugetlb:        0 kB\n\
     Private_Hugetlb:       0 kB\n\
     Swap:                  0 kB\n\
     SwapPss:               0 kB\n\
     Locked:                0 kB\n\
     THPeligible:    0\n\
     VmFlags: ex\n\
    "
}

/// The same process's memory map in the plain format.
fn maps_text() -> &'static str {
    "\
     55d4c8a00000-55d4c8a02000 r--p 00000000 08:01 1311346                    /usr/bin/cat\n\
     55d4c8a02000-55d4c8a07000 r-xp 00002000 08:01 1311346                    /usr/bin/cat\n\
     55d4c8a07000-55d4c8a0a000 r--p 00007000 08:01 1311346                    /usr/bin/cat\n\
     55d4c8a0a000-55d4c8a0b000 r--p 00009000 08:01 1311346                    /usr/bin/cat\n\
     55d4c8a0b000-55d4c8a0c000 rw-p 0000a000 08:01 1311346                    /usr/bin/cat\n\
     55d4c9f3b000-55d4c9f5c000 rw-p 00000000 00:00 0                          [heap]\n\
     7f2c5e000000-7f2c5e022000 r--p 00000000 08:01 1315220                    /usr/lib/x86_64-linux-gnu/libc-2.31.so\n\
     7f2c5e022000-7f2c5e19a000 r-xp 00022000 08:01 1315220                    /usr/lib/x86_64-linux-gnu/libc-2.31.so\n\
     7f2c5e19a000-7f2c5e1e8000 r--p 0019a000 08:01 1315220                    /usr/lib/x86_64-linux-gnu/libc-2.31.so\n\
     7f2c5e1e8000-7f2c5e1ec000 r--p 001e7000 08:01 1315220                    /usr/lib/x86_64-linux-gnu/libc-2.31.so\n\
     7f2c5e1ec000-7f2c5e1ee000 rw-p 001eb000 08:01 1315220                    /usr/lib/x86_64-linux-gnu/libc-2.31.so\n\
     7f2c5e1ee000-7f2c5e1f2000 rw-p 00000000 00:00 0\n\
     7ffc1a6d5000-7ffc1a6f6000 rw-p 00000000 00:00 0                          [stack]\n\
     7ffc1a7c3000-7ffc1a7c6000 r--p 00000000 00:00 0                          [vvar]\n\
     7ffc1a7c6000-7ffc1a7c7000 r-xp 00000000 00:00 0                          [vdso]\n\
     ffffffffff600000-ffffffffff601000 --xp 00000000 00:00 0                  [vsyscall]\n\
    "
}

#[test]
fn test_file_type_detection() {
    // Test with smaps test file
    let file_type = detect_file_type(smaps_text());
    assert_eq!(file_type, FileType::Smaps);

    // Test with maps test file
    let file_type = detect_file_type(maps_text());
    assert_eq!(file_type, FileType::Maps);
}

#[test]
fn test_smaps_parsing_basic() {
    let stats = parse_file("data/smaps.test.txt", smaps_text())
        .expect("Should parse smaps test file successfully");

    // Basic sanity checks
    assert!(stats.mappings.len() > 0, "Should have mappings");
    assert!(stats.total_virtual > 0, "Should have virtual memory");

    println!("Total mappings: {}", stats.mappings.len());
    println!("Total virtual: {} bytes", stats.total_virtual);
    println!("Total RSS: {} bytes", stats.total_rss);
    println!("Total PSS: {} bytes", stats.total_pss);
}

#[test]
fn test_smaps_rss_pss_data() {
    let stats = parse_file("data/smaps.test.txt", smaps_text())
        .expect("Should parse smaps test file successfully");

    // We know smaps test file has RSS/PSS data, so these should be > 0
    assert!(stats.total_rss > 0, "Total RSS should be greater than 0, got: {}", stats.total_rss);
    assert!(stats.total_pss > 0, "Total PSS should be greater than 0, got: {}", stats.total_pss);

    // Check that at least some mappings have RSS/PSS data
    let mappings_with_rss = stats.mappings.iter().filter(|m| m.rss.is_some()).count();
    let mappings_with_pss = stats.mappings.iter().filter(|m| m.pss.is_some()).count();

    assert!(mappings_with_rss > 0, "Should have mappings with RSS data");
    assert!(mappings_with_pss > 0, "Should have mappings with PSS data");

    println!("Mappings with RSS: {}/{}", mappings_with_rss, stats.mappings.len());
    println!("Mappings with PSS: {}/{}", mappings_with_pss, stats.mappings.len());
}

#[test]
fn test_histogram_has_rss_pss() {
    let stats = parse_file("data/smaps.test.txt", smaps_text())
        .expect("Should parse smaps test file successfully");

    // Check histogram entries have RSS/PSS totals
    let histogram_entries_with_rss =
        stats.histogram.iter().filter(|r| r.entry.total_rss > 0).count();
    let histogram_entries_with_pss =
        stats.histogram.iter().filter(|r| r.entry.total_pss > 0).count();

    assert!(histogram_entries_with_rss > 0, "Histogram should have entries with RSS data");
    assert!(histogram_entries_with_pss > 0, "Histogram should have entries with PSS data");

    println!("Histogram entries with RSS: {}/{}", histogram_entries_with_rss, stats.histogram.len());
    println!("Histogram entries with PSS: {}/{}", histogram_entries_with_pss, stats.histogram.len());
}

#[test]
fn test_first_few_mappings() {
    let stats = parse_file("data/smaps.test.txt", smaps_text())
        .expect("Should parse smaps test file successfully");

    // Look at the first few mappings to see what we're getting
    for (i, mapping) in stats.mappings.iter().take(5).enumerate() {
        println!(
            "Mapping {}: {:016x}-{:016x} {} size={} RSS={:?} PSS={:?}",
            i,
            mapping.start_addr,
            mapping.end_addr,
            mapping.permissions,
            mapping.size,
            mapping.rss,
            mapping.pss
        );
    }

    // At least the first mapping should have RSS/PSS data
    let first_mapping = &stats.mappings[0];
    assert!(first_mapping.rss.is_some(), "First mapping should have RSS data");
    assert!(first_mapping.pss.is_some(), "First mapping should have PSS data");
}

#[test]
fn test_maps_parsing() {
    let stats = parse_file("data/maps.test.txt", maps_text())
        .expect("Should parse maps test file successfully");

    // Basic sanity checks for maps format
    assert!(stats.mappings.len() > 0, "Should have mappings");
    assert!(stats.total_virtual > 0, "Should have virtual memory");

    // Maps format should NOT have RSS/PSS data
    assert_eq!(stats.total_rss, 0, "Maps format should not have RSS data");
    assert_eq!(stats.total_pss, 0, "Maps format should not have PSS data");

    // Check that mappings don't have RSS/PSS data
    let mappings_with_rss = stats.mappings.iter().filter(|m| m.rss.is_some()).count();
    let mappings_with_pss = stats.mappings.iter().filter(|m| m.pss.is_some()).count();

    assert_eq!(mappings_with_rss, 0, "Maps format should not have mappings with RSS data");
    assert_eq!(mappings_with_pss, 0, "Maps format should not have mappings with PSS data");

    println!("Maps format - Total mappings: {}", stats.mappings.len());
    println!("Maps format - Total virtual: {} bytes", stats.total_virtual);
}

#[test]
fn sample_texts_give_the_same_mappings() {
    let rich = parse_file("data/smaps.test.txt", smaps_text()).expect("rich format");
    let plain = parse_file("data/maps.test.txt", maps_text()).expect("plain format");
    assert_eq!(rich.mappings.len(), 16);
    assert_eq!(plain.mappings.len(), 16);
    for (a, b) in rich.mappings.iter().zip(plain.mappings.iter()) {
        assert_eq!(a.start_addr, b.start_addr);
        assert_eq!(a.end_addr, b.end_addr);
        assert_eq!(a.size, b.size);
        assert_eq!(a.permissions, b.permissions);
        assert_eq!(a.path, b.path);
    }
    assert_eq!(rich.total_virtual, plain.total_virtual);
    assert_eq!(rich.total_virtual, (8 + 20 + 12 + 4 + 4 + 132 + 136 + 1504 + 312 + 16 + 8 + 16 + 132 + 12 + 4 + 4) * 1024);
    assert_eq!(rich.total_rss, (8 + 20 + 12 + 4 + 4 + 4 + 132 + 876 + 128 + 16 + 8 + 12 + 12 + 4) * 1024);
    assert_eq!(rich.total_pss, (8 + 20 + 12 + 4 + 4 + 4 + 2 + 13 + 1 + 16 + 8 + 12 + 12) * 1024);
    assert_eq!(rich.mappings[11].path, None);
    assert_eq!(rich.mappings[5].path.as_deref(), Some("[heap]"));
}

use smaps_spy_tui::parser::{
    detect_file_type, detect_file_type_within, parse_file, parse_maps_file, parse_smaps_file,
    pid_from_path, FileType, MemoryStats,
};
use smaps_spy_tui::records::ParseError;

const ONE_RECORD: &str =
    "00400000-00401000 r-xp 00000000 08:01 123 /bin/x\nRss:     4 kB\nPss:     2 kB\n";

/// What the statistics hold, as plain values.
fn digest(stats: &MemoryStats) -> String {
    let mut out = String::new();
    for m in &stats.mappings {
        out += &format!(
            "{:x}-{:x} {} {} {:?} {:?} {:?}\n",
            m.start_addr, m.end_addr, m.size, m.permissions, m.rss, m.pss, m.path
        );
    }
    for r in &stats.histogram {
        out += &format!("{} {} {:?}\n", r.size, r.permissions, r.entry);
    }
    out + &format!(
        "{} {} {} {:?} {:?}\n",
        stats.total_virtual, stats.total_rss, stats.total_pss, stats.pid, stats.process_name
    )
}

#[test]
fn single_smaps_record_with_rss_and_pss() {
    assert_eq!(detect_file_type(ONE_RECORD), FileType::Smaps);
    let stats = parse_smaps_file(ONE_RECORD).expect("one record");
    assert_eq!(stats.mappings.len(), 1);
    let m = &stats.mappings[0];
    assert_eq!(m.start_addr, 0x400000);
    assert_eq!(m.end_addr, 0x401000);
    assert_eq!(m.size, 4096);
    assert_eq!(m.permissions, "r-xp");
    assert_eq!(m.rss, Some(4096));
    assert_eq!(m.pss, Some(2048));
    assert_eq!(m.path.as_deref(), Some("/bin/x"));
    assert_eq!(stats.histogram.len(), 1);
    let row = &stats.histogram[0];
    assert_eq!(row.size, 4096);
    assert_eq!(row.permissions, "r-xp");
    assert_eq!(row.entry.count, 1);
    assert_eq!(row.entry.total_size, 4096);
    assert_eq!(row.entry.total_rss, 4096);
    assert_eq!(row.entry.total_pss, 2048);
    assert_eq!(stats.total_virtual, 4096);
    assert_eq!(stats.total_rss, 4096);
    assert_eq!(stats.total_pss, 2048);
}

#[test]
fn equal_size_and_permissions_share_one_entry() {
    let text = "1000-3000 rw-p 0 0 0\n8000-a000 rw-p 0 0 0 /lib/y\n";
    let stats = parse_maps_file(text).expect("two records");
    assert_eq!(stats.mappings.len(), 2);
    assert_eq!(stats.histogram.len(), 1);
    assert_eq!(stats.histogram[0].size, 0x2000);
    assert_eq!(stats.histogram[0].permissions, "rw-p");
    assert_eq!(stats.histogram[0].entry.count, 2);
    assert_eq!(stats.histogram[0].entry.total_size, 0x4000);
    assert_eq!(stats.histogram[0].entry.total_rss, 0);
    assert_eq!(stats.total_virtual, 0x4000);
}

#[test]
fn histogram_rows_stand_in_order_of_first_occurrence() {
    let text = "0-1000 r--p\n1000-3000 rw-p\n3000-4000 r--p\n4000-5000 rw-p\n5000-7000 rw-p\n";
    let stats = parse_maps_file(text).expect("five records");
    let keys: Vec<(u64, &str, u32)> = stats
        .histogram
        .iter()
        .map(|r| (r.size, r.permissions.as_str(), r.entry.count))
        .collect();
    assert_eq!(keys, vec![(0x1000, "r--p", 2), (0x2000, "rw-p", 2), (0x1000, "rw-p", 1)]);
}

#[test]
fn totals_and_histogram_agree_with_the_mappings() {
    let text = "0-1000 r--p\nRss: 4 kB\nPss: 1 kB\n1000-3000 rw-p\nRss: 8 kB\n3000-4000 r--p\nPss: 3 kB\n\
                7000-7800 r--p\nRss: 1 kB\n";
    let stats = parse_smaps_file(text).expect("four records");
    assert_eq!(stats.total_virtual, stats.mappings.iter().map(|m| m.size).sum::<u64>());
    assert_eq!(stats.total_rss, stats.mappings.iter().map(|m| m.rss.unwrap_or(0)).sum::<u64>());
    assert_eq!(stats.total_pss, stats.mappings.iter().map(|m| m.pss.unwrap_or(0)).sum::<u64>());
    assert_eq!(stats.total_virtual, 0x1000 + 0x2000 + 0x1000 + 0x800);
    assert_eq!(stats.total_rss, 13 * 1024);
    assert_eq!(stats.total_pss, 4 * 1024);
    assert_eq!(stats.histogram.iter().map(|r| r.entry.total_size).sum::<u64>(), stats.total_virtual);
    assert_eq!(stats.histogram.iter().map(|r| r.entry.total_rss).sum::<u64>(), stats.total_rss);
    assert_eq!(stats.histogram.iter().map(|r| r.entry.total_pss).sum::<u64>(), stats.total_pss);
    assert_eq!(stats.histogram.iter().map(|r| r.entry.count as usize).sum::<usize>(), 4);
    for (i, a) in stats.histogram.iter().enumerate() {
        for b in &stats.histogram[i + 1..] {
            assert!(a.size != b.size || a.permissions != b.permissions);
        }
    }
    for m in &stats.mappings {
        assert!(m.end_addr > m.start_addr);
        assert_eq!(m.size, m.end_addr - m.start_addr);
    }
    assert_eq!(stats.mappings[2].rss, None);
    assert_eq!(stats.mappings[2].pss, Some(3072));
}

#[test]
fn plain_format_has_no_resident_sizes() {
    let text = "0-1000 r--p 0 0 0\nRss: 4 kB\nPss: 4 kB\n";
    let stats = parse_maps_file(text).expect("one record");
    assert_eq!(stats.mappings.len(), 1);
    assert_eq!(stats.total_rss, 0);
    assert_eq!(stats.total_pss, 0);
    assert!(stats.mappings.iter().all(|m| m.rss.is_none() && m.pss.is_none()));
}

#[test]
fn detecting_then_parsing_equals_the_unified_parser() {
    let texts = [
        ONE_RECORD,
        "1000-3000 rw-p 0 0 0\n8000-a000 rw-p 0 0 0 /lib/y\n",
        "",
        "0-1000 r--p\nSize: 4 kB\nRss: 4 kB\n1000-2000 r--p\nRss: 0 kB\n",
        "0-zz r--p\n",
    ];
    for text in texts {
        let dedicated = match detect_file_type(text) {
            FileType::Maps => parse_maps_file(text),
            FileType::Smaps => parse_smaps_file(text),
        };
        let unified = parse_file("some/file", text);
        match (dedicated, unified) {
            (Ok(a), Ok(b)) => assert_eq!(digest(&a), digest(&b)),
            (Err(a), Err(b)) => assert_eq!(a.message(), b.message()),
            _ => panic!("one parser failed and the other did not"),
        }
    }
}

#[test]
fn empty_input_is_plain_and_has_no_mappings() {
    assert_eq!(detect_file_type(""), FileType::Maps);
    let stats = parse_file("empty", "").expect("nothing to read");
    assert_eq!(stats.mappings.len(), 0);
    assert_eq!(stats.histogram.len(), 0);
    assert_eq!(stats.total_virtual, 0);
    let stats = parse_smaps_file("\n\n   \n").expect("nothing to read");
    assert_eq!(stats.mappings.len(), 0);
    let fresh = MemoryStats::new();
    assert_eq!(digest(&fresh), digest(&stats));
}

#[test]
fn detection_rules() {
    assert_eq!(detect_file_type("Rss: 1 kB\n"), FileType::Smaps);
    assert_eq!(detect_file_type(" Rss: 1 kB\n"), FileType::Maps);
    assert_eq!(detect_file_type("Rss:\n"), FileType::Smaps);
    assert_eq!(detect_file_type("0-1000 r--p\nPss: 1 kB\n"), FileType::Maps);
    let head = "0-1000 r--p\n";
    let filler = "Size: 4 kB\n";
    // Twenty other lines after a mapping are still scanned, twenty-one are not.
    let near = format!("{}{}Rss: 4 kB\n", head, filler.repeat(20));
    let far = format!("{}{}Rss: 4 kB\n", head, filler.repeat(21));
    assert_eq!(detect_file_type(&near), FileType::Smaps);
    assert_eq!(detect_file_type(&far), FileType::Maps);
    // Before the first mapping any number of lines is scanned.
    let late = format!("{}Rss: 4 kB\n", filler.repeat(50));
    assert_eq!(detect_file_type(&late), FileType::Smaps);
    // A new mapping starts the count again.
    let again = format!("{}{}{}{}Rss: 4 kB\n", head, filler.repeat(15), head, filler.repeat(15));
    assert_eq!(detect_file_type(&again), FileType::Smaps);
    assert_eq!(detect_file_type_within(&far, 21), FileType::Smaps);
    assert_eq!(detect_file_type_within(&near, 19), FileType::Maps);
    assert_eq!(detect_file_type_within("0-1 r\nx\nRss: 1 kB\n", 0), FileType::Maps);
    assert_eq!(detect_file_type_within("0-1 r\nRss: 1 kB\n", 0), FileType::Smaps);
    // A dash anywhere in a line of two fields makes it look like a mapping.
    let dashed = format!("{}{}a b-c\n{}Rss: 4 kB\n", head, filler.repeat(20), filler.repeat(20));
    assert_eq!(detect_file_type(&dashed), FileType::Smaps);
}

#[test]
fn malformed_lines_are_skipped() {
    let text = "\n\
                lonely\n\
                nodash r--p\n\
                1000-2000-3000 r--p\n\
                1000--2000 r--p\n\
                2000-1000 r--p\n\
                1000-1000 r--p\n\
                \t 4000-5000 \t rw-p \n";
    let stats = parse_maps_file(text).expect("one record");
    assert_eq!(stats.mappings.len(), 1);
    assert_eq!(stats.mappings[0].start_addr, 0x4000);
    assert_eq!(stats.mappings[0].permissions, "rw-p");
    assert_eq!(stats.mappings[0].path, None);
}

#[test]
fn malformed_addresses_fail_the_parse() {
    match parse_maps_file("0-1000 r--p\n-1000 r--p\n") {
        Err(ParseError::StartAddress(t)) => assert_eq!(t, ""),
        other => panic!("{:?}", other.map(|s| s.mappings.len())),
    }
    match parse_maps_file("xyz-1000 r--p\n") {
        Err(e) => assert_eq!(e.message(), "Failed to parse start address: xyz"),
        Ok(_) => panic!("no error"),
    }
    match parse_maps_file("1000-10g0 r--p\n") {
        Err(ParseError::EndAddress(t)) => assert_eq!(t, "10g0"),
        _ => panic!("no end address error"),
    }
    match parse_smaps_file("0-1000 r--p\nRss: 4 kB\n1000- r--p\n") {
        Err(e) => assert_eq!(e.message(), "Failed to parse end address: "),
        Ok(_) => panic!("no error"),
    }
    match parse_file("f", "0-10000000000000000 r--p\n") {
        Err(ParseError::EndAddress(t)) => assert_eq!(t, "10000000000000000"),
        _ => panic!("no end address error"),
    }
    // The start is read before the end.
    match parse_file("f", "q-r r--p\n") {
        Err(ParseError::StartAddress(t)) => assert_eq!(t, "q"),
        _ => panic!("no start address error"),
    }
    let ok = parse_maps_file("+A-fFfFfFfFfFfFfFfF r--p\n").expect("signs and both cases");
    assert_eq!(ok.mappings[0].start_addr, 10);
    assert_eq!(ok.mappings[0].end_addr, u64::MAX);
    assert_eq!(ok.mappings[0].size, u64::MAX - 10);
}

#[test]
fn sums_that_do_not_fit_fail_the_parse() {
    let text = "0-ffffffffffffffff r--p\n0-ffffffffffffffff r--p\n";
    match parse_maps_file(text) {
        Err(ParseError::Overflow) => {}
        _ => panic!("no overflow error"),
    }
    match parse_file("f", text) {
        Err(e) => assert_eq!(e.message(), "Mappings are too large to be summed"),
        Ok(_) => panic!("no error"),
    }
    let rss = "0-1000 r--p\nRss: 9007199254740992 kB\n1000-2000 r--p\nRss: 9007199254740992 kB\n";
    match parse_smaps_file(rss) {
        Err(ParseError::Overflow) => {}
        _ => panic!("no overflow error"),
    }
    let one = parse_maps_file("0-ffffffffffffffff r--p\n").expect("fits");
    assert_eq!(one.total_virtual, u64::MAX);
}

#[test]
fn paths_are_the_fields_from_the_sixth_on() {
    let stats = parse_maps_file(
        "0-1000 r--p 0 0 0   /a   dir/file  (deleted) \n1000-2000 r--p 0 0 0\n2000-3000 r--p 0 0 0 x\n",
    )
    .expect("three records");
    assert_eq!(stats.mappings[0].path.as_deref(), Some("/a dir/file (deleted)"));
    assert_eq!(stats.mappings[1].path, None);
    assert_eq!(stats.mappings[2].path.as_deref(), Some("x"));
}

#[test]
fn attribute_lines_of_the_rich_format() {
    let text = "Rss: 100 kB\n\
                0-1000 r--p\n\
                Rss: 4 kB\n\
                Rss: 8 kB\n\
                Pss: x kB\n\
                Pss:\n\
                Rss:12 kB\n\
                Size: 4 kB\n\
                  Pss:   3   kB\n\
                1000-2000-3000 rw-p\n\
                Rss: 16 kB\n\
                2000-3000 rw-p\n\
                Pss: 18014398509481984 kB\n\
                Pss: 99999999999999999999 kB\n\
                Rssx: 7 kB\n\
                Rss:x +5 kB\n\
                3000-2000 r--p\n\
                Pss: 1 kB\n\
                4000-5000 --xp";
    let stats = parse_smaps_file(text).expect("three records");
    assert_eq!(stats.mappings.len(), 3);
    assert_eq!(stats.mappings[0].rss, Some(8192));
    assert_eq!(stats.mappings[0].pss, Some(3072));
    assert_eq!(stats.mappings[1].start_addr, 0x2000);
    assert_eq!(stats.mappings[1].pss, None);
    assert_eq!(stats.mappings[1].rss, Some(5120));
    assert_eq!(stats.mappings[2].start_addr, 0x4000);
    assert_eq!(stats.mappings[2].permissions, "--xp");
    assert_eq!(stats.mappings[2].rss, None);
    let big = parse_smaps_file("0-1000 r--p\nRss: 18014398509481983 kB\n").expect("fits");
    assert_eq!(big.mappings[0].rss, Some(18014398509481983 * 1024));
}

#[test]
fn carriage_returns_are_whitespace() {
    let stats = parse_file("f", "0-1000 r--p 0 0 0 /x\r\nRss: 4 kB\r\n").expect("one record");
    assert_eq!(stats.mappings[0].path.as_deref(), Some("/x"));
    assert_eq!(stats.mappings[0].rss, Some(4096));
    let stats = parse_maps_file("0-1000 r--p\r\n").expect("one record");
    assert_eq!(stats.mappings[0].permissions, "r--p");
}

#[test]
fn process_id_comes_from_the_path() {
    assert_eq!(pid_from_path("/proc/1234/smaps"), Some(1234));
    assert_eq!(pid_from_path("/proc/1234"), Some(1234));
    assert_eq!(pid_from_path("/proc/+7/maps"), Some(7));
    assert_eq!(pid_from_path("/proc/4294967295/smaps"), Some(u32::MAX));
    assert_eq!(pid_from_path("/proc/4294967296/smaps"), None);
    assert_eq!(pid_from_path("/proc/self/smaps"), None);
    assert_eq!(pid_from_path("/proc//smaps"), None);
    assert_eq!(pid_from_path("/proc/"), None);
    assert_eq!(pid_from_path("/proc"), None);
    assert_eq!(pid_from_path("proc/12/smaps"), None);
    assert_eq!(pid_from_path("data/smaps.test.txt"), None);
    let mut stats = parse_file("/proc/42/smaps", ONE_RECORD).expect("one record");
    assert_eq!(stats.pid, Some(42));
    assert_eq!(stats.process_name, None);
    stats.set_process_name(" cat\n");
    assert_eq!(stats.process_name.as_deref(), Some("cat"));
    assert_eq!(stats.pid, Some(42));
    assert_eq!(stats.mappings.len(), 1);
    stats.set_process_name("\n");
    assert_eq!(stats.process_name.as_deref(), Some(""));
}

#[test]
fn rebuilding_the_histogram_changes_nothing_when_nothing_changed() {
    let mut stats = parse_file("/proc/42/smaps", ONE_RECORD).expect("one record");
    let before = digest(&stats);
    assert!(stats.can_aggregate());
    stats.build_histogram();
    assert_eq!(digest(&stats), before);
    let extra = stats.mappings[0].clone();
    stats.mappings.push(extra);
    assert!(stats.can_aggregate());
    stats.build_histogram();
    assert_eq!(stats.histogram.len(), 1);
    assert_eq!(stats.histogram[0].entry.count, 2);
    assert_eq!(stats.total_virtual, 8192);
    assert_eq!(stats.total_rss, 8192);
    assert_eq!(stats.total_pss, 4096);
    stats.mappings[0].size = u64::MAX;
    assert!(!stats.can_aggregate());
    let built = MemoryStats::from_mappings(vec![stats.mappings[1].clone()]).expect("fits");
    assert_eq!(built.total_virtual, 4096);
    assert!(MemoryStats::from_mappings(stats.mappings).is_err());
}

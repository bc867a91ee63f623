use yab::{
    AccessDetails, AccessSummary, CachegrindDataPoint, CachegrindFunction, CachegrindOutput, CachegrindStats,
    FullCachegrindStats, ParseError,
};

fn assert_full_stats(stats: &FullCachegrindStats) {
    assert_eq!(stats.instructions.total, 662_469);
    assert_eq!(stats.instructions.l1_misses, 1_899);
    assert_eq!(stats.instructions.l3_misses, 1_843);
    assert_eq!(stats.data_reads.total, 143_129);
    assert_eq!(stats.data_reads.l1_misses, 3_638);
    assert_eq!(stats.data_reads.l3_misses, 2_694);
    assert_eq!(stats.data_writes.total, 89_043);
    assert_eq!(stats.data_writes.l1_misses, 1_330);
    assert_eq!(stats.data_writes.l3_misses, 1_210);
}

fn point(total: u64, l1_misses: u64, l3_misses: u64) -> CachegrindDataPoint {
    CachegrindDataPoint { total, l1_misses, l3_misses }
}

fn full(i: CachegrindDataPoint, r: CachegrindDataPoint, w: CachegrindDataPoint) -> FullCachegrindStats {
    FullCachegrindStats { instructions: i, data_reads: r, data_writes: w }
}

#[test]
fn parsing_basic_cachegrind_output() {
    let output = "events: Ir\nsummary: 1234";
    let output = CachegrindOutput::read(output).unwrap();
    assert!(matches!(
        output.summary,
        CachegrindStats::Simple { instructions } if instructions == 1_234
    ));
}

#[test]
fn parsing_full_cachegrind_output() {
    let output = "\
        events: Ir I1mr ILmr Dr D1mr DLmr Dw D1mw DLmw \n\
        fn=<alloc::string::String as core::fmt::Write>::write_str\n\
        0 99 3 3 30 0 0 24 0 0\n\
        fn=<alloc::sync::Arc<T> as core::default::Default>::default\n\
        0 51 5 5 18 1 0 21 0 0\n\
        summary: 662469 1899 1843 143129 3638 2694 89043 1330 1210\n
    ";
    let output = CachegrindOutput::read(output).unwrap();
    let stats = output.summary.as_full().unwrap();
    assert_full_stats(stats);

    let breakdown = &output.breakdown;
    assert_eq!(breakdown.len(), 2);
    let fn1 = CachegrindFunction::rust("<alloc::string::String as core::fmt::Write>::write_str");
    let fn1_stats = output.get(&fn1).unwrap();
    let fn1_stats = fn1_stats.as_full().unwrap();
    assert_eq!(fn1_stats.instructions.total, 99);
    assert_eq!(fn1_stats.data_reads.total, 30);
    assert_eq!(fn1_stats.data_writes.total, 24);

    let fn2 = CachegrindFunction::rust("<alloc::sync::Arc<T> as core::default::Default>::default");
    let fn2_stats = output.get(&fn2).unwrap();
    let fn2_stats = fn2_stats.as_full().unwrap();
    assert_eq!(fn2_stats.instructions.total, 51);
    assert_eq!(fn2_stats.data_reads.total, 18);
    assert_eq!(fn2_stats.data_writes.total, 21);
}

#[test]
fn parsing_function() {
    let s = "<alloc::sync::Arc<T> as core::default::Default>::default";
    let function = CachegrindFunction::rust(s);
    assert_eq!(function.to_text(), s);
    let restored = CachegrindFunction::from_text(s);
    assert_eq!(restored, function);

    let with_file = "<alloc::sync::Arc<T> as core::default::Default>::default@path/to/file.rs";
    let restored = CachegrindFunction::from_text(with_file);
    assert_eq!(restored.filename().unwrap(), "path/to/file.rs");
    assert_eq!(restored.name(), s);
}

#[test]
fn function_text_with_file_round_trips() {
    let f = CachegrindFunction::with_file("main", "src/main.rs");
    assert_eq!(f.to_text(), "main@src/main.rs");
    assert_eq!(CachegrindFunction::from_text(&f.to_text()), f);
    let g = CachegrindFunction::from_text("a@b@c");
    assert_eq!(g.name(), "a@b");
    assert_eq!(g.filename(), Some("c"));
}

#[test]
fn parsing_rows_with_files_and_repeated_functions() {
    let output = "events: Ir\nfl=src/lib.rs \nfn=f\n0 10\n1 5\nfl=???\nfn=f\n0 7\nsummary: 22\n";
    let output = CachegrindOutput::read(output).unwrap();
    assert_eq!(output.summary, CachegrindStats::Simple { instructions: 22 });
    assert_eq!(output.breakdown.len(), 2);
    let with_file = CachegrindFunction::with_file("f", "src/lib.rs");
    assert_eq!(output.get(&with_file), Some(CachegrindStats::Simple { instructions: 15 }));
    let without = CachegrindFunction::rust("f");
    assert_eq!(output.get(&without), Some(CachegrindStats::Simple { instructions: 7 }));
}

#[test]
fn parsing_stops_after_summary() {
    let output = "events: Ir\r\nsummary: 5\r\nevents: Ir\nsummary: x\n";
    let output = CachegrindOutput::read(output).unwrap();
    assert_eq!(output.summary, CachegrindStats::Simple { instructions: 5 });
}

#[test]
fn parse_errors() {
    let read = |s: &str| CachegrindOutput::read(s).unwrap_err();
    assert_eq!(read("events: Ir\nevents: Ir\nsummary: 1\n"), ParseError::EventsRedefined);
    assert_eq!(read("summary: 1\n"), ParseError::NoEvents);
    assert_eq!(read("events: Ir\n"), ParseError::NoSummary);
    assert_eq!(read("events: Ir\nfn=f\n0 1 2\nsummary: 1\n"), ParseError::StatsMismatch);
    assert_eq!(read("events: Ir\nfn=f\n0 x\nsummary: 1\n"), ParseError::InvalidStat);
    assert_eq!(read("events: Ir\nsummary: -1\n"), ParseError::InvalidSummary);
    assert_eq!(read("events: Ir\nsummary: 1 2\n"), ParseError::SummaryMismatch);
    assert_eq!(read("events: Ir Dr\nsummary: 1 2\n"), ParseError::MissingEvent);
    assert_eq!(read("events: Dr\nsummary: 1\n"), ParseError::MissingEvent);
    assert_eq!(
        read("events: Ir\nfn=f\n0 18446744073709551615\n0 1\nsummary: 1\n"),
        ParseError::StatsOverflow
    );
}

#[test]
fn parsing_numbers_like_std() {
    let output = CachegrindOutput::read("events: Ir\nsummary: +18446744073709551615\n").unwrap();
    assert_eq!(output.summary.total_instructions(), u64::MAX);
    assert_eq!(
        CachegrindOutput::read("events: Ir\nsummary: 18446744073709551616\n").unwrap_err(),
        ParseError::InvalidSummary
    );
}

#[test]
fn repeated_event_name_gives_simple_stats_of_last_column() {
    let output = CachegrindOutput::read("events: Ir Ir\nsummary: 3 4\n").unwrap();
    assert_eq!(output.summary, CachegrindStats::Simple { instructions: 4 });
}

#[test]
fn stats_arithmetic() {
    let a = full(point(100, 20, 10), point(200, 40, 10), point(50, 40, 0));
    let b = full(point(10, 2, 1), point(20, 4, 1), point(5, 4, 0));
    let sum = a.plus(b);
    assert_eq!(sum.instructions, point(110, 22, 11));
    assert_eq!(sum.data_writes, point(55, 44, 0));
    assert_eq!(sum.minus(b), a);
    assert_eq!(b.minus(a), full(point(0, 0, 0), point(0, 0, 0), point(0, 0, 0)));
    let scaled = b.times(3);
    assert_eq!(scaled.data_reads, point(60, 12, 3));
    assert_eq!(scaled.data_writes, point(15, 12, 0));
}

#[test]
fn mixed_stats_collapse_to_simple() {
    let a = CachegrindStats::Full(full(point(100, 20, 10), point(200, 40, 10), point(50, 40, 0)));
    let b = CachegrindStats::Simple { instructions: 30 };
    assert_eq!(a.plus(b), CachegrindStats::Simple { instructions: 130 });
    assert_eq!(a.minus(b), CachegrindStats::Simple { instructions: 70 });
    assert_eq!(b.minus(a), CachegrindStats::Simple { instructions: 0 });
    assert_eq!(b.plus(a).minus(a), b);
    assert!(a.checked_plus(CachegrindStats::Simple { instructions: u64::MAX }).is_none());
    assert!(CachegrindStats::default().is_zero());
    assert!(CachegrindStats::default().as_full().is_some());
}

#[test]
fn summarizing_access() {
    let stats = full(point(100, 20, 10), point(200, 40, 10), point(50, 40, 0));
    let summary = AccessSummary::new(&stats);
    assert_eq!(summary.instructions, 100);
    assert_eq!(summary.l1_hits, 250);
    assert_eq!(summary.l3_hits, 80);
    assert_eq!(summary.ram_accesses, 20);
    assert_eq!(summary.estimated_cycles(), 1350);
    assert_eq!(summary.l1_hits + summary.l3_hits + summary.ram_accesses, 350);
    assert_eq!(stats.l1_hits().data_reads, 160);
    assert_eq!(stats.l3_hits().data_writes, 40);
    assert_eq!(stats.ram().instructions, 10);
}

#[test]
fn subtracting_outputs_prunes_zero_functions() {
    let full_run = CachegrindOutput::read(
        "events: Ir\nfn=a\n0 10\nfn=b\n0 5\nfn=c\n0 3\nsummary: 100\n",
    )
    .unwrap();
    let baseline =
        CachegrindOutput::read("events: Ir\nfn=a\n0 4\nfn=b\n0 5\nsummary: 60\n").unwrap();
    let diff = full_run.minus(&baseline);
    assert_eq!(diff.summary, CachegrindStats::Simple { instructions: 40 });
    assert_eq!(diff.breakdown.len(), 2);
    assert_eq!(
        diff.get(&CachegrindFunction::rust("a")),
        Some(CachegrindStats::Simple { instructions: 6 })
    );
    assert_eq!(diff.get(&CachegrindFunction::rust("b")), None);
    assert_eq!(
        diff.get(&CachegrindFunction::rust("c")),
        Some(CachegrindStats::Simple { instructions: 3 })
    );
}

#[test]
fn keeping_output_for_baseline() {
    let output = CachegrindOutput::read(
        "events: Ir\nfn=big\n0 9000\nfn=small\n0 9\nfn=edge\n0 10\nsummary: 10000\n",
    )
    .unwrap();
    let kept = output.for_baseline(true);
    assert_eq!(kept.breakdown.len(), 2);
    assert!(kept.get(&CachegrindFunction::rust("small")).is_none());
    assert!(kept.get(&CachegrindFunction::rust("edge")).is_some());
    let bare = output.for_baseline(false);
    assert!(bare.breakdown.is_empty());
    assert_eq!(bare.summary, output.summary);
}

#[test]
fn choosing_detail_rows() {
    let now = AccessDetails { instructions: 5, data_reads: 0, data_writes: 0 };
    assert_eq!(now.shown(None), (true, false, false));
    let before = AccessDetails { instructions: 0, data_reads: 0, data_writes: 3 };
    assert_eq!(now.shown(Some(before)), (true, false, true));
}

#[test]
fn adding_keeps_counter_order() {
    let a = point(10, 5, 1);
    let b = point(7, 7, 7);
    let s = a.plus(b);
    assert!(s.l3_misses <= s.l1_misses && s.l1_misses <= s.total);
    let t = a.times(4);
    assert_eq!(t, point(40, 20, 4));
}

#[test]
fn subtraction_keeps_functions_with_nonzero_misses() {
    let header = "events: Ir I1mr ILmr Dr D1mr DLmr Dw D1mw DLmw\nfn=f\n";
    let full_run = CachegrindOutput::read(&format!(
        "{header}0 5 5 0 0 0 0 0 0 0\nsummary: 5 5 0 0 0 0 0 0 0\n"
    ))
    .unwrap();
    let baseline = CachegrindOutput::read(&format!(
        "{header}0 5 4 0 0 0 0 0 0 0\nsummary: 5 4 0 0 0 0 0 0 0\n"
    ))
    .unwrap();
    let diff = full_run.minus(&baseline);
    let f = diff.get(&CachegrindFunction::rust("f")).unwrap();
    assert_eq!(f.as_full().unwrap().instructions, point(0, 1, 0));
    assert!(!f.is_zero());
    let same = full_run.minus(&full_run);
    assert!(same.breakdown.is_empty());
    assert!(same.summary.is_zero());
}

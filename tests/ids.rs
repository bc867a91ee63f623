use yab::breakdown::breakdown_items;
use yab::id::{active_capture, capture_ids};
use yab::{BaselineStore, BenchmarkId, Capture, CaptureBehavior, CachegrindOutput};

#[test]
fn id_text_round_trip() {
    let ids = [
        BenchmarkId::named("fib_long"),
        BenchmarkId::new("fib", "15"),
        BenchmarkId::new("rng", "10000").with_capture("gen_array"),
        BenchmarkId::new("odd", ""),
    ];
    for id in &ids {
        let text = id.to_text();
        assert_eq!(BenchmarkId::parse(&text), *id, "{text}");
        assert!(id.matches_text(&text));
    }
    assert_eq!(ids[2].to_text(), "rng/10000/gen_array");
    assert!(!ids[1].matches_text("fib/16"));
    assert!(!ids[1].matches_text("fib"));
}

#[test]
fn capture_without_args_reads_back_as_args() {
    let id = BenchmarkId::named("hash_set").with_capture("sum");
    assert_eq!(id.to_text(), "hash_set/sum");
    let parsed = BenchmarkId::parse("hash_set/sum");
    assert_eq!(parsed.args(), Some("sum"));
    assert_eq!(parsed.capture(), None);
}

#[test]
fn equality_ignores_location() {
    let a = BenchmarkId::new("fib", "15").at("benches/all.rs", 10);
    let b = BenchmarkId::new("fib", "15").at("benches/other.rs", 99);
    assert_eq!(a, b);
    assert_eq!(a.file(), "benches/all.rs");
    assert_eq!(a.line(), 10);
}

#[test]
fn ids_of_captures() {
    let id = BenchmarkId::named("hash_set");
    let names = vec!["collect".to_owned(), String::new(), "drain".to_owned()];
    let ids: Vec<String> = capture_ids(&id, &names).iter().map(|i| i.to_text()).collect();
    assert_eq!(ids, ["hash_set/collect", "hash_set", "hash_set/drain"]);
}

#[test]
fn only_last_iteration_stops() {
    assert_eq!(Capture::for_iteration(1, 3, true).behavior(), CaptureBehavior::NoOp);
    assert_eq!(Capture::for_iteration(3, 3, true).behavior(), CaptureBehavior::TerminateOnStart);
    assert_eq!(Capture::for_iteration(3, 3, false).behavior(), CaptureBehavior::TerminateOnEnd);
    assert!(Capture::for_iteration(3, 3, true).start().is_none());
    assert!(Capture::for_iteration(3, 3, false).start().unwrap().terminates());
    assert!(!Capture::no_op().start().unwrap().terminates());
}

#[test]
fn storing_baselines() {
    let out = |n: u64| CachegrindOutput::read(&format!("events: Ir\nsummary: {n}\n")).unwrap();
    let mut store = BaselineStore::new();
    store.insert("fib/15".to_owned(), out(10));
    store.insert("fib/20".to_owned(), out(20));
    store.insert("fib/15".to_owned(), out(30));
    assert_eq!(store.len(), 2);
    assert_eq!(store.get("fib/15").unwrap().summary.total_instructions(), 30);
    assert_eq!(store.get("fib/20").unwrap().summary.total_instructions(), 20);
    assert!(store.get("fib/25").is_none());
    let (id, first) = store.entry(0);
    assert_eq!(id, "fib/15");
    assert_eq!(first.summary.total_instructions(), 30);
    let with_fns = CachegrindOutput::read("events: Ir\nfn=a\n0 1\nsummary: 5000\n").unwrap();
    store.record("fns".to_owned(), &with_fns, false);
    assert!(store.get("fns").unwrap().breakdown.is_empty());
}

#[test]
fn breakdown_selection_and_order() {
    let current = CachegrindOutput::read(
        "events: Ir\nfn=<alloc::sync::Arc<T> as core::default::Default>::default\n0 10\nfn=yab::test\n0 90\nsummary: 100\n",
    )
    .unwrap();
    let prev = CachegrindOutput::read(
        "events: Ir\nfn=yab::test\n0 100\nfn=<hashbrown::raw::RawTable<T,A> as core::ops::drop::Drop>::drop\n0 20\nsummary: 120\n",
    )
    .unwrap();
    let items = breakdown_items(&current, Some(&prev), 1, 1);
    let shown: Vec<(String, u64, Option<u64>)> =
        items.iter().map(|i| (i.function.to_text(), i.current, i.prev)).collect();
    assert_eq!(
        shown,
        [
            ("yab::test".to_owned(), 90, Some(100)),
            ("<alloc::sync::Arc<T> as core::default::Default>::default".to_owned(), 10, Some(0)),
            ("<hashbrown::raw::RawTable<T,A> as core::ops::drop::Drop>::drop".to_owned(), 0, Some(20)),
        ]
    );
    let alone = breakdown_items(&current, None, 10, u64::MAX);
    assert_eq!(alone.len(), 1);
    assert_eq!(alone[0].function.to_text(), "yab::test");
    assert_eq!(alone[0].prev, None);
}

#[test]
fn finding_the_active_capture() {
    let id = BenchmarkId::new("rng", "10000");
    let names = vec!["outer".to_owned(), "gen_in_loop".to_owned(), "gen_array".to_owned()];
    assert_eq!(active_capture(&id, &names, "rng/10000/gen_in_loop"), Some(1));
    assert_eq!(active_capture(&id, &names, "rng/10000"), None);
    let single = vec![String::new()];
    assert_eq!(active_capture(&BenchmarkId::named("fib_short"), &single, "fib_short"), Some(0));
}

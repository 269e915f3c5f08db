use landingbench::book::{Landing, LandingBook, MemoObservation};
use landingbench::stats::Average;

fn text(s: &str) -> String {
    s.to_string()
}

fn seen(signature: &str, memo: &str, elapsed: u64) -> MemoObservation {
    MemoObservation { signature: text(signature), memo: text(memo), elapsed_since_start: elapsed }
}

fn send(book: &mut LandingBook<u32, u32>, signature: &str, provider: &str, at: u64, round: &str) {
    book.record_send(text(signature), text(provider), at, text(round), 1, 2);
}

#[test]
fn empty_book_sums_up_to_nothing() {
    let book: LandingBook<u32, u32> = LandingBook::new();
    let summary = book.finalize();
    assert_eq!(summary.providers.len(), 0);
    assert_eq!(summary.total_landed, 0);
    assert_eq!(summary.rounds, 0);
    assert_eq!(summary.overall.min, None);
}

#[test]
fn landing_closes_its_send() {
    let mut book: LandingBook<u32, u32> = LandingBook::new();
    book.start_round(text("r1"), 10);
    book.record_send(text("s1"), text("a"), 100, text("r1"), 11, 12);
    match book.record_landing(&seen("s1", "a|tail", 350)) {
        Landing::Landed { provider, latency, waiter, notifier } => {
            assert_eq!(provider, "a");
            assert_eq!(latency, 250);
            assert_eq!(waiter, Some(11));
            assert_eq!(notifier, Some(10));
        }
        other => panic!("{:?}", other),
    }
    assert!(matches!(book.record_landing(&seen("s1", "a|tail", 400)), Landing::Unknown));
    let summary = book.finalize();
    assert_eq!(summary.total_landed, 1);
    assert_eq!(summary.rounds, 1);
    assert_eq!(summary.providers[0].landed, 1);
    assert_eq!(summary.providers[0].latencies, vec![250]);
}

#[test]
fn memo_without_a_bar_names_its_provider() {
    let mut book: LandingBook<u32, u32> = LandingBook::new();
    send(&mut book, "s1", "a", 0, "r1");
    assert!(matches!(book.record_landing(&seen("s1", "a", 5)), Landing::Landed { .. }));
}

#[test]
fn unknown_signature_changes_nothing() {
    let mut book: LandingBook<u32, u32> = LandingBook::new();
    send(&mut book, "s1", "a", 0, "r1");
    assert!(matches!(book.record_landing(&seen("s2", "a|x", 5)), Landing::Unknown));
    assert!(matches!(book.record_landing(&seen("s1", "a|x", 5)), Landing::Landed { .. }));
}

#[test]
fn mismatch_closes_the_send_without_a_win() {
    let mut book: LandingBook<u32, u32> = LandingBook::new();
    send(&mut book, "s1", "a", 0, "r1");
    match book.record_landing(&seen("s1", "b|x", 5)) {
        Landing::Mismatch { expected } => assert_eq!(expected, "a"),
        other => panic!("{:?}", other),
    }
    assert!(matches!(book.record_landing(&seen("s1", "a|x", 6)), Landing::Unknown));
    let summary = book.finalize();
    assert_eq!(summary.total_landed, 0);
    assert_eq!(summary.providers[0].landed, 0);
    assert_eq!(book.round_notifier(&text("r1")), Some(&2));
}

#[test]
fn provider_with_a_bar_in_its_name_never_lands() {
    let mut book: LandingBook<u32, u32> = LandingBook::new();
    send(&mut book, "s1", "a|b", 0, "r1");
    assert!(matches!(
        book.record_landing(&seen("s1", "a|b|tail", 5)),
        Landing::Mismatch { .. }
    ));
}

#[test]
fn latency_is_never_negative() {
    let mut book: LandingBook<u32, u32> = LandingBook::new();
    send(&mut book, "s1", "a", 100, "r1");
    match book.record_landing(&seen("s1", "a|x", 99)) {
        Landing::Landed { latency, .. } => assert_eq!(latency, 0),
        other => panic!("{:?}", other),
    }
}

#[test]
fn round_counts_once_and_its_notifier_is_handed_out_once() {
    let mut book: LandingBook<u32, u32> = LandingBook::new();
    book.start_round(text("r1"), 77);
    send(&mut book, "s1", "a", 0, "r1");
    send(&mut book, "s2", "b", 0, "r1");
    match book.record_landing(&seen("s1", "a|x", 5)) {
        Landing::Landed { notifier, .. } => assert_eq!(notifier, Some(77)),
        other => panic!("{:?}", other),
    }
    match book.record_landing(&seen("s2", "b|x", 6)) {
        Landing::Landed { notifier, .. } => assert_eq!(notifier, None),
        other => panic!("{:?}", other),
    }
    let summary = book.finalize();
    assert_eq!(summary.total_landed, 1);
    assert_eq!(summary.providers[0].landed + summary.providers[1].landed, 2);
    assert_eq!(book.rounds_attempted(), 1);
}

#[test]
fn notifier_of_a_round_is_kept() {
    let mut book: LandingBook<u32, u32> = LandingBook::new();
    book.start_round(text("r1"), 1);
    book.start_round(text("r1"), 2);
    assert_eq!(book.round_notifier(&text("r1")), Some(&1));
    book.record_send(text("s"), text("a"), 0, text("r2"), 0, 9);
    assert_eq!(book.round_notifier(&text("r2")), Some(&9));
    assert_eq!(book.rounds_attempted(), 2);
}

#[test]
fn providers_are_summed_up_in_the_order_of_their_names() {
    let mut book: LandingBook<u32, u32> = LandingBook::new();
    for (i, name) in ["c", "a", "b"].iter().enumerate() {
        let signature = format!("s{}", i);
        book.start_round(format!("r{}", i), 0);
        send(&mut book, &signature, name, 0, &format!("r{}", i));
    }
    book.record_send(text("t"), text("a"), 0, text("r9"), 0, 0);
    book.record_landing(&seen("s0", "c|x", 30));
    book.record_landing(&seen("t", "a|x", 20));
    book.record_landing(&seen("s1", "a|x", 10));
    let summary = book.finalize();
    let names: Vec<&str> = summary.providers.iter().map(|p| p.name.as_str()).collect();
    assert_eq!(names, vec!["a", "b", "c"]);
    assert_eq!(summary.providers[0].latencies, vec![10, 20]);
    assert_eq!(summary.providers[1].landed, 0);
    assert_eq!(summary.total_landed, 3);
    assert_eq!(summary.rounds, 3);
    assert_eq!(summary.overall.min, Some(10));
    assert_eq!(summary.overall.max, Some(30));
    assert_eq!(summary.overall.p50, Some(20));
    assert_eq!(summary.overall.avg, Some(Average { total: 60, count: 3 }));
}

#[test]
fn record_tells_what_happened() {
    let mut book: LandingBook<u32, u32> = LandingBook::new();
    book.record_landing(&seen("s1", "a|x", 1));
    send(&mut book, "s1", "a", 0, "r1");
    book.start_round(text("r1"), 0);
    send(&mut book, "s2", "b", 5, "r1");
    send(&mut book, "s3", "a", 5, "r2");
    send(&mut book, "s4", "c", 5, "r3");
    book.start_round(text("r2"), 0);
    book.record_landing(&seen("s3", "a|x", 9));
    book.record_landing(&seen("s2", "b|x", 8));
    book.record_landing(&seen("s1", "a|x", 30));
    book.record_landing(&seen("s4", "a|x", 30));
    book.record_landing(&seen("s2", "b|x", 40));
    let summary = book.finalize();
    assert_eq!(summary.rounds, 2);
    assert_eq!(summary.total_landed, 2);
    let wins: Vec<(&str, usize)> =
        summary.providers.iter().map(|p| (p.name.as_str(), p.landed)).collect();
    assert_eq!(wins, vec![("a", 2), ("b", 1), ("c", 0)]);
    assert_eq!(summary.providers[0].latencies, vec![4, 30]);
}

use nurse_call_bridge::clock::Stamp;

#[test]
fn stamp_reads_the_clock_in_three_forms() {
    let stamp = Stamp::now();
    assert!(stamp.millis > 1_600_000_000_000);
    let iso: Vec<char> = stamp.iso.chars().collect();
    assert_eq!(iso.len(), 20);
    assert_eq!(iso[4], '-');
    assert_eq!(iso[7], '-');
    assert_eq!(iso[10], 'T');
    assert_eq!(iso[13], ':');
    assert_eq!(iso[16], ':');
    assert_eq!(iso[19], 'Z');
    let local: Vec<&str> = stamp.local.split('.').collect();
    assert_eq!(local.len(), 2);
    assert_eq!(local[0].len(), 8);
    assert_eq!(local[0].split(':').count(), 3);
    assert_eq!(local[1].split('-').count(), 3);
}

#[test]
fn stamp_agrees_with_itself() {
    let stamp = Stamp::now();
    let year: i64 = stamp.iso[0..4].parse().unwrap();
    let by_millis = 1970 + stamp.millis / 31_556_952_000;
    assert!((year - by_millis).abs() <= 1);
    assert_eq!(stamp.unsigned_millis(), stamp.millis as u128);
}

#[test]
fn time_before_the_epoch_counts_as_the_epoch() {
    let stamp = Stamp { millis: -5, iso: String::new(), local: String::new() };
    assert_eq!(stamp.unsigned_millis(), 0);
    let stamp = Stamp { millis: 12_345, iso: String::new(), local: String::new() };
    assert_eq!(stamp.unsigned_millis(), 12_345);
}

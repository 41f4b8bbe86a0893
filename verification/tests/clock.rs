use bot_camp::dashboard::now_ms;

#[test]
fn the_clock_reads_milliseconds_since_the_epoch() {
    let before = now_ms();
    let after = now_ms();

    // Later than 2020-09-13, the first instant with 13 decimal digits.
    assert!(before >= 1_600_000_000_000);
    assert!(after >= before);
}

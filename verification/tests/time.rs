use palmrs::time::{PalmTimestamp, is_palm_epoch, palm_ts_to_unix_ts, unix_ts_to_palm_ts};

#[test]
fn is_palm_epoch_detects_unix() {
    assert_eq!(is_palm_epoch(0), false);
    assert_eq!(is_palm_epoch(0x613f3997), false);
}

#[test]
fn is_palm_epoch_detects_palm() {
    assert_eq!(is_palm_epoch(0xb85898b0), true);
    assert_eq!(is_palm_epoch(0xdd64ea17), true);
}

#[test]
fn unix_to_palm_to_unix() {
    assert_eq!(1009969200, palm_ts_to_unix_ts(unix_ts_to_palm_ts(1009969200)));
}

#[test]
fn palm_to_unix_to_palm() {
    assert_eq!(3092855400, unix_ts_to_palm_ts(palm_ts_to_unix_ts(3092855400)));
}

#[test]
fn palmtimestamp_decodes_palm_epoch() {
    let ts = PalmTimestamp(3092855400);
    assert_eq!(ts.as_unix_ts(), 1009969200);
}

#[test]
fn palmtimestamp_passthru_unix_epoch() {
    let ts = PalmTimestamp(1009969200);
    assert_eq!(ts.as_unix_ts(), 1009969200);
}

#[test]
fn strftime_renders_utc_dates() {
    // 2002-01-02 11:00:00 UTC, in both epochs.
    let unix_ts = PalmTimestamp(1009969200);
    assert_eq!(unix_ts.strftime("%Y-%m-%d %H:%M:%S"), "2002-01-02 11:00:00");
    let palm_ts = PalmTimestamp(3092855400);
    assert_eq!(palm_ts.strftime("%Y-%m-%d"), "2002-01-02");
    let epoch = PalmTimestamp(0);
    assert_eq!(epoch.strftime("%s"), "0");
}

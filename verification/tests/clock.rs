use std::time::{Duration, SystemTime, UNIX_EPOCH};

use emacs_reporter::clock::{millis_from_elapsed, millis_since_epoch, secs_from_elapsed, secs_since_epoch};

#[test]
fn elapsed_readings_convert_to_whole_units() {
    assert_eq!(secs_from_elapsed(&Ok(Duration::from_millis(2_999))), 2);
    assert_eq!(millis_from_elapsed(&Ok(Duration::from_micros(2_999_999))), 2_999);
    let before_epoch = UNIX_EPOCH.duration_since(SystemTime::now());
    assert!(before_epoch.is_err());
    assert_eq!(secs_from_elapsed(&before_epoch), 0);
    assert_eq!(millis_from_elapsed(&before_epoch), 0);
}

#[test]
fn clock_reads_the_present() {
    let s = secs_since_epoch();
    let ms = millis_since_epoch();
    assert!(s > 1_577_836_800);
    assert!(ms / 1000 >= s as u128);
}

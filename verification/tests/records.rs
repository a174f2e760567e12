use apex_road::readout::{
    checkpoint_text, clock_text, gear_label, grip_status, optional_clock_text, speed_text,
};
use apex_road::scenery::scatter_bits;
use apex_road::records::{record_path, source_hash};

#[test]
fn fnv1a_hash_of_known_inputs() {
    assert_eq!(source_hash(b""), 0xcbf29ce484222325);
    assert_eq!(source_hash(b"a"), 0xaf63dc4c8601ec8c);
    assert_eq!(source_hash(b"foobar"), 0x85944171f73967e8);
}

#[test]
fn record_files_are_keyed_by_contents() {
    assert_eq!(record_path(b""), "data/cbf29ce484222325.best");
    assert_eq!(record_path(b"a"), "data/af63dc4c8601ec8c.best");
    assert_eq!(record_path(b"straight 40"), record_path(b"straight 40"));
    assert_ne!(record_path(b"straight 40"), record_path(b"straight 41"));
}

#[test]
fn clock_formats_minutes_seconds_and_millis() {
    assert_eq!(clock_text(0), "00:00.000");
    assert_eq!(clock_text(61_234), "01:01.234");
    assert_eq!(clock_text(10_200), "00:10.200");
    assert_eq!(clock_text(6_000_000), "100:00.000");
}

#[test]
fn instrument_labels() {
    assert_eq!(checkpoint_text(1, 3), "01 / 03");
    assert_eq!(checkpoint_text(5, 3), "03 / 03");
    assert_eq!(checkpoint_text(0, 120), "00 / 120");
    assert_eq!(gear_label(0), "N");
    assert_eq!(gear_label(7), "R");
    assert_eq!(gear_label(3), "3");
    assert_eq!(speed_text(7), "007");
    assert_eq!(speed_text(1234), "1234");
    assert_eq!(grip_status(true, true, true), "AIRBORNE");
    assert_eq!(grip_status(false, true, true), "OFF ROAD");
    assert_eq!(grip_status(false, false, true), "TRACTION");
    assert_eq!(grip_status(false, false, false), "GRIP");
}

#[test]
fn missing_times_show_dashes() {
    assert_eq!(optional_clock_text(None), "--:--.---");
    assert_eq!(optional_clock_text(Some(83_456)), "01:23.456");
}

#[test]
fn scatter_bits_are_fixed_per_seed() {
    assert_eq!(scatter_bits(0), 129_708_002);
    assert_eq!(scatter_bits(1), 2_831_084_092);
    assert_eq!(scatter_bits(400), 261_308_057);
    assert_eq!(scatter_bits(u32::MAX), 3_861_530_882);
}

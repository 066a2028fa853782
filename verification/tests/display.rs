use sensor_pipeline::gauge::{Frame, Gauge};
use sensor_pipeline::patterns::{blink, grown, Blink, DIAMETER_LIMIT};
use sensor_pipeline::label::bar_label;
use sensor_pipeline::readout::Readout;
use sensor_pipeline::text::decimal_digits;

#[test]
fn gauge_fills_its_track_in_proportion() {
    let track = Frame { left: 1, top: 48, width: 126, height: 15 };
    let gauge = Gauge::new(track, 10000);
    assert_eq!(gauge.outline(), track);
    assert_eq!(gauge.filled(0), Some(Frame { left: 1, top: 48, width: 0, height: 15 }));
    assert_eq!(gauge.filled(5000), Some(Frame { left: 1, top: 48, width: 63, height: 15 }));
    assert_eq!(gauge.filled(10000), Some(track));
}

#[test]
fn gauge_rounds_the_filled_width_down() {
    let gauge = Gauge::new(Frame { left: 70, top: 15, width: 56, height: 10 }, 65535);
    // 56 * 1500 / 65535 = 1.28..
    assert_eq!(gauge.filled(1500).unwrap().width, 1);
    assert_eq!(gauge.filled(65534).unwrap().width, 55);
    assert_eq!(gauge.filled(65535).unwrap().width, 56);
}

#[test]
fn gauge_holds_the_widest_tracks() {
    let gauge = Gauge::new(Frame { left: -5, top: -7, width: u32::MAX, height: 1 }, u32::MAX);
    assert_eq!(gauge.filled(u32::MAX).unwrap().width, u32::MAX);
    assert_eq!(
        gauge.filled(1),
        Some(Frame { left: -5, top: -7, width: 1, height: 1 })
    );
}

#[test]
fn gauge_shows_more_than_its_full_value() {
    let gauge = Gauge::new(Frame { left: 0, top: 0, width: 100, height: 4 }, 50);
    assert_eq!(gauge.filled(75).unwrap().width, 150);
}

#[test]
fn gauge_has_no_frame_wider_than_a_frame_can_be() {
    let gauge = Gauge::new(Frame { left: 0, top: 0, width: u32::MAX, height: 4 }, 2);
    assert_eq!(gauge.filled(2).unwrap().width, u32::MAX);
    assert_eq!(gauge.filled(3), None);
    assert_eq!(gauge.filled(u32::MAX), None);
}

#[test]
fn decimal_digits_end_the_buffer() {
    let (buffer, count) = decimal_digits(0);
    assert_eq!(count, 1);
    assert_eq!(buffer[9], '0');
    let (buffer, count) = decimal_digits(907);
    assert_eq!(count, 3);
    assert_eq!(&buffer[7..], &['9', '0', '7']);
    let (buffer, count) = decimal_digits(u32::MAX);
    assert_eq!(count, 10);
    assert_eq!(buffer.iter().collect::<String>(), "4294967295");
}

#[test]
fn readout_starts_empty() {
    assert_eq!(Readout::new().text().as_str(), "");
}

#[test]
fn readout_has_a_line_for_each_value() {
    let mut readout = Readout::new();
    readout.line("ADC RAW ", 1234);
    assert_eq!(readout.text().as_str(), "ADC RAW 1234\n");
    readout.line("Norm ", 5000);
    assert_eq!(readout.text().as_str(), "ADC RAW 1234\nNorm 5000\n");
}

#[test]
fn readout_writes_zero_as_one_digit() {
    let mut readout = Readout::new();
    readout.line("ADC RAW ", 0);
    readout.line("Norm ", 0);
    assert_eq!(readout.text().as_str(), "ADC RAW 0\nNorm 0\n");
}

#[test]
fn readout_holds_two_lines_of_the_largest_values() {
    let mut readout = Readout::new();
    readout.line("ADC RAW ", u32::MAX);
    readout.line("Norm ", u32::MAX);
    assert_eq!(readout.text().as_str(), "ADC RAW 4294967295\nNorm 4294967295\n");
    assert_eq!(readout.text().len(), 35);
}

#[test]
fn readout_is_what_the_formatter_writes() {
    for (raw, filtered, normalized) in [
        (7u32, 8u32, 12u32),
        (10, 11, 99),
        (100, 101, 1000),
        (4095, 4000, 10000),
        (65535, 65534, 65536),
        (999_999_999, 1, 1_000_000_000),
    ] {
        let mut readout = Readout::new();
        readout.line("ADC RAW ", raw);
        readout.line("Filt ", filtered);
        readout.line("Norm ", normalized);
        assert_eq!(
            readout.text().as_str(),
            format!("ADC RAW {}\nFilt {}\nNorm {}\n", raw, filtered, normalized)
        );
    }
}

#[test]
fn readout_ends_with_the_last_piece_that_fits() {
    // 19 and 16 and 15 bytes: the last line feed would be the 51st byte.
    let mut readout = Readout::new();
    readout.line("ADC RAW ", u32::MAX);
    readout.line("Filt ", u32::MAX);
    readout.line("Norm ", u32::MAX);
    assert_eq!(
        readout.text().as_str(),
        "ADC RAW 4294967295\nFilt 4294967295\nNorm 4294967295"
    );
    assert_eq!(readout.text().len(), 50);
    // Nothing more goes in.
    readout.line("", 0);
    assert_eq!(readout.text().len(), 50);

    // The digits are one piece.
    let mut readout = Readout::new();
    readout.line("0123456789012345678901234567890123456789012345", 12345);
    assert_eq!(
        readout.text().as_str(),
        "0123456789012345678901234567890123456789012345"
    );
    // A later line that fits is written.
    readout.line("", 123);
    assert_eq!(
        readout.text().as_str(),
        "0123456789012345678901234567890123456789012345123\n"
    );

    // What a line starts with is one piece.
    let mut readout = Readout::new();
    readout.line("012345678901234567890123456789012345678901234567890", 1);
    assert_eq!(readout.text().as_str(), "");
}

#[test]
fn bar_label_sets_the_value_to_the_right() {
    assert_eq!(bar_label("I", 0).as_str(), "I:     0");
    assert_eq!(bar_label("R", 1500).as_str(), "R:  1500");
    assert_eq!(bar_label("G", 42).as_str(), "G:    42");
    assert_eq!(bar_label("B", 65535).as_str(), "B: 65535");
}

#[test]
fn bar_label_is_what_the_formatter_writes() {
    for name in ["", "I", "R", "G", "B", "Red", "12345678"] {
        for value in [0u16, 9, 10, 99, 100, 999, 1000, 9999, 10000, 65535] {
            assert_eq!(bar_label(name, value).as_str(), format!("{}: {:5}", name, value));
        }
    }
}

#[test]
fn bar_label_counts_bytes() {
    // Four characters of two bytes each: the name takes eight bytes.
    assert_eq!(bar_label("éééé", 7).as_str(), "éééé:     7");
    assert_eq!(bar_label("éééé", 7).len(), 15);
}

#[test]
fn bar_label_ends_with_the_last_piece_that_fits() {
    // Nine bytes of name, the colon, the blank and four blanks fill the text.
    assert_eq!(bar_label("123456789", 7).as_str(), "123456789:     ");
    // The five digits would be the sixteenth to twentieth byte.
    assert_eq!(bar_label("1234567890123", 12345).as_str(), "1234567890123: ");
    // Three blanks fit, the two digits do not.
    assert_eq!(bar_label("1234567890", 42).as_str(), "1234567890:    ");
    // The colon and the blank are one piece.
    assert_eq!(bar_label("12345678901234", 1).as_str(), "12345678901234");
    assert_eq!(bar_label("123456789012345", 1).as_str(), "123456789012345");
    // The name is one piece too.
    assert_eq!(bar_label("1234567890123456", 1).as_str(), "");
}

#[test]
fn blink_follows_the_symbol() {
    assert_eq!(blink('.'), Blink { lit_ms: 200, dark_ms: 300 });
    assert_eq!(blink('-'), Blink { lit_ms: 700, dark_ms: 300 });
    assert_eq!(blink(' '), Blink { lit_ms: 0, dark_ms: 800 });
    assert_eq!(blink('x'), Blink { lit_ms: 0, dark_ms: 300 });
}

#[test]
fn circle_grows_and_starts_over() {
    assert_eq!(grown(0), 1);
    assert_eq!(grown(80), 81);
    assert_eq!(grown(158), 159);
    assert_eq!(grown(159), 0);
    assert_eq!(grown(u32::MAX), 96);
    assert_eq!(DIAMETER_LIMIT, 160);
}

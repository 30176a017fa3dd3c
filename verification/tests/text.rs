use electrode_command_authority::number::{
    decimal_text, is_digit, parse_u128, parse_u32, parse_u64, signed_decimal_text,
};
use electrode_command_authority::speed::is_speed;
use electrode_command_authority::text::{
    chars_of, is_blank, is_blank_char, lines, same_text, sorts_before, split, starts_with,
    strip_prefix, strip_suffix, text_of, trim, trim_end_char,
};

#[test]
fn blank_characters_are_those_of_std() {
    for code in 0..=0x10_ffff_u32 {
        if let Some(c) = char::from_u32(code) {
            assert_eq!(is_blank_char(c), c.is_whitespace(), "{code:x}");
        }
    }
}

const SAMPLES: [&str; 14] = [
    "",
    " ",
    "\n",
    "a",
    "a\nb",
    "a\r\nb\r\n",
    "\r",
    "a\r\r\n",
    "\n\n",
    "x,y,,z",
    ",",
    "  two words\t",
    "\u{3000}wide\u{85}",
    "gcs/v1/cmd//",
];

#[test]
fn lines_pieces_and_trimming_are_those_of_std() {
    for sample in SAMPLES {
        let chars = chars_of(sample);
        let found: Vec<String> = lines(&chars).iter().map(text_of).collect();
        assert_eq!(found, sample.lines().collect::<Vec<_>>(), "{sample:?}");
        let parts: Vec<String> = split(&chars, ',').iter().map(text_of).collect();
        assert_eq!(parts, sample.split(',').collect::<Vec<_>>(), "{sample:?}");
        assert_eq!(trim(sample), sample.trim());
        assert_eq!(is_blank(&chars), sample.trim().is_empty());
        assert_eq!(trim_end_char(sample, '/'), sample.trim_end_matches('/'));
        for other in SAMPLES {
            assert_eq!(
                strip_prefix(sample, other).as_deref(),
                sample.strip_prefix(other)
            );
            assert_eq!(
                strip_suffix(sample, other).as_deref(),
                sample.strip_suffix(other)
            );
            assert_eq!(same_text(sample, other), sample == other);
            assert_eq!(sorts_before(sample, other), sample < other);
            assert_eq!(
                starts_with(&chars, &chars_of(other)),
                sample.starts_with(other)
            );
        }
    }
}

#[test]
fn numbers_are_read_as_std_reads_them() {
    let samples = [
        "0",
        "+0",
        "7",
        "+007",
        "-1",
        "-0",
        "",
        "+",
        "-",
        " 1",
        "1 ",
        "1_0",
        "0x1",
        "4294967295",
        "4294967296",
        "18446744073709551615",
        "18446744073709551616",
        "340282366920938463463374607431768211455",
        "340282366920938463463374607431768211456",
        "000000000000000000000000000000000000000000000009",
        "\u{663}",
    ];
    for sample in samples {
        assert_eq!(parse_u32(sample), sample.parse::<u32>().ok(), "{sample}");
        assert_eq!(parse_u64(sample), sample.parse::<u64>().ok(), "{sample}");
        assert_eq!(parse_u128(sample), sample.parse::<u128>().ok(), "{sample}");
    }
}

#[test]
fn numbers_are_written_as_std_writes_them() {
    for n in [0, 9, 10, 1_700_000_000_000_000_000, u128::MAX] {
        assert_eq!(decimal_text(n), n.to_string());
        assert_eq!(parse_u128(&decimal_text(n)), Some(n));
    }
    for n in [0, 7, -7, i32::MAX, i32::MIN] {
        assert_eq!(signed_decimal_text(n), n.to_string());
    }
    assert!(is_digit('0') && is_digit('9') && !is_digit('a') && !is_digit('\u{663}'));
}

#[test]
fn speeds_are_those_that_std_reads() {
    let samples = [
        "1", "1.", ".1", "1.5", "-1.5", "+1.5", "1e3", "1e+3", "1e-3", "1E3", "1.e3", ".5e3",
        "inf", "-inf", "+Infinity", "NaN", "nan", "-nan", "INFINITY", "", ".", "-", "+", "e3",
        ".e3", "1e", "1e+", "1.2.3", " 1", "1 ", "1,5", "0x10", "infinit", "nano", "--1", "1e3.5",
        "1_0", "1f32", "9999999999999999999999999999999999999999999", "1e9999", "+-1", "1-", "i",
        "in", "+e1", "1ee1", "\u{131}nf",
    ];
    for sample in samples {
        assert_eq!(is_speed(sample), sample.parse::<f32>().is_ok(), "{sample}");
    }
    for value in [0.0_f32, -0.0, 1.0e-45, 3.4e38, f32::NAN, f32::INFINITY, -2.5] {
        assert!(is_speed(&value.to_string()));
    }
}

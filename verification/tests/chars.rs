use rust16vm::assembler::chars::{
    chars_of, parse_decimal, parse_hexadecimal, space, spells, split_words, text_of, trim, trim_end_matches,
    trim_start_matches,
};
use rust16vm::assembler::resolve::split_lines;

fn chars(text: &str) -> Vec<char> {
    text.chars().collect()
}

fn strings(words: Vec<Vec<char>>) -> Vec<String> {
    words.iter().map(|word| word.iter().collect()).collect()
}

const SAMPLES: [&str; 16] = [
    "",
    " ",
    "MOV A, #10",
    "  MOV\tA,\u{a0}#10 \r\n",
    "a\u{2003}b\u{3000}c\u{85}d\u{1680}e\u{2028}f\u{2029}g\u{202f}h\u{205f}i",
    "\u{200b}zero\u{200b}width\u{180e}",
    "x\u{b}y\u{c}z",
    ",,A,,",
    "[[#1",
    "#2]]",
    ":::",
    "label::",
    "\n\n",
    "one\ntwo\r\n  three  \n",
    "tr\u{e4}iling \u{1f600} ",
    "+",
];

#[test]
fn white_space_is_what_the_standard_library_says() {
    for c in '\0'..=char::MAX {
        assert_eq!(space(c), c.is_whitespace(), "{:?}", c);
    }
}

#[test]
fn words_are_split_at_white_space() {
    for sample in SAMPLES {
        let expected: Vec<String> = sample.split_whitespace().map(String::from).collect();
        assert_eq!(strings(split_words(&chars(sample))), expected, "{:?}", sample);
    }
    assert_eq!(strings(split_words(&chars(" a  bc "))), vec!["a", "bc"]);
}

#[test]
fn trimming() {
    for sample in SAMPLES {
        let text = chars(sample);
        assert_eq!(trim(&text), chars(sample.trim()), "{:?}", sample);
        for c in [',', '[', ']', ':', '#'] {
            assert_eq!(trim_end_matches(&text, c), chars(sample.trim_end_matches(c)));
            assert_eq!(trim_start_matches(&text, c), chars(sample.trim_start_matches(c)));
        }
    }
    assert_eq!(trim_end_matches(&chars("A,,"), ','), chars("A"));
    assert_eq!(trim_start_matches(&chars("[[#1"), '['), chars("#1"));
    assert_eq!(trim(&chars("\t x y \n")), chars("x y"));
}

#[test]
fn lines_are_split_at_line_feeds_and_trimmed() {
    for sample in SAMPLES {
        let mut expected: Vec<String> = sample.split('\n').map(|line| line.trim().to_string()).collect();
        assert_eq!(strings(split_lines(&chars(sample))), expected, "{:?}", sample);
        // the standard library leaves out what follows the last line feed
        // if that is nothing, and is the same otherwise
        if sample.is_empty() || sample.ends_with('\n') {
            expected.pop();
        }
        let std_lines: Vec<String> = sample.lines().map(|line| line.trim().to_string()).collect();
        assert_eq!(expected, std_lines, "{:?}", sample);
    }
    assert_eq!(strings(split_lines(&chars("a\n b \n"))), vec!["a", "b", ""]);
}

#[test]
fn numbers_are_read_as_the_standard_library_reads_them() {
    for n in (0..=70_000u32).step_by(7).chain([65_535, 65_536, 99_999, 100_000]) {
        let decimal = n.to_string();
        assert_eq!(parse_decimal(&chars(&decimal)), decimal.parse::<u16>().ok());
        let hex = format!("{:x}", n);
        assert_eq!(parse_hexadecimal(&chars(&hex)), u16::from_str_radix(&hex, 16).ok());
        let upper = format!("+000{:X}", n);
        assert_eq!(parse_hexadecimal(&chars(&upper)), u16::from_str_radix(&upper, 16).ok());
    }
    for text in [
        "", "+", "-", "-0", "+0", "++1", "+-1", "1+", " 1", "1 ", "0x10", "1_000", "12a", "a", "g",
        "\u{661}", "\u{ff11}", "00000000000000000000065535", "00000000000000000000065536",
        "999999999999999999999999999999", "ffff", "FFFF", "fFfF", "10000", "fffff",
    ] {
        assert_eq!(parse_decimal(&chars(text)), text.parse::<u16>().ok(), "{:?}", text);
        assert_eq!(
            parse_hexadecimal(&chars(text)),
            u16::from_str_radix(text, 16).ok(),
            "{:?}",
            text
        );
    }
    assert_eq!(parse_decimal(&chars("65535")), Some(65535));
    assert_eq!(parse_hexadecimal(&chars("ff")), Some(255));
}

#[test]
fn texts_and_their_characters() {
    for sample in SAMPLES {
        assert_eq!(chars_of(sample), chars(sample));
        assert_eq!(text_of(&chars(sample)), sample);
        assert!(spells(&chars(sample), sample));
        assert!(!spells(&chars(sample), "another"));
    }
    assert!(!spells(&chars("MOV"), "MOW"));
    assert!(!spells(&chars("MOV"), "MO"));
}

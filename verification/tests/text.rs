use link_fixer::text::{parse_insertion_point, split_ascii_whitespace, split_lines};

const SAMPLES: [&str; 16] = [
    "",
    "a",
    "a b",
    "  a  b  ",
    "a\tb\nc\rd\x0Ce",
    "a\x0Bb",
    "a\u{a0}b \u{2003}c",
    "\n",
    "\n\n",
    "a\n",
    "a\nb",
    "a\r\nb\r\n",
    "a\r",
    "a\r\r\nb",
    "\r\n\r\n x \r y\n\r",
    "h\u{e9}llo w\u{f6}rld\n\u{1f600} z",
];

#[test]
fn words_are_those_of_std() {
    for sample in SAMPLES {
        let expected: Vec<String> = sample.split_ascii_whitespace().map(String::from).collect();
        assert_eq!(split_ascii_whitespace(sample), expected, "{:?}", sample);
    }
}

#[test]
fn lines_are_those_of_std() {
    for sample in SAMPLES {
        let expected: Vec<String> = sample.lines().map(String::from).collect();
        assert_eq!(split_lines(sample), expected, "{:?}", sample);
    }
}

#[test]
fn words_of_a_message() {
    assert_eq!(
        split_ascii_whitespace("hey  https://x.com/a/status/1\nbye"),
        vec!["hey".to_string(), "https://x.com/a/status/1".to_string(), "bye".to_string()]
    );
}

#[test]
fn lines_of_a_configuration() {
    assert_eq!(
        split_lines("(a)\r\nb{0}\nreplace\n\nlast"),
        vec![
            "(a)".to_string(),
            "b{0}".to_string(),
            "replace".to_string(),
            "".to_string(),
            "last".to_string()
        ]
    );
}

#[test]
fn insertion_points_are_read() {
    assert_eq!(parse_insertion_point("{0}"), Some(0));
    assert_eq!(parse_insertion_point("{12}"), Some(12));
    assert_eq!(parse_insertion_point("{007}"), Some(7));
    assert_eq!(parse_insertion_point("{18446744073709551615}"), "18446744073709551615".parse().ok());
}

#[test]
fn insertion_points_without_a_number_are_refused() {
    assert_eq!(parse_insertion_point(""), None);
    assert_eq!(parse_insertion_point("{}"), None);
    assert_eq!(parse_insertion_point("{a}"), None);
    assert_eq!(parse_insertion_point("{1a}"), None);
    assert_eq!(parse_insertion_point("{-1}"), None);
    assert_eq!(parse_insertion_point("{\u{663}}"), None);
    assert_eq!(parse_insertion_point("{340282366920938463463374607431768211456}"), None);
}

fn all_texts(alphabet: &[char], longest: usize) -> Vec<String> {
    let mut texts = vec![String::new()];
    let mut from = 0;
    for _ in 0..longest {
        let until = texts.len();
        for i in from..until {
            for c in alphabet {
                let mut longer = texts[i].clone();
                longer.push(*c);
                texts.push(longer);
            }
        }
        from = until;
    }
    texts
}

#[test]
fn words_of_every_short_text_are_those_of_std() {
    for sample in all_texts(&[' ', '\n', '\r', '\t', '\x0C', 'a', '\u{e9}'], 5) {
        let expected: Vec<String> = sample.split_ascii_whitespace().map(String::from).collect();
        assert_eq!(split_ascii_whitespace(&sample), expected, "{:?}", sample);
    }
}

#[test]
fn lines_of_every_short_text_are_those_of_std() {
    for sample in all_texts(&['\n', '\r', 'a', ' ', '\u{e9}'], 6) {
        let expected: Vec<String> = sample.lines().map(String::from).collect();
        assert_eq!(split_lines(&sample), expected, "{:?}", sample);
    }
}

#[test]
fn insertion_points_are_the_numbers_of_std() {
    for sample in all_texts(&['0', '1', '9', '+', '-', ' ', 'x', '\u{663}'], 4) {
        let text = format!("{{{}}}", sample);
        let expected = if sample.starts_with('+') { None } else { sample.parse::<usize>().ok() };
        assert_eq!(parse_insertion_point(&text), expected, "{:?}", text);
    }
}

use job_similarity::record::split_record_line;

fn split(line: &str) -> Option<(String, String)> {
    split_record_line(line.as_bytes()).map(|f| {
        (String::from_utf8(f.name).unwrap(), String::from_utf8(f.value).unwrap())
    })
}

#[test]
fn well_formed_line_splits_into_name_and_percentage() {
    let (name, value) = split("Kindergarten and earlier school teachers\t2.3").unwrap();
    assert_eq!(name, "Kindergarten and earlier school teachers");
    assert_eq!(value, "2.3");
    assert_eq!(value.parse::<f64>().unwrap(), 2.3);
}

#[test]
fn unparsable_percentage_is_handed_on_as_text() {
    let (name, value) = split("Flight attendants\tunknown").unwrap();
    assert_eq!(name, "Flight attendants");
    assert!(value.parse::<f64>().is_err());
}

#[test]
fn runs_of_whitespace_collapse_in_the_name() {
    let (name, value) = split("  Air   traffic\t controllers \t 81.5 \r\n").unwrap();
    assert_eq!(name, "Air traffic controllers");
    assert_eq!(value, "81.5");
}

#[test]
fn lines_with_fewer_than_two_fields_hold_no_record() {
    assert!(split("").is_none());
    assert!(split("   \t ").is_none());
    assert!(split("Lonely").is_none());
    assert!(split("  42.0  ").is_none());
}

#[test]
fn two_fields_give_a_one_word_name() {
    let (name, value) = split("Pilots 94.6").unwrap();
    assert_eq!(name, "Pilots");
    assert_eq!(value, "94.6");
}

#[test]
fn unicode_whitespace_separates_fields() {
    let (name, value) = split("A\u{3000}5").unwrap();
    assert_eq!(name, "A");
    assert_eq!(value, "5");
    let (name, value) = split("A\u{3000}B").unwrap();
    assert_eq!(name, "A");
    assert_eq!(value, "B");
    assert!(value.parse::<f64>().is_err());
}

#[test]
fn splitting_agrees_with_split_whitespace() {
    let lines = [
        "Nurses\u{00A0}and\u{2003}midwives\u{0085}10.5",
        "Caf\u{e9} owners\u{1680}\u{2000}\u{200A}44.1",
        "Line\u{2028}and\u{2029}paragraph\u{202F}x\u{205F}7",
        "Hyphen\u{2010}ated 3.5",
        "\u{3000}\u{3000}Only\u{3000}",
        "\u{00A0}",
        "Tab\tand\u{000B}vt\u{000C}ff\r1",
        "\u{4E2D}\u{6587} 12",
    ];
    for line in lines {
        let words: Vec<&str> = line.split_whitespace().collect();
        let expected = if words.len() >= 2 {
            Some((words[..words.len() - 1].join(" "), words[words.len() - 1].to_string()))
        } else {
            None
        };
        assert_eq!(split(line), expected, "line {:?}", line);
    }
}

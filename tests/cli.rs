use passgen::{parse_chars, parse_length, ArgError, Args, MIN_LENGTH};

fn args(flags: [bool; 5], chars: Option<&str>) -> Args {
    Args {
        all: flags[0],
        chars: chars.map(|s| s.to_string()),
        count: 3,
        length: 9,
        use_lower: flags[1],
        use_upper: flags[2],
        use_digits: flags[3],
        use_symbols: flags[4],
        output: None,
    }
}

#[test]
fn length_parses() {
    assert_eq!(parse_length("6"), Ok(6));
    assert_eq!(parse_length("12"), Ok(12));
    assert_eq!(parse_length("+20"), Ok(20));
    assert_eq!(MIN_LENGTH, 6);
}

#[test]
fn length_below_minimum() {
    assert_eq!(parse_length("5"), Err(ArgError::LengthBelowMinimum { minimum: 6 }));
    assert_eq!(parse_length("0"), Err(ArgError::LengthBelowMinimum { minimum: 6 }));
}

#[test]
fn length_not_a_number() {
    assert_eq!(parse_length("abc"), Err(ArgError::NotANumber));
    assert_eq!(parse_length(""), Err(ArgError::NotANumber));
    assert_eq!(parse_length("-7"), Err(ArgError::NotANumber));
    assert_eq!(parse_length(" 8"), Err(ArgError::NotANumber));
    assert_eq!(parse_length("99999999999999999999999"), Err(ArgError::NotANumber));
}

#[test]
fn chars_accepted() {
    assert_eq!(parse_chars("abc!"), Ok("abc!".to_string()));
    assert_eq!(parse_chars("~"), Ok("~".to_string()));
}

#[test]
fn chars_rejected_in_order() {
    assert_eq!(parse_chars(""), Err(ArgError::EmptyChars));
    assert_eq!(parse_chars("a b"), Err(ArgError::WhitespaceInChars));
    assert_eq!(parse_chars("a\u{a0}"), Err(ArgError::WhitespaceInChars));
    assert_eq!(parse_chars("\u{7}\t"), Err(ArgError::WhitespaceInChars));
    assert_eq!(parse_chars("a\u{7}"), Err(ArgError::ControlInChars));
    assert_eq!(parse_chars("a\u{85}"), Err(ArgError::WhitespaceInChars));
    assert_eq!(parse_chars("a\u{9f}"), Err(ArgError::ControlInChars));
    assert_eq!(parse_chars("aé"), Err(ArgError::NonAsciiChars));
}

#[test]
fn nothing_chosen_enables_every_category() {
    let c = args([false; 5], None).to_config();
    assert!(c.use_lower && c.use_upper && c.use_digits && c.use_symbols);
    assert_eq!(c.length, 9);
    assert_eq!(c.count, 3);
    assert_eq!(c.custom_chars, None);
}

#[test]
fn custom_set_alone_disables_categories() {
    let c = args([false; 5], Some("xy")).to_config();
    assert!(!c.use_lower && !c.use_upper && !c.use_digits && !c.use_symbols);
    assert_eq!(c.custom_chars, Some("xy".to_string()));
}

#[test]
fn chosen_flags_are_kept() {
    let c = args([false, false, true, true, false], None).to_config();
    assert!(!c.use_lower && c.use_upper && c.use_digits && !c.use_symbols);
}

#[test]
fn all_enables_every_category() {
    let c = args([true, false, true, false, false], Some("q")).to_config();
    assert!(c.use_lower && c.use_upper && c.use_digits && c.use_symbols);
    assert_eq!(c.custom_chars, Some("q".to_string()));
}

#[test]
fn accepted_set_is_accepted_again() {
    let t = parse_chars("abc!").unwrap();
    assert_eq!(t, "abc!");
    assert_eq!(parse_chars(&t), Ok(t.clone()));
}

use passgen::{
    chars_of, generate_passwords, ConfigError, GeneratorConfig, PasswordGenerator, DIGITS,
    LOWERCASE, SYMBOLS, UPPERCASE,
};

fn config(
    length: usize,
    count: usize,
    flags: [bool; 4],
    custom_chars: Option<&str>,
) -> GeneratorConfig {
    GeneratorConfig {
        length,
        count,
        use_lower: flags[0],
        use_upper: flags[1],
        use_digits: flags[2],
        use_symbols: flags[3],
        custom_chars: custom_chars.map(|s| s.to_string()),
    }
}

fn has_any(password: &str, set: &str) -> bool {
    password.chars().any(|c| set.contains(c))
}

#[test]
fn lower_and_digits_scenario() {
    let out = generate_passwords(config(8, 1, [true, false, true, false], None)).unwrap();
    assert_eq!(out.len(), 1);
    let p = &out[0];
    assert_eq!(p.chars().count(), 8);
    assert!(p.chars().all(|c| c.is_ascii_lowercase() || c.is_ascii_digit()));
    assert!(has_any(p, LOWERCASE));
    assert!(has_any(p, DIGITS));
}

#[test]
fn all_categories_with_length_one_rejected() {
    let r = generate_passwords(config(1, 1, [true, true, true, true], None));
    assert_eq!(r, Err(ConfigError::LengthTooShort { length: 1, required: 4 }));
}

#[test]
fn length_three_with_four_categories_rejected() {
    let r = PasswordGenerator::new(config(3, 5, [true, true, true, true], None));
    assert!(matches!(r, Err(ConfigError::LengthTooShort { length: 3, required: 4 })));
}

#[test]
fn custom_set_counts_as_a_required_set() {
    let r = generate_passwords(config(2, 1, [true, false, true, false], Some("%")));
    assert_eq!(r, Err(ConfigError::LengthTooShort { length: 2, required: 3 }));
    let out = generate_passwords(config(3, 4, [true, false, true, false], Some("%"))).unwrap();
    for p in &out {
        assert!(p.contains('%'));
        assert!(has_any(p, LOWERCASE));
        assert!(has_any(p, DIGITS));
    }
}

#[test]
fn no_category_rejected() {
    let r = generate_passwords(config(8, 1, [false, false, false, false], None));
    assert_eq!(r, Err(ConfigError::NoCharacterSets));
}

#[test]
fn empty_custom_set_is_not_a_set() {
    let r = generate_passwords(config(8, 1, [false, false, false, false], Some("")));
    assert_eq!(r, Err(ConfigError::NoCharacterSets));
    let out = generate_passwords(config(1, 3, [false, false, true, false], Some(""))).unwrap();
    assert!(out.iter().all(|p| p.len() == 1 && has_any(p, DIGITS)));
}

#[test]
fn length_equal_to_set_count_is_accepted() {
    let out = generate_passwords(config(5, 20, [true, true, true, true], Some("~"))).unwrap();
    for p in &out {
        assert_eq!(p.chars().count(), 5);
        assert!(has_any(p, LOWERCASE));
        assert!(has_any(p, UPPERCASE));
        assert!(has_any(p, DIGITS));
        assert!(has_any(p, SYMBOLS));
        assert!(p.contains('~'));
    }
}

#[test]
fn batch_has_requested_count() {
    for n in [0usize, 1, 7, 50] {
        let out = generate_passwords(config(12, n, [true, true, true, true], None)).unwrap();
        assert_eq!(out.len(), n);
        for p in &out {
            assert_eq!(p.chars().count(), 12);
            assert!(has_any(p, LOWERCASE));
            assert!(has_any(p, UPPERCASE));
            assert!(has_any(p, DIGITS));
            assert!(has_any(p, SYMBOLS));
        }
    }
}

#[test]
fn every_character_is_in_the_alphabet() {
    let out = generate_passwords(config(40, 30, [false, true, false, true], Some("xyz"))).unwrap();
    let alphabet = format!("{}{}xyz", UPPERCASE, SYMBOLS);
    for p in &out {
        assert_eq!(p.chars().count(), 40);
        assert!(p.chars().all(|c| alphabet.contains(c)));
        assert!(has_any(p, "xyz"));
    }
}

#[test]
fn single_generator_draws_valid_passwords() {
    let g = PasswordGenerator::new(config(10, 1, [true, true, false, false], None)).unwrap();
    let mut rng = rand::thread_rng();
    for _ in 0..100 {
        let p = g.create_one_password(&mut rng);
        assert_eq!(p.chars().count(), 10);
        assert!(has_any(&p, LOWERCASE));
        assert!(has_any(&p, UPPERCASE));
        assert!(p.chars().all(|c| c.is_ascii_alphabetic()));
    }
}

#[test]
fn passwords_vary() {
    let out = generate_passwords(config(16, 50, [true, true, true, true], None)).unwrap();
    let mut distinct = out.clone();
    distinct.sort();
    distinct.dedup();
    assert!(distinct.len() > 1);
}

#[test]
fn required_characters_are_not_kept_in_front() {
    // Without the shuffle the first character would always be lowercase.
    let out = generate_passwords(config(30, 500, [true, false, false, false], Some("#"))).unwrap();
    assert!(out.iter().any(|p| p.starts_with('#')));
    assert!(out.iter().all(|p| p.contains('#')));
}

#[test]
fn digits_are_drawn_uniformly() {
    let out = generate_passwords(config(10, 2000, [false, false, true, false], None)).unwrap();
    let mut counts = [0u64; 10];
    for p in &out {
        for c in p.chars() {
            counts[(c as u8 - b'0') as usize] += 1;
        }
    }
    let total: u64 = counts.iter().sum();
    assert_eq!(total, 20000);
    let expected = total as f64 / 10.0;
    let chi2: f64 = counts
        .iter()
        .map(|&n| {
            let d = n as f64 - expected;
            d * d / expected
        })
        .sum();
    // Nine degrees of freedom: 40 is far beyond the 0.9999 quantile.
    assert!(chi2 < 40.0, "chi-square {} for counts {:?}", chi2, counts);
}

#[test]
fn chars_of_keeps_order() {
    assert_eq!(chars_of("abc"), vec!['a', 'b', 'c']);
    assert_eq!(chars_of(""), Vec::<char>::new());
    assert_eq!(chars_of(DIGITS).len(), 10);
    assert_eq!(chars_of(SYMBOLS).len(), 26);
}

#[test]
fn overlapping_sets_each_get_a_position() {
    let out = generate_passwords(config(2, 200, [true, false, false, false], Some("a"))).unwrap();
    for p in &out {
        assert_eq!(p.chars().count(), 2);
        assert!(p.chars().all(|c| c.is_ascii_lowercase()));
        assert!(p.contains('a'));
    }
}

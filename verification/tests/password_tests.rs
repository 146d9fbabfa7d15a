use passwords::analyzer::analyze;
use passwords::scorer::score;
use rand_tool::generate_pwd;
use rand_tool::password::{with_scores, ConfigurationError, PasswordRequest, FULL_SCORE_BITS};
use rand_tool::pwd_info::PwdInfo;

const SIMILAR: &str = "iI1loO0\"'`|";

fn is_symbol(c: char) -> bool {
    matches!(c, '!'..='/' | ':'..='@' | '['..='`' | '{'..='~')
}

fn request(length: u8, count: u8) -> PasswordRequest {
    PasswordRequest {
        length,
        numbers: true,
        lowercase_letters: true,
        uppercase_letters: true,
        symbols: true,
        spaces: true,
        exclude_similar_characters: false,
        strict: false,
        count,
    }
}

#[test]
fn test_generate_pwd_basic() {
    let result = generate_pwd(12, true, true, true, false, 3);
    assert_eq!(result.len(), 3);
    for pwd_info in result.iter() {
        assert_eq!(pwd_info.password.len(), 12);
    }
}

#[test]
fn test_generate_pwd_with_symbols() {
    let result = generate_pwd(16, true, true, true, true, 1);
    assert_eq!(result.len(), 1);
    for pwd_info in result.iter() {
        assert_eq!(pwd_info.password.len(), 16);
    }
}

#[test]
fn test_generate_pwd_only_numbers() {
    let result = generate_pwd(10, true, false, false, false, 2);
    assert_eq!(result.len(), 2);
    for pwd_info in result.iter() {
        assert_eq!(pwd_info.password.len(), 10);
        assert!(pwd_info.password.chars().all(|c| c.is_ascii_digit()));
    }
}

#[test]
fn generate_pwd_shows_every_enabled_class() {
    // As short as the four classes allow, so that chance alone would often
    // leave one out.
    let result = generate_pwd(4, true, true, true, true, 200);
    assert_eq!(result.len(), 200);
    for info in result.iter() {
        assert_eq!(info.password.chars().count(), 4);
        assert!(info.password.chars().any(|c| c.is_ascii_digit()));
        assert!(info.password.chars().any(|c| c.is_ascii_uppercase()));
        assert!(info.password.chars().any(|c| c.is_ascii_lowercase()));
        assert!(info.password.chars().any(is_symbol));
    }
}

#[test]
fn generate_pwd_leaves_out_similar_glyphs() {
    let result = generate_pwd(255, true, true, true, true, 20);
    for info in result.iter() {
        assert_eq!(info.password.chars().count(), 255);
        assert!(info.password.chars().all(|c| !SIMILAR.contains(c)));
        assert!(!info.password.contains(' '));
    }
}

#[test]
fn generate_pwd_draws_on_enabled_classes_only() {
    for info in generate_pwd(40, false, true, false, false, 10).iter() {
        assert!(info.password.chars().all(|c| c.is_ascii_uppercase()));
    }
    for info in generate_pwd(40, false, false, true, false, 10).iter() {
        assert!(info.password.chars().all(|c| c.is_ascii_lowercase()));
    }
    for info in generate_pwd(40, false, false, false, true, 10).iter() {
        assert!(info.password.chars().all(is_symbol));
    }
    for info in generate_pwd(40, true, false, true, false, 10).iter() {
        assert!(info.password.chars().all(|c| c.is_ascii_digit() || c.is_ascii_lowercase()));
    }
}

#[test]
fn generate_pwd_count_zero_gives_nothing() {
    assert_eq!(generate_pwd(18, true, true, true, false, 0).len(), 0);
}

#[test]
fn generate_pwd_largest_count() {
    assert_eq!(generate_pwd(3, true, true, true, false, 255).len(), 255);
}

#[test]
fn generate_pwd_passwords_differ() {
    let result = generate_pwd(18, true, true, true, false, 200);
    let mut texts: Vec<&str> = result.iter().map(|info| info.password.as_str()).collect();
    texts.sort();
    texts.dedup();
    assert_eq!(texts.len(), 200);
}

#[test]
fn generate_pwd_scores_each_password() {
    for info in generate_pwd(18, true, true, true, true, 20).iter() {
        let expected = score(&analyze(&info.password));
        assert_eq!(info.score_bits, expected.to_bits());
        let value = f64::from_bits(info.score_bits);
        assert!((0.0..=100.0).contains(&value));
    }
}

#[test]
fn with_scores_exact_values() {
    let scored = with_scores(vec![
        "".to_string(),
        "a".to_string(),
        "qwmzxkvb".to_string(),
        "aaaa1111".to_string(),
        "aB3 $xYz".to_string(),
    ]);
    assert_eq!(scored.len(), 5);
    assert_eq!(scored[0].password, "");
    assert_eq!(scored[1].password, "a");
    assert_eq!(scored[2].password, "qwmzxkvb");
    assert_eq!(scored[3].password, "aaaa1111");
    assert_eq!(scored[4].password, "aB3 $xYz");
    assert_eq!(f64::from_bits(scored[0].score_bits), 0.0);
    assert_eq!(f64::from_bits(scored[1].score_bits), 1.5);
    assert_eq!(f64::from_bits(scored[2].score_bits), 60.0);
    assert_eq!(f64::from_bits(scored[3].score_bits), 48.0);
    assert_eq!(f64::from_bits(scored[4].score_bits), 80.0);
}

#[test]
fn full_score_is_one_hundred() {
    assert_eq!(FULL_SCORE_BITS, 100.0f64.to_bits());
    assert_eq!(f64::from_bits(FULL_SCORE_BITS), 100.0);
}

#[test]
fn with_scores_never_exceeds_the_full_score() {
    let texts = [
        "",
        " ",
        "\n\t",
        "世界",
        "a世",
        "aaaaaaaaaaaaaaaaaaaaaaaa",
        "abcdefghijklmnopqrstuvwxyz",
        "Aa1 Bb2 Cc3 Dd4 Ee5 Ff6 Gg7 Hh8 ~!@#",
        "🌍🌍🌍🌍🌍🌍🌍🌍🌍🌍🌍🌍",
        "0",
    ];
    let scored = with_scores(texts.iter().map(|text| text.to_string()).collect());
    assert_eq!(scored.len(), texts.len());
    for (info, text) in scored.iter().zip(texts.iter()) {
        assert_eq!(info.password, *text);
        assert!(info.score_bits <= FULL_SCORE_BITS);
        assert_eq!(info.score_bits, score(&analyze(text)).to_bits());
    }
    // Characters outside ASCII lift the score to the top.
    assert_eq!(scored[8].score_bits, FULL_SCORE_BITS);
    assert_eq!(f64::from_bits(scored[3].score_bits), 40.0);
}

#[test]
fn with_scores_is_not_the_text_itself() {
    // A score is no copy of what went in: two texts of one length and
    // composition score alike.
    let scored = with_scores(vec!["qwmzxkvb".to_string(), "bvkxzmwq".to_string()]);
    assert_eq!(scored[0].score_bits, scored[1].score_bits);
    assert_ne!(scored[0].password, scored[1].password);
}

#[test]
fn with_scores_same_password_same_score() {
    let first = with_scores(vec!["Tr0ub4dor&3".to_string()]);
    let second = with_scores(vec!["Tr0ub4dor&3".to_string(), "Tr0ub4dor&3".to_string()]);
    assert_eq!(first[0].score_bits, second[0].score_bits);
    assert_eq!(second[0].score_bits, second[1].score_bits);
}

#[test]
fn with_scores_keeps_order_and_duplicates() {
    let scored = with_scores(vec!["b".to_string(), "a".to_string(), "b".to_string()]);
    let texts: Vec<&str> = scored.iter().map(|info| info.password.as_str()).collect();
    assert_eq!(texts, vec!["b", "a", "b"]);
}

#[test]
fn with_scores_of_nothing_is_nothing() {
    assert_eq!(with_scores(Vec::new()).len(), 0);
}

#[test]
fn pwd_info_new_keeps_both_parts() {
    let info = PwdInfo::new("secret".to_string(), 42.5f64.to_bits());
    assert_eq!(info.password, "secret");
    assert_eq!(info.score_bits, 0x4045_4000_0000_0000);
    assert_eq!(f64::from_bits(info.score_bits), 42.5);
}

#[test]
fn request_new_fixes_the_rest() {
    let made = PasswordRequest::new(12, true, false, true, false, 3);
    assert_eq!(made.length, 12);
    assert!(made.numbers);
    assert!(!made.uppercase_letters);
    assert!(made.lowercase_letters);
    assert!(!made.symbols);
    assert!(!made.spaces);
    assert!(made.exclude_similar_characters);
    assert!(made.strict);
    assert_eq!(made.count, 3);
}

#[test]
fn count_classes_counts_enabled_classes() {
    assert_eq!(request(1, 1).count_classes(), 5);
    assert_eq!(PasswordRequest::new(1, false, false, false, false, 1).count_classes(), 0);
    assert_eq!(PasswordRequest::new(1, true, false, true, false, 1).count_classes(), 2);
    assert_eq!(PasswordRequest { spaces: false, ..request(1, 1) }.count_classes(), 4);
}

#[test]
fn validate_accepts_what_can_be_served() {
    assert_eq!(request(1, 1).validate(), Ok(()));
    assert_eq!(PasswordRequest { strict: true, ..request(5, 1) }.validate(), Ok(()));
    assert_eq!(PasswordRequest::new(3, true, true, true, false, 0).validate(), Ok(()));
}

#[test]
fn validate_rejects_zero_length() {
    assert_eq!(request(0, 1).validate(), Err(ConfigurationError::ZeroLength));
    // Zero length is reported before anything else.
    assert_eq!(
        PasswordRequest::new(0, false, false, false, false, 1).validate(),
        Err(ConfigurationError::ZeroLength)
    );
}

#[test]
fn validate_rejects_no_class() {
    assert_eq!(
        PasswordRequest::new(8, false, false, false, false, 1).validate(),
        Err(ConfigurationError::NoCharacterClass)
    );
}

#[test]
fn validate_rejects_too_short_under_strict() {
    assert_eq!(
        PasswordRequest::new(2, true, true, true, false, 1).validate(),
        Err(ConfigurationError::LengthTooShort)
    );
    assert_eq!(
        PasswordRequest { strict: true, ..request(4, 1) }.validate(),
        Err(ConfigurationError::LengthTooShort)
    );
    // Without strict the same length is fine.
    assert_eq!(request(4, 1).validate(), Ok(()));
}

#[test]
fn generate_refuses_what_validate_rejects() {
    assert_eq!(request(0, 1).generate().unwrap_err(), ConfigurationError::ZeroLength);
    assert_eq!(
        PasswordRequest::new(8, false, false, false, false, 1).generate().unwrap_err(),
        ConfigurationError::NoCharacterClass
    );
    assert_eq!(
        PasswordRequest::new(2, true, true, true, false, 1).generate().unwrap_err(),
        ConfigurationError::LengthTooShort
    );
}

#[test]
fn generate_without_strict_keeps_length_and_classes() {
    let made = PasswordRequest {
        length: 1,
        numbers: true,
        lowercase_letters: false,
        uppercase_letters: false,
        symbols: false,
        spaces: true,
        exclude_similar_characters: false,
        strict: false,
        count: 100,
    };
    let list = made.generate().unwrap();
    assert_eq!(list.len(), 100);
    for info in list.iter() {
        assert_eq!(info.password.chars().count(), 1);
        assert!(info.password.chars().all(|c| c.is_ascii_digit() || c == ' '));
        assert_eq!(info.score_bits, score(&analyze(&info.password)).to_bits());
    }
}

#[test]
fn generate_with_spaces_under_strict_shows_a_space() {
    let made =
        PasswordRequest { strict: true, exclude_similar_characters: true, ..request(5, 100) };
    let list = made.generate().unwrap();
    assert_eq!(list.len(), 100);
    for info in list.iter() {
        assert_eq!(info.password.chars().count(), 5);
        assert!(info.password.contains(' '));
        assert!(info.password.chars().any(|c| c.is_ascii_digit()));
        assert!(info.password.chars().any(|c| c.is_ascii_uppercase()));
        assert!(info.password.chars().any(|c| c.is_ascii_lowercase()));
        assert!(info.password.chars().any(is_symbol));
        assert!(info.password.chars().all(|c| !SIMILAR.contains(c)));
    }
}

#[test]
fn generate_without_exclusion_may_use_similar_glyphs() {
    // Only digits, of which two are similar glyphs: among thousands of draws
    // one of them comes up.
    let made = PasswordRequest {
        length: 200,
        numbers: true,
        lowercase_letters: false,
        uppercase_letters: false,
        symbols: false,
        spaces: false,
        exclude_similar_characters: false,
        strict: true,
        count: 20,
    };
    let list = made.generate().unwrap();
    assert!(list.iter().any(|info| info.password.contains('0') || info.password.contains('1')));
}

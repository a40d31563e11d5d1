use rex::static_map::{
    first_duplicate, parse_entries, parse_key, parse_u32, Entry, EntryError, IntError, Key, KeyError,
    KeyLiteral, ParsedKey,
};

fn int_lit(digits: &str, suffix: &str) -> KeyLiteral {
    KeyLiteral::Int { digits: digits.into(), suffix: suffix.into() }
}

fn entry(key: ParsedKey, tokens: &str) -> Entry<()> {
    Entry { key: Key { parsed: key, tokens: tokens.into() }, value: () }
}

#[test]
fn integers_read_like_str_parse() {
    assert_eq!(parse_u32("0"), Ok(0));
    assert_eq!(parse_u32("4294967295"), Ok(4294967295));
    assert_eq!(parse_u32("4294967296"), Err(IntError::PosOverflow));
    assert_eq!(parse_u32("+12"), Ok(12));
    assert_eq!(parse_u32("-12"), Err(IntError::InvalidDigit));
    assert_eq!(parse_u32("+"), Err(IntError::InvalidDigit));
    assert_eq!(parse_u32(""), Err(IntError::Empty));
    assert_eq!(parse_u32("1a"), Err(IntError::InvalidDigit));
    for text in ["0", "7", "123", "+5", "99999999999", "4294967295", "x", "", "-", "12-"] {
        let expected = text.parse::<u32>().ok();
        assert_eq!(parse_u32(text).ok(), expected, "{}", text);
    }
}

#[test]
fn keys_accept_literals_of_four_kinds() {
    let k = parse_key(KeyLiteral::Str { value: "a".into(), text: "\"a\"".into() }).unwrap();
    assert!(matches!(k.parsed, ParsedKey::Str(ref s) if s == "a"));
    assert_eq!(k.tokens, "\"a\"");
    let k = parse_key(KeyLiteral::Char { value: 'c', text: "'c'".into() }).unwrap();
    assert!(matches!(k.parsed, ParsedKey::Char('c')));
    assert_eq!(k.tokens, "'c'");
    let k = parse_key(KeyLiteral::Bool(true)).unwrap();
    assert!(matches!(k.parsed, ParsedKey::Bool(true)));
    assert_eq!(k.tokens, "true");
    let k = parse_key(KeyLiteral::Bool(false)).unwrap();
    assert_eq!(k.tokens, "false");
    let k = parse_key(int_lit("42", "u32")).unwrap();
    assert!(matches!(k.parsed, ParsedKey::U32(42)));
    assert_eq!(k.tokens, "42u32");
}

#[test]
fn unsuffixed_integer_keys_are_written_as_u32_literals() {
    let k = parse_key(int_lit("7", "")).unwrap();
    assert!(matches!(k.parsed, ParsedKey::U32(7)));
    assert_eq!(k.tokens, "7u32");
    let k = parse_key(int_lit("4294967295", "")).unwrap();
    assert_eq!(k.tokens, "4294967295u32");
    let k = parse_key(int_lit("+0", "")).unwrap();
    assert_eq!(k.tokens, "0u32");
    assert_eq!(
        parse_key(int_lit("7", "u8")).unwrap_err().message(),
        "ReX static_map compatibility supports only u32 integer keys"
    );
    assert_eq!(parse_key(KeyLiteral::Other).unwrap_err().message(), "unsupported ReX static_map key expression");
}

#[test]
fn keys_refuse_other_integers_and_expressions() {
    assert!(matches!(parse_key(int_lit("42", "u8")), Err(KeyError::NotU32)));
    assert!(matches!(parse_key(int_lit("5000000000", "")), Err(KeyError::Integer(IntError::PosOverflow))));
    assert!(matches!(parse_key(KeyLiteral::Other), Err(KeyError::Unsupported)));
    assert_eq!(
        KeyError::NotU32.message(),
        "ReX static_map compatibility supports only u32 integer keys"
    );
    assert_eq!(KeyError::Unsupported.message(), "unsupported ReX static_map key expression");
    assert_eq!(
        KeyError::Integer(IntError::PosOverflow).message(),
        "number too large to fit in target type"
    );
}

#[test]
fn duplicates_are_found_at_their_second_occurrence() {
    let entries = vec![
        entry(ParsedKey::U32(1), "1u32"),
        entry(ParsedKey::Str("a".into()), "\"a\""),
        entry(ParsedKey::Char('a'), "'a'"),
        entry(ParsedKey::Str("a".into()), "r\"a\""),
        entry(ParsedKey::U32(1), "1u32"),
    ];
    assert_eq!(first_duplicate(&entries), Some(3));
    assert_eq!(first_duplicate(&entries[..3]), None);
    assert_eq!(
        first_duplicate(&[entry(ParsedKey::Bool(true), "true"), entry(ParsedKey::Bool(false), "false")]),
        None
    );
    assert_eq!(first_duplicate::<()>(&[]), None);
}

#[test]
fn entries_with_equal_keys_are_refused() {
    let r = parse_entries(vec![(int_lit("1", ""), "a"), (int_lit("1", "u32"), "b")]);
    match r {
        Err(e @ EntryError::Duplicate { .. }) => {
            assert_eq!(e.message(), "duplicate static_map key");
            match e {
                EntryError::Duplicate { index, tokens } => {
                    assert_eq!(index, 1);
                    assert_eq!(tokens, "1u32");
                }
                _ => unreachable!(),
            }
        }
        _ => panic!("expected a duplicate"),
    }
}

#[test]
fn entries_keep_their_order() {
    let es = parse_entries(vec![(int_lit("1", ""), "a"), (int_lit("2", ""), "b")]).unwrap();
    assert_eq!(es.len(), 2);
    assert!(matches!(es[0].key.parsed, ParsedKey::U32(1)));
    assert_eq!(es[0].key.tokens, "1u32");
    assert_eq!(es[0].value, "a");
    assert!(matches!(es[1].key.parsed, ParsedKey::U32(2)));
    assert_eq!(es[1].value, "b");
    assert_eq!(parse_entries::<u8>(vec![]).unwrap().len(), 0);
}

#[test]
fn entries_report_the_first_bad_key_before_duplicates() {
    let r = parse_entries(vec![(int_lit("1", ""), 0), (int_lit("1", ""), 1), (KeyLiteral::Other, 2), (int_lit("3", "i8"), 3)]);
    match r {
        Err(EntryError::Key { index, error }) => {
            assert_eq!(index, 2);
            assert_eq!(error, KeyError::Unsupported);
        }
        _ => panic!("expected a key error"),
    }
    let e = EntryError::Key { index: 0, error: KeyError::NotU32 };
    assert_eq!(e.message(), "ReX static_map compatibility supports only u32 integer keys");
}

#[test]
fn rewritten_integer_keys_read_back_unchanged() {
    let first = parse_key(int_lit("+0042", "")).unwrap();
    assert_eq!(first.tokens, "42u32");
    let again = parse_key(int_lit("42", "u32")).unwrap();
    assert!(matches!(again.parsed, ParsedKey::U32(42)));
    assert_eq!(again.tokens, first.tokens);
}

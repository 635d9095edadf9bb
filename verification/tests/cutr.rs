use csv::StringRecord;
use textutils::text::join;
use textutils::cutr::config::parse_delimiter;
use textutils::cutr::extract::byte_pieces;
use textutils::cutr::fields::cut_record;
use textutils::cutr::{
    extract_bytes, extract_chars, extract_fields, parse_number, parse_pos, Config, Extract,
};

#[test]
fn test_parse_pos() {
    // The empty string is an error
    assert!(parse_pos("").is_err());

    // Zero is an error
    let res = parse_pos("0");
    assert!(res.is_err());
    assert_eq!(res.unwrap_err().to_string(), "illegal list value: \"0\"",);

    let res = parse_pos("0-1");
    assert!(res.is_err());
    assert_eq!(res.unwrap_err().to_string(), "illegal list value: \"0\"",);

    // A leading "+" is an error
    let res = parse_pos("+1");
    assert!(res.is_err());
    assert_eq!(res.unwrap_err().to_string(), "illegal list value: \"+1\"",);

    let rest = parse_pos("+1-2");
    assert!(rest.is_err());
    assert_eq!(
        rest.unwrap_err().to_string(),
        "illegal list value: \"+1-2\"",
    );

    let res = parse_pos("1-+2");
    assert!(res.is_err());
    assert_eq!(res.unwrap_err().to_string(), "illegal list value: \"1-+2\"",);

    // Any non-number is an error
    let res = parse_pos("a");
    assert!(res.is_err());
    assert_eq!(res.unwrap_err().to_string(), "illegal list value: \"a\"",);

    let res = parse_pos("1,a");
    assert!(res.is_err());
    assert_eq!(res.unwrap_err().to_string(), "illegal list value: \"a\"",);

    let res = parse_pos("1-a");
    assert!(res.is_err());
    assert_eq!(res.unwrap_err().to_string(), "illegal list value: \"1-a\"",);

    let res = parse_pos("a-1");
    assert!(res.is_err());
    assert_eq!(res.unwrap_err().to_string(), "illegal list value: \"a-1\"",);

    // Wonky ranges
    let res = parse_pos("-");
    assert!(res.is_err());

    let res = parse_pos(",");
    assert!(res.is_err());

    let res = parse_pos("1,");
    assert!(res.is_err());

    let res = parse_pos("1-");
    assert!(res.is_err());

    let res = parse_pos("1-1-1");
    assert!(res.is_err());

    let res = parse_pos("1-1-a");
    assert!(res.is_err());

    // First number must be less than second
    let res = parse_pos("1-1");
    assert!(res.is_err());
    assert_eq!(
        res.unwrap_err().to_string(),
        "First number in range (1) must be lower than second number (1)",
    );

    let res = parse_pos("2-1");
    assert!(res.is_err());
    assert_eq!(
        res.unwrap_err().to_string(),
        "First number in range (2) must be lower than second number (1)",
    );

    // All the following are acceptable
    let res = parse_pos("1");
    assert!(res.is_ok());
    assert_eq!(res.unwrap(), vec![0..1]);

    let res = parse_pos("01");
    assert!(res.is_ok());
    assert_eq!(res.unwrap(), vec![0..1]);

    let res = parse_pos("1,3");
    assert!(res.is_ok());
    assert_eq!(res.unwrap(), vec![0..1, 2..3]);

    let res = parse_pos("001,003");
    assert!(res.is_ok());
    assert_eq!(res.unwrap(), vec![0..1, 2..3]);

    let res = parse_pos("1-3");
    assert!(res.is_ok());
    assert_eq!(res.unwrap(), vec![0..3]);

    let res = parse_pos("0001-03");
    assert!(res.is_ok());
    assert_eq!(res.unwrap(), vec![0..3]);

    let res = parse_pos("1,7,3-5");
    assert!(res.is_ok());
    assert_eq!(res.unwrap(), vec![0..1, 6..7, 2..5]);

    let res = parse_pos("15, 19-20");
    assert!(res.is_ok());
    assert_eq!(res.unwrap(), vec![14..15, 18..20]);
}

#[test]
fn test_extract_chars() {
    assert_eq!(extract_chars("", &[0..1]), "".to_string());
    assert_eq!(extract_chars("ábc", &[0..1]), "á".to_string());
    assert_eq!(extract_chars("ábc", &[0..1, 2..3]), "ác".to_string());
    assert_eq!(extract_chars("ábc", &[0..3]), "ábc".to_string());
    assert_eq!(extract_chars("ábc", &[2..3, 1..2]), "cb".to_string());
    assert_eq!(extract_chars("ábc", &[0..1, 1..2, 4..5]), "áb".to_string());
}

#[test]
fn test_extract_bytes() {
    assert_eq!(extract_bytes("ábc", &[0..1]), "�".to_string());
    assert_eq!(extract_bytes("ábc", &[0..2]), "á".to_string());
    assert_eq!(extract_bytes("ábc", &[0..3]), "áb".to_string());
    assert_eq!(extract_bytes("ábc", &[0..4]), "ábc".to_string());
    assert_eq!(extract_bytes("ábc", &[3..4, 2..3]), "cb".to_string());
    assert_eq!(extract_bytes("ábc", &[0..2, 5..6]), "á".to_string());
}

#[test]
fn parse_pos_complaints() {
    assert_eq!(parse_pos("").unwrap_err(), "empty position list");
    assert_eq!(parse_pos(",").unwrap_err(), "empty field in position list");
    assert_eq!(parse_pos("1,").unwrap_err(), "empty field in position list");
    assert_eq!(parse_pos("1, ,2").unwrap_err(), "empty field in position list");
    assert_eq!(parse_pos(" ").unwrap_err(), "empty field in position list");
    assert_eq!(parse_pos("-").unwrap_err(), "illegal list value: \"\"");
    assert_eq!(parse_pos("1-").unwrap_err(), "illegal list value: \"\"");
    assert_eq!(parse_pos("-1").unwrap_err(), "illegal list value: \"\"");
    assert_eq!(parse_pos("1-0").unwrap_err(), "illegal list value: \"0\"");
    assert_eq!(parse_pos("1-1-1").unwrap_err(), "illegal list value: \"1-1-1\"");
    assert_eq!(parse_pos("1 2").unwrap_err(), "illegal list value: \"1 2\"");
    assert_eq!(parse_pos("1,2,x3").unwrap_err(), "illegal list value: \"x3\"");
    assert_eq!(parse_pos("2,0,x").unwrap_err(), "illegal list value: \"0\"");
    assert_eq!(
        parse_pos("99999999999999999999999").unwrap_err(),
        "illegal list value: \"99999999999999999999999\""
    );
    assert_eq!(
        parse_pos("120-15").unwrap_err(),
        "First number in range (120) must be lower than second number (15)"
    );
}

#[test]
fn parse_pos_trims_each_part() {
    assert_eq!(parse_pos(" 1 ,\t2-4\n"), Ok(vec![0..1, 1..4]));
    assert_eq!(parse_pos("\u{a0}7\u{3000}"), Ok(vec![6..7]));
    assert_eq!(parse_pos("3,3,3"), Ok(vec![2..3, 2..3, 2..3]));
    let max = usize::MAX.to_string();
    assert_eq!(parse_pos(&max), Ok(vec![usize::MAX - 1..usize::MAX]));
    assert_eq!(parse_pos(&format!("1-{}", max)), Ok(vec![0..usize::MAX]));
}

#[test]
fn parse_number_cases() {
    assert_eq!(parse_number("1"), Ok(1));
    assert_eq!(parse_number("0042"), Ok(42));
    assert_eq!(parse_number("+5"), Ok(5));
    assert_eq!(parse_number(&usize::MAX.to_string()), Ok(usize::MAX));
    assert_eq!(parse_number("0").unwrap_err(), "illegal list value: \"0\"");
    assert_eq!(parse_number("").unwrap_err(), "illegal list value: \"\"");
    assert_eq!(parse_number("+").unwrap_err(), "illegal list value: \"+\"");
    assert_eq!(parse_number("-1").unwrap_err(), "illegal list value: \"-1\"");
    assert_eq!(parse_number("1a").unwrap_err(), "illegal list value: \"1a\"");
    assert_eq!(
        parse_number("18446744073709551616").unwrap_err(),
        "illegal list value: \"18446744073709551616\""
    );
}

#[test]
fn extract_with_odd_ranges() {
    assert_eq!(extract_chars("abc", &[]), "");
    assert_eq!(extract_chars("abc", &[2..1]), "");
    assert_eq!(extract_chars("abc", &[3..9]), "");
    assert_eq!(extract_chars("abc", &[1..9, 0..2]), "bcab");
    assert_eq!(extract_bytes("abc", &[]), "");
    assert_eq!(extract_bytes("abc", &[2..1]), "");
    assert_eq!(extract_bytes("ábc", &[1..2, 0..1]), "��");
    assert_eq!(extract_bytes("ábc", &[1..9]), "�bc");
}

#[test]
fn test_extract_fields() {
    let rec = StringRecord::from(vec!["Captain", "Sham", "12345"]);
    assert_eq!(extract_fields(&rec, &[0..1]), &["Captain"]);
    assert_eq!(extract_fields(&rec, &[1..2]), &["Sham"]);
    assert_eq!(extract_fields(&rec, &[0..1, 2..3]), &["Captain", "12345"]);
    assert_eq!(extract_fields(&rec, &[0..1, 3..4]), &["Captain"]);
    assert_eq!(extract_fields(&rec, &[1..2, 0..1]), &["Sham", "Captain"]);
}

#[test]
fn extract_fields_with_odd_ranges() {
    let rec = StringRecord::from(vec!["a", "", "c"]);
    let none: Vec<String> = Vec::new();
    assert_eq!(extract_fields(&rec, &[]), none);
    assert_eq!(extract_fields(&rec, &[2..1]), none);
    assert_eq!(extract_fields(&rec, &[3..9]), none);
    assert_eq!(extract_fields(&rec, &[0..9, 1..2]), &["a", "", "c", ""]);
    let empty = StringRecord::new();
    assert_eq!(extract_fields(&empty, &[0..3]), none);
}

#[test]
fn cut_record_joins_with_the_delimiter() {
    let rec = StringRecord::from(vec!["Captain", "Sham", "12345"]);
    assert_eq!(cut_record(&rec, &[0..1, 2..3], b','), "Captain,12345");
    assert_eq!(cut_record(&rec, &[1..2], b'\t'), "Sham");
    assert_eq!(cut_record(&rec, &[0..3], b'\t'), "Captain\tSham\t12345");
    assert_eq!(cut_record(&rec, &[5..6], b'\t'), "");
    assert_eq!(cut_record(&rec, &[0..2], 0xff), "Captain\u{fffd}Sham");
    let list = vec!["x".to_string(), "".to_string(), "z".to_string()];
    assert_eq!(join(&list, "--"), "x----z");
    assert_eq!(join(&Vec::new(), "--"), "");
}

#[test]
fn cut_config_from_args() {
    let files = vec!["-".to_string()];
    let config = Config::from_args(files.clone(), "\t", Some("1,3"), Some("x"), None).unwrap();
    assert_eq!(config.files, files);
    assert_eq!(config.delimiter, b'\t');
    assert!(matches!(&config.extract, Extract::Fields(list) if list == &vec![0..1, 2..3]));
    let config = Config::from_args(files.clone(), ",", None, Some("2-4"), Some("x")).unwrap();
    assert_eq!(config.delimiter, b',');
    assert!(matches!(&config.extract, Extract::Bytes(list) if list == &vec![1..4]));
    let config = Config::from_args(files.clone(), ",", None, None, Some("7")).unwrap();
    assert!(matches!(&config.extract, Extract::Chars(list) if list == &vec![6..7]));

    let res = Config::from_args(files.clone(), ",,", Some("1"), None, None);
    assert_eq!(res.unwrap_err(), "--delim \",,\" must be a single byte");
    let res = Config::from_args(files.clone(), "", Some("x"), None, None);
    assert_eq!(res.unwrap_err(), "--delim \"\" must be a single byte");
    let res = Config::from_args(files.clone(), "é", Some("1"), None, None);
    assert_eq!(res.unwrap_err(), "--delim \"é\" must be a single byte");
    let res = Config::from_args(files.clone(), ",", None, None, None);
    assert_eq!(res.unwrap_err(), "Must have --fields, --bytes, or --chars");
    let res = Config::from_args(files.clone(), ",", Some("0"), Some("1"), None);
    assert_eq!(res.unwrap_err(), "illegal list value: \"0\"");
    let res = Config::from_args(files, ",", None, Some(""), None);
    assert_eq!(res.unwrap_err(), "empty position list");
    assert_eq!(parse_delimiter(";"), Ok(b';'));
}

#[test]
fn bytes_are_read_piece_by_piece() {
    assert_eq!(
        byte_pieces("ábc", &[0..1, 1..2, 0..2, 3..9, 9..9]),
        vec!["\u{fffd}", "\u{fffd}", "á", "c", ""]
    );
    assert_eq!(byte_pieces("ábc", &[]), Vec::<String>::new());
    assert_eq!(join(&byte_pieces("ábc", &[2..3, 0..2]), ""), "bá");
    assert_eq!(join(&vec!["a".to_string()], ", "), "a");
    assert_eq!(join(&vec!["a".to_string(), "b".to_string(), "c".to_string()], ", "), "a, b, c");
}

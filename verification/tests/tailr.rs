use textutils::tailr::config::{header, Config, Unit};
use textutils::tailr::extract::{byte_span, LineAction, LinePass, LineRead};
use textutils::tailr::TakeValue::{PlusZero, TakeNum};
use textutils::tailr::{
    count_lines, count_lines_bytes, extract, get_start_index, parse_num, print_bytes,
    print_lines, Mode, TailError,
};

const ONE: &str = "Öne line, four wordś.\n";
const TEN: &str = "one\ntwo\nthree\nfour\nfive\nsix\nseven\neight\nnine\nten\n";

#[test]
fn test_count_lines_bytes() {
    let res = count_lines_bytes(ONE.as_bytes());
    assert!(res.is_ok());
    assert_eq!(res.unwrap(), (1, 24));

    let res = count_lines_bytes(TEN.as_bytes());
    assert!(res.is_ok());
    assert_eq!(res.unwrap(), (10, 49));
}

#[test]
fn test_get_start_index() {
    // +0 from an empty file (0 lines/bytes) returns None
    assert_eq!(get_start_index(&PlusZero, 0), None);

    // +0 from a nonempty file returns an index that
    // is one less than the number of lines/bytes
    assert_eq!(get_start_index(&PlusZero, 1), Some(0));

    // Taking 0 lines/bytes returns None
    assert_eq!(get_start_index(&TakeNum(0), 1), None);

    // Taking any lines/bytes from an empty file returns None
    assert_eq!(get_start_index(&TakeNum(1), 0), None);

    // Taking more lines/bytes than is available returns None
    assert_eq!(get_start_index(&TakeNum(2), 1), None);

    // When starting line/byte is less than total lines/bytes,
    // return one less than starting number
    assert_eq!(get_start_index(&TakeNum(1), 10), Some(0));
    assert_eq!(get_start_index(&TakeNum(2), 10), Some(1));
    assert_eq!(get_start_index(&TakeNum(3), 10), Some(2));

    // When starting line/byte is negative and less than total,
    // return total - start
    assert_eq!(get_start_index(&TakeNum(-1), 10), Some(9));
    assert_eq!(get_start_index(&TakeNum(-2), 10), Some(8));
    assert_eq!(get_start_index(&TakeNum(-3), 10), Some(7));

    // When the starting line/byte is negative and more than the total,
    // return 0 to print the whole file
    assert_eq!(get_start_index(&TakeNum(-20), 10), Some(0));
}

#[test]
fn test_parse_num() {
    // All integers should be interpreted as negative numbers
    let res = parse_num("3");
    assert!(res.is_ok());
    assert_eq!(res.unwrap(), TakeNum(-3));

    // A leading "+" should result in a positive number
    let res = parse_num("+3");
    assert!(res.is_ok());
    assert_eq!(res.unwrap(), TakeNum(3));

    // An explicit "-" value should result in a negative number
    let res = parse_num("-3");
    assert!(res.is_ok());
    assert_eq!(res.unwrap(), TakeNum(-3));

    // Zero is zero
    let res = parse_num("0");
    assert!(res.is_ok());
    assert_eq!(res.unwrap(), TakeNum(0));

    // Plus zero is special
    let res = parse_num("+0");
    assert!(res.is_ok());
    assert_eq!(res.unwrap(), PlusZero);

    // Test boundaries
    let res = parse_num(&i64::MAX.to_string());
    assert!(res.is_ok());
    assert_eq!(res.unwrap(), TakeNum(i64::MIN + 1));

    let res = parse_num(&(i64::MIN + 1).to_string());
    assert!(res.is_ok());
    assert_eq!(res.unwrap(), TakeNum(i64::MIN + 1));

    let res = parse_num(&format!("+{}", i64::MAX));
    assert!(res.is_ok());
    assert_eq!(res.unwrap(), TakeNum(i64::MAX));

    let res = parse_num(&i64::MIN.to_string());
    assert!(res.is_ok());
    assert_eq!(res.unwrap(), TakeNum(i64::MIN));

    // A floating-point value is invalid
    let res = parse_num("3.14");
    assert!(res.is_err());
    assert_eq!(res.unwrap_err().to_string(), "3.14");

    // Any non-integer string is invalid
    let res = parse_num("foo");
    assert!(res.is_err());
    assert_eq!(res.unwrap_err().to_string(), "foo");
}

#[test]
fn parse_num_signs_round_trip() {
    for n in [0i64, 1, 7, 10, 99, 100, 12345, i64::MAX] {
        assert_eq!(parse_num(&n.to_string()), Ok(TakeNum(-n)));
        assert_eq!(parse_num(&format!("-{}", n)), Ok(TakeNum(-n)));
        if n > 0 {
            assert_eq!(parse_num(&format!("+{}", n)), Ok(TakeNum(n)));
        }
    }
}

#[test]
fn parse_num_zero_forms() {
    assert_eq!(parse_num("+0"), Ok(PlusZero));
    assert_eq!(parse_num("0"), Ok(TakeNum(0)));
    assert_eq!(parse_num("-0"), Ok(TakeNum(0)));
    assert_eq!(parse_num("+00"), Ok(TakeNum(0)));
    assert_eq!(parse_num("007"), Ok(TakeNum(-7)));
    assert_eq!(get_start_index(&TakeNum(0), 5), None);
    assert_eq!(get_start_index(&PlusZero, 5), Some(0));
}

#[test]
fn parse_num_at_the_limits() {
    assert_eq!(parse_num("9223372036854775807"), Ok(TakeNum(-9223372036854775807)));
    assert_eq!(parse_num("+9223372036854775807"), Ok(TakeNum(i64::MAX)));
    assert_eq!(parse_num("-9223372036854775808"), Ok(TakeNum(i64::MIN)));
    assert_eq!(parse_num("9223372036854775808"), Ok(TakeNum(i64::MIN)));
    assert_eq!(
        parse_num("+9223372036854775808"),
        Err(TailError::InvalidSpec("+9223372036854775808".to_string()))
    );
    assert_eq!(
        parse_num("9223372036854775809"),
        Err(TailError::InvalidSpec("9223372036854775809".to_string()))
    );
    assert_eq!(
        parse_num("99999999999999999999999999"),
        Err(TailError::InvalidSpec("99999999999999999999999999".to_string()))
    );
}

#[test]
fn parse_num_rejects_what_is_no_number() {
    for text in [
        "", "+", "-", "++1", "--1", "+-1", "1+", "1-", " 1", "1 ", "1\n", "0x10", "١٢٣", "1e3", "é",
    ] {
        assert_eq!(parse_num(text), Err(TailError::InvalidSpec(text.to_string())));
        assert_eq!(parse_num(text).unwrap_err().to_string(), text);
    }
    assert_eq!(TailError::IoError.to_string(), "read failed");
}

#[test]
fn resolver_never_overflows() {
    assert_eq!(get_start_index(&TakeNum(i64::MIN), i64::MAX), Some(0));
    assert_eq!(get_start_index(&TakeNum(i64::MIN), 1), Some(0));
    assert_eq!(get_start_index(&TakeNum(i64::MAX), i64::MAX), Some(i64::MAX - 1));
    assert_eq!(get_start_index(&TakeNum(-1), i64::MAX), Some(i64::MAX - 1));
    assert_eq!(get_start_index(&TakeNum(i64::MIN), 0), None);
    assert_eq!(get_start_index(&TakeNum(10), 10), Some(9));
    assert_eq!(get_start_index(&TakeNum(11), 10), None);
    assert_eq!(get_start_index(&TakeNum(-10), 10), Some(0));
    assert_eq!(get_start_index(&TakeNum(-11), 10), Some(0));
}

#[test]
fn count_lines_counts_a_final_partial_line() {
    assert_eq!(count_lines(b""), 0);
    assert_eq!(count_lines(b"x"), 1);
    assert_eq!(count_lines(b"\n"), 1);
    assert_eq!(count_lines(b"a\nb"), 2);
    assert_eq!(count_lines(b"a\nb\n"), 2);
    assert_eq!(count_lines(b"\n\n\n"), 3);
    assert_eq!(count_lines(b"no terminator at all"), 1);
    assert_eq!(count_lines_bytes(b"x"), Ok((1, 1)));
    assert_eq!(count_lines_bytes(b""), Ok((0, 0)));
}

fn lines_of(source: &[u8], spec: &str) -> Vec<u8> {
    let value = parse_num(spec).unwrap();
    let (lines, _) = count_lines_bytes(source).unwrap();
    let mut sink = Vec::new();
    print_lines(source, &value, lines, &mut sink);
    let mut whole = Vec::new();
    assert_eq!(extract(source, Mode::Lines, spec, &mut whole), Ok(()));
    assert_eq!(sink, whole);
    sink
}

fn bytes_of(source: &[u8], spec: &str) -> Vec<u8> {
    let value = parse_num(spec).unwrap();
    let (_, bytes) = count_lines_bytes(source).unwrap();
    let mut sink = Vec::new();
    print_bytes(source, &value, bytes, &mut sink);
    let mut whole = Vec::new();
    assert_eq!(extract(source, Mode::Bytes, spec, &mut whole), Ok(()));
    assert_eq!(sink, whole);
    sink
}

#[test]
fn byte_mode_end_to_end() {
    let source = ONE.as_bytes();
    assert_eq!(source.len(), 24);
    let out = bytes_of(source, "+10");
    assert_eq!(out.len(), 15);
    assert_eq!(out, &source[9..]);
    assert_eq!(byte_span(&TakeNum(10), 24), Some((9, 15)));
}

#[test]
fn byte_mode_cases() {
    let source = TEN.as_bytes();
    assert_eq!(bytes_of(source, "4"), b"ten\n");
    assert_eq!(bytes_of(source, "-4"), b"ten\n");
    assert_eq!(bytes_of(source, "+0"), source);
    assert_eq!(bytes_of(source, "+1"), source);
    assert_eq!(bytes_of(source, "+49"), b"\n");
    assert_eq!(bytes_of(source, "+50"), b"");
    assert_eq!(bytes_of(source, "0"), b"");
    assert_eq!(bytes_of(source, "100"), source);
    assert_eq!(bytes_of(b"", "+0"), b"");
    assert_eq!(bytes_of(b"x", "1"), b"x");
    // binary content passes through untouched
    let binary = [0u8, 159, 146, 150, 255, 10, 13, 0];
    assert_eq!(bytes_of(&binary, "5"), &binary[3..]);
    assert_eq!(byte_span(&TakeNum(0), 24), None);
    assert_eq!(byte_span(&PlusZero, 0), None);
    assert_eq!(byte_span(&TakeNum(-3), 24), Some((21, 3)));
}

#[test]
fn byte_mode_keeps_to_the_size_it_was_given() {
    let source = TEN.as_bytes();
    let mut sink = Vec::new();
    // the size was taken when the source held 10 bytes
    print_bytes(source, &TakeNum(-4), 10, &mut sink);
    assert_eq!(sink, &source[6..10]);
    let mut sink = Vec::new();
    // the size was taken when the source held more than it does now
    print_bytes(source, &TakeNum(-4), 51, &mut sink);
    assert_eq!(sink, &source[47..]);
    let mut sink = Vec::new();
    print_bytes(source, &TakeNum(-4), 100, &mut sink);
    assert_eq!(sink, b"");
    let mut sink = Vec::new();
    print_bytes(source, &TakeNum(-4), -1, &mut sink);
    assert_eq!(sink, b"");
}

#[test]
fn line_mode_end_to_end() {
    assert_eq!(lines_of(TEN.as_bytes(), "3"), b"eight\nnine\nten\n");
    assert_eq!(lines_of(TEN.as_bytes(), "-3"), b"eight\nnine\nten\n");
    let mut sink = Vec::new();
    print_lines(ONE.as_bytes(), &PlusZero, 1, &mut sink);
    assert_eq!(sink, ONE.as_bytes());
}

#[test]
fn line_mode_cases() {
    let source = TEN.as_bytes();
    assert_eq!(lines_of(source, "+0"), source);
    assert_eq!(lines_of(source, "+1"), source);
    assert_eq!(lines_of(source, "+2"), &source[4..]);
    assert_eq!(lines_of(source, "+10"), b"ten\n");
    assert_eq!(lines_of(source, "+11"), b"");
    assert_eq!(lines_of(source, "0"), b"");
    assert_eq!(lines_of(source, "1"), b"ten\n");
    assert_eq!(lines_of(source, "10"), source);
    assert_eq!(lines_of(source, "200"), source);
    assert_eq!(lines_of(b"", "+0"), b"");
    assert_eq!(lines_of(b"", "5"), b"");
    assert_eq!(lines_of(b"x", "1"), b"x");
    assert_eq!(lines_of(b"a\nb", "1"), b"b");
    assert_eq!(lines_of(b"a\nb", "2"), b"a\nb");
    assert_eq!(lines_of(b"a\n\n\nb\n", "3"), b"\n\nb\n");
}

#[test]
fn line_mode_stops_at_the_counted_total() {
    // the source has grown by two lines since its lines were counted as 8
    let mut sink = Vec::new();
    print_lines(TEN.as_bytes(), &TakeNum(-3), 8, &mut sink);
    assert_eq!(sink, b"six\nseven\neight\n");
    // the source has lost lines since its lines were counted as 12
    let mut sink = Vec::new();
    print_lines(TEN.as_bytes(), &TakeNum(-3), 12, &mut sink);
    assert_eq!(sink, b"ten\n");
    let mut sink = Vec::new();
    print_lines(TEN.as_bytes(), &TakeNum(-3), 20, &mut sink);
    assert_eq!(sink, b"");
    let mut sink = Vec::new();
    print_lines(TEN.as_bytes(), &TakeNum(-3), -2, &mut sink);
    assert_eq!(sink, b"");
}

#[test]
fn extraction_appends_to_the_sink() {
    let mut sink = b"before:".to_vec();
    print_lines(TEN.as_bytes(), &TakeNum(-1), 10, &mut sink);
    assert_eq!(sink, b"before:ten\n");
    print_bytes(TEN.as_bytes(), &TakeNum(-2), 49, &mut sink);
    assert_eq!(sink, b"before:ten\nn\n");
}

#[test]
fn extraction_is_repeatable() {
    for spec in ["+0", "0", "3", "-3", "+4", "100", "+100"] {
        assert_eq!(lines_of(TEN.as_bytes(), spec), lines_of(TEN.as_bytes(), spec));
        assert_eq!(bytes_of(TEN.as_bytes(), spec), bytes_of(TEN.as_bytes(), spec));
        assert_eq!(lines_of(ONE.as_bytes(), spec), lines_of(ONE.as_bytes(), spec));
        assert_eq!(bytes_of(ONE.as_bytes(), spec), bytes_of(ONE.as_bytes(), spec));
    }
}

#[test]
fn line_pass_step_by_step() {
    let mut pass = LinePass::new(&TakeNum(-2), 3);
    assert!(!pass.finished());
    assert_eq!(pass.step(LineRead::Line), Ok(LineAction::Skip));
    assert!(!pass.finished());
    assert_eq!(pass.step(LineRead::Line), Ok(LineAction::Emit));
    assert!(!pass.finished());
    assert_eq!(pass.step(LineRead::Line), Ok(LineAction::Emit));
    assert!(pass.finished());
    assert_eq!(pass.step(LineRead::Line), Ok(LineAction::Stop));
    assert_eq!(pass.step(LineRead::End), Ok(LineAction::Stop));

    let mut pass = LinePass::new(&TakeNum(2), 3);
    assert_eq!(pass.step(LineRead::Line), Ok(LineAction::Skip));
    assert_eq!(pass.step(LineRead::End), Ok(LineAction::Stop));

    let mut pass = LinePass::new(&TakeNum(1), 3);
    assert_eq!(pass.step(LineRead::Line), Ok(LineAction::Emit));
    assert_eq!(pass.step(LineRead::Failed), Err(TailError::IoError));

    // nothing selected: the pass reads on to the end and writes nothing
    let mut pass = LinePass::new(&TakeNum(0), 3);
    assert!(!pass.finished());
    assert_eq!(pass.step(LineRead::Line), Ok(LineAction::Skip));
    assert_eq!(pass.step(LineRead::Line), Ok(LineAction::Skip));
    assert_eq!(pass.step(LineRead::Line), Ok(LineAction::Skip));
    assert_eq!(pass.step(LineRead::Line), Ok(LineAction::Skip));
    assert!(!pass.finished());
    assert_eq!(pass.step(LineRead::End), Ok(LineAction::Stop));

    let mut pass = LinePass::new(&PlusZero, 0);
    assert!(!pass.finished());
    assert_eq!(pass.step(LineRead::End), Ok(LineAction::Stop));
}

#[test]
fn tail_config_from_args() {
    let files = vec!["a.txt".to_string(), "b.txt".to_string()];
    let config = Config::from_args(files.clone(), "10", None, false).unwrap();
    assert_eq!(config.files, files);
    assert_eq!(config.lines, TakeNum(-10));
    assert_eq!(config.bytes, None);
    assert!(!config.quiet);
    assert_eq!(config.unit(), Unit::Lines(TakeNum(-10)));
    assert!(config.shows_headers());
    assert!(config.separates_after(0));
    assert!(!config.separates_after(1));

    let config = Config::from_args(files.clone(), "10", Some("+4"), true).unwrap();
    assert_eq!(config.bytes, Some(TakeNum(4)));
    assert_eq!(config.unit(), Unit::Bytes(TakeNum(4)));
    assert!(!config.shows_headers());
    assert!(!config.separates_after(0));

    let config = Config::from_args(vec!["a.txt".to_string()], "+0", None, false).unwrap();
    assert_eq!(config.lines, PlusZero);
    assert!(!config.shows_headers());
    assert!(!config.separates_after(0));

    let config = Config::from_args(vec![], "1", None, false).unwrap();
    assert!(!config.separates_after(0));

    let res = Config::from_args(files.clone(), "foo", Some("bar"), false);
    assert_eq!(res.unwrap_err(), "illegal line count -- foo");
    let res = Config::from_args(files, "1", Some("3.14"), false);
    assert_eq!(res.unwrap_err(), "illegal byte count -- 3.14");

    assert_eq!(header("a.txt"), "==> a.txt <==");
}

#[test]
fn line_pass_keeps_to_its_budget() {
    for (value, total, due) in [
        (TakeNum(-3), 10, 3),
        (TakeNum(3), 10, 8),
        (TakeNum(-30), 10, 10),
        (TakeNum(11), 10, 0),
        (TakeNum(0), 10, 0),
        (PlusZero, 10, 10),
        (PlusZero, 0, 0),
        (TakeNum(-1), 1, 1),
    ] {
        // the source gives far more lines than were counted
        let mut pass = LinePass::new(&value, total);
        let mut emitted = 0;
        let mut reads = 0;
        while !pass.finished() && reads < 1000 {
            reads += 1;
            match pass.step(LineRead::Line) {
                Ok(LineAction::Emit) => emitted += 1,
                Ok(LineAction::Skip) => {}
                _ => break,
            }
        }
        assert_eq!(emitted, due, "{:?} {}", value, total);
        // the source ends after four lines
        let mut pass = LinePass::new(&value, total);
        let mut emitted = 0;
        for read in [LineRead::Line, LineRead::Line, LineRead::Line, LineRead::Line, LineRead::End] {
            if pass.finished() {
                break;
            }
            match pass.step(read) {
                Ok(LineAction::Emit) => emitted += 1,
                Ok(LineAction::Skip) => {}
                _ => break,
            }
        }
        assert!(emitted <= due, "{:?} {}", value, total);
    }
}

#[test]
fn extract_end_to_end() {
    let mut sink = Vec::new();
    assert_eq!(extract(ONE.as_bytes(), Mode::Bytes, "+10", &mut sink), Ok(()));
    assert_eq!(sink, &ONE.as_bytes()[9..]);
    assert_eq!(sink.len(), 15);

    let mut sink = Vec::new();
    assert_eq!(extract(TEN.as_bytes(), Mode::Lines, "-3", &mut sink), Ok(()));
    assert_eq!(sink, b"eight\nnine\nten\n");

    let mut sink = Vec::new();
    assert_eq!(extract(ONE.as_bytes(), Mode::Lines, "+0", &mut sink), Ok(()));
    assert_eq!(sink, ONE.as_bytes());

    // a text that is no take value leaves the sink as it was
    let mut sink = b"kept".to_vec();
    assert_eq!(
        extract(TEN.as_bytes(), Mode::Lines, "three", &mut sink),
        Err(TailError::InvalidSpec("three".to_string()))
    );
    assert_eq!(sink, b"kept");
    assert_eq!(
        extract(TEN.as_bytes(), Mode::Bytes, "", &mut sink),
        Err(TailError::InvalidSpec(String::new()))
    );
    assert_eq!(sink, b"kept");

    // twice into one sink: the same bytes twice
    let mut sink = Vec::new();
    assert_eq!(extract(TEN.as_bytes(), Mode::Lines, "2", &mut sink), Ok(()));
    assert_eq!(extract(TEN.as_bytes(), Mode::Lines, "2", &mut sink), Ok(()));
    assert_eq!(sink, b"nine\nten\nnine\nten\n");
}

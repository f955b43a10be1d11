use slv::timer::{TimeoutError, TimeoutFromString, MAX_TIMEOUT, MIN_TIMEOUT};

fn read(input: &str) -> Result<u32, TimeoutError> {
    TimeoutFromString::parse(input).map(|timeout| timeout.value())
}

#[test]
fn timeout_is_read_from_a_line() {
    assert_eq!(read("42\n"), Ok(42));
    assert_eq!(read("  7  "), Ok(7));
    assert_eq!(read("1"), Ok(1));
    assert_eq!(read("999"), Ok(999));
    assert_eq!(read("+5"), Ok(5));
    assert_eq!(read("007"), Ok(7));
    assert_eq!(read("\t120\r\n"), Ok(120));
    assert_eq!(read("\u{3000}60\u{a0}"), Ok(60));
    assert_eq!(read("00000000000000000000000000000999"), Ok(999));
}

#[test]
fn timeout_out_of_range_is_refused() {
    assert_eq!(read("0"), Err(TimeoutError::OutOfRange));
    assert_eq!(read("1000"), Err(TimeoutError::OutOfRange));
    assert_eq!(read("4294967295"), Err(TimeoutError::OutOfRange));
    assert_eq!(read("+0"), Err(TimeoutError::OutOfRange));
    assert_eq!(read("000"), Err(TimeoutError::OutOfRange));
}

#[test]
fn timeout_that_is_no_number_is_refused() {
    for input in ["", "   ", "abc", "12a", "a12", "-1", "-0", "+", "++1", "+-1", "1 2", "1.5", "4294967296",
        "99999999999999999999999", "\u{661}", "1_0", "0x10"]
    {
        assert_eq!(read(input), Err(TimeoutError::NotANumber), "{:?}", input);
    }
}

#[test]
fn timeout_reads_as_trim_and_parse_do() {
    let inputs = ["5", " 5", "5 ", "\n5\n", "+5", "-5", "05", "5\u{2003}", "\u{feff}5", "5\u{200b}", "999", "1000",
        "0", "", " ", "+", "4294967295", "4294967296", "18446744073709551616", "12 ", "1\t2", "\u{85}33\u{1680}",
        "\u{2028}8\u{2029}", "\u{202f}9\u{205f}", "\u{180e}9", "٣"];
    for input in inputs {
        let expected = match input.trim().parse::<u32>() {
            Ok(value) if (1..=999).contains(&value) => Ok(value),
            Ok(_) => Err(TimeoutError::OutOfRange),
            Err(_) => Err(TimeoutError::NotANumber),
        };
        assert_eq!(read(input), expected, "{:?}", input);
    }
}

#[test]
fn timeout_new_keeps_the_value() {
    assert_eq!(TimeoutFromString::new("30\n".to_string()).value(), 30);
    assert_eq!(TimeoutFromString::new(" 999".to_string()).value(), MAX_TIMEOUT);
    assert_eq!(TimeoutFromString::new("1".to_string()).value(), MIN_TIMEOUT);
}

#[test]
fn timeout_errors_have_their_message() {
    assert_eq!(TimeoutError::NotANumber.message(), "Please type a number!");
    assert_eq!(TimeoutError::OutOfRange.message(), "Please provide a positive timeout lower than 999s!");
}

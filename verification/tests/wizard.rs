use stepped_journey::{interpret_input, Advance, Error, Journey, StepItem, UserAction};

fn items(titles: &[(&str, i32)]) -> Vec<StepItem<i32>> {
    let mut v = Vec::new();
    for (t, x) in titles {
        v.push(StepItem {
            title: t.to_string(),
            value: *x,
        });
    }
    v
}

fn colors() -> Journey<i32> {
    let mut j: Journey<i32> = Journey::new();
    j.step::<i32>("colors".to_string(), items(&[("red", 1), ("green", 2)]));
    j
}

#[test]
fn valid_one_based_inputs_select() {
    assert_eq!(interpret_input("1", 3), Ok(UserAction::Select(0)));
    assert_eq!(interpret_input("2", 3), Ok(UserAction::Select(1)));
    assert_eq!(interpret_input("3", 3), Ok(UserAction::Select(2)));
    assert_eq!(interpret_input(" 2 \n", 5), Ok(UserAction::Select(1)));
}

#[test]
fn unicode_whitespace_is_trimmed() {
    // the surrounding whitespace never changes the interpretation
    assert_eq!(interpret_input("1", 1), Ok(UserAction::Select(0)));
    assert_eq!(interpret_input("\x0b1", 1), Ok(UserAction::Select(0)));
    assert_eq!(interpret_input("\u{a0}2\u{3000}", 5), Ok(UserAction::Select(1)));
    assert_eq!(interpret_input("\u{2000}\u{200a}q\u{85}", 3), Ok(UserAction::Quit));
    assert_eq!(
        interpret_input("\u{1680}\u{2028}\u{2029}\u{202f}\u{205f}0\r\n", 9),
        Err(Error::InvalidInput)
    );
    // whitespace inside the line still fails the parse
    assert!(matches!(
        interpret_input("1\u{a0}2", 99),
        Err(Error::Parse(_))
    ));
}

#[test]
fn zero_is_invalid_for_any_count() {
    assert_eq!(interpret_input("0", 0), Err(Error::InvalidInput));
    assert_eq!(interpret_input("0", 1), Err(Error::InvalidInput));
    assert_eq!(interpret_input("0", 100), Err(Error::InvalidInput));
    assert_eq!(interpret_input("  0  ", 7), Err(Error::InvalidInput));
}

#[test]
fn out_of_range_is_invalid() {
    assert_eq!(interpret_input("4", 3), Err(Error::InvalidInput));
    assert_eq!(interpret_input("100", 3), Err(Error::InvalidInput));
    assert_eq!(interpret_input("1", 0), Err(Error::InvalidInput));
}

#[test]
fn non_numeric_is_parse_failure() {
    let invalid = "invalid digit found in string".to_string();
    assert_eq!(interpret_input("abc", 3), Err(Error::Parse(invalid.clone())));
    assert_eq!(interpret_input("1x", 3), Err(Error::Parse(invalid.clone())));
    assert_eq!(interpret_input("+5", 9), Err(Error::Parse(invalid.clone())));
    assert_eq!(interpret_input("-1", 9), Err(Error::Parse(invalid.clone())));
    assert_eq!(interpret_input("1.5", 9), Err(Error::Parse(invalid.clone())));
    assert_eq!(interpret_input("12 3", 99), Err(Error::Parse(invalid)));
    let empty = "cannot parse integer from empty string".to_string();
    assert_eq!(interpret_input("", 3), Err(Error::Parse(empty.clone())));
    assert_eq!(interpret_input("   \n", 3), Err(Error::Parse(empty)));
    let too_large = "number too large to fit in target type".to_string();
    assert_eq!(
        interpret_input("99999999999999999999999999", 3),
        Err(Error::Parse(too_large))
    );
}

#[test]
fn quit_takes_precedence() {
    assert_eq!(interpret_input("q", 0), Ok(UserAction::Quit));
    assert_eq!(interpret_input("q", 5), Ok(UserAction::Quit));
    assert_eq!(interpret_input("  q \n", 3), Ok(UserAction::Quit));
    assert!(matches!(interpret_input("Q", 3), Err(Error::Parse(_))));
    assert!(matches!(interpret_input("qq", 3), Err(Error::Parse(_))));
}

#[test]
fn all_valid_traversal_yields_every_step() {
    let mut j: Journey<i32> = Journey::new();
    j.step::<i32>("a".to_string(), items(&[("a1", 1), ("a2", 2)]));
    j.step::<i32>("b".to_string(), items(&[("b1", 3), ("b2", 4), ("b3", 5)]));
    j.step::<i32>("c".to_string(), items(&[("c1", 6)]));

    let inputs = ["2", "3", "1"];
    let mut produced = Vec::new();
    for line in inputs {
        assert!(!j.is_done());
        assert_eq!(j.selected_items().len(), j.current());
        match j.offer_line(line) {
            Advance::Produced(sel) => produced.push(sel),
            _ => panic!("a valid input must produce a selection"),
        }
        assert_eq!(j.selected_items().len(), j.current());
    }
    assert!(j.is_done());
    assert_eq!(produced.len(), 3);
    for (i, sel) in produced.iter().enumerate() {
        assert_eq!(sel.step, i);
    }
    assert_eq!(j.selected_items(), &vec![1usize, 2, 0]);
    assert_eq!(produced[0].selected.title, "a2");
    assert_eq!(produced[1].selected.title, "b3");
    assert_eq!(produced[2].selected.title, "c1");
}

#[test]
fn render_is_idempotent() {
    let mut j = colors();
    let first = j.render_current();
    let second = j.render_current();
    assert_eq!(first.as_bytes(), second.as_bytes());
    assert!(matches!(j.offer_line("0"), Advance::Retry));
    let with_error_once = j.render_current();
    let with_error_twice = j.render_current();
    assert_eq!(with_error_once.as_bytes(), with_error_twice.as_bytes());
}

#[test]
fn render_exact_screen() {
    let j = colors();
    let expected =
        "\x1B[2J\x1B[1;1Hcolors\n------------------------------------- \nenter q to quit\n\n1) red\n2) green\n";
    assert_eq!(j.render_current(), expected);
}

#[test]
fn select_green_from_colors() {
    let mut j = colors();
    match j.offer_line("2") {
        Advance::Produced(sel) => {
            assert_eq!(sel.step, 0);
            assert_eq!(sel.selected.title, "green");
            assert_eq!(sel.selected.value, 2);
        }
        _ => panic!("input 2 must select the second item"),
    }
    assert_eq!(j.current(), 1);
    assert!(j.is_done());
}

#[test]
fn error_is_shown_then_cleared_by_valid_selection() {
    let mut j = colors();
    let clean = j.render_current();
    assert!(!clean.contains("Error:"));
    assert!(matches!(j.offer_line("0"), Advance::Retry));
    let with_error = j.render_current();
    assert!(with_error.contains("\nError: Invalid input, please select a number"));
    match j.offer_line("1") {
        Advance::Produced(sel) => {
            assert_eq!(sel.step, 0);
            assert_eq!(sel.selected.title, "red");
            assert_eq!(sel.selected.value, 1);
        }
        _ => panic!("input 1 must select the first item"),
    }
    assert_eq!(j.current(), 1);
}

#[test]
fn quit_on_first_step_ends_with_no_selection() {
    let mut j = colors();
    assert!(matches!(j.offer_line(" q "), Advance::Ended));
    assert!(j.is_done());
    assert_eq!(j.current(), 0);
    assert_eq!(j.selected_items().len(), 0);
}

#[test]
fn read_failure_looks_like_exhaustion() {
    let mut j: Journey<i32> = Journey::new();
    j.step::<i32>("one".to_string(), items(&[("x", 1)]));
    j.step::<i32>("two".to_string(), items(&[("y", 2)]));
    let mut produced = 0;
    match j.offer_line("1") {
        Advance::Produced(sel) => {
            assert_eq!(sel.step, 0);
            produced += 1;
        }
        _ => panic!("input 1 must select the only item"),
    }
    // the transport fails here: the journey ends as if it had run out of steps
    j.close();
    assert!(j.is_done());
    assert_eq!(produced, 1);
    assert_eq!(j.current(), 1);
    assert_eq!(j.selected_items(), &vec![0usize]);
}

#[test]
fn retry_loop_keeps_the_place() {
    let mut j = colors();
    assert!(matches!(j.offer_line("nope"), Advance::Retry));
    assert!(matches!(j.offer_line("7"), Advance::Retry));
    assert!(matches!(j.offer_line("0"), Advance::Retry));
    assert_eq!(j.current(), 0);
    assert!(!j.is_done());
    match j.offer_line("1") {
        Advance::Produced(sel) => assert_eq!(sel.selected.title, "red"),
        _ => panic!("input 1 must still work after retries"),
    }
}

#[test]
fn error_messages() {
    assert_eq!(
        Error::InvalidInput.message(),
        "Invalid input, please select a number"
    );
    assert_eq!(Error::IO("stream closed".to_string()).message(), "stream closed");
    assert_eq!(Error::Parse("bad digit".to_string()).message(), "bad digit");
}

#[test]
fn numbering_goes_past_nine() {
    let mut j: Journey<i32> = Journey::new();
    let mut many = Vec::new();
    for i in 0..12 {
        many.push(StepItem {
            title: format!("t{}", i),
            value: i,
        });
    }
    j.step::<i32>("many".to_string(), many);
    let screen = j.render_current();
    assert!(screen.contains("\n10) t9"));
    assert!(screen.contains("\n12) t11"));
    match j.offer_line("12") {
        Advance::Produced(sel) => assert_eq!(sel.selected.title, "t11"),
        _ => panic!("input 12 must select the twelfth item"),
    }
}

#[test]
fn decimal_formatting() {
    assert_eq!(stepped_journey::text::dec_string(0), "0");
    assert_eq!(stepped_journey::text::dec_string(7), "7");
    assert_eq!(stepped_journey::text::dec_string(10), "10");
    assert_eq!(stepped_journey::text::dec_string(907), "907");
}

use tomato_timer::config::Config;

#[test]
fn empty_config_misses_everything() {
    let c = Config::new();
    assert_eq!(c.get_int("work_time"), None);
    assert_eq!(c.get_string("on_work_start"), None);
}

#[test]
fn parses_integer_entries() {
    let c = Config::new_from_config_string("work_time=1500");
    assert_eq!(c.get_int("work_time"), Some(1500));
}

#[test]
fn parses_negative_and_signed_integers() {
    let c = Config::new_from_config_string("a=-5\nb=+7");
    assert_eq!(c.get_int("a"), Some(-5));
    assert_eq!(c.get_int("b"), Some(7));
}

#[test]
fn value_is_taken_verbatim_so_padded_numbers_are_strings() {
    let c = Config::new_from_config_string("x= 5");
    assert_eq!(c.get_int("x"), None);
    assert_eq!(c.get_string("x"), Some(" 5".to_string()));
}

#[test]
fn keys_are_trimmed() {
    let c = Config::new_from_config_string("  x  =3");
    assert_eq!(c.get_int("x"), Some(3));
}

#[test]
fn comments_are_ignored() {
    let c = Config::new_from_config_string("#x=1\n   # y=2\nz=3");
    assert_eq!(c.get_int("x"), None);
    assert_eq!(c.get_int("y"), None);
    assert_eq!(c.get_int("z"), Some(3));
}

#[test]
fn malformed_lines_are_skipped_not_fatal() {
    let c = Config::new_from_config_string("no equals here\nx=1=2\n=5\n\ny=4");
    assert_eq!(c.get_int("x"), None);
    assert_eq!(c.get_int("y"), Some(4));
}

#[test]
fn last_entry_wins() {
    let c = Config::new_from_config_string("x=1\nx=2");
    assert_eq!(c.get_int("x"), Some(2));
}

#[test]
fn string_values_keep_their_text() {
    let c = Config::new_from_config_string("on_work_start=notify-send work");
    assert_eq!(c.get_string("on_work_start"), Some("notify-send work".to_string()));
    assert_eq!(c.get_int("on_work_start"), None);
}

#[test]
fn float_values_are_neither_ints_nor_strings() {
    let c = Config::new_from_config_string("f=1.5");
    assert_eq!(c.get_int("f"), None);
    assert_eq!(c.get_string("f"), None);
    assert_eq!(c.floats.len(), 1);
    assert_eq!(c.floats[0].0, "f");
    assert_eq!(c.floats[0].1, "1.5");
}

#[test]
fn float_literal_forms_are_recognized() {
    let c = Config::new_from_config_string(
        "a=1e3\nb=.5\nc=3.\nd=inf\ne=NaN\ng=-2.5\nh=+1.25e-4\ni=Infinity",
    );
    assert_eq!(c.floats.len(), 8);
    assert_eq!(c.strings.len(), 0);
    assert_eq!(c.ints.len(), 0);
}

#[test]
fn non_literals_fall_back_to_strings() {
    let c = Config::new_from_config_string("a=1.2.3\nb=12a\nc=e5\nd=.\ne=--3");
    assert_eq!(c.strings.len(), 5);
    assert_eq!(c.floats.len(), 0);
    assert_eq!(c.ints.len(), 0);
}

#[test]
fn integers_overflowing_sixty_four_bits_are_floats() {
    let c = Config::new_from_config_string("x=99999999999999999999");
    assert_eq!(c.get_int("x"), None);
    assert_eq!(c.floats.len(), 1);
}

#[test]
fn integer_bounds_are_exact() {
    let c = Config::new_from_config_string(
        "max=9223372036854775807\nmin=-9223372036854775808\nover=9223372036854775808",
    );
    assert_eq!(c.get_int("max"), Some(i64::MAX));
    assert_eq!(c.get_int("min"), Some(i64::MIN));
    assert_eq!(c.get_int("over"), None);
    assert_eq!(c.floats.len(), 1);
}

#[test]
fn windows_line_endings_are_handled() {
    let c = Config::new_from_config_string("x=1\r\ny=2\r\n");
    assert_eq!(c.get_int("x"), Some(1));
    assert_eq!(c.get_int("y"), Some(2));
}

#[test]
fn final_line_without_newline_is_parsed() {
    let c = Config::new_from_config_string("x=1\ny=2");
    assert_eq!(c.get_int("y"), Some(2));
}

#[test]
fn diagnostics_report_malformed_line_numbers() {
    let (c, skipped) =
        Config::new_from_config_string_with_diagnostics("bad\nx=1\n=2\n# note\ny=z");
    assert_eq!(skipped, vec![0, 2]);
    assert_eq!(c.get_int("x"), Some(1));
    assert_eq!(c.get_string("y"), Some("z".to_string()));
}

#[test]
fn diagnostics_count_blank_lines_as_malformed() {
    let (c, skipped) = Config::new_from_config_string_with_diagnostics("\nx=1");
    assert_eq!(skipped, vec![0]);
    assert_eq!(c.get_int("x"), Some(1));
}

#[test]
fn diagnostics_empty_on_clean_input() {
    let (c, skipped) = Config::new_from_config_string_with_diagnostics("a=1\n# b\nc=2\n");
    assert_eq!(skipped, Vec::<usize>::new());
    assert_eq!(c.get_int("a"), Some(1));
    assert_eq!(c.get_int("c"), Some(2));
}

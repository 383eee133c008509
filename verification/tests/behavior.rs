use message_format::arg;
use message_format::icu::ast::PluralFormat;
use message_format::icu::ast::SelectFormat;
use message_format::icu::ast::SimpleFormat;
use message_format::icu::parse::message_parser;
use message_format::icu::parse::message_parts;
use message_format::icu::parse::ParseError;
use message_format::icu::parse::parse;
use message_format::icu::parse::simple_format;
use message_format::Args;
use message_format::Context;
use message_format::EmptyArgs;
use message_format::FormatError;
use message_format::Message;
use message_format::MessagePart;
use message_format::Value;

#[test]
fn shadowing_nearest_binding_wins() {
    let a1 = arg("x", 1);
    let a2 = a1.arg("x", 2);
    let a3 = a2.arg("y", 3);
    assert_eq!(a3.get("x").unwrap(), &Value::Number(2));
    assert_eq!(a3.get("y").unwrap(), &Value::Number(3));
    assert!(a3.get("z").is_none());
    // The prefix chains are untouched by the later extensions.
    assert_eq!(a1.get("x").unwrap(), &Value::Number(1));
    assert!(a2.get("y").is_none());
}

#[test]
fn empty_args_has_no_bindings() {
    let args = EmptyArgs;
    assert!(args.get("anything").is_none());
}

#[test]
fn plural_category_fallback() {
    let ctx = Context::default();
    let mut fmt = PluralFormat::new("n", parse("other").unwrap());
    fmt.one(parse("one").unwrap());
    let msg = Message::new(vec![MessagePart::Plural(fmt)]);
    assert_eq!(ctx.format(&msg, &arg("n", 1)), "one");
    assert_eq!(ctx.format(&msg, &arg("n", 0)), "other");
    assert_eq!(ctx.format(&msg, &arg("n", 2)), "other");
    assert_eq!(ctx.format(&msg, &arg("n", 100)), "other");
}

#[test]
fn plural_literal_precedence() {
    let ctx = Context::default();
    let mut fmt = PluralFormat::new("n", parse("other").unwrap());
    fmt.one(parse("one").unwrap());
    fmt.literal(54, parse("exact").unwrap());
    let msg = Message::new(vec![MessagePart::Plural(fmt)]);
    assert_eq!(ctx.format(&msg, &arg("n", 54)), "exact");
    assert_eq!(ctx.format(&msg, &arg("n", 1)), "one");
    assert_eq!(ctx.format(&msg, &arg("n", 53)), "other");
}

#[test]
fn stored_categories_are_not_selected_by_the_reduced_rule() {
    // Only `one` (for the value 1) and the default take part in category
    // resolution; `zero`, `two`, `few` and `many` are stored but never chosen.
    let ctx = Context::default();
    let mut fmt = PluralFormat::new("n", parse("other").unwrap());
    fmt.zero(parse("zero").unwrap());
    fmt.two(parse("two").unwrap());
    fmt.few(parse("few").unwrap());
    fmt.many(parse("many").unwrap());
    let msg = Message::new(vec![MessagePart::Plural(fmt)]);
    assert_eq!(ctx.format(&msg, &arg("n", 0)), "other");
    assert_eq!(ctx.format(&msg, &arg("n", 2)), "other");
    assert_eq!(ctx.format(&msg, &arg("n", 1000000)), "other");
}

#[test]
fn context_carries_the_plural_value() {
    let m = parse("#").unwrap();
    let ctx = Context::new(Some(5));
    assert_eq!(ctx.format(&m, &EmptyArgs), "5");
}

#[test]
fn select_exact_match_and_default() {
    let ctx = Context::default();
    let mut fmt = SelectFormat::new("who", parse("They").unwrap());
    fmt.map("male", parse("He").unwrap());
    fmt.map("female", parse("She").unwrap());
    let msg = Message::new(vec![MessagePart::Select(fmt)]);
    assert_eq!(ctx.format(&msg, &arg("who", "female")), "She");
    assert_eq!(ctx.format(&msg, &arg("who", "male")), "He");
    assert_eq!(ctx.format(&msg, &arg("who", "nonbinary")), "They");
}

#[test]
fn missing_argument_fails_write() {
    let msg = Message::new(vec![MessagePart::Simple(SimpleFormat::new("name"))]);
    let mut out = String::new();
    let r = msg.write_message(&mut out, &arg("city", "Berlin"));
    assert_eq!(r, Err(FormatError::MissingArgument));
    assert_eq!(out, "");
}

#[test]
fn wrong_kind_for_plural_fails_write() {
    let m = parse("{n, plural, other {x}}").unwrap();
    let mut out = String::new();
    assert_eq!(
        m.write_message(&mut out, &arg("n", "abc")),
        Err(FormatError::WrongValueKind)
    );
}

#[test]
fn wrong_kind_for_select_fails_write() {
    let m = parse("{g, select, other {x}}").unwrap();
    let mut out = String::new();
    assert_eq!(
        m.write_message(&mut out, &arg("g", 7)),
        Err(FormatError::WrongValueKind)
    );
}

#[test]
fn placeholder_without_plural_context_fails() {
    let m = parse("#").unwrap();
    let mut out = String::new();
    assert_eq!(
        m.write_message(&mut out, &EmptyArgs),
        Err(FormatError::MissingPluralValue)
    );
    // The swallowing entry point degrades to the partial (empty) output.
    assert_eq!(m.format_message(&EmptyArgs), "");
}

#[test]
fn partial_output_stays_in_the_sink() {
    let m = parse("ab{name}").unwrap();
    let mut out = String::new();
    let r = m.write_message(&mut out, &EmptyArgs);
    assert_eq!(r, Err(FormatError::MissingArgument));
    assert_eq!(out, "ab");
    assert_eq!(m.format_message(&EmptyArgs), "ab");
}

#[test]
fn missing_default_case_fails_parsing() {
    assert!(parse("{n, plural, one {x}}").is_err());
    assert!(parse("{n, plural, =3 {x}}").is_err());
    assert!(parse("{g, select, male {He}}").is_err());
}

#[test]
fn end_to_end_simple() {
    let m = parse("{name} is from {city}.").unwrap();
    let out = m.format_message(&arg("name", "Hendrik").arg("city", "Berlin"));
    assert_eq!(out, "Hendrik is from Berlin.");
}

#[test]
fn end_to_end_plural() {
    let m = parse("{number, plural, =54 {perfect number of days} one {1 day} other {# days}}")
        .unwrap();
    assert_eq!(m.format_message(&arg("number", 54)), "perfect number of days");
    assert_eq!(m.format_message(&arg("number", 1)), "1 day");
    assert_eq!(m.format_message(&arg("number", 7)), "7 days");
}

#[test]
fn end_to_end_select() {
    let m = parse("{gender, select, male {He} female {She} other {They}} will respond shortly.")
        .unwrap();
    assert_eq!(
        m.format_message(&arg("gender", "female")),
        "She will respond shortly."
    );
    assert_eq!(
        m.format_message(&arg("gender", "robot")),
        "They will respond shortly."
    );
}

#[test]
fn numbers_format_in_decimal() {
    assert_eq!(Value::Number(0).to_display(), "0");
    assert_eq!(Value::Number(-42).to_display(), "-42");
    assert_eq!(Value::Number(9007199254740993).to_display(), "9007199254740993");
    assert_eq!(
        Value::Number(i64::MIN).to_display(),
        "-9223372036854775808"
    );
    assert_eq!(Value::Number(i64::MAX).to_display(), "9223372036854775807");
}

#[test]
fn negative_numbers_through_simple_format() {
    let m = parse("{n}").unwrap();
    assert_eq!(m.format_message(&arg("n", -7)), "-7");
}

#[test]
fn malformed_templates_fail() {
    assert!(parse("").is_err());
    assert!(parse("{name").is_err());
    assert!(parse("{}").is_err());
    assert!(parse("a{b").is_err());
    assert!(parse("{n, plural, =99999999999999999999 {x} other {y}}").is_err());
}

#[test]
fn parser_leaves_the_remainder() {
    let (rem, m) = message_parser("a{b").unwrap();
    assert_eq!(rem, "{b");
    assert_eq!(m.format_message(&EmptyArgs), "a");
}

#[test]
fn simple_format_parses_a_prefix() {
    let (rem, part) = simple_format("{name} rest").unwrap();
    assert_eq!(rem, " rest");
    let msg = Message::new(vec![part]);
    assert_eq!(msg.format_message(&arg("name", "Ada")), "Ada");
    assert!(simple_format("plain").is_err());
}

#[test]
fn message_parts_splits_the_template() {
    let (rem, parts) = message_parts("{a}#tail{").unwrap();
    assert_eq!(rem, "{");
    assert_eq!(parts.len(), 3);
    assert!(message_parts("").is_err());
}

#[test]
fn parse_error_describes_itself() {
    let e = parse("").unwrap_err();
    assert_eq!(e, ParseError::NotImplemented);
    assert_eq!(e.description(), "Not implemented.");
}

#[test]
fn nested_placeholder_uses_the_plural_value() {
    let m = parse("{n, plural, other {# items}}").unwrap();
    assert_eq!(m.format_message(&arg("n", 12)), "12 items");
}

#[test]
fn plural_values_pick_exact_overrides_from_parsing() {
    let m = parse("{n, plural, =0 {none} one {one} other {many}}").unwrap();
    assert_eq!(m.format_message(&arg("n", 0)), "none");
    assert_eq!(m.format_message(&arg("n", 1)), "one");
    assert_eq!(m.format_message(&arg("n", 5)), "many");
}

#[test]
fn later_select_other_stays_a_mapping() {
    // The first `other` becomes the default; whitespace around branches is
    // skipped.
    let m = parse("{g, select,  male {He}  other {They} }").unwrap();
    assert_eq!(m.format_message(&arg("g", "male")), "He");
    assert_eq!(m.format_message(&arg("g", "female")), "They");
}

use message_format::arg;
use message_format::icu::ast::SelectFormat;
use message_format::icu::ast::SimpleFormat;
use message_format::icu::parse::message_parser;
use message_format::icu::parse::parse;
use message_format::icu::parse::plain_text;
use message_format::Args;
use message_format::Context;
use message_format::Message;
use message_format::MessagePart;
use message_format::Value;

#[test]
fn get_works() {
    let name = "John";
    let args = arg("name", name);
    assert_eq!(args.get("name").unwrap().to_display(), "John");
}

#[test]
fn numbers_work() {
    let count = 3;
    let args = arg("count", count);
    assert_eq!(args.get("count").unwrap(), &Value::Number(3));
    assert_eq!(args.get("count").unwrap().to_display(), "3");
}

#[test]
fn select_format_it_works() {
    let ctx = Context::default();

    // Manually construct a message in an ugly way so that we aren't testing parsing.
    let mut fmt = SelectFormat::new("type", parse("Default").unwrap());
    fmt.map("block", parse("Block").unwrap());
    let msg = Message::new(vec![MessagePart::Select(fmt)]);

    let output = ctx.format(&msg, &arg("type", "block"));
    assert_eq!("Block", output);

    let output = ctx.format(&msg, &arg("type", "span"));
    assert_eq!("Default", output);
}

#[test]
fn simple_format_it_works() {
    let ctx = Context::default();

    // Manually construct a message in an ugly way so that we aren't testing parsing.
    let fmt = SimpleFormat::new("name");
    let msg = Message::new(vec![MessagePart::Simple(fmt)]);

    let output = ctx.format(&msg, &arg("name", "John"));
    assert_eq!("John", output);
}

#[test]
fn plain_text_test() {
    let r = plain_text("hello {name}");

    match r {
        Ok((rem, _pt)) => {
            assert_eq!(rem, "{name}");
        }
        Err(err) => panic!("parse error: {:?}", err),
    }
}

#[test]
fn parse_it_works() {
    let ctx = Context::default();
    match parse("{name} is from {city}.") {
        Ok(m) => {
            assert_eq!(
                ctx.format(&m, &arg("name", "Hendrik").arg("city", "Berlin")),
                "Hendrik is from Berlin."
            );
        }
        Err(e) => panic!("Parse failed: {}", e.description()),
    }
}

#[test]
fn all_text_works() {
    match message_parser("Hello, world!") {
        Ok((_, _)) => {}
        Err(err) => panic!("Expected successful parse. {:?}", err),
    }
}

#[test]
fn plural_format_works() {
    match message_parser(
        "hello {name} you have {number, plural, =54 {perfect number of days} one {1 day} other {# days}} left",
    ) {
        Ok((_, fmt)) => {
            println!("fmt = {:?}", fmt);
            let ctx = Context::default();
            let out = ctx.format(&fmt, &arg("number", 225).arg("name", "Zack"));
            println!("out = {}", out);
        }
        Err(err) => panic!("Parse Err {:?}", err),
    }
}

#[test]
fn select_format_works() {
    match message_parser("{gender, select, male {He} female {She} other {They}} will respond shortly.") {
        Ok((_, fmt)) => {
            println!("fmt = {:?}", fmt);
            let ctx = Context::default();
            let out = ctx.format(&fmt, &arg("gender", "female"));
            println!("out = {}", out);
        }
        _ => panic!("Expected successful parse."),
    }
}

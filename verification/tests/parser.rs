use hextwitch::irc::{parse, Message};
use hextwitch::strutil::{num_to_string, parse_num, str_eq, trim_spaces};

#[test]
fn parse_full_line() {
    let m = parse("@badges=subscriber/6;color=#FF0000 :nick!user@host PRIVMSG #chan :hello world");
    assert_eq!(m.command, "PRIVMSG");
    assert_eq!(m.args.len(), 1);
    assert_eq!(m.args[0], "#chan");
    assert_eq!(m.trail, "hello world");
    assert_eq!(m.prefix.as_deref(), Some("nick!user@host"));
    assert_eq!(m.tags.len(), 2);
    assert_eq!(m.tags[0], ("badges".to_string(), "subscriber/6".to_string()));
    assert_eq!(m.tags[1], ("color".to_string(), "#FF0000".to_string()));
}

#[test]
fn tag_lookup_present_and_absent() {
    let m = parse("@badges=subscriber/6;color=#FF0000 :nick!user@host PRIVMSG #chan :hi");
    assert_eq!(m.get_tag("badges").as_deref(), Some("subscriber/6"));
    assert_eq!(m.get_tag("color").as_deref(), Some("#FF0000"));
    assert_eq!(m.get_tag("absent"), None);
}

#[test]
fn tag_without_equals_has_empty_value() {
    let m = parse("@flag :n!u@h PRIVMSG #c :x");
    assert_eq!(m.get_tag("flag").as_deref(), Some(""));
}

#[test]
fn round_trip_serialize_parse() {
    let lines = [
        "@a=1;b=2 :nick!u@h PRIVMSG #c :hello there",
        "PING",
        ":srv 001 me :Welcome to the server",
        "CMD a b",
        "@k=v :n WHISPER u :hi there",
        "@msg-id=raid;msg-param-viewerCount=42 USERNOTICE #chan",
        ":nick!u@h JOIN #chan",
    ];
    for line in lines {
        assert_eq!(parse(line).serialize(), line, "round trip failed for {line}");
    }
}

#[test]
fn parse_degrades_on_malformed_input() {
    let m = parse("");
    assert_eq!(m.command, "");
    assert!(m.args.is_empty());
    assert_eq!(m.trail, "");
    assert!(m.prefix.is_none());
    assert!(m.tags.is_empty());

    let m = parse("   ");
    assert_eq!(m.command, "");

    let m = parse("@only-tags-no-space");
    assert_eq!(m.command, "");
    assert_eq!(m.get_tag("only-tags-no-space").as_deref(), Some(""));
}

#[test]
fn author_derivation() {
    assert_eq!(parse(":nick!user@host PRIVMSG #c :x").author(), "nick");
    assert_eq!(parse(":nick@host PRIVMSG #c :x").author(), "nick");
    assert_eq!(parse(":justhost PRIVMSG #c :x").author(), "justhost");
    assert_eq!(parse("PRIVMSG #c :x").author(), "");
}

#[test]
fn signature_is_command_invariant() {
    let a = parse(":alice!u@h PRIVMSG #chan :hello");
    let b = parse(":alice!u@h WHISPER #chan :hello");
    assert_eq!(a.get_signature(), b.get_signature());
    let c = parse(":bob!u@h PRIVMSG #chan :hello");
    assert_ne!(a.get_signature(), c.get_signature());
}

#[test]
fn trail_only_after_space_colon() {
    let m = parse("CMD one two :three four :five");
    assert_eq!(m.args, vec!["one".to_string(), "two".to_string()]);
    assert_eq!(m.trail, "three four :five");
}

#[test]
fn numeric_parsing_defaults_to_zero() {
    assert_eq!(parse_num("42"), 42);
    assert_eq!(parse_num("042"), 42);
    assert_eq!(parse_num(""), 0);
    assert_eq!(parse_num("abc"), 0);
    assert_eq!(parse_num("12x"), 0);
    assert_eq!(parse_num("-3"), 0);
    assert_eq!(parse_num("999999999999999999999999999999"), 0);
}

#[test]
fn numeric_tag_accessor() {
    let m = parse("@ban-duration=600;bad=oops CLEARCHAT #c :alice");
    assert_eq!(m.get_tag_num("ban-duration"), 600);
    assert_eq!(m.get_tag_num("bad"), 0);
    assert_eq!(m.get_tag_num("absent"), 0);
}

#[test]
fn decimal_rendering() {
    assert_eq!(num_to_string(0), "0");
    assert_eq!(num_to_string(7), "7");
    assert_eq!(num_to_string(12345), "12345");
    assert_eq!(num_to_string(1000), "1000");
}

#[test]
fn string_utilities() {
    assert!(str_eq("abc", "abc"));
    assert!(!str_eq("abc", "abd"));
    assert!(!str_eq("abc", "ab"));
    assert_eq!(trim_spaces("  x y  "), "x y");
    assert_eq!(trim_spaces(""), "");
    assert_eq!(trim_spaces("   "), "");
}

#[test]
fn message_struct_is_plain() {
    let m = Message {
        tags: vec![("k".to_string(), "v".to_string())],
        prefix: Some("n!u@h".to_string()),
        command: "PRIVMSG".to_string(),
        args: vec!["#c".to_string()],
        trail: "body text".to_string(),
    };
    assert_eq!(m.serialize(), "@k=v :n!u@h PRIVMSG #c :body text");
}

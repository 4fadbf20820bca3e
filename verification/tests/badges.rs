use hextwitch::printing::{badge_none, get_badge, Badges, States};

#[test]
fn constant_badge_classes() {
    assert_eq!(get_badge("broadcaster", "1"), Some("🜲"));
    assert_eq!(get_badge("moderator", ""), Some("🗡"));
    assert_eq!(get_badge("vip", "0"), Some("⚑"));
    assert_eq!(get_badge("partner", ""), Some("✓"));
    assert_eq!(get_badge("turbo", ""), Some("+"));
    assert_eq!(get_badge("premium", ""), Some("±"));
    assert_eq!(get_badge("unknown-class", "3"), None);
}

#[test]
fn subscriber_thresholds() {
    assert_eq!(get_badge("subscriber", "0"), Some("①"));
    assert_eq!(get_badge("subscriber", "3"), Some("③"));
    assert_eq!(get_badge("subscriber", "6"), Some("⑥"));
    assert_eq!(get_badge("subscriber", "11"), Some("⑨"));
    assert_eq!(get_badge("subscriber", "12"), Some("ⅰ"));
    assert_eq!(get_badge("subscriber", "144"), Some("ⅻ"));
    assert_eq!(get_badge("subscriber", "9000"), Some("ⅻ"));
    // An unparseable rank defaults to 0.
    assert_eq!(get_badge("subscriber", "junk"), Some("①"));
}

#[test]
fn bits_thresholds() {
    assert_eq!(get_badge("bits", "99"), Some("▴"));
    assert_eq!(get_badge("bits", "100"), Some("⬧"));
    assert_eq!(get_badge("bits", "5000"), Some("⬡"));
    assert_eq!(get_badge("bits", "1000000"), Some("🟎"));
}

#[test]
fn resolved_badge_string() {
    let b = Badges::new("broadcaster/1,subscriber/12");
    assert_eq!(b.output, "🜲ⅰ ");
    let b = Badges::new("unknown/5,vip/1");
    assert_eq!(b.output, "⚑ ");
    let b = Badges::new("unknown/5");
    assert_eq!(b.output, "");
}

#[test]
fn badge_cache_placeholder_and_get() {
    let mut s = States::new();
    assert_eq!(s.get("#chan"), badge_none());
    assert_eq!(s.get("#chan"), "_ ");
    s.set("#chan".to_string(), "moderator/1".to_string());
    assert_eq!(s.get("#chan"), "🗡 ");
    assert_eq!(s.get("#other"), "_ ");
}

#[test]
fn badge_cache_memoizes_same_raw() {
    let mut s = States::new();
    s.set("#chan".to_string(), "subscriber/6".to_string());
    assert_eq!(s.resolutions(), 1);
    // Same raw input again: no resolution work is performed.
    s.set("#chan".to_string(), "subscriber/6".to_string());
    assert_eq!(s.resolutions(), 1);
    assert_eq!(s.get("#chan"), "⑥ ");
    // A different raw input recomputes.
    s.set("#chan".to_string(), "subscriber/12".to_string());
    assert_eq!(s.resolutions(), 2);
    assert_eq!(s.get("#chan"), "ⅰ ");
    // Another channel is independent.
    s.set("#other".to_string(), "subscriber/6".to_string());
    assert_eq!(s.resolutions(), 3);
    assert_eq!(s.get("#chan"), "ⅰ ");
}

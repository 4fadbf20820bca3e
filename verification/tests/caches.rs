use hextwitch::irc::parse;
use hextwitch::sponge::Sponge;
use hextwitch::tabs::Tabs;

#[test]
fn highlight_escalation_sequence() {
    let mut t = Tabs::new();
    let priorities = [1u8, 3, 2, 3, 5];
    let mut commands = 0;
    for p in priorities {
        if t.color("#chan", p, false) {
            commands += 1;
        }
    }
    // Exactly three recolor commands: at 1, 3 and 5.
    assert_eq!(commands, 3);
    // The recorded priority is 5 now: nothing at or below escalates.
    assert!(!t.color("#chan", 5, false));
    assert!(t.color("#chan", 6, false));
}

#[test]
fn highlight_focused_never_recolors() {
    let mut t = Tabs::new();
    assert!(!t.color("#chan", 9, true));
    // Nothing was recorded while focused.
    assert!(t.color("#chan", 1, false));
}

#[test]
fn highlight_reset_clears_to_minimum() {
    let mut t = Tabs::new();
    assert!(t.color("#chan", 5, false));
    t.reset("#chan");
    // Cleared to the minimum: priority 1 escalates again.
    assert!(t.color("#chan", 1, false));
    // Reset works even for a channel never seen.
    t.reset("#new");
    assert!(!t.color("#new", 0, false));
}

#[test]
fn highlight_channels_are_independent() {
    let mut t = Tabs::new();
    assert!(t.color("#a", 3, false));
    assert!(t.color("#b", 2, false));
    assert!(!t.color("#a", 3, false));
    assert!(t.color("#b", 3, false));
}

#[test]
fn sponge_put_then_pop_returns_message() {
    let mut s = Sponge::new();
    let m = parse(":alice!u@h PRIVMSG #chan :hello");
    let sig = m.get_signature();
    s.put(m);
    let got = s.pop(&sig).expect("stored message should pop");
    assert_eq!(got.command, "PRIVMSG");
    assert_eq!(got.trail, "hello");
    // The slot is cleared: a second pop yields nothing.
    assert!(s.pop(&sig).is_none());
}

#[test]
fn sponge_pop_with_other_signature_leaves_slot() {
    let mut s = Sponge::new();
    let m = parse(":alice!u@h PRIVMSG #chan :hello");
    let sig = m.get_signature();
    s.put(m);
    assert!(s.pop("some other signature").is_none());
    // The message is still retrievable under its own signature.
    assert!(s.pop(&sig).is_some());
}

#[test]
fn sponge_second_put_discards_first() {
    let mut s = Sponge::new();
    let m1 = parse(":alice!u@h PRIVMSG #chan :first");
    let m2 = parse(":bob!u@h PRIVMSG #chan :second");
    let sig1 = m1.get_signature();
    let sig2 = m2.get_signature();
    assert_ne!(sig1, sig2);
    s.put(m1);
    s.put(m2);
    // The first message is gone irrecoverably.
    assert!(s.pop(&sig1).is_none());
    assert_eq!(s.pop(&sig2).expect("second message stays").trail, "second");
}

#[test]
fn sponge_pop_on_empty_slot() {
    let mut s = Sponge::new();
    assert!(s.pop("anything").is_none());
}

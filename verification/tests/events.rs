use hextwitch::events::{
    cheer, classify, clearchat, clearmsg, hosttarget, reward, subscription, usernotice,
    whisper_recv, whisper_send, Classification, EatMode, EventType, WhisperSend,
};
use hextwitch::irc::parse;

#[test]
fn raid_scenario() {
    let m = parse(
        "@msg-id=raid;msg-param-viewerCount=42;msg-param-displayName=SomeStreamer USERNOTICE #chan",
    );
    let (echo, eat) = usernotice(&m).expect("raid with both tags emits");
    assert_eq!(echo.event, EventType::Normal);
    assert_eq!(echo.args.len(), 1);
    assert_eq!(echo.args[0], "A raid of 42 arrives from #somestreamer");
    assert_eq!(echo.tab_color, 1);
    assert_eq!(eat, EatMode::Hexchat);
}

#[test]
fn raid_missing_tag_yields_nothing() {
    let m = parse("@msg-id=raid;msg-param-viewerCount=42 USERNOTICE #chan");
    assert!(usernotice(&m).is_none());
    let m = parse("@msg-id=raid;msg-param-displayName=X USERNOTICE #chan");
    assert!(usernotice(&m).is_none());
    let m = parse("USERNOTICE #chan");
    assert!(usernotice(&m).is_none());
}

#[test]
fn special_notice_echoes_system_msg() {
    let m = parse("@msg-id=ritual;system-msg=bob%20is%20new%20here USERNOTICE #chan");
    let (echo, eat) = usernotice(&m).expect("ritual with system-msg emits");
    assert_eq!(echo.event, EventType::Normal);
    assert_eq!(echo.args[0], "bob%20is%20new%20here");
    assert_eq!(eat, EatMode::Hexchat);
}

#[test]
fn timeout_scenario() {
    let m = parse("@ban-duration=600 CLEARCHAT #chan :alice");
    let (echo, eat) = clearchat(&m);
    assert_eq!(echo.event, EventType::Error);
    assert_eq!(echo.args[0], "alice is timed out for 600s.");
    assert_eq!(eat, EatMode::Hexchat);

    let m = parse("CLEARCHAT #chan :alice");
    let (echo, _) = clearchat(&m);
    assert_eq!(echo.args[0], "alice is banned permanently.");

    let m = parse("@ban-duration=600;ban-reason=spam CLEARCHAT #chan :alice");
    let (echo, _) = clearchat(&m);
    assert_eq!(echo.args[0], "alice is timed out for 600s. Reason: spam");

    let m = parse("@ban-reason= CLEARCHAT #chan :alice");
    let (echo, _) = clearchat(&m);
    assert_eq!(echo.args[0], "alice is banned permanently.");
}

#[test]
fn clearmsg_names_author_and_text() {
    let m = parse("@login=alice CLEARMSG #chan :a bad message");
    let (echo, eat) = clearmsg(&m).expect("deletion with login emits");
    assert_eq!(echo.event, EventType::Error);
    assert_eq!(echo.args[0], "A message by <alice> is deleted: a bad message");
    assert_eq!(eat, EatMode::Hexchat);
    assert!(clearmsg(&parse("CLEARMSG #chan :x")).is_none());
}

#[test]
fn subscription_tiering_scenario() {
    let m = parse(
        "@msg-id=sub;msg-param-sub-plan=3000;msg-param-cumulative-months=13;login=bob USERNOTICE #chan",
    );
    let (echo, eat) = usernotice(&m).expect("sub with login emits");
    assert_eq!(echo.event, EventType::Alert);
    assert_eq!(echo.args[0], "SUBSCRIPTION");
    assert_eq!(
        echo.args[1],
        "<bob> subscribes at Tier 3 ($25), with (13) months in total",
    );
    assert!(echo.args[1].contains("scribes at Tier 3 ($25)"));
    assert!(echo.args[1].contains(", with (13) months in total"));
    assert!(!echo.args[1].contains("in a row"));
    assert_eq!(eat, EatMode::Hexchat);
}

#[test]
fn resub_with_streak_and_comment() {
    let m = parse(
        "@msg-id=resub;msg-param-sub-plan=Prime;msg-param-streak-months=5;login=ann USERNOTICE #chan :hi all",
    );
    let (echo, _) = usernotice(&m).expect("resub emits");
    assert_eq!(
        echo.args[1],
        "<ann> resubscribes with Twitch Prime for (5) months in a row: hi all",
    );
    // A streak of one adds no clause.
    let m = parse("@msg-id=resub;msg-param-streak-months=1;login=ann USERNOTICE #chan");
    let (echo, _) = usernotice(&m).expect("resub emits");
    assert_eq!(echo.args[1], "<ann> resubscribes");
}

#[test]
fn subgift_line() {
    let m = parse(
        "@msg-id=subgift;msg-param-recipient-user-name=carl;login=dana;msg-param-months=3 USERNOTICE #chan",
    );
    let (echo, _) = usernotice(&m).expect("subgift emits");
    assert_eq!(
        echo.args[1],
        "<carl> is gifted a subscription by <dana> for (3) months in a row",
    );
    // Missing the recipient aborts the branch.
    let m = parse("@msg-id=subgift;login=dana USERNOTICE #chan");
    assert!(usernotice(&m).is_none());
}

#[test]
fn mystery_gift_singular_and_plural() {
    let m = parse("@msg-id=submysterygift;msg-param-mass-gift-count=1;login=eve USERNOTICE #c");
    let (echo, _) = usernotice(&m).expect("emits");
    assert_eq!(echo.args[1], "<eve> gives out (1) random gift subscription");
    let m = parse("@msg-id=submysterygift;msg-param-mass-gift-count=20;login=eve USERNOTICE #c");
    let (echo, _) = usernotice(&m).expect("emits");
    assert_eq!(echo.args[1], "<eve> gives out (20) random gift subscriptions");
}

#[test]
fn upgrade_and_bits_badge_lines() {
    let m = parse("@msg-id=giftpaidupgrade;login=fay;msg-param-sender-login=gil USERNOTICE #c");
    let (echo, _) = usernotice(&m).expect("emits");
    assert_eq!(echo.args[0], "UPGRADE");
    assert_eq!(echo.args[1], "<fay> upgrades a gift subscription from <gil>");

    let m = parse("@msg-id=primepaidupgrade;login=fay USERNOTICE #c");
    let (echo, _) = usernotice(&m).expect("emits");
    assert_eq!(echo.args[1], "<fay> upgrades a Twitch Prime subscription");

    let m = parse("@msg-id=bitsbadgetier;login=hal USERNOTICE #c");
    let (echo, _) = usernotice(&m).expect("emits");
    assert_eq!(echo.args[0], "BITS BADGE");
    assert_eq!(echo.args[1], "<hal> earns a new tier of Bits Badge");
    assert_eq!(echo.tab_color, 1);
}

#[test]
fn unknown_subscription_type_diagnostic() {
    let m = parse("@msg-id=weirdthing;system-msg=something USERNOTICE #c");
    let (echo, eat) = usernotice(&m).expect("unknown msg-id still emits");
    assert_eq!(echo.event, EventType::Normal);
    assert_eq!(echo.args[0], "Unknown SType 'weirdthing': something");
    assert_eq!(eat, EatMode::Hexchat);
    // Without system-msg the raw message is echoed instead.
    let m = parse("@msg-id=weirdthing USERNOTICE #c");
    let (echo, _) = usernotice(&m).expect("emits");
    assert_eq!(echo.args[0], "Unknown SType 'weirdthing': @msg-id=weirdthing USERNOTICE #c");
    // It can also be reached directly.
    let (echo, _) = subscription(&m, "weirdthing").expect("emits");
    assert!(echo.args[0].starts_with("Unknown SType 'weirdthing'"));
}

#[test]
fn unknown_reward_scenario() {
    let m = parse("@custom-reward-id=xyz123 :bob!u@h PRIVMSG #chan :my redemption");
    let (echo, eat) = reward("my redemption", &m, None).expect("reward id always emits");
    assert_eq!(echo.event, EventType::Reward);
    assert_eq!(echo.args[0], "CUSTOM");
    assert_eq!(echo.args[1], "(xyz123) bob:");
    assert!(echo.args[1].contains("xyz123"));
    assert_eq!(echo.args[2], "my redemption");
    assert_eq!(eat, EatMode::All);
}

#[test]
fn known_reward_uses_preference_name() {
    let m = parse("@custom-reward-id=xyz123 :bob!u@h PRIVMSG #chan :hi");
    let (echo, _) = reward("hi", &m, Some("Hydrate")).expect("emits");
    assert_eq!(echo.args[0], "Hydrate");
    assert_eq!(echo.args[1], "bob:");
}

#[test]
fn highlighted_message_is_an_alert() {
    let m = parse("@msg-id=highlighted-message :bob!u@h PRIVMSG #chan :look here");
    let (echo, eat) = reward("look here", &m, None).expect("highlight emits");
    assert_eq!(echo.event, EventType::Alert);
    assert_eq!(echo.args[0], "bob");
    assert_eq!(echo.args[1], "look here");
    assert_eq!(eat, EatMode::All);
    // An ordinary message is left alone.
    let m = parse(":bob!u@h PRIVMSG #chan :plain");
    assert!(reward("plain", &m, None).is_none());
}

#[test]
fn cheer_lines() {
    let e = cheer("bob", 1).expect("one bit emits");
    assert_eq!(e.event, EventType::Reward);
    assert_eq!(e.args, vec!["CHEER", "bob cheers", "1 bit"]);
    let e = cheer("bob", 500).expect("bits emit");
    assert_eq!(e.args[2], "500 bits");
    assert!(cheer("bob", 0).is_none());
}

#[test]
fn hosttarget_link_and_unhost() {
    let (echo, eat) = hosttarget("streamer");
    let echo = echo.expect("a real target emits");
    assert_eq!(echo.event, EventType::ChannelLink);
    assert_eq!(echo.args[0], "#streamer");
    assert_eq!(echo.args[1], "https://www.twitch.tv/streamer");
    assert_eq!(eat, EatMode::Hexchat);

    let (echo, eat) = hosttarget("-");
    assert!(echo.is_none());
    assert_eq!(eat, EatMode::Hexchat);
}

#[test]
fn whisper_recv_rewrites_message() {
    let m = parse(":alice!a@b WHISPER me :hello you");
    let r = whisper_recv(m, "#elsewhere");
    assert_eq!(r.message.command, "PRIVMSG");
    assert_eq!(r.message.args[0], "alice");
    assert_eq!(r.message.trail, "hello you");
    assert_eq!(r.eat, EatMode::All);
    let echo = r.echo.expect("echo when the tab is not current");
    assert_eq!(echo.event, EventType::PrivateMessage);
    assert_eq!(echo.args, vec!["alice", "hello you"]);
    assert_eq!(r.command, "RECV :alice!a@b PRIVMSG alice :hello you");
}

#[test]
fn whisper_recv_action_form() {
    let m = parse(":alice!a@b WHISPER me :/me waves");
    let r = whisper_recv(m, "#elsewhere");
    assert_eq!(r.message.trail, "ACTION waves");
    let echo = r.echo.expect("echo present");
    assert_eq!(echo.event, EventType::PrivateAction);
    assert_eq!(echo.args, vec!["alice", "waves"]);
    assert_eq!(r.command, "RECV :alice!a@b PRIVMSG alice :ACTION waves");
}

#[test]
fn whisper_recv_suppresses_echo_in_own_tab() {
    let m = parse(":alice!a@b WHISPER me :hi");
    let r = whisper_recv(m, "alice");
    assert!(r.echo.is_none());
}

#[test]
fn whisper_send_already_sent() {
    let word = vec!["me".to_string(), ".w bob hi there".to_string(), String::new()];
    match whisper_send(EventType::YourMessage, "#chan", &word) {
        WhisperSend::Dm { user, echo, dm_event, args } => {
            assert_eq!(user, "bob");
            assert_eq!(dm_event, EventType::PrivateMessageToDialog);
            assert_eq!(args, vec!["me".to_string(), "hi there".to_string(), String::new()]);
            let echo = echo.expect("echo when partner tab is not current");
            assert_eq!(echo.event, EventType::MessageSend);
            assert_eq!(echo.args, vec!["bob", "hi there"]);
        },
        _ => panic!("expected a dialog print"),
    }
    // When the partner's tab is current, no echo.
    match whisper_send(EventType::YourMessage, "bob", &word) {
        WhisperSend::Dm { echo, .. } => assert!(echo.is_none()),
        _ => panic!("expected a dialog print"),
    }
}

#[test]
fn whisper_send_action_strips_me() {
    let word = vec!["me".to_string(), ".w bob /me waves".to_string(), String::new()];
    match whisper_send(EventType::YourMessage, "#chan", &word) {
        WhisperSend::Dm { echo, dm_event, args, .. } => {
            assert_eq!(dm_event, EventType::PrivateActionToDialog);
            assert_eq!(args[1], "waves");
            // The echo shows the unstripped text.
            assert_eq!(echo.expect("echo").args[1], "/me waves");
        },
        _ => panic!("expected a dialog print"),
    }
}

#[test]
fn whisper_send_needs_sending() {
    let word = vec!["me".to_string(), "hi there".to_string(), String::new()];
    match whisper_send(EventType::YourMessage, "bob", &word) {
        WhisperSend::Say { command } => assert_eq!(command, "SAY .w bob hi there"),
        _ => panic!("expected a SAY command"),
    }
    match whisper_send(EventType::YourAction, "bob", &word) {
        WhisperSend::Say { command } => assert_eq!(command, "SAY .w bob /me hi there"),
        _ => panic!("expected a SAY command"),
    }
}

#[test]
fn whisper_send_too_few_words() {
    let word = vec!["me".to_string(), ".w bob".to_string(), String::new()];
    assert!(matches!(
        whisper_send(EventType::YourMessage, "#c", &word),
        WhisperSend::Nothing
    ));
}

#[test]
fn command_classification() {
    assert_eq!(classify(&parse("PRIVMSG #c :x")), Classification::StoreChat);
    assert_eq!(classify(&parse(":a!b@c WHISPER me :x")), Classification::Whisper);
    assert_eq!(classify(&parse("ROOMSTATE #c")), Classification::RoomState);
    assert_eq!(classify(&parse("USERSTATE #c")), Classification::UserState);
    assert_eq!(classify(&parse("USERNOTICE #c")), Classification::UserNotice);
    assert_eq!(classify(&parse("HOSTTARGET #c :x 5")), Classification::HostTarget);
    assert_eq!(classify(&parse("CLEARMSG #c :x")), Classification::ClearMsg);
    assert_eq!(classify(&parse("CLEARCHAT #c :x")), Classification::ClearChat);
    assert_eq!(classify(&parse("PING :srv")), Classification::Other);
    assert_eq!(classify(&parse("privmsg #c :x")), Classification::Other);
}

//! The event classifier: from a parsed message to the presentation action
//! the host must perform.
//!
//! Every function here is pure: it builds the event text and says whether
//! the triggering event is consumed, and the host integration performs the
//! emission.  A branch whose required tag is absent yields no action at all,
//! never partial output.

use vstd::prelude::*;

use crate::irc::{author_of, lookup_tag, spec_serialize, Message, MessageV};
use crate::strutil::{dec_str, num_to_string, spec_parse_num, starts_with, str_eq};

verus! {

/// What the host's event pipeline does with the triggering event.
#[derive(Clone, Copy, Debug, PartialEq, Eq, Structural)]
pub enum EatMode {
    /// No action: the host's default rendering still runs.
    Pass,
    /// Suppress the host's default rendering only.
    Hexchat,
    /// Suppress all further host processing.
    All,
}

/// The category under which an event is printed.
#[derive(Clone, Copy, Debug, PartialEq, Eq, Structural)]
pub enum EventType {
    /// Subscriptions, highlighted messages and other channel alerts.
    Alert,
    /// Links to other channels, as when hosting.
    ChannelLink,
    /// Error-priority text: deletions and bans.
    Error,
    /// Typical events.
    Normal,
    /// Bits and custom point rewards.
    Reward,
    /// A private action received.
    PrivateAction,
    /// A private message received.
    PrivateMessage,
    /// A private action echoed into a dialog tab.
    PrivateActionToDialog,
    /// A private message echoed into a dialog tab.
    PrivateMessageToDialog,
    /// A message of ours being sent.
    MessageSend,
    /// The host reports our own action.
    YourAction,
    /// The host reports our own message.
    YourMessage,
}

/// Mathematical model of an emission.
#[verifier::ext_equal]
pub ghost struct EchoV {
    pub event: EventType,
    pub args: Seq<Seq<char>>,
    pub tab_color: u8,
}

/// One formatted event to print, and the tab color to escalate to.
pub struct Echo {
    pub event: EventType,
    pub args: Vec<String>,
    pub tab_color: u8,
}

impl View for Echo {
    type V = EchoV;

    open spec fn view(&self) -> EchoV {
        EchoV {
            event: self.event,
            args: crate::irc::strs_view(self.args@),
            tab_color: self.tab_color,
        }
    }
}

/// View of an optional emission.
pub open spec fn opt_echo_view(r: Option<Echo>) -> Option<EchoV> {
    match r {
        Some(e) => Some(e@),
        None => None,
    }
}

/// View of an optional emission paired with an eat mode.
pub open spec fn opt_action_view(r: Option<(Echo, EatMode)>) -> Option<(EchoV, EatMode)> {
    match r {
        Some((e, eat)) => Some((e@, eat)),
        None => None,
    }
}

// ---------------------------------------------------------------------------
// Cheers.
// ---------------------------------------------------------------------------

/// What a cheer emits: nothing for zero bits, else a reward event with the
/// cheer line and the bit count, singular or plural.
pub open spec fn spec_cheer(name: Seq<char>, number: nat) -> Option<EchoV> {
    if number == 0 {
        None
    } else {
        Some(
            EchoV {
                event: EventType::Reward,
                args: seq![
                    "CHEER"@,
                    name + " cheers"@,
                    dec_str(number) + " bit"@ + (if number == 1 {
                        Seq::<char>::empty()
                    } else {
                        "s"@
                    }),
                ],
                tab_color: 1,
            },
        )
    }
}

/// A cheer of `number` bits by `name`.
pub fn cheer(name: &str, number: usize) -> (r: Option<Echo>)
    ensures
        opt_echo_view(r) == spec_cheer(name@, number as nat),
{
    if number > 0 {
        let mut args: Vec<String> = Vec::new();
        args.push(String::from_str("CHEER"));
        let mut who = String::from_str(name);
        who.append(" cheers");
        args.push(who);
        let mut bits = num_to_string(number);
        bits.append(" bit");
        if number != 1 {
            bits.append("s");
        }
        args.push(bits);
        let r = Some(Echo { event: EventType::Reward, args, tab_color: 1 });
        proof {
            assert(opt_echo_view(r).unwrap().args =~~= spec_cheer(name@, number as nat).unwrap().args);
            assert(opt_echo_view(r).unwrap() =~~= spec_cheer(name@, number as nat).unwrap());
        }
        r
    } else {
        None
    }
}

// ---------------------------------------------------------------------------
// Rewards and highlights.
// ---------------------------------------------------------------------------

/// What a reward check emits.  A message carrying `custom-reward-id` is
/// always rendered as a reward event, under the host-configured name when
/// one is known (`pref`), else under a generic label that shows the raw id;
/// a `highlighted-message` is rendered as an alert; anything else is left
/// alone.
pub open spec fn spec_reward(
    text: Seq<char>,
    m: MessageV,
    pref: Option<Seq<char>>,
) -> Option<(EchoV, EatMode)> {
    match lookup_tag(m.tags, "custom-reward-id"@) {
        Some(id) => Some(
            (
                EchoV {
                    event: EventType::Reward,
                    args: match pref {
                        Some(n) => seq![n, author_of(m) + ":"@, text],
                        None => seq!["CUSTOM"@, "("@ + id + ") "@ + author_of(m) + ":"@, text],
                    },
                    tab_color: 2,
                },
                EatMode::All,
            ),
        ),
        None => match lookup_tag(m.tags, "msg-id"@) {
            Some(mi) => if mi == "highlighted-message"@ {
                Some(
                    (
                        EchoV {
                            event: EventType::Alert,
                            args: seq![author_of(m), text],
                            tab_color: 2,
                        },
                        EatMode::All,
                    ),
                )
            } else {
                None
            },
            None => None,
        },
    }
}

/// Classify a possible reward or highlighted message.  `text` is the
/// rendered message text and `pref` the host preference stored under this
/// message's reward id, if any.
pub fn reward(text: &str, msg: &Message, pref: Option<&str>) -> (r: Option<(Echo, EatMode)>)
    ensures
        opt_action_view(r) == spec_reward(
            text@,
            msg@,
            match pref {
                Some(p) => Some(p@),
                None => None,
            },
        ),
{
    let ghost sv = spec_reward(
        text@,
        msg@,
        match pref {
            Some(p) => Some(p@),
            None => None,
        },
    );
    match msg.get_tag("custom-reward-id") {
        Some(id) => {
            let mut args: Vec<String> = Vec::new();
            match pref {
                Some(n) => {
                    args.push(String::from_str(n));
                },
                None => {
                    args.push(String::from_str("CUSTOM"));
                },
            }
            let mut byline = String::new();
            if pref.is_none() {
                byline.append("(");
                byline.append(id.as_str());
                byline.append(") ");
            }
            byline.append(msg.author());
            byline.append(":");
            args.push(byline);
            args.push(String::from_str(text));
            let r = Some((Echo { event: EventType::Reward, args, tab_color: 2 }, EatMode::All));
            proof {
                assert(opt_action_view(r).unwrap().0.args =~~= sv.unwrap().0.args);
                assert(opt_action_view(r).unwrap().0 =~~= sv.unwrap().0);
            }
            r
        },
        None => {
            match msg.get_tag("msg-id") {
                Some(mi) => {
                    if str_eq(mi.as_str(), "highlighted-message") {
                        let mut args: Vec<String> = Vec::new();
                        args.push(String::from_str(msg.author()));
                        args.push(String::from_str(text));
                        let r = Some(
                            (Echo { event: EventType::Alert, args, tab_color: 2 }, EatMode::All),
                        );
                        proof {
                            assert(opt_action_view(r).unwrap().0.args =~~= sv.unwrap().0.args);
                            assert(opt_action_view(r).unwrap().0 =~~= sv.unwrap().0);
                        }
                        r
                    } else {
                        None
                    }
                },
                None => None,
            }
        },
    }
}

// ---------------------------------------------------------------------------
// User notices: raids, special events and the subscription family.
// ---------------------------------------------------------------------------

/// The result of the host's lowercasing of a string; it depends on the
/// characters alone.
pub uninterp spec fn lower_of(s: Seq<char>) -> Seq<char>;

/// Relies on str::to_lowercase: lowercases a display name; the result
/// depends on the characters alone.
#[verifier::external_body]
fn lowercase(s: &str) -> (r: String)
    ensures
        r@ == lower_of(s@),
{
    s.to_lowercase()
}

/// What a raid notice emits: the viewer count and the lowercased source
/// channel, when both tags are present; nothing otherwise.
pub open spec fn spec_raid(m: MessageV) -> Option<(EchoV, EatMode)> {
    match (
        lookup_tag(m.tags, "msg-param-viewerCount"@),
        lookup_tag(m.tags, "msg-param-displayName"@),
    ) {
        (Some(vc), Some(dn)) => Some(
            (
                EchoV {
                    event: EventType::Normal,
                    args: seq!["A raid of "@ + vc + " arrives from #"@ + lower_of(dn)],
                    tab_color: 1,
                },
                EatMode::Hexchat,
            ),
        ),
        _ => None,
    }
}

/// A raid notice.
fn raid(msg: &Message) -> (r: Option<(Echo, EatMode)>)
    ensures
        opt_action_view(r) == spec_raid(msg@),
{
    match msg.get_tag("msg-param-viewerCount") {
        Some(vc) => {
            match msg.get_tag("msg-param-displayName") {
                Some(dn) => {
                    let mut line = String::from_str("A raid of ");
                    line.append(vc.as_str());
                    line.append(" arrives from #");
                    line.append(lowercase(dn.as_str()).as_str());
                    let mut args: Vec<String> = Vec::new();
                    args.push(line);
                    let r = Some(
                        (Echo { event: EventType::Normal, args, tab_color: 1 }, EatMode::Hexchat),
                    );
                    proof {
                        assert(opt_action_view(r).unwrap().0.args =~~= spec_raid(
                            msg@,
                        ).unwrap().0.args);
                        assert(opt_action_view(r).unwrap().0 =~~= spec_raid(msg@).unwrap().0);
                    }
                    r
                },
                None => None,
            }
        },
        None => None,
    }
}

/// What a charity, reward-gift or ritual notice emits: the `system-msg` tag
/// verbatim, when present.
pub open spec fn spec_special(m: MessageV) -> Option<(EchoV, EatMode)> {
    match lookup_tag(m.tags, "system-msg"@) {
        Some(sm) => Some(
            (
                EchoV { event: EventType::Normal, args: seq![sm], tab_color: 1 },
                EatMode::Hexchat,
            ),
        ),
        None => None,
    }
}

/// A special notice: charity, reward gift or ritual.
fn special(msg: &Message) -> (r: Option<(Echo, EatMode)>)
    ensures
        opt_action_view(r) == spec_special(msg@),
{
    match msg.get_tag("system-msg") {
        Some(sm) => {
            let mut args: Vec<String> = Vec::new();
            args.push(sm);
            let r = Some(
                (Echo { event: EventType::Normal, args, tab_color: 1 }, EatMode::Hexchat),
            );
            proof {
                assert(opt_action_view(r).unwrap().0.args =~~= spec_special(msg@).unwrap().0.args);
                assert(opt_action_view(r).unwrap().0 =~~= spec_special(msg@).unwrap().0);
            }
            r
        },
        None => None,
    }
}

/// The plan-tier clause of a subscription line: Prime and the named paid
/// tiers add text, any other plan (including implicit Tier 1) adds none.
pub open spec fn plan_clause(m: MessageV) -> Seq<char> {
    match lookup_tag(m.tags, "msg-param-sub-plan"@) {
        Some(p) => if p == "Prime"@ {
            " with Twitch Prime"@
        } else if p == "2000"@ {
            " at Tier 2 ($10)"@
        } else if p == "3000"@ {
            " at Tier 3 ($25)"@
        } else {
            Seq::<char>::empty()
        },
        None => Seq::<char>::empty(),
    }
}

/// The streak clause: present only when the tag under `key` parses to a
/// number above one.
pub open spec fn streak_clause(m: MessageV, key: Seq<char>) -> Seq<char> {
    match lookup_tag(m.tags, key) {
        Some(s) => if spec_parse_num(s) > 1 {
            " for ("@ + s + ") months in a row"@
        } else {
            Seq::<char>::empty()
        },
        None => Seq::<char>::empty(),
    }
}

/// The cumulative-months clause: present only when the tag parses to a
/// number above one.
pub open spec fn cumul_clause(m: MessageV) -> Seq<char> {
    match lookup_tag(m.tags, "msg-param-cumulative-months"@) {
        Some(c) => if spec_parse_num(c) > 1 {
            ", with ("@ + c + ") months in total"@
        } else {
            Seq::<char>::empty()
        },
        None => Seq::<char>::empty(),
    }
}

/// The trailing user comment, when the message has one.
pub open spec fn trail_clause(m: MessageV) -> Seq<char> {
    if m.trail.len() > 0 {
        ": "@ + m.trail
    } else {
        Seq::<char>::empty()
    }
}

/// What the subscription-family sub-dispatch emits for each `msg-id`; the
/// absence of any required tag yields nothing.
pub open spec fn spec_subscription(m: MessageV, stype: Seq<char>) -> Option<(EchoV, EatMode)> {
    if stype == "sub"@ || stype == "resub"@ {
        match lookup_tag(m.tags, "login"@) {
            Some(login) => Some(
                (
                    EchoV {
                        event: EventType::Alert,
                        args: seq![
                            "SUBSCRIPTION"@,
                            "<"@ + login + "> "@ + stype + "scribes"@ + plan_clause(m)
                                + streak_clause(m, "msg-param-streak-months"@) + cumul_clause(m)
                                + trail_clause(m),
                        ],
                        tab_color: 2,
                    },
                    EatMode::Hexchat,
                ),
            ),
            None => None,
        }
    } else if stype == "subgift"@ {
        match (
            lookup_tag(m.tags, "msg-param-recipient-user-name"@),
            lookup_tag(m.tags, "login"@),
        ) {
            (Some(rcpt), Some(login)) => Some(
                (
                    EchoV {
                        event: EventType::Alert,
                        args: seq![
                            "SUBSCRIPTION"@,
                            "<"@ + rcpt + "> is gifted a subscription by <"@ + login + ">"@
                                + streak_clause(m, "msg-param-months"@) + cumul_clause(m),
                        ],
                        tab_color: 2,
                    },
                    EatMode::Hexchat,
                ),
            ),
            _ => None,
        }
    } else if stype == "submysterygift"@ {
        match (lookup_tag(m.tags, "msg-param-mass-gift-count"@), lookup_tag(m.tags, "login"@)) {
            (Some(num), Some(login)) => Some(
                (
                    EchoV {
                        event: EventType::Alert,
                        args: seq![
                            "SUBSCRIPTION"@,
                            "<"@ + login + "> gives out ("@ + num + ") random gift subscription"@
                                + (if num == "1"@ {
                                Seq::<char>::empty()
                            } else {
                                "s"@
                            }),
                        ],
                        tab_color: 2,
                    },
                    EatMode::Hexchat,
                ),
            ),
            _ => None,
        }
    } else if stype == "giftpaidupgrade"@ {
        match (lookup_tag(m.tags, "login"@), lookup_tag(m.tags, "msg-param-sender-login"@)) {
            (Some(login), Some(sender)) => Some(
                (
                    EchoV {
                        event: EventType::Alert,
                        args: seq![
                            "UPGRADE"@,
                            "<"@ + login + "> upgrades a gift subscription from <"@ + sender
                                + ">"@,
                        ],
                        tab_color: 2,
                    },
                    EatMode::Hexchat,
                ),
            ),
            _ => None,
        }
    } else if stype == "primepaidupgrade"@ {
        match lookup_tag(m.tags, "login"@) {
            Some(login) => Some(
                (
                    EchoV {
                        event: EventType::Alert,
                        args: seq![
                            "UPGRADE"@,
                            "<"@ + login + "> upgrades a Twitch Prime subscription"@,
                        ],
                        tab_color: 2,
                    },
                    EatMode::Hexchat,
                ),
            ),
            None => None,
        }
    } else if stype == "bitsbadgetier"@ {
        match lookup_tag(m.tags, "login"@) {
            Some(login) => Some(
                (
                    EchoV {
                        event: EventType::Alert,
                        args: seq!["BITS BADGE"@, "<"@ + login + "> earns a new tier of Bits Badge"@],
                        tab_color: 1,
                    },
                    EatMode::Hexchat,
                ),
            ),
            None => None,
        }
    } else {
        Some(
            (
                EchoV {
                    event: EventType::Normal,
                    args: seq![
                        "Unknown SType '"@ + stype + "': "@ + (match lookup_tag(
                            m.tags,
                            "system-msg"@,
                        ) {
                            Some(sm) => sm,
                            None => spec_serialize(m),
                        }),
                    ],
                    tab_color: 1,
                },
                EatMode::Hexchat,
            ),
        )
    }
}

/// One subscription-family notice, dispatched on its `msg-id`.
#[verifier::rlimit(80)]
pub fn subscription(msg: &Message, stype: &str) -> (r: Option<(Echo, EatMode)>)
    ensures
        opt_action_view(r) == spec_subscription(msg@, stype@),
{
    let ghost sv = spec_subscription(msg@, stype@);
    if str_eq(stype, "sub") || str_eq(stype, "resub") {
        match msg.get_tag("login") {
            Some(login) => {
                let mut line = String::from_str("<");
                line.append(login.as_str());
                line.append("> ");
                line.append(stype);
                line.append("scribes");
                match msg.get_tag("msg-param-sub-plan") {
                    Some(p) => {
                        if str_eq(p.as_str(), "Prime") {
                            line.append(" with Twitch Prime");
                        } else if str_eq(p.as_str(), "2000") {
                            line.append(" at Tier 2 ($10)");
                        } else if str_eq(p.as_str(), "3000") {
                            line.append(" at Tier 3 ($25)");
                        }
                    },
                    None => {},
                }
                match msg.get_tag("msg-param-streak-months") {
                    Some(s) => {
                        if crate::strutil::parse_num(s.as_str()) > 1 {
                            line.append(" for (");
                            line.append(s.as_str());
                            line.append(") months in a row");
                        }
                    },
                    None => {},
                }
                match msg.get_tag("msg-param-cumulative-months") {
                    Some(c) => {
                        if crate::strutil::parse_num(c.as_str()) > 1 {
                            line.append(", with (");
                            line.append(c.as_str());
                            line.append(") months in total");
                        }
                    },
                    None => {},
                }
                if !msg.trail.as_str().is_empty() {
                    line.append(": ");
                    line.append(msg.trail.as_str());
                }
                let mut args: Vec<String> = Vec::new();
                args.push(String::from_str("SUBSCRIPTION"));
                args.push(line);
                let r = Some(
                    (Echo { event: EventType::Alert, args, tab_color: 2 }, EatMode::Hexchat),
                );
                proof {
                    assert(opt_action_view(r).unwrap().0.args =~~= sv.unwrap().0.args);
                    assert(opt_action_view(r).unwrap().0 =~~= sv.unwrap().0);
                }
                r
            },
            None => None,
        }
    } else if str_eq(stype, "subgift") {
        match (msg.get_tag("msg-param-recipient-user-name"), msg.get_tag("login")) {
            (Some(rcpt), Some(login)) => {
                let mut line = String::from_str("<");
                line.append(rcpt.as_str());
                line.append("> is gifted a subscription by <");
                line.append(login.as_str());
                line.append(">");
                match msg.get_tag("msg-param-months") {
                    Some(s) => {
                        if crate::strutil::parse_num(s.as_str()) > 1 {
                            line.append(" for (");
                            line.append(s.as_str());
                            line.append(") months in a row");
                        }
                    },
                    None => {},
                }
                match msg.get_tag("msg-param-cumulative-months") {
                    Some(c) => {
                        if crate::strutil::parse_num(c.as_str()) > 1 {
                            line.append(", with (");
                            line.append(c.as_str());
                            line.append(") months in total");
                        }
                    },
                    None => {},
                }
                let mut args: Vec<String> = Vec::new();
                args.push(String::from_str("SUBSCRIPTION"));
                args.push(line);
                let r = Some(
                    (Echo { event: EventType::Alert, args, tab_color: 2 }, EatMode::Hexchat),
                );
                proof {
                    assert(opt_action_view(r).unwrap().0.args =~~= sv.unwrap().0.args);
                    assert(opt_action_view(r).unwrap().0 =~~= sv.unwrap().0);
                }
                r
            },
            _ => None,
        }
    } else if str_eq(stype, "submysterygift") {
        match (msg.get_tag("msg-param-mass-gift-count"), msg.get_tag("login")) {
            (Some(num), Some(login)) => {
                let mut line = String::from_str("<");
                line.append(login.as_str());
                line.append("> gives out (");
                line.append(num.as_str());
                line.append(") random gift subscription");
                if !str_eq(num.as_str(), "1") {
                    line.append("s");
                }
                let mut args: Vec<String> = Vec::new();
                args.push(String::from_str("SUBSCRIPTION"));
                args.push(line);
                let r = Some(
                    (Echo { event: EventType::Alert, args, tab_color: 2 }, EatMode::Hexchat),
                );
                proof {
                    assert(opt_action_view(r).unwrap().0.args =~~= sv.unwrap().0.args);
                    assert(opt_action_view(r).unwrap().0 =~~= sv.unwrap().0);
                }
                r
            },
            _ => None,
        }
    } else if str_eq(stype, "giftpaidupgrade") {
        match (msg.get_tag("login"), msg.get_tag("msg-param-sender-login")) {
            (Some(login), Some(sender)) => {
                let mut line = String::from_str("<");
                line.append(login.as_str());
                line.append("> upgrades a gift subscription from <");
                line.append(sender.as_str());
                line.append(">");
                let mut args: Vec<String> = Vec::new();
                args.push(String::from_str("UPGRADE"));
                args.push(line);
                let r = Some(
                    (Echo { event: EventType::Alert, args, tab_color: 2 }, EatMode::Hexchat),
                );
                proof {
                    assert(opt_action_view(r).unwrap().0.args =~~= sv.unwrap().0.args);
                    assert(opt_action_view(r).unwrap().0 =~~= sv.unwrap().0);
                }
                r
            },
            _ => None,
        }
    } else if str_eq(stype, "primepaidupgrade") {
        match msg.get_tag("login") {
            Some(login) => {
                let mut line = String::from_str("<");
                line.append(login.as_str());
                line.append("> upgrades a Twitch Prime subscription");
                let mut args: Vec<String> = Vec::new();
                args.push(String::from_str("UPGRADE"));
                args.push(line);
                let r = Some(
                    (Echo { event: EventType::Alert, args, tab_color: 2 }, EatMode::Hexchat),
                );
                proof {
                    assert(opt_action_view(r).unwrap().0.args =~~= sv.unwrap().0.args);
                    assert(opt_action_view(r).unwrap().0 =~~= sv.unwrap().0);
                }
                r
            },
            None => None,
        }
    } else if str_eq(stype, "bitsbadgetier") {
        match msg.get_tag("login") {
            Some(login) => {
                let mut line = String::from_str("<");
                line.append(login.as_str());
                line.append("> earns a new tier of Bits Badge");
                let mut args: Vec<String> = Vec::new();
                args.push(String::from_str("BITS BADGE"));
                args.push(line);
                let r = Some(
                    (Echo { event: EventType::Alert, args, tab_color: 1 }, EatMode::Hexchat),
                );
                proof {
                    assert(opt_action_view(r).unwrap().0.args =~~= sv.unwrap().0.args);
                    assert(opt_action_view(r).unwrap().0 =~~= sv.unwrap().0);
                }
                r
            },
            None => None,
        }
    } else {
        let mut line = String::from_str("Unknown SType '");
        line.append(stype);
        line.append("': ");
        match msg.get_tag("system-msg") {
            Some(sm) => {
                line.append(sm.as_str());
            },
            None => {
                line.append(msg.serialize().as_str());
            },
        }
        let mut args: Vec<String> = Vec::new();
        args.push(line);
        let r = Some((Echo { event: EventType::Normal, args, tab_color: 1 }, EatMode::Hexchat));
        proof {
            assert(opt_action_view(r).unwrap().0.args =~~= sv.unwrap().0.args);
            assert(opt_action_view(r).unwrap().0 =~~= sv.unwrap().0);
        }
        r
    }
}

/// What a user notice emits: a sub-dispatch on its `msg-id` tag — raids,
/// the special verbatim notices, and the subscription family; a notice with
/// no `msg-id` yields nothing.
pub open spec fn spec_usernotice(m: MessageV) -> Option<(EchoV, EatMode)> {
    match lookup_tag(m.tags, "msg-id"@) {
        Some(st) => if st == "raid"@ {
            spec_raid(m)
        } else if st == "charity"@ || st == "rewardgift"@ || st == "ritual"@ {
            spec_special(m)
        } else {
            spec_subscription(m, st)
        },
        None => None,
    }
}

/// A USERNOTICE line.
pub fn usernotice(msg: &Message) -> (r: Option<(Echo, EatMode)>)
    ensures
        opt_action_view(r) == spec_usernotice(msg@),
{
    match msg.get_tag("msg-id") {
        Some(st) => {
            if str_eq(st.as_str(), "raid") {
                raid(msg)
            } else if str_eq(st.as_str(), "charity") || str_eq(st.as_str(), "rewardgift")
                || str_eq(st.as_str(), "ritual") {
                special(msg)
            } else {
                subscription(msg, st.as_str())
            }
        },
        None => None,
    }
}

// ---------------------------------------------------------------------------
// Host targets, deletions and bans.
// ---------------------------------------------------------------------------

/// What a host-target change emits: a channel link for a real target, and
/// nothing for the `-` unhost marker; the event is consumed either way.
pub open spec fn spec_hosttarget(target: Seq<char>) -> Option<EchoV> {
    if target != "-"@ {
        Some(
            EchoV {
                event: EventType::ChannelLink,
                args: seq!["#"@ + target, "https://www.twitch.tv/"@ + target],
                tab_color: 1,
            },
        )
    } else {
        None
    }
}

/// A HOSTTARGET change; the eat mode is always `Hexchat`.
pub fn hosttarget(target: &str) -> (r: (Option<Echo>, EatMode))
    ensures
        opt_echo_view(r.0) == spec_hosttarget(target@),
        r.1 == EatMode::Hexchat,
{
    if !str_eq(target, "-") {
        let mut chan = String::from_str("#");
        chan.append(target);
        let mut url = String::from_str("https://www.twitch.tv/");
        url.append(target);
        let mut args: Vec<String> = Vec::new();
        args.push(chan);
        args.push(url);
        let r = Some(Echo { event: EventType::ChannelLink, args, tab_color: 1 });
        proof {
            assert(opt_echo_view(r).unwrap().args =~~= spec_hosttarget(target@).unwrap().args);
            assert(opt_echo_view(r).unwrap() =~~= spec_hosttarget(target@).unwrap());
        }
        (r, EatMode::Hexchat)
    } else {
        (None, EatMode::Hexchat)
    }
}

/// What a message deletion emits: who wrote it and the deleted text, when
/// the `login` tag is present.
pub open spec fn spec_clearmsg(m: MessageV) -> Option<(EchoV, EatMode)> {
    match lookup_tag(m.tags, "login"@) {
        Some(login) => Some(
            (
                EchoV {
                    event: EventType::Error,
                    args: seq!["A message by <"@ + login + "> is deleted: "@ + m.trail],
                    tab_color: 1,
                },
                EatMode::Hexchat,
            ),
        ),
        None => None,
    }
}

/// A CLEARMSG deletion.
pub fn clearmsg(msg: &Message) -> (r: Option<(Echo, EatMode)>)
    ensures
        opt_action_view(r) == spec_clearmsg(msg@),
{
    match msg.get_tag("login") {
        Some(login) => {
            let mut line = String::from_str("A message by <");
            line.append(login.as_str());
            line.append("> is deleted: ");
            line.append(msg.trail.as_str());
            let mut args: Vec<String> = Vec::new();
            args.push(line);
            let r = Some(
                (Echo { event: EventType::Error, args, tab_color: 1 }, EatMode::Hexchat),
            );
            proof {
                assert(opt_action_view(r).unwrap().0.args =~~= spec_clearmsg(msg@).unwrap().0.args);
                assert(opt_action_view(r).unwrap().0 =~~= spec_clearmsg(msg@).unwrap().0);
            }
            r
        },
        None => None,
    }
}

/// What a chat clearance emits: a timeout phrase when `ban-duration` is
/// present, else a permanent ban phrase, with a reason clause when
/// `ban-reason` is present and nonempty.  The trailing text names the user.
pub open spec fn spec_clearchat(m: MessageV) -> (EchoV, EatMode) {
    (
        EchoV {
            event: EventType::Error,
            args: seq![
                (match lookup_tag(m.tags, "ban-duration"@) {
                    Some(t) => m.trail + " is timed out for "@ + t + "s."@,
                    None => m.trail + " is banned permanently."@,
                }) + (match lookup_tag(m.tags, "ban-reason"@) {
                    Some(rr) => if rr.len() > 0 {
                        " Reason: "@ + rr
                    } else {
                        Seq::<char>::empty()
                    },
                    None => Seq::<char>::empty(),
                }),
            ],
            tab_color: 1,
        },
        EatMode::Hexchat,
    )
}

/// A CLEARCHAT ban or timeout.
pub fn clearchat(msg: &Message) -> (r: (Echo, EatMode))
    ensures
        (r.0@, r.1) == spec_clearchat(msg@),
{
    let mut text = String::from_str(msg.trail.as_str());
    match msg.get_tag("ban-duration") {
        Some(t) => {
            text.append(" is timed out for ");
            text.append(t.as_str());
            text.append("s.");
        },
        None => {
            text.append(" is banned permanently.");
        },
    }
    match msg.get_tag("ban-reason") {
        Some(rr) => {
            if !rr.as_str().is_empty() {
                text.append(" Reason: ");
                text.append(rr.as_str());
            }
        },
        None => {},
    }
    let mut args: Vec<String> = Vec::new();
    args.push(text);
    let r = (Echo { event: EventType::Error, args, tab_color: 1 }, EatMode::Hexchat);
    proof {
        assert(r.0@.args =~~= spec_clearchat(msg@).0.args);
        assert(r.0@ =~~= spec_clearchat(msg@).0);
    }
    r
}

// ---------------------------------------------------------------------------
// Top-level dispatch.
// ---------------------------------------------------------------------------

/// What the raw-line dispatcher decides for each command.
#[derive(Clone, Copy, Debug, PartialEq, Eq, Structural)]
pub enum Classification {
    /// An ordinary chat line: store it in the sponge for the print hook.
    StoreChat,
    /// A whisper: rewrite and re-inject it.
    Whisper,
    /// Room state: suppress the host's default rendering.
    RoomState,
    /// User state: update the badge cache.
    UserState,
    /// A user notice: sub-dispatch on its tags.
    UserNotice,
    /// A host-target change.
    HostTarget,
    /// A message deletion.
    ClearMsg,
    /// A chat clearance.
    ClearChat,
    /// Anything else: leave it to the host.
    Other,
}

/// The classification of a command verb.
pub open spec fn spec_classify(command: Seq<char>) -> Classification {
    if command == "PRIVMSG"@ {
        Classification::StoreChat
    } else if command == "WHISPER"@ {
        Classification::Whisper
    } else if command == "ROOMSTATE"@ {
        Classification::RoomState
    } else if command == "USERSTATE"@ {
        Classification::UserState
    } else if command == "USERNOTICE"@ {
        Classification::UserNotice
    } else if command == "HOSTTARGET"@ {
        Classification::HostTarget
    } else if command == "CLEARMSG"@ {
        Classification::ClearMsg
    } else if command == "CLEARCHAT"@ {
        Classification::ClearChat
    } else {
        Classification::Other
    }
}

/// Classify a parsed line by its command verb.
pub fn classify(msg: &Message) -> (r: Classification)
    ensures
        r == spec_classify(msg@.command),
{
    let c = msg.command.as_str();
    if str_eq(c, "PRIVMSG") {
        Classification::StoreChat
    } else if str_eq(c, "WHISPER") {
        Classification::Whisper
    } else if str_eq(c, "ROOMSTATE") {
        Classification::RoomState
    } else if str_eq(c, "USERSTATE") {
        Classification::UserState
    } else if str_eq(c, "USERNOTICE") {
        Classification::UserNotice
    } else if str_eq(c, "HOSTTARGET") {
        Classification::HostTarget
    } else if str_eq(c, "CLEARMSG") {
        Classification::ClearMsg
    } else if str_eq(c, "CLEARCHAT") {
        Classification::ClearChat
    } else {
        Classification::Other
    }
}

// ---------------------------------------------------------------------------
// Whispers.
// ---------------------------------------------------------------------------

/// A received whisper, rewritten so that the host renders it as an ordinary
/// private message addressed to the sending user.
pub open spec fn spec_whisper_rewrite(m: MessageV) -> MessageV {
    MessageV {
        tags: m.tags,
        prefix: m.prefix,
        command: "PRIVMSG"@,
        args: if m.args.len() > 0 {
            m.args.update(0, author_of(m))
        } else {
            seq![author_of(m)]
        },
        trail: if starts_with(m.trail, "/me "@) {
            "ACTION "@ + m.trail.skip(4)
        } else {
            m.trail
        },
    }
}

/// The text a received whisper shows: the trail, with a `/me ` marker
/// stripped.
pub open spec fn whisper_text(m: MessageV) -> Seq<char> {
    if starts_with(m.trail, "/me "@) {
        m.trail.skip(4)
    } else {
        m.trail
    }
}

/// The local echo of a received whisper: suppressed when the conversation
/// partner's tab is already current, since the host renders its own copy.
pub open spec fn spec_whisper_echo(m: MessageV, current_channel: Seq<char>) -> Option<EchoV> {
    if current_channel != author_of(m) {
        Some(
            EchoV {
                event: if starts_with(m.trail, "/me "@) {
                    EventType::PrivateAction
                } else {
                    EventType::PrivateMessage
                },
                args: seq![author_of(m), whisper_text(m)],
                tab_color: 2,
            },
        )
    } else {
        None
    }
}

/// What handling a received whisper yields: the rewritten message, an
/// optional local echo, the command that re-injects the message into the
/// host's receive pipeline, and full consumption of the original event.
pub struct WhisperRecv {
    pub message: Message,
    pub echo: Option<Echo>,
    pub command: String,
    pub eat: EatMode,
}

/// Handle a received WHISPER: rewrite it into a synthetic PRIVMSG addressed
/// to the sender, echo it locally unless the sender's tab is current, and
/// hand back the `RECV` command that re-injects it.
pub fn whisper_recv(msg: Message, current_channel: &str) -> (r: WhisperRecv)
    ensures
        r.message@ == spec_whisper_rewrite(msg@),
        opt_echo_view(r.echo) == spec_whisper_echo(msg@, current_channel@),
        r.command@ == "RECV "@ + spec_serialize(spec_whisper_rewrite(msg@)),
        r.eat == EatMode::All,
{
    let ghost m0 = msg@;
    let mut msg = msg;
    let user = String::from_str(msg.author());
    msg.command = String::from_str("PRIVMSG");
    if msg.args.len() > 0 {
        msg.args.set(0, user.clone());
    } else {
        msg.args.push(user.clone());
    }
    proof {
        assert(crate::irc::strs_view(msg.args@) =~= spec_whisper_rewrite(m0).args);
    }
    let event: EventType;
    let text: String;
    proof {
        reveal_strlit("/me ");
    }
    if crate::strutil::str_starts_with(msg.trail.as_str(), "/me ") {
        event = EventType::PrivateAction;
        let tlen = msg.trail.as_str().unicode_len();
        text = String::from_str(msg.trail.as_str().substring_char(4, tlen));
        let mut nt = String::from_str("ACTION ");
        nt.append(text.as_str());
        msg.trail = nt;
    } else {
        event = EventType::PrivateMessage;
        text = msg.trail.clone();
    }
    proof {
        assert(msg@ =~~= spec_whisper_rewrite(m0));
    }
    let echo: Option<Echo> = if !str_eq(current_channel, user.as_str()) {
        let mut args: Vec<String> = Vec::new();
        args.push(user.clone());
        args.push(text);
        let e = Some(Echo { event, args, tab_color: 2 });
        proof {
            assert(opt_echo_view(e).unwrap().args =~~= spec_whisper_echo(
                m0,
                current_channel@,
            ).unwrap().args);
            assert(opt_echo_view(e).unwrap() =~~= spec_whisper_echo(
                m0,
                current_channel@,
            ).unwrap());
        }
        e
    } else {
        None
    };
    let mut command = String::from_str("RECV ");
    command.append(msg.serialize().as_str());
    WhisperRecv { message: msg, echo, command, eat: EatMode::All }
}

/// Mathematical model of the outcome of sending-side whisper handling.
#[verifier::ext_equal]
pub ghost enum WhisperSendV {
    /// An already-sent whisper to print into the partner's dialog tab.
    Dm { user: Seq<char>, echo: Option<EchoV>, dm_event: EventType, args: Seq<Seq<char>> },
    /// A whisper still to send: run this command.
    Say { command: Seq<char> },
    /// Malformed: too few words to name a partner.
    Nothing,
}

/// The outcome of sending-side whisper handling.
pub enum WhisperSend {
    /// An already-sent whisper: print `args` into `user`'s dialog tab with
    /// `dm_event`, after the optional local echo.
    Dm { user: String, echo: Option<Echo>, dm_event: EventType, args: Vec<String> },
    /// A whisper still to send: run this command.
    Say { command: String },
    /// Malformed: too few words to name a partner.
    Nothing,
}

impl View for WhisperSend {
    type V = WhisperSendV;

    open spec fn view(&self) -> WhisperSendV {
        match self {
            WhisperSend::Dm { user, echo, dm_event, args } => WhisperSendV::Dm {
                user: user@,
                echo: match echo {
                    Some(e) => Some(e@),
                    None => None,
                },
                dm_event: *dm_event,
                args: crate::irc::strs_view(args@),
            },
            WhisperSend::Say { command } => WhisperSendV::Say { command: command@ },
            WhisperSend::Nothing => WhisperSendV::Nothing,
        }
    }
}

/// What sending-side whisper handling decides.  A message that begins with
/// `.w` has already been sent: split off the partner and the text, echo
/// unless the partner's tab is current, and print into the partner's dialog
/// tab.  Any other message still needs sending: wrap it in a `SAY .w`
/// command.
pub open spec fn spec_whisper_send(
    etype: EventType,
    channel: Seq<char>,
    w0: Seq<char>,
    w1: Seq<char>,
    w2: Seq<char>,
) -> WhisperSendV {
    if starts_with(w1, ".w "@) {
        let t = crate::strutil::trim_sp(w1);
        let i1 = crate::strutil::find_c(t, ' ');
        if i1 == t.len() {
            WhisperSendV::Nothing
        } else {
            let rest = t.skip(i1 + 1);
            let i2 = crate::strutil::find_c(rest, ' ');
            if i2 == rest.len() {
                WhisperSendV::Nothing
            } else {
                let user = rest.take(i2);
                let text2 = rest.skip(i2 + 1);
                let strip = etype == EventType::YourMessage && starts_with(text2, "/me "@);
                WhisperSendV::Dm {
                    user,
                    echo: if user != channel {
                        Some(
                            EchoV {
                                event: EventType::MessageSend,
                                args: seq![user, text2],
                                tab_color: 2,
                            },
                        )
                    } else {
                        None
                    },
                    dm_event: if etype == EventType::YourAction || strip {
                        EventType::PrivateActionToDialog
                    } else {
                        EventType::PrivateMessageToDialog
                    },
                    args: seq![w0, if strip { text2.skip(4) } else { text2 }, w2],
                }
            }
        }
    } else {
        WhisperSendV::Say {
            command: "SAY .w "@ + channel + (if etype == EventType::YourAction {
                " /me "@
            } else {
                " "@
            }) + w1,
        }
    }
}

/// Handle our side of a whisper, from the three words of the host's print
/// event.
pub fn whisper_send(etype: EventType, channel: &str, word: &Vec<String>) -> (r: WhisperSend)
    requires
        word@.len() >= 3,
    ensures
        r@ == spec_whisper_send(etype, channel@, word@[0]@, word@[1]@, word@[2]@),
{
    let ghost sv = spec_whisper_send(etype, channel@, word@[0]@, word@[1]@, word@[2]@);
    let text = word[1].as_str();
    if crate::strutil::str_starts_with(text, ".w ") {
        let t = crate::strutil::trim_spaces(text);
        let tlen = t.unicode_len();
        let i1 = crate::strutil::find_char(t, ' ');
        if i1 == tlen {
            WhisperSend::Nothing
        } else {
            let rest = t.substring_char(i1 + 1, tlen);
            let rlen = rest.unicode_len();
            let i2 = crate::strutil::find_char(rest, ' ');
            if i2 == rlen {
                WhisperSend::Nothing
            } else {
                let user = String::from_str(rest.substring_char(0, i2));
                let text2 = String::from_str(rest.substring_char(i2 + 1, rlen));
                proof {
                    reveal_strlit("/me ");
                }
                let strip = etype == EventType::YourMessage && crate::strutil::str_starts_with(
                    text2.as_str(),
                    "/me ",
                );
                let echo: Option<Echo> = if !str_eq(user.as_str(), channel) {
                    let mut eargs: Vec<String> = Vec::new();
                    eargs.push(user.clone());
                    eargs.push(text2.clone());
                    Some(Echo { event: EventType::MessageSend, args: eargs, tab_color: 2 })
                } else {
                    None
                };
                let dm_event = if etype == EventType::YourAction || strip {
                    EventType::PrivateActionToDialog
                } else {
                    EventType::PrivateMessageToDialog
                };
                let text3 = if strip {
                    let t2len = text2.as_str().unicode_len();
                    String::from_str(text2.as_str().substring_char(4, t2len))
                } else {
                    text2.clone()
                };
                let mut args: Vec<String> = Vec::new();
                args.push(word[0].clone());
                args.push(text3);
                args.push(word[2].clone());
                let r = WhisperSend::Dm { user, echo, dm_event, args };
                proof {
                    assert(r@ =~~= sv);
                }
                r
            }
        }
    } else {
        let mut command = String::from_str("SAY .w ");
        command.append(channel);
        if etype == EventType::YourAction {
            command.append(" /me ");
        } else {
            command.append(" ");
        }
        command.append(text);
        let r = WhisperSend::Say { command };
        proof {
            assert(r@ =~~= sv);
        }
        r
    }
}

} // verus!


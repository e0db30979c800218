use kiss_xmpp::addr::{Addr, Context};
use kiss_xmpp::classify::{classify, render_lines, unwrap_carbon, Outcome};
use kiss_xmpp::stanza::Elem;

fn el(name: &str, ns: &str, attrs: &[(&str, &str)], text: &str, children: Vec<Elem>) -> Elem {
    Elem {
        name: name.to_string(),
        ns: ns.to_string(),
        attrs: attrs.iter().map(|(k, v)| (k.to_string(), v.to_string())).collect(),
        text: text.to_string(),
        children,
    }
}

fn body(text: &str) -> Elem {
    el("body", "jabber:client", &[], text, vec![])
}

fn msg(from: &str, text: &str) -> Elem {
    el("message", "jabber:client", &[("from", from)], "", vec![body(text)])
}

fn carbon_wrap(tag: &str, me: &str, inner: Elem) -> Elem {
    el(
        "message",
        "jabber:client",
        &[("from", me)],
        "",
        vec![el(
            tag,
            "urn:xmpp:carbons:2",
            &[],
            "",
            vec![el("forwarded", "urn:xmpp:forward:0", &[], "", vec![inner])],
        )],
    )
}

fn ctx_1to1() -> Context {
    Context::new("me@a.com".to_string(), Addr::parse("you@b.com"))
}

fn ctx_muc() -> Context {
    Context::new("me@a.com".to_string(), Addr::parse("room@conf.example/nick"))
}

#[test]
fn direct_message_is_displayed() {
    let cx = ctx_1to1();
    let e = msg("you@b.com", "hello");
    match classify(&e, &cx) {
        Outcome::Display { sender, lines, is_private } => {
            assert_eq!(sender, "you@b.com");
            assert_eq!(lines, vec!["hello".to_string()]);
            assert!(!is_private);
        }
        _ => panic!("expected a displayed message"),
    }
}

#[test]
fn unknown_sender_is_suppressed() {
    let cx = ctx_1to1();
    let e = msg("evil@spoof.example", "gotcha");
    match classify(&e, &cx) {
        Outcome::Suppressed => {}
        _ => panic!("expected suppression"),
    }
    let o = classify(&e, &cx);
    assert_eq!(render_lines(&o).len(), 0);
}

#[test]
fn unknown_full_sender_is_suppressed_in_muc() {
    let cx = ctx_muc();
    let e = msg("other@conf.example/mallory", "hi there");
    match classify(&e, &cx) {
        Outcome::Suppressed => {}
        _ => panic!("expected suppression"),
    }
}

#[test]
fn multiline_body_splits_and_trims() {
    let cx = ctx_1to1();
    let e = msg("you@b.com", "a\r\nb");
    let o = classify(&e, &cx);
    match &o {
        Outcome::Display { lines, .. } => {
            assert_eq!(lines, &vec!["a".to_string(), "".to_string(), "b".to_string()]);
        }
        _ => panic!("expected a displayed message"),
    }
    let printed = render_lines(&o);
    assert_eq!(
        printed,
        vec![
            "<you@b.com> a".to_string(),
            "<you@b.com> ".to_string(),
            "<you@b.com> b".to_string()
        ]
    );
}

#[test]
fn body_segments_are_trimmed() {
    let cx = ctx_1to1();
    let e = msg("you@b.com", "  padded  \n\t tabbed \t");
    match classify(&e, &cx) {
        Outcome::Display { lines, .. } => {
            assert_eq!(lines, vec!["padded".to_string(), "tabbed".to_string()]);
        }
        _ => panic!("expected a displayed message"),
    }
}

#[test]
fn muc_sender_shows_as_nickname() {
    let cx = ctx_muc();
    let e = msg("room@conf.example/alice", "hey");
    let o = classify(&e, &cx);
    match &o {
        Outcome::Display { sender, lines, is_private } => {
            assert_eq!(sender, "alice");
            assert_eq!(lines, &vec!["hey".to_string()]);
            assert!(!is_private);
        }
        _ => panic!("expected a displayed message"),
    }
    assert_eq!(render_lines(&o), vec!["<alice> hey".to_string()]);
}

#[test]
fn muc_private_message_is_marked() {
    let cx = ctx_muc();
    let mut e = msg("room@conf.example/alice", "psst");
    e.children.push(el("x", "http://jabber.org/protocol/muc#user", &[], "", vec![]));
    let o = classify(&e, &cx);
    match &o {
        Outcome::Display { is_private, .. } => assert!(is_private),
        _ => panic!("expected a displayed message"),
    }
    assert_eq!(render_lines(&o), vec!["(PM)<alice> psst".to_string()]);
}

#[test]
fn carbon_round_trip_matches_direct_message() {
    let cx = ctx_1to1();
    let direct = msg("you@b.com", "hello");
    let wrapped = carbon_wrap("received", "me@a.com", msg("you@b.com", "hello"));
    let direct_out = render_lines(&classify(&direct, &cx));
    let wrapped_out = render_lines(&classify(&wrapped, &cx));
    assert_eq!(direct_out, vec!["<you@b.com> hello".to_string()]);
    assert_eq!(wrapped_out, direct_out);
}

#[test]
fn sent_carbon_is_unwrapped_too() {
    let cx = ctx_1to1();
    let wrapped = carbon_wrap("sent", "me@a.com", msg("me@a.com", "from elsewhere"));
    assert_eq!(
        render_lines(&classify(&wrapped, &cx)),
        vec!["<me@a.com> from elsewhere".to_string()]
    );
}

#[test]
fn carbon_missing_forwarded_is_dropped() {
    let cx = ctx_1to1();
    let e = el(
        "message",
        "jabber:client",
        &[("from", "me@a.com")],
        "",
        vec![el("received", "urn:xmpp:carbons:2", &[], "", vec![])],
    );
    assert!(unwrap_carbon(&e).is_none());
    match classify(&e, &cx) {
        Outcome::Ignored => {}
        _ => panic!("expected the stanza to be ignored"),
    }
    assert_eq!(render_lines(&classify(&e, &cx)).len(), 0);
}

#[test]
fn carbon_missing_inner_message_is_dropped() {
    let cx = ctx_1to1();
    let e = el(
        "message",
        "jabber:client",
        &[("from", "me@a.com")],
        "",
        vec![el(
            "received",
            "urn:xmpp:carbons:2",
            &[],
            "",
            vec![el("forwarded", "urn:xmpp:forward:0", &[], "", vec![])],
        )],
    );
    assert!(unwrap_carbon(&e).is_none());
    match classify(&e, &cx) {
        Outcome::Ignored => {}
        _ => panic!("expected the stanza to be ignored"),
    }
}

#[test]
fn carbon_from_stranger_is_not_unwrapped() {
    let cx = ctx_1to1();
    let wrapped = carbon_wrap("received", "evil@spoof.example", msg("you@b.com", "hello"));
    match classify(&wrapped, &cx) {
        Outcome::Ignored => {}
        _ => panic!("expected the stanza to be ignored"),
    }
}

#[test]
fn body_takes_precedence_over_carbon_framing() {
    let cx = ctx_1to1();
    let mut e = carbon_wrap("received", "me@a.com", msg("you@b.com", "inner"));
    e.children.push(body("outer"));
    match classify(&e, &cx) {
        Outcome::Display { sender, lines, .. } => {
            assert_eq!(sender, "me@a.com");
            assert_eq!(lines, vec!["outer".to_string()]);
        }
        _ => panic!("expected the outer body to be displayed"),
    }
}

#[test]
fn deeply_nested_carbons_hit_the_depth_cap() {
    let cx = ctx_1to1();
    let mut e = msg("you@b.com", "deep");
    for _ in 0..9 {
        e = carbon_wrap("received", "me@a.com", e);
    }
    match classify(&e, &cx) {
        Outcome::Ignored => {}
        _ => panic!("expected the depth cap to drop the stanza"),
    }
    let mut shallow = msg("you@b.com", "deep");
    for _ in 0..8 {
        shallow = carbon_wrap("received", "me@a.com", shallow);
    }
    assert_eq!(render_lines(&classify(&shallow, &cx)), vec!["<you@b.com> deep".to_string()]);
}

#[test]
fn non_message_stanza_is_ignored() {
    let cx = ctx_1to1();
    let e = el("presence", "jabber:client", &[("from", "you@b.com")], "", vec![]);
    match classify(&e, &cx) {
        Outcome::Ignored => {}
        _ => panic!("expected the stanza to be ignored"),
    }
}

#[test]
fn message_without_from_is_ignored() {
    let cx = ctx_1to1();
    let e = el("message", "jabber:client", &[], "", vec![body("anonymous")]);
    match classify(&e, &cx) {
        Outcome::Ignored => {}
        _ => panic!("expected the stanza to be ignored"),
    }
}

#[test]
fn language_tagged_body_is_not_the_default_slot() {
    let cx = ctx_1to1();
    let tagged = el("body", "jabber:client", &[("xml:lang", "de")], "hallo", vec![]);
    let e = el("message", "jabber:client", &[("from", "you@b.com")], "", vec![tagged]);
    match classify(&e, &cx) {
        Outcome::Ignored => {}
        _ => panic!("expected the stanza to be ignored"),
    }
}

#[test]
fn own_bare_message_echoes_with_bare_sender() {
    let cx = ctx_1to1();
    let e = msg("me@a.com/phone", "from my phone");
    match classify(&e, &cx) {
        Outcome::Display { sender, lines, .. } => {
            assert_eq!(sender, "me@a.com");
            assert_eq!(lines, vec!["from my phone".to_string()]);
        }
        _ => panic!("expected a displayed message"),
    }
}

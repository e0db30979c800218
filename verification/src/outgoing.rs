//! The outgoing stanza builders: pure constructors for the room join,
//! the online presence, the carbons-enable request, and the chat
//! message.

use vstd::prelude::*;

verus! {

use crate::stanza::{Elem, spec_is, spec_leaf};
use vstd::string::StringExecFns;

/// A room-join presence: addressed to the full target address and
/// carrying a MUC-join payload.
pub open spec fn spec_is_join(e: Elem, to: Seq<char>) -> bool {
    &&& spec_is(e, "presence"@, "jabber:client"@)
    &&& e.attrs@.len() == 1
    &&& e.attrs@[0].0@ == "to"@
    &&& e.attrs@[0].1@ == to
    &&& e.text@.len() == 0
    &&& e.children@.len() == 1
    &&& spec_leaf(
        e.children@[0],
        "x"@,
        "http://jabber.org/protocol/muc"@,
        Seq::<char>::empty(),
    )
}

/// An online presence for one-to-one chat: no addressee, show-state
/// `chat`.
pub open spec fn spec_is_online_presence(e: Elem) -> bool {
    &&& spec_is(e, "presence"@, "jabber:client"@)
    &&& e.attrs@.len() == 0
    &&& e.text@.len() == 0
    &&& e.children@.len() == 1
    &&& spec_leaf(e.children@[0], "show"@, "jabber:client"@, "chat"@)
}

/// The fixed carbons-enable request: an `iq` of type `set` invoking the
/// carbons extension.
pub open spec fn spec_is_carbons_enable(e: Elem) -> bool {
    &&& spec_is(e, "iq"@, "jabber:client"@)
    &&& e.attrs@.len() == 2
    &&& e.attrs@[0].0@ == "id"@
    &&& e.attrs@[0].1@ == "enable1"@
    &&& e.attrs@[1].0@ == "type"@
    &&& e.attrs@[1].1@ == "set"@
    &&& e.text@.len() == 0
    &&& e.children@.len() == 1
    &&& spec_leaf(e.children@[0], "enable"@, "urn:xmpp:carbons:2"@, Seq::<char>::empty())
}

/// A chat message: addressed to `to`, typed `groupchat` in a room and
/// `chat` otherwise, with the body text in the default-language slot.
pub open spec fn spec_is_chat_message(e: Elem, to: Seq<char>, is_muc: bool, body: Seq<char>) -> bool {
    &&& spec_is(e, "message"@, "jabber:client"@)
    &&& e.attrs@.len() == 2
    &&& e.attrs@[0].0@ == "to"@
    &&& e.attrs@[0].1@ == to
    &&& e.attrs@[1].0@ == "type"@
    &&& e.attrs@[1].1@ == (if is_muc {
        "groupchat"@
    } else {
        "chat"@
    })
    &&& e.text@.len() == 0
    &&& e.children@.len() == 1
    &&& spec_leaf(e.children@[0], "body"@, "jabber:client"@, body)
}

fn leaf(name: &str, ns: &str, text: String) -> (e: Elem)
    ensures
        spec_leaf(e, name@, ns@, text@),
{
    Elem {
        name: String::from_str(name),
        ns: String::from_str(ns),
        attrs: Vec::new(),
        text,
        children: Vec::new(),
    }
}

/// Build the room-join presence for the given full target address.
pub fn make_join(to: String) -> (e: Elem)
    ensures
        spec_is_join(e, to@),
{
    let mut attrs: Vec<(String, String)> = Vec::new();
    attrs.push((String::from_str("to"), to));
    let mut children: Vec<Elem> = Vec::new();
    children.push(leaf("x", "http://jabber.org/protocol/muc", String::new()));
    Elem {
        name: String::from_str("presence"),
        ns: String::from_str("jabber:client"),
        attrs,
        text: String::new(),
        children,
    }
}

/// Build the online presence announced in one-to-one mode.
pub fn make_presence() -> (e: Elem)
    ensures
        spec_is_online_presence(e),
{
    let mut children: Vec<Elem> = Vec::new();
    children.push(leaf("show", "jabber:client", String::from_str("chat")));
    Elem {
        name: String::from_str("presence"),
        ns: String::from_str("jabber:client"),
        attrs: Vec::new(),
        text: String::new(),
        children,
    }
}

/// Build the fixed carbons-enable request sent in one-to-one mode.
pub fn make_carbons_enable() -> (e: Elem)
    ensures
        spec_is_carbons_enable(e),
{
    let mut attrs: Vec<(String, String)> = Vec::new();
    attrs.push((String::from_str("id"), String::from_str("enable1")));
    attrs.push((String::from_str("type"), String::from_str("set")));
    let mut children: Vec<Elem> = Vec::new();
    children.push(leaf("enable", "urn:xmpp:carbons:2", String::new()));
    Elem {
        name: String::from_str("iq"),
        ns: String::from_str("jabber:client"),
        attrs,
        text: String::new(),
        children,
    }
}

/// Build a chat message to `to` carrying `body`.
pub fn make_message(to: String, is_muc: bool, body: String) -> (e: Elem)
    ensures
        spec_is_chat_message(e, to@, is_muc, body@),
{
    let mut attrs: Vec<(String, String)> = Vec::new();
    attrs.push((String::from_str("to"), to));
    if is_muc {
        attrs.push((String::from_str("type"), String::from_str("groupchat")));
    } else {
        attrs.push((String::from_str("type"), String::from_str("chat")));
    }
    let mut children: Vec<Elem> = Vec::new();
    children.push(leaf("body", "jabber:client", body));
    Elem {
        name: String::from_str("message"),
        ns: String::from_str("jabber:client"),
        attrs,
        text: String::new(),
        children,
    }
}

} // verus!

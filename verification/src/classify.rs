//! The stanza classifier and the carbon unwrapper: turning one inbound
//! stanza element into a routing decision, and unwrapping a
//! carbon-copied message envelope into the inner message it forwards.

use vstd::prelude::*;

verus! {

use crate::addr::{Addr, Context, spec_bare, spec_has_resource, spec_resource};
use crate::stanza::{Elem, spec_attr, spec_child, spec_child_any_ns, spec_is};
use crate::text::{
    spec_body_lines, spec_line_prefix, spec_split_lines, spec_trim, split_body_lines, format_line,
    str_eq,
};

/// The classification outcome, at the specification level.
pub enum OutcomeV {
    /// Display the message: one output line per body segment, all under
    /// the same sender tag, with a private-message marker when flagged.
    Display { sender: Seq<char>, lines: Seq<Seq<char>>, is_private: bool },
    /// The sender matched neither the target nor the account itself: the
    /// message is not shown.
    Suppressed,
    /// Not a displayable message and not an unwrappable carbon.
    Ignored,
}

/// The classification outcome of one inbound stanza.
pub enum Outcome {
    /// Display the message under the given sender tag.
    Display { sender: String, lines: Vec<String>, is_private: bool },
    /// The sender matched neither the target nor the account itself.
    Suppressed,
    /// Nothing to do.
    Ignored,
}

impl View for Outcome {
    type V = OutcomeV;

    open spec fn view(&self) -> OutcomeV {
        match self {
            Outcome::Display { sender, lines, is_private } => OutcomeV::Display {
                sender: sender@,
                lines: lines.deep_view(),
                is_private: *is_private,
            },
            Outcome::Suppressed => OutcomeV::Suppressed,
            Outcome::Ignored => OutcomeV::Ignored,
        }
    }
}

/// A message stanza in the client namespace.
pub open spec fn spec_is_message(e: Elem) -> bool {
    spec_is(e, "message"@, "jabber:client"@)
}

/// Whether a body child sits in the default-language body slot.
pub open spec fn spec_is_default_body(c: Elem) -> bool {
    spec_is(c, "body"@, "jabber:client"@) && spec_attr(c.attrs@, "xml:lang"@) is None
}

/// The first body child in the default-language slot, if any.
pub open spec fn spec_default_body(cs: Seq<Elem>) -> Option<Elem>
    decreases cs.len(),
{
    if cs.len() == 0 {
        None
    } else if spec_is_default_body(cs[0]) {
        Some(cs[0])
    } else {
        spec_default_body(cs.drop_first())
    }
}

/// A `sent` or `received` envelope in the carbons namespace.
pub open spec fn spec_is_carbon_tag(e: Elem) -> bool {
    (e.name@ == "sent"@ || e.name@ == "received"@) && e.ns@ == "urn:xmpp:carbons:2"@
}

/// The first carbon envelope among the children, if any.
pub open spec fn spec_carbon_payload(cs: Seq<Elem>) -> Option<Elem>
    decreases cs.len(),
{
    if cs.len() == 0 {
        None
    } else if spec_is_carbon_tag(cs[0]) {
        Some(cs[0])
    } else {
        spec_carbon_payload(cs.drop_first())
    }
}

/// Unwrap a carbon envelope: the carbon payload's `forwarded` child in
/// the forwarding namespace, and inside it the inner `message` element
/// in any namespace.
pub open spec fn spec_unwrap_carbon(e: Elem) -> Option<Elem> {
    match spec_carbon_payload(e.children@) {
        None => None,
        Some(c) => match spec_child(c.children@, "forwarded"@, "urn:xmpp:forward:0"@) {
            None => None,
            Some(f) => spec_child_any_ns(f.children@, "message"@),
        },
    }
}

/// Whether the stanza carries a payload in the MUC-user namespace,
/// marking it a private message inside a room.
pub open spec fn spec_is_private(cs: Seq<Elem>) -> bool {
    exists|i: int|
        0 <= i < cs.len() && spec_is(cs[i], "x"@, "http://jabber.org/protocol/muc#user"@)
}

/// The displayed sender tag: in a group chat a full sender shows as its
/// nickname (the resource); otherwise the bare sender address.
pub open spec fn spec_sender_name(from: Seq<char>, is_muc: bool) -> Seq<char> {
    if is_muc && spec_has_resource(from) {
        spec_resource(from)
    } else {
        spec_bare(from)
    }
}

/// Classify one inbound stanza, following up to `fuel` nested carbon
/// envelopes. A message with a body in the default slot is displayed when
/// its sender's bare address matches the target or the account itself,
/// and suppressed otherwise; a body-less message from the account's own
/// bare address is unwrapped as a carbon and reclassified; everything
/// else is ignored.
pub open spec fn spec_classify(e: Elem, cx: Context, fuel: nat) -> OutcomeV
    decreases fuel,
{
    if !spec_is_message(e) {
        OutcomeV::Ignored
    } else {
        match spec_attr(e.attrs@, "from"@) {
            None => OutcomeV::Ignored,
            Some(from) => match spec_default_body(e.children@) {
                Some(b) => if spec_bare(from) == cx.bare_contact@ || spec_bare(from)
                    == cx.bare_me@ {
                    OutcomeV::Display {
                        sender: spec_sender_name(from, cx.is_muc),
                        lines: spec_body_lines(b.text@),
                        is_private: spec_is_private(e.children@),
                    }
                } else {
                    OutcomeV::Suppressed
                },
                None => if from == cx.bare_me@ {
                    match spec_unwrap_carbon(e) {
                        Some(inner) => if fuel == 0 {
                            OutcomeV::Ignored
                        } else {
                            spec_classify(inner, cx, (fuel - 1) as nat)
                        },
                        None => OutcomeV::Ignored,
                    }
                } else {
                    OutcomeV::Ignored
                },
            },
        }
    }
}

/// How many carbon envelopes one inbound stanza is followed through: a
/// defensive cap against malformed or malicious servers.
pub open spec fn carbon_depth_cap() -> nat {
    8
}

fn find_default_body<'a>(e: &'a Elem) -> (r: Option<&'a Elem>)
    ensures
        match r {
            Some(b) => spec_default_body(e.children@) == Some(*b),
            None => spec_default_body(e.children@) is None,
        },
{
    let n = e.children.len();
    let mut i: usize = 0;
    proof {
        assert(e.children@.skip(0) =~= e.children@);
    }
    while i < n
        invariant
            n == e.children@.len(),
            i <= n,
            spec_default_body(e.children@) == spec_default_body(e.children@.skip(i as int)),
        decreases n - i,
    {
        proof {
            assert(e.children@.skip(i as int)[0] == e.children@[i as int]);
            assert(e.children@.skip(i as int).drop_first() =~= e.children@.skip(i + 1));
        }
        let c = &e.children[i];
        if c.is_tag("body", "jabber:client") && c.attr("xml:lang").is_none() {
            return Some(c);
        }
        i += 1;
    }
    proof {
        assert(e.children@.skip(n as int) =~= Seq::<Elem>::empty());
    }
    None
}

fn find_carbon_payload<'a>(e: &'a Elem) -> (r: Option<&'a Elem>)
    ensures
        match r {
            Some(c) => spec_carbon_payload(e.children@) == Some(*c),
            None => spec_carbon_payload(e.children@) is None,
        },
{
    let n = e.children.len();
    let mut i: usize = 0;
    proof {
        assert(e.children@.skip(0) =~= e.children@);
    }
    while i < n
        invariant
            n == e.children@.len(),
            i <= n,
            spec_carbon_payload(e.children@) == spec_carbon_payload(e.children@.skip(i as int)),
        decreases n - i,
    {
        proof {
            assert(e.children@.skip(i as int)[0] == e.children@[i as int]);
            assert(e.children@.skip(i as int).drop_first() =~= e.children@.skip(i + 1));
        }
        let c = &e.children[i];
        if (str_eq(c.name.as_str(), "sent") || str_eq(c.name.as_str(), "received")) && str_eq(
            c.ns.as_str(),
            "urn:xmpp:carbons:2",
        ) {
            return Some(c);
        }
        i += 1;
    }
    proof {
        assert(e.children@.skip(n as int) =~= Seq::<Elem>::empty());
    }
    None
}

fn has_muc_user_payload(e: &Elem) -> (r: bool)
    ensures
        r == spec_is_private(e.children@),
{
    let n = e.children.len();
    let mut i: usize = 0;
    while i < n
        invariant
            n == e.children@.len(),
            i <= n,
            forall|j: int|
                0 <= j < i ==> !spec_is(
                    e.children@[j],
                    "x"@,
                    "http://jabber.org/protocol/muc#user"@,
                ),
        decreases n - i,
    {
        if e.children[i].is_tag("x", "http://jabber.org/protocol/muc#user") {
            return true;
        }
        i += 1;
    }
    false
}

/// Unwrap a carbon envelope into the inner message it forwards, if all
/// three lookups succeed.
pub fn unwrap_carbon<'a>(e: &'a Elem) -> (r: Option<&'a Elem>)
    ensures
        match r {
            Some(inner) => spec_unwrap_carbon(*e) == Some(*inner),
            None => spec_unwrap_carbon(*e) is None,
        },
{
    match find_carbon_payload(e) {
        None => None,
        Some(c) => match c.child("forwarded", "urn:xmpp:forward:0") {
            None => None,
            Some(f) => f.child_any_ns("message"),
        },
    }
}

enum Step<'a> {
    Done(Outcome),
    Recurse(&'a Elem),
}

fn classify_step<'a>(e: &'a Elem, cx: &Context) -> (s: Step<'a>)
    ensures
        match s {
            Step::Done(o) => forall|fuel: nat| spec_classify(*e, *cx, fuel) == o@,
            Step::Recurse(inner) => {
                &&& spec_classify(*e, *cx, 0) == OutcomeV::Ignored
                &&& forall|fuel: nat|
                    fuel > 0 ==> spec_classify(*e, *cx, fuel) == spec_classify(
                        *inner,
                        *cx,
                        (fuel - 1) as nat,
                    )
            },
        },
{
    if !e.is_tag("message", "jabber:client") {
        return Step::Done(Outcome::Ignored);
    }
    let from = match e.attr("from") {
        Some(from) => from,
        None => {
            return Step::Done(Outcome::Ignored);
        },
    };
    match find_default_body(e) {
        Some(b) => {
            let sender_addr = Addr::parse(from.as_str());
            if str_eq(sender_addr.bare.as_str(), cx.bare_contact.as_str()) || str_eq(
                sender_addr.bare.as_str(),
                cx.bare_me.as_str(),
            ) {
                let sender: String = if cx.is_muc {
                    match sender_addr.resource {
                        Some(res) => res,
                        None => sender_addr.bare,
                    }
                } else {
                    sender_addr.bare
                };
                let lines = split_body_lines(b.text.as_str());
                let is_private = has_muc_user_payload(e);
                Step::Done(Outcome::Display { sender, lines, is_private })
            } else {
                Step::Done(Outcome::Suppressed)
            }
        },
        None => {
            if str_eq(from.as_str(), cx.bare_me.as_str()) {
                match unwrap_carbon(e) {
                    Some(inner) => Step::Recurse(inner),
                    None => Step::Done(Outcome::Ignored),
                }
            } else {
                Step::Done(Outcome::Ignored)
            }
        },
    }
}

/// Classify one inbound stanza against the session context, following
/// carbon envelopes up to the depth cap.
pub fn classify(e: &Elem, cx: &Context) -> (o: Outcome)
    ensures
        o@ == spec_classify(*e, *cx, carbon_depth_cap()),
{
    let mut cur: &Elem = e;
    let mut fuel: usize = 8;
    loop
        invariant
            fuel <= 8,
            spec_classify(*e, *cx, carbon_depth_cap()) == spec_classify(*cur, *cx, fuel as nat),
        decreases fuel,
    {
        match classify_step(cur, cx) {
            Step::Done(o) => {
                return o;
            },
            Step::Recurse(inner) => {
                if fuel == 0 {
                    return Outcome::Ignored;
                }
                cur = inner;
                fuel = fuel - 1;
            },
        }
    }
}

/// The output lines one classification outcome produces: nothing for a
/// suppressed or ignored stanza, and for a displayed message each body
/// line under the identical sender prefix.
pub open spec fn spec_render(o: OutcomeV) -> Seq<Seq<char>> {
    match o {
        OutcomeV::Display { sender, lines, is_private } => lines.map_values(
            |l: Seq<char>| spec_line_prefix(is_private, sender) + l,
        ),
        OutcomeV::Suppressed => Seq::empty(),
        OutcomeV::Ignored => Seq::empty(),
    }
}

/// Render a classification outcome into the lines to print.
pub fn render_lines(o: &Outcome) -> (v: Vec<String>)
    ensures
        v.deep_view() == spec_render(o@),
{
    match o {
        Outcome::Display { sender, lines, is_private } => {
            let n = lines.len();
            let mut v: Vec<String> = Vec::new();
            let mut i: usize = 0;
            while i < n
                invariant
                    n == lines@.len(),
                    i <= n,
                    v.deep_view().len() == i,
                    forall|j: int|
                        0 <= j < i ==> v.deep_view()[j] == spec_line_prefix(*is_private, sender@)
                            + lines.deep_view()[j],
                decreases n - i,
            {
                let fl = format_line(*is_private, sender.as_str(), lines[i].as_str());
                let ghost prev = v.deep_view();
                v.push(fl);
                proof {
                    assert(v.deep_view() =~= prev.push(fl@));
                }
                i += 1;
            }
            proof {
                assert(v.deep_view() =~= spec_render(o@));
            }
            v
        },
        Outcome::Suppressed => Vec::new(),
        Outcome::Ignored => Vec::new(),
    }
}

proof fn lemma_bare_of_slash_free(s: Seq<char>)
    requires
        forall|j: int| 0 <= j < s.len() ==> s[j] != '/',
    ensures
        spec_bare(s) =~= s,
        !spec_has_resource(s),
{
    crate::text::lemma_first_idx(s, '/');
    assert(s.subrange(0, s.len() as int) =~= s);
}

/// An incoming message stanza whose sender's bare address is neither the
/// target's bare address nor the account's own produces no output lines,
/// whether or not it carries a body.
pub proof fn lemma_unknown_sender_no_output(e: Elem, cx: Context, from: Seq<char>, fuel: nat)
    requires
        spec_is_message(e),
        spec_attr(e.attrs@, "from"@) == Some(from),
        spec_bare(from) != cx.bare_contact@,
        spec_bare(from) != cx.bare_me@,
        forall|j: int| 0 <= j < cx.bare_me@.len() ==> cx.bare_me@[j] != '/',
    ensures
        spec_render(spec_classify(e, cx, fuel)) =~= Seq::<Seq<char>>::empty(),
{
    match spec_default_body(e.children@) {
        Some(b) => {
            assert(spec_classify(e, cx, fuel) == OutcomeV::Suppressed);
        },
        None => {
            if from == cx.bare_me@ {
                lemma_bare_of_slash_free(cx.bare_me@);
                assert(spec_bare(from) == cx.bare_me@);
            }
            assert(spec_classify(e, cx, fuel) == OutcomeV::Ignored);
        },
    }
}

/// A displayed message produces one output line per segment of its body
/// split on newline and carriage-return characters, each segment trimmed,
/// each line carrying the identical sender prefix.
pub proof fn lemma_display_line_discipline(e: Elem, cx: Context, from: Seq<char>, b: Elem, fuel: nat)
    requires
        spec_is_message(e),
        spec_attr(e.attrs@, "from"@) == Some(from),
        spec_default_body(e.children@) == Some(b),
        spec_bare(from) == cx.bare_contact@ || spec_bare(from) == cx.bare_me@,
    ensures
        spec_classify(e, cx, fuel) == (OutcomeV::Display {
            sender: spec_sender_name(from, cx.is_muc),
            lines: spec_body_lines(b.text@),
            is_private: spec_is_private(e.children@),
        }),
        spec_render(spec_classify(e, cx, fuel)).len() == spec_split_lines(b.text@).len(),
        forall|i: int|
            0 <= i < spec_split_lines(b.text@).len() ==> spec_render(spec_classify(e, cx, fuel))[i]
                == spec_line_prefix(spec_is_private(e.children@), spec_sender_name(
                from,
                cx.is_muc,
            )) + spec_trim(spec_split_lines(b.text@)[i]),
{
}

/// Classification does not depend on the carbon depth cap once a body is
/// present: a message with a body is never unwrapped further.
pub proof fn lemma_classify_fuel_irrelevant(e: Elem, cx: Context, f1: nat, f2: nat)
    requires
        spec_default_body(e.children@) is Some,
    ensures
        spec_classify(e, cx, f1) == spec_classify(e, cx, f2),
{
}

/// Carbon round trip: a carbon envelope wrapping an inner message that
/// carries a body classifies exactly as the inner message would had it
/// arrived directly.
pub proof fn lemma_carbon_round_trip(env: Elem, inner: Elem, cx: Context, fuel: nat)
    requires
        fuel > 0,
        spec_is_message(env),
        spec_attr(env.attrs@, "from"@) == Some(cx.bare_me@),
        spec_default_body(env.children@) is None,
        spec_unwrap_carbon(env) == Some(inner),
        spec_default_body(inner.children@) is Some,
    ensures
        spec_classify(env, cx, fuel) == spec_classify(inner, cx, fuel),
{
    assert(spec_classify(env, cx, fuel) == spec_classify(inner, cx, (fuel - 1) as nat));
    lemma_classify_fuel_irrelevant(inner, cx, (fuel - 1) as nat, fuel);
}

/// A carbon candidate whose envelope is missing a piece — no carbon
/// payload, no `forwarded` child, or no inner message — is ignored and
/// produces no output.
pub proof fn lemma_broken_carbon_ignored(e: Elem, cx: Context, fuel: nat)
    requires
        spec_is_message(e),
        spec_default_body(e.children@) is None,
        spec_unwrap_carbon(e) is None,
    ensures
        spec_classify(e, cx, fuel) == OutcomeV::Ignored,
        spec_render(spec_classify(e, cx, fuel)) =~= Seq::<Seq<char>>::empty(),
{
}

} // verus!

//! The session state machine: the decisions of the duplex event loop.
//! Each inbound protocol event and each line of terminal input is turned
//! into the stanzas to transmit, the lines to print, and the next state;
//! performing the transmission and the printing is the caller's side.

use vstd::prelude::*;

verus! {

use crate::addr::{Context, spec_full};
use crate::classify::{
    carbon_depth_cap, classify, render_lines, spec_classify, spec_render,
};
use crate::outgoing::{
    make_carbons_enable, make_join, make_message, make_presence, spec_is_carbons_enable,
    spec_is_chat_message, spec_is_join, spec_is_online_presence,
};
use crate::stanza::Elem;
use crate::text::{format_line, spec_line_prefix, spec_trim, str_eq, trim_str};
use vstd::string::StrSliceExecFns;
use vstd::string::StringExecFns;

/// One inbound protocol event, as the network client reports it.
pub enum Event {
    /// The connection is established (also after a reconnect).
    Established,
    /// The connection is lost; the client's reconnect policy takes over.
    Lost,
    /// A raw stanza element arrived.
    Stanza(Elem),
}

/// The session's lifecycle state.
#[derive(PartialEq, Eq, Structural, Clone, Copy, Debug)]
pub enum State {
    /// Waiting for the first connection-established event.
    Connecting,
    /// Connected; the handshake has been sent.
    Active,
    /// The user asked to quit; the close signal is still owed.
    Closing,
    /// The close signal has been handed over; the session is done.
    Terminated,
}

/// What one inbound event asks the caller to do.
pub struct EventAction {
    /// Stanzas to transmit, in order.
    pub to_send: Vec<Elem>,
    /// Lines to print, in order.
    pub to_print: Vec<String>,
}

/// What one line of terminal input asks the caller to do.
pub enum LineAction {
    /// Leave the loop and transmit the close signal once.
    Quit,
    /// Nothing: the line was empty after trimming.
    Nothing,
    /// Transmit the stanza; in one-to-one mode also print the local echo.
    Send { stanza: Elem, echo: Option<String> },
}

/// One chat session: the immutable addressing context and the lifecycle
/// state.
pub struct Session {
    /// The per-session addressing facts.
    pub context: Context,
    /// Where the session stands in its lifecycle.
    pub state: State,
}

impl Session {
    /// A fresh session starts out waiting for the connection.
    pub fn new(context: Context) -> (s: Session)
        ensures
            s.context == context,
            s.state == State::Connecting,
    {
        Session { context, state: State::Connecting }
    }

    /// Handle one inbound protocol event. A connection-established event
    /// enters the `Active` state and performs the mode-dependent
    /// handshake: in a room, exactly the room join; in one-to-one mode,
    /// exactly the online presence followed by the carbons-enable
    /// request. A received stanza is classified and rendered; a lost
    /// connection asks for nothing.
    pub fn handle_xmpp(&mut self, event: &Event) -> (a: EventAction)
        ensures
            final(self).context == old(self).context,
            match event {
                Event::Established => {
                    &&& final(self).state == State::Active
                    &&& if old(self).context.is_muc {
                        &&& a.to_send@.len() == 1
                        &&& spec_is_join(a.to_send@[0], spec_full(old(self).context.contact))
                        &&& a.to_print.deep_view() =~= seq!["NOTICE: sent room join!"@]
                    } else {
                        &&& a.to_send@.len() == 2
                        &&& spec_is_online_presence(a.to_send@[0])
                        &&& spec_is_carbons_enable(a.to_send@[1])
                        &&& a.to_print.deep_view() =~= seq!["NOTICE: online!"@]
                    }
                },
                Event::Lost => {
                    &&& final(self).state == old(self).state
                    &&& a.to_send@.len() == 0
                    &&& a.to_print@.len() == 0
                },
                Event::Stanza(e) => {
                    &&& final(self).state == old(self).state
                    &&& a.to_send@.len() == 0
                    &&& a.to_print.deep_view() == spec_render(
                        spec_classify(*e, old(self).context, carbon_depth_cap()),
                    )
                },
            },
    {
        match event {
            Event::Established => {
                self.state = State::Active;
                let mut to_send: Vec<Elem> = Vec::new();
                let mut to_print: Vec<String> = Vec::new();
                if self.context.is_muc {
                    to_send.push(make_join(self.context.contact.full()));
                    to_print.push(String::from_str("NOTICE: sent room join!"));
                    proof {
                        assert(to_print.deep_view() =~= seq!["NOTICE: sent room join!"@]);
                    }
                } else {
                    to_send.push(make_presence());
                    to_send.push(make_carbons_enable());
                    to_print.push(String::from_str("NOTICE: online!"));
                    proof {
                        assert(to_print.deep_view() =~= seq!["NOTICE: online!"@]);
                    }
                }
                EventAction { to_send, to_print }
            },
            Event::Lost => EventAction { to_send: Vec::new(), to_print: Vec::new() },
            Event::Stanza(e) => {
                let o = classify(e, &self.context);
                let to_print = render_lines(&o);
                EventAction { to_send: Vec::new(), to_print }
            },
        }
    }

    /// Handle one line of terminal input. The literal `/quit`, after
    /// trimming, moves the session to `Closing` and asks for exactly the
    /// close signal; a line that is empty after trimming asks for
    /// nothing; any other line asks for one chat message to the target's
    /// bare address carrying the trimmed text, echoed locally in
    /// one-to-one mode only.
    pub fn handle_line(&mut self, line: &str) -> (a: LineAction)
        ensures
            final(self).context == old(self).context,
            (a is Quit) <==> spec_trim(line@) == "/quit"@,
            (a is Quit) ==> final(self).state == State::Closing,
            !(a is Quit) ==> final(self).state == old(self).state,
            (a is Nothing) <==> (spec_trim(line@) != "/quit"@ && spec_trim(line@).len() == 0),
            match a {
                LineAction::Send { stanza, echo } => {
                    &&& spec_is_chat_message(
                        stanza,
                        old(self).context.bare_contact@,
                        old(self).context.is_muc,
                        spec_trim(line@),
                    )
                    &&& (old(self).context.is_muc ==> echo is None)
                    &&& (!old(self).context.is_muc ==> (echo matches Some(t) && t@
                        == spec_line_prefix(false, old(self).context.bare_me@) + spec_trim(line@)))
                },
                _ => true,
            },
    {
        let t = trim_str(line);
        if str_eq(t.as_str(), "/quit") {
            self.state = State::Closing;
            return LineAction::Quit;
        }
        if t.as_str().unicode_len() == 0 {
            return LineAction::Nothing;
        }
        let echo = if !self.context.is_muc {
            Some(format_line(false, self.context.bare_me.as_str(), t.as_str()))
        } else {
            None
        };
        let stanza = make_message(self.context.bare_contact.clone(), self.context.is_muc, t);
        LineAction::Send { stanza, echo }
    }

    /// Record that the close signal has been handed to the network
    /// client. Only a closing session owes the signal, and afterwards the
    /// session is terminated for good: the signal is sent exactly once.
    pub fn mark_closed(&mut self)
        requires
            old(self).state == State::Closing,
        ensures
            final(self).context == old(self).context,
            final(self).state == State::Terminated,
    {
        self.state = State::Terminated;
    }
}

} // verus!

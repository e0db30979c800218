//! The addressing model: an XMPP address as a bare part plus an optional
//! resource, and the immutable per-session `Context` derived from the
//! account's own address and the conversation target.

use vstd::prelude::*;

verus! {

use vstd::string::StrSliceExecFns;
use vstd::string::StringExecFns;
use crate::text::{first_idx, lemma_first_idx, find_char};

/// The bare part of an address string: everything before the first `/`,
/// or the whole string when no `/` occurs.
pub open spec fn spec_bare(s: Seq<char>) -> Seq<char> {
    s.subrange(0, first_idx(s, '/'))
}

/// Whether an address string carries a resource part.
pub open spec fn spec_has_resource(s: Seq<char>) -> bool {
    first_idx(s, '/') < s.len()
}

/// The resource part of an address string: everything after the first `/`.
pub open spec fn spec_resource(s: Seq<char>) -> Seq<char> {
    s.subrange(first_idx(s, '/') + 1, s.len() as int)
}

/// The full string of an address: the bare part, then `/` and the
/// resource when one is present.
pub open spec fn spec_full(a: Addr) -> Seq<char> {
    match a.resource {
        Some(r) => a.bare@ + "/"@ + r@,
        None => a.bare@,
    }
}

/// An address: a bare `user@domain` part and, for a full address, the
/// resource part (for a room, the occupant's nickname).
pub struct Addr {
    pub bare: String,
    pub resource: Option<String>,
}

impl Addr {
    /// A parsed address is faithful to the string it came from.
    pub open spec fn parsed_from(self, s: Seq<char>) -> bool {
        &&& self.bare@ == spec_bare(s)
        &&& self.resource is Some <==> spec_has_resource(s)
        &&& self.resource is Some ==> self.resource->0@ == spec_resource(s)
    }

    /// Split an address string at the first `/` into bare part and
    /// resource; a string without `/` is a bare address.
    pub fn parse(s: &str) -> (a: Addr)
        ensures
            a.parsed_from(s@),
    {
        proof {
            lemma_first_idx(s@, '/');
        }
        let n = s.unicode_len();
        match find_char(s, '/') {
            Some(i) => {
                let bare = s.substring_char(0, i);
                let res = s.substring_char(i + 1, n);
                Addr { bare: String::from_str(bare), resource: Some(String::from_str(res)) }
            },
            None => {
                let bare = s.substring_char(0, n);
                proof {
                    assert(s@.subrange(0, n as int) =~= s@);
                }
                Addr { bare: String::from_str(bare), resource: None }
            },
        }
    }

    /// The full address string: the bare part, then `/` and the resource
    /// when one is present.
    pub fn full(&self) -> (r: String)
        ensures
            r@ == spec_full(*self),
    {
        let mut r = String::new();
        r.append(self.bare.as_str());
        match &self.resource {
            Some(res) => {
                r.append("/");
                r.append(res.as_str());
                proof {
                    assert(r@ =~= self.bare@ + "/"@ + self.resource->0@);
                }
            },
            None => {
                proof {
                    assert(r@ =~= self.bare@);
                }
            },
        }
        r
    }
}

/// The immutable per-session addressing facts, derived once at startup.
pub struct Context {
    /// The account's own bare address.
    pub bare_me: String,
    /// The conversation target: bare for one-to-one chat, full
    /// (room plus nickname) for a multi-user chat.
    pub contact: Addr,
    /// The target stripped of its resource, used for provenance matching.
    pub bare_contact: String,
    /// Whether this session is a multi-user chat.
    pub is_muc: bool,
}

impl Context {
    /// The derived fields agree with the target address.
    pub open spec fn wf(self) -> bool {
        &&& self.bare_contact@ == self.contact.bare@
        &&& self.is_muc <==> self.contact.resource is Some
    }

    /// Derive the session context from the account's bare address and the
    /// target address. The session is a group chat exactly when the target
    /// carries a resource part.
    pub fn new(bare_me: String, contact: Addr) -> (c: Context)
        ensures
            c.wf(),
            c.bare_me == bare_me,
            c.contact == contact,
            c.is_muc <==> contact.resource is Some,
    {
        let bare_contact = contact.bare.clone();
        let is_muc = contact.resource.is_some();
        Context { bare_me, contact, bare_contact, is_muc }
    }
}

} // verus!

//! The stanza model: a tree-shaped XML-like element with a
//! namespace-qualified tag, attributes, character data and children, and
//! the lookups the classifier needs over it.

use vstd::prelude::*;

verus! {

use crate::text::str_eq;

/// One XML-like element: the unit the classifier and the carbon
/// unwrapper operate on.
pub struct Elem {
    /// The local tag name.
    pub name: String,
    /// The namespace the tag is qualified with.
    pub ns: String,
    /// Attributes, in document order.
    pub attrs: Vec<(String, String)>,
    /// The element's character data.
    pub text: String,
    /// Child elements, in document order.
    pub children: Vec<Elem>,
}

/// The first value bound to `key` among `attrs`, if any.
pub open spec fn spec_attr(attrs: Seq<(String, String)>, key: Seq<char>) -> Option<Seq<char>>
    decreases attrs.len(),
{
    if attrs.len() == 0 {
        None
    } else if attrs[0].0@ == key {
        Some(attrs[0].1@)
    } else {
        spec_attr(attrs.drop_first(), key)
    }
}

/// Whether an element carries the given tag name and namespace.
pub open spec fn spec_is(e: Elem, name: Seq<char>, ns: Seq<char>) -> bool {
    e.name@ == name && e.ns@ == ns
}

/// The first child with the given tag name and namespace, if any.
pub open spec fn spec_child(cs: Seq<Elem>, name: Seq<char>, ns: Seq<char>) -> Option<Elem>
    decreases cs.len(),
{
    if cs.len() == 0 {
        None
    } else if spec_is(cs[0], name, ns) {
        Some(cs[0])
    } else {
        spec_child(cs.drop_first(), name, ns)
    }
}

/// The first child with the given tag name, in any namespace.
pub open spec fn spec_child_any_ns(cs: Seq<Elem>, name: Seq<char>) -> Option<Elem>
    decreases cs.len(),
{
    if cs.len() == 0 {
        None
    } else if cs[0].name@ == name {
        Some(cs[0])
    } else {
        spec_child_any_ns(cs.drop_first(), name)
    }
}

impl Elem {
    /// Look an attribute up by key.
    pub fn attr<'a>(&'a self, key: &str) -> (r: Option<&'a String>)
        ensures
            match r {
                Some(v) => spec_attr(self.attrs@, key@) == Some(v@),
                None => spec_attr(self.attrs@, key@) is None,
            },
    {
        let n = self.attrs.len();
        let mut i: usize = 0;
        proof {
            assert(self.attrs@.skip(0) =~= self.attrs@);
        }
        while i < n
            invariant
                n == self.attrs@.len(),
                i <= n,
                spec_attr(self.attrs@, key@) == spec_attr(self.attrs@.skip(i as int), key@),
            decreases n - i,
        {
            proof {
                assert(self.attrs@.skip(i as int)[0] == self.attrs@[i as int]);
                assert(self.attrs@.skip(i as int).drop_first() =~= self.attrs@.skip(i + 1));
            }
            if str_eq(self.attrs[i].0.as_str(), key) {
                return Some(&self.attrs[i].1);
            }
            i += 1;
        }
        proof {
            assert(self.attrs@.skip(n as int) =~= Seq::<(String, String)>::empty());
        }
        None
    }

    /// Whether this element carries the given tag name and namespace.
    pub fn is_tag(&self, name: &str, ns: &str) -> (r: bool)
        ensures
            r == spec_is(*self, name@, ns@),
    {
        str_eq(self.name.as_str(), name) && str_eq(self.ns.as_str(), ns)
    }

    /// Find the first child with the given tag name and namespace.
    pub fn child<'a>(&'a self, name: &str, ns: &str) -> (r: Option<&'a Elem>)
        ensures
            match r {
                Some(c) => spec_child(self.children@, name@, ns@) == Some(*c),
                None => spec_child(self.children@, name@, ns@) is None,
            },
    {
        let n = self.children.len();
        let mut i: usize = 0;
        proof {
            assert(self.children@.skip(0) =~= self.children@);
        }
        while i < n
            invariant
                n == self.children@.len(),
                i <= n,
                spec_child(self.children@, name@, ns@) == spec_child(
                    self.children@.skip(i as int),
                    name@,
                    ns@,
                ),
            decreases n - i,
        {
            proof {
                assert(self.children@.skip(i as int)[0] == self.children@[i as int]);
                assert(self.children@.skip(i as int).drop_first() =~= self.children@.skip(i + 1));
            }
            if self.children[i].is_tag(name, ns) {
                return Some(&self.children[i]);
            }
            i += 1;
        }
        proof {
            assert(self.children@.skip(n as int) =~= Seq::<Elem>::empty());
        }
        None
    }

    /// Find the first child with the given tag name, in any namespace.
    pub fn child_any_ns<'a>(&'a self, name: &str) -> (r: Option<&'a Elem>)
        ensures
            match r {
                Some(c) => spec_child_any_ns(self.children@, name@) == Some(*c),
                None => spec_child_any_ns(self.children@, name@) is None,
            },
    {
        let n = self.children.len();
        let mut i: usize = 0;
        proof {
            assert(self.children@.skip(0) =~= self.children@);
        }
        while i < n
            invariant
                n == self.children@.len(),
                i <= n,
                spec_child_any_ns(self.children@, name@) == spec_child_any_ns(
                    self.children@.skip(i as int),
                    name@,
                ),
            decreases n - i,
        {
            proof {
                assert(self.children@.skip(i as int)[0] == self.children@[i as int]);
                assert(self.children@.skip(i as int).drop_first() =~= self.children@.skip(i + 1));
            }
            if str_eq(self.children[i].name.as_str(), name) {
                return Some(&self.children[i]);
            }
            i += 1;
        }
        proof {
            assert(self.children@.skip(n as int) =~= Seq::<Elem>::empty());
        }
        None
    }
}

/// A leaf element: the given tag, no attributes, no children, the given
/// character data.
pub open spec fn spec_leaf(e: Elem, name: Seq<char>, ns: Seq<char>, text: Seq<char>) -> bool {
    &&& spec_is(e, name, ns)
    &&& e.attrs@.len() == 0
    &&& e.text@ == text
    &&& e.children@.len() == 0
}

} // verus!

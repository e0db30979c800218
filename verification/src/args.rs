//! Plain command-line argument handling: positional arguments, boolean
//! flags, and options that take a value, removed from the list as they
//! are consumed.

use vstd::prelude::*;

verus! {

use crate::text::str_eq;

/// Whether `s` occurs among `fl`.
pub open spec fn contains_str(fl: Seq<Seq<char>>, s: Seq<char>) -> bool {
    exists|i: int| 0 <= i < fl.len() && fl[i] == s
}

/// The views of a list of flag spellings.
pub open spec fn flags_view(fl: Seq<&str>) -> Seq<Seq<char>> {
    fl.map_values(|f: &str| f@)
}

/// The first position in `args` holding one of the flags `fl`;
/// `args.len()` when none occurs.
pub open spec fn first_hit(args: Seq<Seq<char>>, fl: Seq<Seq<char>>) -> int
    decreases args.len(),
{
    if args.len() == 0 {
        0
    } else if contains_str(fl, args[0]) {
        0
    } else {
        1 + first_hit(args.drop_first(), fl)
    }
}

pub proof fn lemma_first_hit(args: Seq<Seq<char>>, fl: Seq<Seq<char>>)
    ensures
        0 <= first_hit(args, fl) <= args.len(),
        first_hit(args, fl) < args.len() ==> contains_str(fl, args[first_hit(args, fl)]),
        forall|j: int| 0 <= j < first_hit(args, fl) ==> !contains_str(fl, args[j]),
        (forall|j: int| 0 <= j < args.len() ==> !contains_str(fl, args[j])) ==> first_hit(args, fl)
            == args.len(),
    decreases args.len(),
{
    if args.len() > 0 && !contains_str(fl, args[0]) {
        lemma_first_hit(args.drop_first(), fl);
        assert(forall|j: int|
            1 <= j < first_hit(args, fl) ==> args[j] == args.drop_first()[j - 1]);
    }
}

proof fn lemma_first_hit_unique(args: Seq<Seq<char>>, fl: Seq<Seq<char>>, i: int)
    requires
        0 <= i < args.len(),
        contains_str(fl, args[i]),
        forall|j: int| 0 <= j < i ==> !contains_str(fl, args[j]),
    ensures
        first_hit(args, fl) == i,
{
    lemma_first_hit(args, fl);
    if first_hit(args, fl) < i {
        assert(contains_str(fl, args[first_hit(args, fl)]));
    }
}

fn contains_flag(flags: &[&str], s: &str) -> (r: bool)
    ensures
        r == contains_str(flags_view(flags@), s@),
{
    let n = flags.len();
    let mut i: usize = 0;
    while i < n
        invariant
            n == flags@.len(),
            i <= n,
            forall|j: int| 0 <= j < i ==> flags_view(flags@)[j] != s@,
        decreases n - i,
    {
        if str_eq(flags[i], s) {
            assert(flags_view(flags@)[i as int] == s@);
            return true;
        }
        i += 1;
    }
    false
}

/// The command-line arguments still waiting to be consumed.
pub struct Args {
    args: Vec<String>,
}

impl View for Args {
    type V = Seq<Seq<char>>;

    closed spec fn view(&self) -> Seq<Seq<char>> {
        self.args.deep_view()
    }
}

impl Args {
    /// Wrap a list of arguments.
    pub fn new(args: Vec<String>) -> (a: Args)
        ensures
            a@ == args.deep_view(),
    {
        Args { args }
    }

    /// Consume the first argument spelled like one of `flags`: remove it
    /// and report whether one was there.
    pub fn flags(&mut self, flags: &[&str]) -> (r: bool)
        ensures
            ({
                let k = first_hit(old(self)@, flags_view(flags@));
                &&& r <==> k < old(self)@.len()
                &&& r ==> final(self)@ == old(self)@.remove(k)
                &&& !r ==> final(self)@ == old(self)@
            }),
    {
        let n = self.args.len();
        let mut i: usize = 0;
        while i < n
            invariant
                self == old(self),
                n == self.args@.len(),
                i <= n,
                forall|j: int| 0 <= j < i ==> !contains_str(flags_view(flags@), self@[j]),
            decreases n - i,
        {
            proof {
                assert(self@[i as int] == self.args@[i as int]@);
            }
            if contains_flag(flags, self.args[i].as_str()) {
                proof {
                    lemma_first_hit_unique(self@, flags_view(flags@), i as int);
                }
                let ghost prev = self@;
                self.args.remove(i);
                proof {
                    assert(self@ =~= prev.remove(i as int));
                }
                return true;
            }
            i += 1;
        }
        proof {
            lemma_first_hit(self@, flags_view(flags@));
        }
        false
    }

    /// Consume the first argument spelled exactly `flag`.
    pub fn flag(&mut self, flag: &str) -> (r: bool)
        ensures
            ({
                let k = first_hit(old(self)@, seq![flag@]);
                &&& r <==> k < old(self)@.len()
                &&& r ==> final(self)@ == old(self)@.remove(k)
                &&& !r ==> final(self)@ == old(self)@
            }),
    {
        let arr: [&str; 1] = [flag];
        let r = self.flags(arr.as_slice());
        proof {
            assert(flags_view(arr@) =~= seq![flag@]);
        }
        r
    }

    /// Consume the first argument spelled like one of `flags` together
    /// with the value that follows it; a flag that stands last is
    /// removed but yields no value.
    pub fn get_option(&mut self, flags: &[&str]) -> (r: Option<String>)
        ensures
            ({
                let a0 = old(self)@;
                let k = first_hit(a0, flags_view(flags@));
                if k == a0.len() {
                    &&& r is None
                    &&& final(self)@ == a0
                } else if k == a0.len() - 1 {
                    &&& r is None
                    &&& final(self)@ == a0.remove(k)
                } else {
                    &&& (r matches Some(v) && v@ == a0[k + 1])
                    &&& final(self)@ == a0.remove(k).remove(k)
                }
            }),
    {
        let n = self.args.len();
        let mut i: usize = 0;
        while i < n
            invariant
                self == old(self),
                n == self.args@.len(),
                i <= n,
                forall|j: int| 0 <= j < i ==> !contains_str(flags_view(flags@), self@[j]),
            decreases n - i,
        {
            proof {
                assert(self@[i as int] == self.args@[i as int]@);
            }
            if contains_flag(flags, self.args[i].as_str()) {
                proof {
                    lemma_first_hit_unique(self@, flags_view(flags@), i as int);
                }
                let ghost a0 = self@;
                self.args.remove(i);
                proof {
                    assert(self@ =~= a0.remove(i as int));
                }
                if i < self.args.len() {
                    let ghost a1 = self@;
                    let v = self.args.remove(i);
                    proof {
                        assert(self@ =~= a1.remove(i as int));
                        assert(v@ == a0[i + 1]);
                    }
                    return Some(v);
                } else {
                    return None;
                }
            }
            i += 1;
        }
        proof {
            lemma_first_hit(self@, flags_view(flags@));
        }
        None
    }

    /// Like `get_option`, with a default for when the flag is absent or
    /// carries no value.
    pub fn get_str(&mut self, flags: &[&str], def: &str) -> (r: String)
        ensures
            ({
                let a0 = old(self)@;
                let k = first_hit(a0, flags_view(flags@));
                if 0 <= k && k + 1 < a0.len() {
                    &&& r@ == a0[k + 1]
                    &&& final(self)@ == a0.remove(k).remove(k)
                } else {
                    &&& r@ == def@
                    &&& final(self)@ == (if k < a0.len() {
                        a0.remove(k)
                    } else {
                        a0
                    })
                }
            }),
    {
        proof {
            lemma_first_hit(old(self)@, flags_view(flags@));
        }
        match self.get_option(flags) {
            Some(ret) => ret,
            None => def.to_owned(),
        }
    }

    /// Hand back whatever was not consumed.
    pub fn remaining(self) -> (r: Vec<String>)
        ensures
            r.deep_view() == self@,
    {
        self.args
    }
}

} // verus!

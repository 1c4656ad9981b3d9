//! The allow-list of trusted uploader names.  Candidates whose source is
//! not on the list are dropped during discovery.

use vstd::prelude::*;
use crate::text::str_eq;

verus! {

/// The set of name views held by a vector of strings.
pub open spec fn names_set(ns: Seq<String>) -> Set<Seq<char>> {
    Set::new(|n: Seq<char>| exists|i: int| 0 <= i < ns.len() && ns[i]@ == n)
}

/// A static allow-list of source names, with membership test only.
pub struct TrustedSourceSet {
    names: Vec<String>,
}

impl View for TrustedSourceSet {
    type V = Set<Seq<char>>;

    closed spec fn view(&self) -> Set<Seq<char>> {
        names_set(self.names@)
    }
}

impl TrustedSourceSet {
    /// An empty allow-list, which trusts nobody.
    pub fn new() -> (r: TrustedSourceSet)
        ensures
            r@ == Set::<Seq<char>>::empty(),
    {
        let r = TrustedSourceSet { names: Vec::new() };
        proof {
            assert(r@ =~= Set::<Seq<char>>::empty());
        }
        r
    }

    /// The allow-list holding exactly the given names.
    pub fn from_names(names: Vec<String>) -> (r: TrustedSourceSet)
        ensures
            r@ == names_set(names@),
    {
        TrustedSourceSet { names }
    }

    /// Adds one name to the allow-list.
    pub fn allow(&mut self, name: String)
        ensures
            final(self)@ == old(self)@.insert(name@),
    {
        self.names.push(name);
        proof {
            let pre = old(self).names@;
            let post = self.names@;
            assert forall|n: Seq<char>| names_set(post).contains(n) implies names_set(pre).insert(
                name@,
            ).contains(n) by {
                let i = choose|i: int| 0 <= i < post.len() && post[i]@ == n;
                if i < pre.len() {
                    assert(pre[i]@ == n);
                } else {
                    assert(post[i] == name);
                }
            }
            assert forall|n: Seq<char>| names_set(pre).insert(name@).contains(n) implies names_set(
                post,
            ).contains(n) by {
                if n == name@ {
                    assert(post[pre.len() as int]@ == n);
                } else {
                    let i = choose|i: int| 0 <= i < pre.len() && pre[i]@ == n;
                    assert(post[i]@ == n);
                }
            }
            assert(self@ =~= old(self)@.insert(name@));
        }
    }

    /// The membership test that the discovery filter applies per row.
    pub fn is_trusted(&self, name: &str) -> (r: bool)
        ensures
            r == self@.contains(name@),
    {
        let mut i: usize = 0;
        while i < self.names.len()
            invariant
                i <= self.names@.len(),
                forall|j: int| 0 <= j < i ==> self.names@[j]@ != name@,
            decreases self.names@.len() - i,
        {
            if str_eq(self.names[i].as_str(), name) {
                proof {
                    assert(self.names@[i as int]@ == name@);
                }
                return true;
            }
            i += 1;
        }
        false
    }
}

} // verus!

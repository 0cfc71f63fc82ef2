//! Which forwarding policy applies to which callee.

use crate::table::{sorted_keys, Table};
use crate::text;
use vstd::prelude::*;

verus! {

/// Policies by callee namespace. `P` is a policy.
pub struct ForwardPolicyRegistry<P> {
    pub policies: Table<String, P>,
}

impl<P> View for ForwardPolicyRegistry<P> {
    type V = Map<Seq<char>, P>;

    open spec fn view(&self) -> Map<Seq<char>, P> {
        self.policies@
    }
}

impl<P> Default for ForwardPolicyRegistry<P> {
    fn default() -> (r: Self)
        ensures
            r@ == Map::<Seq<char>, P>::empty(),
    {
        ForwardPolicyRegistry::new()
    }
}

impl<P> ForwardPolicyRegistry<P> {
    /// The registry without a policy.
    pub fn new() -> (r: Self)
        ensures
            r@ == Map::<Seq<char>, P>::empty(),
    {
        ForwardPolicyRegistry { policies: Table::new() }
    }

    /// Sets the policy of a callee, in place of the one it had.
    pub fn register(&mut self, callee_ns: String, policy: P)
        ensures
            final(self)@ == old(self)@.insert(callee_ns@, policy),
    {
        self.policies.insert(callee_ns, policy);
    }

    /// The policy of a callee.
    pub fn get(&self, callee_ns: &str) -> (r: Option<&P>)
        ensures
            match r {
                Some(p) => self@.dom().contains(callee_ns@) && self@[callee_ns@] == *p,
                None => !self@.dom().contains(callee_ns@),
            },
    {
        self.policies.get(&callee_ns.to_owned())
    }

    /// Whether there is no policy.
    pub fn is_empty(&self) -> (r: bool)
        ensures
            r == (self@.dom().len() == 0),
    {
        self.policies.len() == 0
    }

    /// How many callees have a policy.
    pub fn len(&self) -> (r: usize)
        ensures
            r == self@.dom().len(),
    {
        self.policies.len()
    }

    /// The callees that have a policy, in the order of their names, each once.
    pub fn callees(&self) -> (r: Vec<String>)
        ensures
            text::is_sorted(text::texts(r@)),
            text::texts(r@).no_duplicates(),
            forall|ns: Seq<char>| #[trigger] text::texts(r@).contains(ns) <==> self@.dom().contains(ns),
    {
        sorted_keys(&self.policies)
    }
}

} // verus!

//! A handler together with what its method declares.

use crate::ir;
use crate::ir::{copy_callbacks, CallbackIr, MethodIr};
use crate::text;
use vstd::prelude::*;

verus! {

/// A handler and the callbacks that its method declares.
pub struct DeclaredHandler<H> {
    pub handler: H,
    pub callbacks: Vec<CallbackIr>,
}

impl<H> DeclaredHandler<H> {
    /// A handler with the callbacks that its method declares.
    pub fn new(handler: H, callbacks: Vec<CallbackIr>) -> (r: Self)
        ensures
            r == (DeclaredHandler { handler, callbacks }),
    {
        DeclaredHandler { handler, callbacks }
    }

    /// A handler of some state with the callbacks that its method declares.
    pub fn stateful(handler: H, callbacks: Vec<CallbackIr>) -> (r: Self)
        ensures
            r == (DeclaredHandler { handler, callbacks }),
    {
        DeclaredHandler { handler, callbacks }
    }

    /// The declared callbacks.
    pub fn callbacks(&self) -> (r: &Vec<CallbackIr>)
        ensures
            *r == self.callbacks,
    {
        &self.callbacks
    }

    /// The declared wire names, in order.
    pub fn capability_names(&self) -> (r: Vec<String>)
        ensures
            text::texts(r@) == ir::callback_names(self.callbacks@),
    {
        let mut out: Vec<String> = Vec::new();
        let mut i: usize = 0;
        while i < self.callbacks.len()
            invariant
                i <= self.callbacks.len(),
                out@.len() == i,
                forall|j: int| 0 <= j < i ==> (#[trigger] out@[j])@ == self.callbacks@[j].name@,
            decreases self.callbacks.len() - i,
        {
            out.push(self.callbacks[i].name.clone());
            i += 1;
        }
        assert(text::texts(out@) =~= ir::callback_names(self.callbacks@));
        out
    }

    /// The method with the declared callbacks behind those that it has.
    pub fn declare(&self, method: MethodIr) -> (r: MethodIr)
        ensures
            ir::callback_views(r.callbacks@) == ir::callback_views(method.callbacks@) + ir::callback_views(
                self.callbacks@,
            ),
            r == (MethodIr { callbacks: r.callbacks, ..method }),
    {
        let more = copy_callbacks(&self.callbacks);
        let ghost added = more@;
        let r = method.with_callbacks(more);
        assert(ir::callback_views(r.callbacks@) =~= ir::callback_views(method.callbacks@) + ir::callback_views(added));
        r
    }

    /// The handler.
    pub fn into_handler(self) -> (r: H)
        ensures
            r == self.handler,
    {
        self.handler
    }

    /// The handler, borrowed.
    pub fn handler(&self) -> (r: &H)
        ensures
            *r == self.handler,
    {
        &self.handler
    }
}

} // verus!

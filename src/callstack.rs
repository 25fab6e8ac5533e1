use vstd::prelude::*;

use crate::bytes::{copy_bytes, same_bytes};
use crate::error::ErrorKind;

verus! {

/// The chain of addresses from the outermost caller to the current contract.
/// It is passed down by value and grows by exactly one address per nested call.
#[derive(Debug)]
pub struct CallStack {
    addrs: Vec<Vec<u8>>,
}

impl View for CallStack {
    type V = Seq<Seq<u8>>;

    closed spec fn view(&self) -> Seq<Seq<u8>> {
        self.addrs@.map_values(|a: Vec<u8>| a@)
    }
}

impl CallStack {
    /// The chain of a top-level call: no caller before it.
    pub fn new() -> (r: CallStack)
        ensures
            r@ == Seq::<Seq<u8>>::empty(),
    {
        let r = CallStack { addrs: Vec::new() };
        assert(r@ =~= Seq::<Seq<u8>>::empty());
        r
    }

    /// A chain with the given addresses, outermost first.
    pub fn from_addresses(addrs: Vec<Vec<u8>>) -> (r: CallStack)
        ensures
            r@ == addrs@.map_values(|a: Vec<u8>| a@),
    {
        CallStack { addrs }
    }

    pub fn len(&self) -> (r: usize)
        ensures
            r == self@.len(),
    {
        self.addrs.len()
    }

    /// The address at `index`, outermost first.
    pub fn address(&self, index: usize) -> (r: Vec<u8>)
        requires
            index < self@.len(),
        ensures
            r@ == self@[index as int],
    {
        copy_bytes(self.addrs[index].as_slice())
    }

    /// The addresses, outermost first.
    pub fn to_addresses(&self) -> (r: Vec<Vec<u8>>)
        ensures
            r@.map_values(|a: Vec<u8>| a@) == self@,
    {
        let mut out: Vec<Vec<u8>> = Vec::new();
        let mut i: usize = 0;
        while i < self.addrs.len()
            invariant
                0 <= i <= self.addrs@.len(),
                out@.len() == i,
                forall|j: int| 0 <= j < i ==> out@[j]@ == self.addrs@[j]@,
            decreases self.addrs@.len() - i,
        {
            out.push(copy_bytes(self.addrs[i].as_slice()));
            i = i + 1;
        }
        assert(out@.map_values(|a: Vec<u8>| a@) =~= self@);
        out
    }

    /// The chain that a callee receives: this chain followed by the caller's own address.
    pub fn extended(&self, caller: &[u8]) -> (r: CallStack)
        ensures
            r@ == self@.push(caller@),
    {
        let mut addrs = self.to_addresses();
        addrs.push(copy_bytes(caller));
        let r = CallStack { addrs };
        assert(r@ =~= self@.push(caller@));
        r
    }

    /// Whether both chains hold the same addresses in the same order.
    pub fn same_as(&self, other: &CallStack) -> (r: bool)
        ensures
            r == (self@ == other@),
    {
        if self.addrs.len() != other.addrs.len() {
            assert(self@.len() != other@.len());
            return false;
        }
        let mut i: usize = 0;
        while i < self.addrs.len()
            invariant
                self.addrs@.len() == other.addrs@.len(),
                0 <= i <= self.addrs@.len(),
                forall|j: int| 0 <= j < i ==> self@[j] == other@[j],
            decreases self.addrs@.len() - i,
        {
            if !same_bytes(self.addrs[i].as_slice(), other.addrs[i].as_slice()) {
                assert(self@[i as int] != other@[i as int]);
                return false;
            }
            i = i + 1;
        }
        assert(self@ =~= other@);
        true
    }
}

/// Checks the chain that a callee observes against the caller's: it must be the
/// caller's chain followed by the caller's address, and nothing else.
pub fn check_passed_callstack(caller_stack: &CallStack, caller_addr: &[u8], observed: &CallStack) -> (r: Result<(), ErrorKind>)
    ensures
        r is Ok <==> observed@ == caller_stack@.push(caller_addr@),
        r is Err ==> r == Err::<(), ErrorKind>(ErrorKind::MalformedCallstack),
{
    let expected = caller_stack.extended(caller_addr);
    if observed.same_as(&expected) {
        Ok(())
    } else {
        Err(ErrorKind::MalformedCallstack)
    }
}

} // verus!

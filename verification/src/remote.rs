//! The remote-contract handle: a typed address of another contract. A
//! contract's handle can be borrowed as the handle of any interface it
//! attaches, so the plan carries one conversion per attachment.

use vstd::prelude::*;
use crate::interfaces::ContractMessageAttr;

verus! {

/// The remote handle plan: which interface handles the contract's own handle
/// converts into.
#[derive(Debug)]
pub struct Remote {
    pub interfaces: Vec<ContractMessageAttr>,
}

impl Remote {
    /// The plan for a contract: one conversion per attached interface.
    pub fn for_contract(interfaces: Vec<ContractMessageAttr>) -> (r: Remote)
        ensures
            r.interfaces == interfaces,
    {
        Remote { interfaces }
    }

    /// The plan for an interface: an interface attaches nothing, so its
    /// handle converts into no other.
    pub fn for_interface() -> (r: Remote)
        ensures
            r.interfaces@.len() == 0,
    {
        Remote { interfaces: Vec::new() }
    }

    /// The modules whose handles the contract's own handle converts into, in
    /// attachment order.
    pub fn emit(&self) -> (r: Vec<String>)
        ensures
            r@.len() == self.interfaces@.len(),
            forall|i: int| 0 <= i < r@.len() ==> (#[trigger] r@[i])@
                == self.interfaces@[i].module@,
    {
        let mut modules: Vec<String> = Vec::new();
        let mut i: usize = 0;
        while i < self.interfaces.len()
            invariant
                i <= self.interfaces@.len(),
                modules@.len() == i,
                forall|k: int| 0 <= k < i ==> (#[trigger] modules@[k])@
                    == self.interfaces@[k].module@,
            decreases self.interfaces@.len() - i,
        {
            modules.push(self.interfaces[i].module.clone());
            i = i + 1;
        }
        modules
    }
}

} // verus!

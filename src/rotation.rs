use vstd::prelude::*;

use crate::error::{TONAPIError, TONAPIResult};
use crate::global_config::LiteServer;

verus! {

/// Position reached from `start` after `k` single steps around a cycle of
/// length `n`, each step moving one place and wrapping after the last.
pub open spec fn advanced(start: nat, n: nat, k: nat) -> nat
    decreases k,
{
    if k == 0 {
        start
    } else {
        let p = advanced(start, n, (k - 1) as nat);
        if p + 1 >= n { 0 } else { p + 1 }
    }
}

/// Endless cyclic selection over a non-empty directory of liteservers.
pub struct LiteServerAddressRotation {
    liteservers: Vec<LiteServer>,
    position: usize,
}

impl LiteServerAddressRotation {
    /// The directory, in its published order.
    pub closed spec fn servers(&self) -> Seq<LiteServer> {
        self.liteservers@
    }

    /// Index of the currently selected entry.
    pub closed spec fn index(&self) -> nat {
        self.position as nat
    }

    pub closed spec fn wf(&self) -> bool {
        &&& self.liteservers@.len() > 0
        &&& self.position < self.liteservers@.len()
    }

    /// Starts a rotation at the first entry; an empty directory is refused.
    pub fn new(liteservers: Vec<LiteServer>) -> (r: TONAPIResult<Self>)
        ensures
            liteservers@.len() == 0 <==> r is Err,
            r matches Err(e) ==> e is LiteServerRotationError,
            r matches Ok(rot) ==> {
                &&& rot.wf()
                &&& rot.servers() == liteservers@
                &&& rot.index() == 0
            },
    {
        if liteservers.len() == 0 {
            return Err(TONAPIError::LiteServerRotationError(
                String::from_str("Cannot get next liteserver address"),
            ));
        }
        Ok(LiteServerAddressRotation { liteservers, position: 0 })
    }

    /// The currently selected entry.
    pub fn current(&self) -> (r: &LiteServer)
        requires
            self.wf(),
        ensures
            *r == self.servers()[self.index() as int],
    {
        &self.liteservers[self.position]
    }

    /// Moves to the following entry, wrapping to the first after the last,
    /// and returns it. Never fails.
    pub fn next(&mut self) -> (r: &LiteServer)
        requires
            old(self).wf(),
        ensures
            final(self).wf(),
            final(self).servers() == old(self).servers(),
            final(self).index() == advanced(old(self).index(), old(self).servers().len(), 1),
            *r == final(self).servers()[final(self).index() as int],
    {
        proof {
            reveal_with_fuel(advanced, 2);
        }
        if self.position >= self.liteservers.len() - 1 {
            self.position = 0;
        } else {
            self.position = self.position + 1;
        }
        &self.liteservers[self.position]
    }

    /// Number of entries in the directory.
    pub fn len(&self) -> (r: usize)
        requires
            self.wf(),
        ensures
            r == self.servers().len(),
    {
        self.liteservers.len()
    }
}

/// `k` steps from `start` land on `(start + k) % n`.
pub proof fn lemma_advanced_mod(start: nat, n: nat, k: nat)
    requires
        start < n,
    ensures
        advanced(start, n, k) == (start + k) as int % (n as int),
    decreases k,
{
    if k > 0 {
        lemma_advanced_mod(start, n, (k - 1) as nat);
        let p = (start + k - 1) as int % (n as int);
        vstd::arithmetic::div_mod::lemma_add_mod_noop((start + k - 1) as int, 1, n as int);
        vstd::arithmetic::div_mod::lemma_mod_self_0(n as int);
        if n > 1 {
            vstd::arithmetic::div_mod::lemma_small_mod(1, n);
        }
        if p + 1 < n {
            vstd::arithmetic::div_mod::lemma_small_mod((p + 1) as nat, n);
            }
            if p + 1 >= n {
                assert(p + 1 == n);
        }
    } else {
        vstd::arithmetic::div_mod::lemma_small_mod(start, n);
    }
}

/// Advancing a rotation over `n` entries `n` times comes back to the entry
/// it started from, every step stays inside the directory, and one more call
/// of `next` after `k` calls is the `k + 1`-th step.
pub proof fn lemma_rotation_liveness(rot: LiteServerAddressRotation)
    requires
        rot.wf(),
    ensures
        advanced(rot.index(), rot.servers().len(), rot.servers().len()) == rot.index(),
        forall|k: nat| #[trigger] advanced(rot.index(), rot.servers().len(), k) < rot.servers().len(),
        forall|k: nat|
            advanced(#[trigger] advanced(rot.index(), rot.servers().len(), k), rot.servers().len(), 1)
                == advanced(rot.index(), rot.servers().len(), k + 1),
{
    reveal_with_fuel(advanced, 2);
    let n = rot.servers().len();
    lemma_advanced_mod(rot.index(), n, n);
    vstd::arithmetic::div_mod::lemma_add_mod_noop(rot.index() as int, n as int, n as int);
    vstd::arithmetic::div_mod::lemma_mod_self_0(n as int);
    vstd::arithmetic::div_mod::lemma_small_mod(rot.index(), n);
    assert forall|k: nat| #[trigger] advanced(rot.index(), n, k) < n by {
        lemma_advanced_mod(rot.index(), n, k);
    }
}

} // verus!

//! Telling whether a store that was read from outside keeps the invariant
//! that the handlers rely on.

use crate::nft::Store;
use vstd::prelude::*;

verus! {

impl Store {
    /// Whether no two tokens share an id.
    pub open spec fn tokens_distinct(self) -> bool {
        forall|i: int, j: int|
            0 <= i < j < self.tokens@.len() ==> self.tokens@[i].token_id@
                != self.tokens@[j].token_id@
    }

    /// Whether no two grants share owner and operator.
    pub open spec fn grants_distinct(self) -> bool {
        forall|i: int, j: int|
            0 <= i < j < self.operators@.len() ==> !(self.operators@[i].owner@
                == self.operators@[j].owner@ && self.operators@[i].operator@
                == self.operators@[j].operator@)
    }

    /// Whether no two tokens share an id.
    fn check_tokens(&self) -> (r: bool)
        ensures
            r == self.tokens_distinct(),
    {
        let mut b: usize = 0;
        while b < self.tokens.len()
            invariant
                b <= self.tokens@.len(),
                forall|i: int, j: int|
                    0 <= i < j < b ==> self.tokens@[i].token_id@ != self.tokens@[j].token_id@,
            decreases self.tokens@.len() - b,
        {
            let mut a: usize = 0;
            while a < b
                invariant
                    a <= b,
                    b < self.tokens@.len(),
                    forall|i: int|
                        0 <= i < a ==> self.tokens@[i].token_id@ != self.tokens@[b as int].token_id@,
                decreases b - a,
            {
                if self.tokens[a].token_id == self.tokens[b].token_id {
                    proof {
                        assert(self.tokens@[a as int].token_id@ == self.tokens@[b as int].token_id@);
                    }
                    return false;
                }
                a += 1;
            }
            b += 1;
        }
        true
    }

    /// Whether no two grants share owner and operator.
    fn check_grants(&self) -> (r: bool)
        ensures
            r == self.grants_distinct(),
    {
        let mut b: usize = 0;
        while b < self.operators.len()
            invariant
                b <= self.operators@.len(),
                forall|i: int, j: int|
                    0 <= i < j < b ==> !(self.operators@[i].owner@ == self.operators@[j].owner@
                        && self.operators@[i].operator@ == self.operators@[j].operator@),
            decreases self.operators@.len() - b,
        {
            let mut a: usize = 0;
            while a < b
                invariant
                    a <= b,
                    b < self.operators@.len(),
                    forall|i: int|
                        0 <= i < a ==> !(self.operators@[i].owner@
                            == self.operators@[b as int].owner@ && self.operators@[i].operator@
                            == self.operators@[b as int].operator@),
                decreases b - a,
            {
                if self.operators[a].owner == self.operators[b].owner && self.operators[a].operator
                    == self.operators[b].operator {
                    proof {
                        assert(self.operators@[a as int].owner@ == self.operators@[b as int].owner@);
                        assert(self.operators@[a as int].operator@
                            == self.operators@[b as int].operator@);
                    }
                    return false;
                }
                a += 1;
            }
            b += 1;
        }
        true
    }

    /// Whether the store keeps the invariant that the handlers rely on.
    pub fn is_well_formed(&self) -> (r: bool)
        ensures
            r == self.wf(),
    {
        self.check_tokens() && self.check_grants() && self.tokens.len() as u64
            == self.token_count
    }
}

} // verus!

//! The bind-resolution table: which controller action a physical key or
//! mouse button drives.

use vstd::prelude::*;
use crate::types::{Bind, ControllerAction};

verus! {

/// First entry whose bind matches, scanning from the front.
pub open spec fn bind_lookup(s: Seq<(Bind, ControllerAction)>, b: Bind) -> Option<ControllerAction>
    decreases s.len(),
{
    if s.len() == 0 {
        None
    } else if s[0].0 == b {
        Some(s[0].1)
    } else {
        bind_lookup(s.drop_first(), b)
    }
}

/// Bind table loaded once from configuration. A later `insert` for the same
/// bind shadows the earlier entry.
#[derive(Debug)]
pub struct BindTable {
    entries: Vec<(Bind, ControllerAction)>,
}

impl BindTable {
    pub closed spec fn spec_get(self, b: Bind) -> Option<ControllerAction> {
        bind_lookup(self.entries@, b)
    }

    pub fn new() -> (t: BindTable)
        ensures
            forall|b: Bind| t.spec_get(b) is None,
    {
        let t = BindTable { entries: Vec::new() };
        proof {
            assert forall|b: Bind| t.spec_get(b) is None by {
                assert(t.entries@.len() == 0);
            }
        }
        t
    }

    pub fn insert(&mut self, b: Bind, action: ControllerAction)
        ensures
            final(self).spec_get(b) == Some(action),
            forall|x: Bind| x != b ==> final(self).spec_get(x) == old(self).spec_get(x),
    {
        proof {
            let s2 = self.entries@.insert(0, (b, action));
            assert(s2.drop_first() =~= self.entries@);
            assert(s2[0] == (b, action));
        }
        self.entries.insert(0, (b, action));
    }

    pub fn get(&self, b: Bind) -> (r: Option<ControllerAction>)
        ensures
            r == self.spec_get(b),
    {
        let n = self.entries.len();
        let mut i: usize = 0;
        proof {
            assert(self.entries@.skip(0) =~= self.entries@);
        }
        while i < n
            invariant
                n == self.entries.len(),
                i <= n,
                bind_lookup(self.entries@, b) == bind_lookup(self.entries@.skip(i as int), b),
            decreases n - i,
        {
            let e = self.entries[i];
            proof {
                assert(self.entries@.skip(i as int)[0] == e);
            }
            if e.0 == b {
                return Some(e.1);
            }
            proof {
                assert(self.entries@.skip(i as int).drop_first() =~= self.entries@.skip(
                    i as int + 1,
                ));
            }
            i = i + 1;
        }
        proof {
            assert(self.entries@.skip(n as int).len() == 0);
        }
        None
    }
}

} // verus!

//! Per-device press state, keyed by a device handle and a code.
//!
//! The dispatcher keeps one table for keyboard keys (code = scan code) and
//! one for mouse buttons (code = button index). State is tracked per
//! physical device because several devices may produce the same code.

use vstd::prelude::*;
use crate::types::KeyState;

verus! {

pub open spec fn entry_key(e: (u32, u16, KeyState)) -> (u32, u16) {
    (e.0, e.1)
}

/// First entry whose key matches, scanning from the front.
pub open spec fn table_lookup(s: Seq<(u32, u16, KeyState)>, device: u32, code: u16) -> Option<
    KeyState,
>
    decreases s.len(),
{
    if s.len() == 0 {
        None
    } else if s[0].0 == device && s[0].1 == code {
        Some(s[0].2)
    } else {
        table_lookup(s.drop_first(), device, code)
    }
}

pub open spec fn unique_keys(s: Seq<(u32, u16, KeyState)>) -> bool {
    forall|i: int, j: int| 0 <= i < j < s.len() ==> entry_key(s[i]) != entry_key(s[j])
}

proof fn lemma_lookup_at_entry(s: Seq<(u32, u16, KeyState)>, i: int, device: u32, code: u16)
    requires
        unique_keys(s),
        0 <= i < s.len(),
        s[i].0 == device,
        s[i].1 == code,
    ensures
        table_lookup(s, device, code) == Some(s[i].2),
    decreases s.len(),
{
    if i > 0 {
        assert(entry_key(s[0]) != entry_key(s[i]));
        let t = s.drop_first();
        assert(unique_keys(t)) by {
            assert(forall|p: int, q: int|
                0 <= p < q < t.len() ==> entry_key(t[p]) == entry_key(s[p + 1])
                    && entry_key(t[q]) == entry_key(s[q + 1]));
        }
        assert(t[i - 1] == s[i]);
        lemma_lookup_at_entry(t, i - 1, device, code);
    }
}

proof fn lemma_lookup_found_exists(s: Seq<(u32, u16, KeyState)>, device: u32, code: u16)
    requires
        table_lookup(s, device, code) is Some,
    ensures
        exists|j: int|
            0 <= j < s.len() && s[j].0 == device && s[j].1 == code && Some(s[j].2) == table_lookup(
                s,
                device,
                code,
            ),
    decreases s.len(),
{
    if s.len() > 0 && !(s[0].0 == device && s[0].1 == code) {
        let t = s.drop_first();
        lemma_lookup_found_exists(t, device, code);
        let j = choose|j: int|
            0 <= j < t.len() && t[j].0 == device && t[j].1 == code && Some(t[j].2) == table_lookup(
                t,
                device,
                code,
            );
        assert(s[j + 1] == t[j]);
    }
}

proof fn lemma_lookup_update(s: Seq<(u32, u16, KeyState)>, i: int, device: u32, code: u16, st: KeyState)
    requires
        unique_keys(s),
        0 <= i < s.len(),
        s[i].0 == device,
        s[i].1 == code,
    ensures
        unique_keys(s.update(i, (device, code, st))),
        table_lookup(s.update(i, (device, code, st)), device, code) == Some(st),
        forall|d: u32, c: u16|
            !(d == device && c == code) ==> table_lookup(s.update(i, (device, code, st)), d, c)
                == table_lookup(s, d, c),
    decreases s.len(),
{
    let s2 = s.update(i, (device, code, st));
    assert(forall|j: int| 0 <= j < s.len() ==> entry_key(#[trigger] s2[j]) == entry_key(s[j]));
    if i == 0 {
        assert(s2.drop_first() =~= s.drop_first());
        assert forall|d: u32, c: u16|
            !(d == device && c == code) implies table_lookup(s2, d, c) == table_lookup(
            s,
            d,
            c,
        ) by {
            assert(!(s2[0].0 == d && s2[0].1 == c));
            assert(!(s[0].0 == d && s[0].1 == c));
        }
    } else {
        assert(entry_key(s[0]) != entry_key(s[i]));
        let t = s.drop_first();
        assert(unique_keys(t)) by {
            assert(forall|p: int, q: int|
                0 <= p < q < t.len() ==> entry_key(#[trigger] t[p]) == entry_key(s[p + 1])
                    && entry_key(#[trigger] t[q]) == entry_key(s[q + 1]));
        }
        assert(t[i - 1] == s[i]);
        lemma_lookup_update(t, i - 1, device, code, st);
        assert(s2.drop_first() =~= t.update(i - 1, (device, code, st)));
        assert(s2[0] == s[0]);
        assert(table_lookup(s2, device, code) == Some(st));
        assert forall|d: u32, c: u16|
            !(d == device && c == code) implies table_lookup(s2, d, c) == table_lookup(
            s,
            d,
            c,
        ) by {
            if s[0].0 == d && s[0].1 == c {
                assert(table_lookup(s2, d, c) == Some(s2[0].2));
                assert(table_lookup(s, d, c) == Some(s[0].2));
            } else {
                assert(table_lookup(s2, d, c) == table_lookup(s2.drop_first(), d, c));
                assert(table_lookup(s, d, c) == table_lookup(t, d, c));
            }
        }
    }
}

/// Press-state table with at most one entry per (device, code) key.
pub struct StateTable {
    entries: Vec<(u32, u16, KeyState)>,
}

impl StateTable {
    /// The state last recorded for a key, if any.
    pub closed spec fn spec_get(self, device: u32, code: u16) -> Option<KeyState> {
        table_lookup(self.entries@, device, code)
    }

    pub closed spec fn wf(self) -> bool {
        unique_keys(self.entries@)
    }

    pub fn new() -> (t: StateTable)
        ensures
            t.wf(),
            forall|d: u32, c: u16| t.spec_get(d, c) is None,
    {
        let t = StateTable { entries: Vec::new() };
        proof {
            assert forall|d: u32, c: u16| t.spec_get(d, c) is None by {
                assert(t.entries@.len() == 0);
            }
        }
        t
    }

    pub fn get(&self, device: u32, code: u16) -> (r: Option<KeyState>)
        ensures
            r == self.spec_get(device, code),
    {
        let n = self.entries.len();
        let mut i: usize = 0;
        proof {
            assert(self.entries@.skip(0) =~= self.entries@);
        }
        while i < n
            invariant
                n == self.entries.len(),
                i <= n,
                table_lookup(self.entries@, device, code) == table_lookup(
                    self.entries@.skip(i as int),
                    device,
                    code,
                ),
            decreases n - i,
        {
            let e = self.entries[i];
            proof {
                assert(self.entries@.skip(i as int)[0] == e);
            }
            if e.0 == device && e.1 == code {
                return Some(e.2);
            }
            proof {
                assert(self.entries@.skip(i as int).drop_first() =~= self.entries@.skip(
                    i as int + 1,
                ));
            }
            i = i + 1;
        }
        proof {
            assert(self.entries@.skip(n as int).len() == 0);
        }
        None
    }

    /// Record `st` for the key, replacing any earlier state. Returns whether
    /// this differs from what the table held before: a first observation
    /// counts as a change.
    pub fn insert(&mut self, device: u32, code: u16, st: KeyState) -> (changed: bool)
        requires
            old(self).wf(),
        ensures
            final(self).wf(),
            final(self).spec_get(device, code) == Some(st),
            forall|d: u32, c: u16|
                !(d == device && c == code) ==> final(self).spec_get(d, c) == old(self).spec_get(
                    d,
                    c,
                ),
            changed == (old(self).spec_get(device, code) != Some(st)),
    {
        let changed = match self.get(device, code) {
            Some(prev) => prev != st,
            None => true,
        };
        let n = self.entries.len();
        let mut i: usize = 0;
        while i < n
            invariant
                n == self.entries.len(),
                i <= n,
                self.entries@ == old(self).entries@,
                unique_keys(self.entries@),
                changed == (old(self).spec_get(device, code) != Some(st)),
                forall|j: int| 0 <= j < i ==> entry_key(self.entries@[j]) != (device, code),
            decreases n - i,
        {
            let e = self.entries[i];
            if e.0 == device && e.1 == code {
                proof {
                    lemma_lookup_update(self.entries@, i as int, device, code, st);
                }
                self.entries[i] = (device, code, st);
                return changed;
            }
            i = i + 1;
        }
        proof {
            let s1 = self.entries@;
            let s2 = s1.insert(0, (device, code, st));
            assert(s2.drop_first() =~= s1);
            assert(s2[0] == (device, code, st));
            assert(table_lookup(s2, device, code) == Some(st));
            assert forall|d: u32, c: u16|
                !(d == device && c == code) implies table_lookup(s2, d, c) == table_lookup(
                s1,
                d,
                c,
            ) by {
                assert(!(s2[0].0 == d && s2[0].1 == c));
            }
            assert(unique_keys(s2)) by {
                assert(forall|j: int| 0 <= j < s1.len() ==> s2[j + 1] == s1[j]);
                assert(forall|p: int, q: int|
                    0 < p < q < s2.len() ==> entry_key(#[trigger] s2[p]) == entry_key(s1[p - 1])
                        && entry_key(#[trigger] s2[q]) == entry_key(s1[q - 1]));
                assert(forall|q: int|
                    0 < q < s2.len() ==> entry_key(#[trigger] s2[q]) != (device, code));
            }
        }
        self.entries.insert(0, (device, code, st));
        changed
    }

    /// The keys currently latched Down, each exactly once.
    pub fn down_keys(&self) -> (r: Vec<(u32, u16)>)
        requires
            self.wf(),
        ensures
            forall|d: u32, c: u16|
                #[trigger] r@.contains((d, c)) <==> self.spec_get(d, c) == Some(KeyState::Down),
            r@.no_duplicates(),
    {
        let s = Ghost(self.entries@);
        let n = self.entries.len();
        let mut r: Vec<(u32, u16)> = Vec::new();
        let mut i: usize = 0;
        while i < n
            invariant
                n == self.entries.len(),
                s@ == self.entries@,
                unique_keys(s@),
                i <= n,
                forall|d: u32, c: u16|
                    #[trigger] r@.contains((d, c)) <==> exists|j: int|
                        0 <= j < i && s@[j] == (d, c, KeyState::Down),
                r@.no_duplicates(),
            decreases n - i,
        {
            let e = self.entries[i];
            if matches!(e.2, KeyState::Down) {
                proof {
                    assert(s@[i as int] == (e.0, e.1, KeyState::Down));
                    if r@.contains((e.0, e.1)) {
                        let j = choose|j: int| 0 <= j < i && s@[j] == (e.0, e.1, KeyState::Down);
                        assert(entry_key(s@[j]) == entry_key(s@[i as int]));
                        assert(false);
                    }
                }
                let ghost r_old = r@;
                r.push((e.0, e.1));
                proof {
                    assert forall|d: u32, c: u16| #[trigger]
                        r@.contains((d, c)) <==> exists|j: int|
                            0 <= j < i + 1 && s@[j] == (d, c, KeyState::Down) by {
                        if r@.contains((d, c)) {
                            let k = choose|k: int| 0 <= k < r@.len() && r@[k] == (d, c);
                            if k < r_old.len() {
                                assert(r_old[k] == (d, c));
                                assert(r_old.contains((d, c)));
                            } else {
                                assert(r@[k] == (e.0, e.1));
                                assert(s@[i as int] == (d, c, KeyState::Down));
                            }
                        }
                        if exists|j: int| 0 <= j < i + 1 && s@[j] == (d, c, KeyState::Down) {
                            let j = choose|j: int|
                                0 <= j < i + 1 && s@[j] == (d, c, KeyState::Down);
                            if j < i {
                                assert(r_old.contains((d, c)));
                                let k = choose|k: int| 0 <= k < r_old.len() && r_old[k] == (d, c);
                                assert(r@[k] == (d, c));
                            } else {
                                assert(r@[r@.len() - 1] == (d, c));
                            }
                        }
                    }
                    assert(r@.no_duplicates()) by {
                        assert(forall|k: int| 0 <= k < r_old.len() ==> r@[k] == r_old[k]);
                        assert(!r_old.contains((e.0, e.1)));
                        assert(forall|p: int, q: int|
                            0 <= p < q < r@.len() && q < r@.len() - 1 ==> r@[p] != r@[q]);
                        assert(forall|p: int|
                            0 <= p < r@.len() - 1 ==> #[trigger] r@[p] != r@[r@.len() - 1]);
                    }
                }
            } else {
                proof {
                    assert forall|d: u32, c: u16| #[trigger]
                        r@.contains((d, c)) <==> exists|j: int|
                            0 <= j < i + 1 && s@[j] == (d, c, KeyState::Down) by {
                        if exists|j: int| 0 <= j < i + 1 && s@[j] == (d, c, KeyState::Down) {
                            let j = choose|j: int|
                                0 <= j < i + 1 && s@[j] == (d, c, KeyState::Down);
                            assert(j < i || s@[i as int].2 == KeyState::Down);
                        }
                    }
                }
            }
            i = i + 1;
        }
        proof {
            assert forall|d: u32, c: u16| #[trigger]
                r@.contains((d, c)) <==> self.spec_get(d, c) == Some(KeyState::Down) by {
                if r@.contains((d, c)) {
                    let j = choose|j: int| 0 <= j < n && s@[j] == (d, c, KeyState::Down);
                    lemma_lookup_at_entry(s@, j, d, c);
                }
                if self.spec_get(d, c) == Some(KeyState::Down) {
                    lemma_lookup_found_exists(s@, d, c);
                    let j = choose|j: int|
                        0 <= j < s@.len() && s@[j].0 == d && s@[j].1 == c && Some(s@[j].2)
                            == table_lookup(s@, d, c);
                    assert(s@[j] == (d, c, KeyState::Down));
                }
            }
        }
        r
    }
}

} // verus!

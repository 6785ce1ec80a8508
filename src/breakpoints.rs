//! The set of breakpoint addresses, changed only by explicit toggles.
use vstd::prelude::*;

verus! {

/// The set after toggling `addr`: removed if present, added if not.
pub open spec fn toggled(s: Set<u16>, addr: u16) -> Set<u16> {
    if s.contains(addr) {
        s.remove(addr)
    } else {
        s.insert(addr)
    }
}

/// Toggling an address twice leaves the set as it was.
pub proof fn lemma_toggle_twice(s: Set<u16>, addr: u16)
    ensures
        toggled(toggled(s, addr), addr) == s,
{
    assert(toggled(toggled(s, addr), addr) =~= s);
}

/// Breakpoint addresses, each held once, in no particular order.
pub struct BreakpointSet {
    addrs: Vec<u16>,
}

impl View for BreakpointSet {
    type V = Set<u16>;

    closed spec fn view(&self) -> Set<u16> {
        Set::new(|a: u16| self.addrs@.contains(a))
    }
}

impl BreakpointSet {
    /// Each address is held once.
    pub closed spec fn wf(&self) -> bool {
        self.addrs@.no_duplicates()
    }

    /// No breakpoints.
    pub fn new() -> (r: BreakpointSet)
        ensures
            r.wf(),
            r@ == Set::<u16>::empty(),
    {
        let r = BreakpointSet { addrs: Vec::new() };
        assert(r@ =~= Set::<u16>::empty());
        r
    }

    fn position(&self, addr: u16) -> (r: Option<usize>)
        ensures
            r.is_none() <==> !self.addrs@.contains(addr),
            r.is_some() ==> r.unwrap() < self.addrs@.len() && self.addrs@[r.unwrap() as int] == addr,
    {
        let mut i: usize = 0;
        while i < self.addrs.len()
            invariant
                i <= self.addrs@.len(),
                forall|k: int| 0 <= k < i ==> self.addrs@[k] != addr,
            decreases self.addrs@.len() - i,
        {
            if self.addrs[i] == addr {
                return Some(i);
            }
            i = i + 1;
        }
        None
    }

    /// Whether `addr` is a breakpoint.
    pub fn contains(&self, addr: u16) -> (r: bool)
        ensures
            r == self@.contains(addr),
    {
        self.position(addr).is_some()
    }

    /// Adds `addr` if absent, removes it if present.
    pub fn toggle(&mut self, addr: u16)
        requires
            old(self).wf(),
        ensures
            final(self).wf(),
            final(self)@ == toggled(old(self)@, addr),
    {
        let ghost before = self.addrs@;
        match self.position(addr) {
            Some(i) => {
                self.addrs.remove(i);
                proof {
                    let after = self.addrs@;
                    assert(after =~= before.take(i as int) + before.skip(i + 1));
                    assert forall|a: u16| after.contains(a) <==> (before.contains(a) && a != addr) by {
                        if after.contains(a) {
                            let k = choose|k: int| 0 <= k < after.len() && after[k] == a;
                            if k < i {
                                assert(before[k] == a);
                            } else {
                                assert(before[k + 1] == a);
                            }
                        }
                        if before.contains(a) && a != addr {
                            let k = choose|k: int| 0 <= k < before.len() && before[k] == a;
                            if k < i {
                                assert(after[k] == a);
                            } else {
                                assert(after[k - 1] == a);
                            }
                        }
                    }
                    assert forall|x: int, y: int| 0 <= x < after.len() && 0 <= y < after.len() && x != y
                        implies after[x] != after[y] by {
                        let bx = if x < i { x } else { x + 1 };
                        let by_ = if y < i { y } else { y + 1 };
                        assert(after[x] == before[bx]);
                        assert(after[y] == before[by_]);
                    }
                    assert(self@ =~= toggled(old(self)@, addr));
                }
            },
            None => {
                self.addrs.push(addr);
                proof {
                    let after = self.addrs@;
                    assert forall|a: u16| after.contains(a) <==> (before.contains(a) || a == addr) by {
                        if after.contains(a) {
                            let k = choose|k: int| 0 <= k < after.len() && after[k] == a;
                            if k < before.len() {
                                assert(before[k] == a);
                            }
                        }
                        if before.contains(a) {
                            let k = choose|k: int| 0 <= k < before.len() && before[k] == a;
                            assert(after[k] == a);
                        }
                        if a == addr {
                            assert(after[before.len() as int] == a);
                        }
                    }
                    assert forall|x: int, y: int| 0 <= x < after.len() && 0 <= y < after.len() && x != y
                        implies after[x] != after[y] by {
                        if x == before.len() {
                            if y < before.len() {
                                assert(before.contains(before[y]));
                            }
                        } else if y == before.len() {
                            assert(before.contains(before[x]));
                        }
                    }
                    assert(self@ =~= toggled(old(self)@, addr));
                }
            },
        }
    }

    /// The number of breakpoints.
    pub fn len(&self) -> (r: usize)
        requires
            self.wf(),
        ensures
            r == self@.len(),
    {
        proof {
            self.addrs@.unique_seq_to_set();
            assert(self@ =~= self.addrs@.to_set());
        }
        self.addrs.len()
    }
}

} // verus!

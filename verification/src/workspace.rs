//! A workspace: an ordered collection of window ids with one active member
//! and an optional bound monitor.

use vstd::prelude::*;

use crate::ids::{Id, IdGenerator};
use crate::wm::WindowManager;

verus! {

/// The position of `x` within `s`.  Meaningful only where `s` holds `x`;
/// where the members of `s` are distinct it is the one index of `x`.
pub open spec fn member_index(s: Seq<Id>, x: Id) -> int {
    choose|i: int| 0 <= i < s.len() && s[i] == x
}

/// An ordered collection of window ids.  `active_window`, if present, is a
/// member; at most one workspace is bound to a given monitor at a time.
#[derive(Debug)]
pub struct Workspace {
    pub id: Id,
    pub on_monitor: Option<Id>,
    pub scroll_left: i32,
    pub windows: Vec<Id>,
    pub active_window: Option<Id>,
}

/// A workspace as the factory creates it: no monitor, no members, no active
/// window, scroll offset zero.
pub open spec fn is_fresh_workspace(ws: Workspace, id: Id) -> bool {
    &&& ws.id == id
    &&& ws.on_monitor.is_none()
    &&& ws.scroll_left == 0
    &&& ws.windows@ == Seq::<Id>::empty()
    &&& ws.active_window.is_none()
}

/// `w2` is `w1` with its member sequence and active member replaced, all
/// other fields kept.
pub open spec fn workspace_updated(
    w1: Workspace,
    w2: Workspace,
    members: Seq<Id>,
    active: Option<Id>,
) -> bool {
    &&& w2.id == w1.id
    &&& w2.on_monitor == w1.on_monitor
    &&& w2.scroll_left == w1.scroll_left
    &&& w2.windows@ == members
    &&& w2.active_window == active
}

impl Workspace {
    /// The members hold no id twice.
    pub open spec fn members_distinct(self) -> bool {
        forall|i: int, j: int|
            0 <= i < j < self.windows@.len() ==> self.windows@[i] != self.windows@[j]
    }

    /// The workspace's own invariant: members are distinct, and the active
    /// window, if present, is a member.
    pub open spec fn wf(self) -> bool {
        &&& self.members_distinct()
        &&& self.active_window.is_some() ==> self.windows@.contains(self.active_window.unwrap())
    }

    pub fn new(id_generator: &mut IdGenerator) -> (r: Workspace)
        requires
            old(id_generator).spec_next_id() < Id::MAX,
        ensures
            is_fresh_workspace(r, old(id_generator).spec_next_id()),
            final(id_generator).spec_next_id() == old(id_generator).spec_next_id() + 1,
            old(id_generator).wf() ==> final(id_generator).wf() && r.id >= 1,
            r.wf(),
    {
        Workspace {
            id: id_generator.next_id(),
            on_monitor: None,
            scroll_left: 0,
            windows: Vec::new(),
            active_window: None,
        }
    }

    /// The position of a member within the full ordered member sequence;
    /// absence is an expected outcome, not an error.
    pub fn get_window_index(&self, window: Id) -> (r: Option<usize>)
        ensures
            match r {
                Some(i) => {
                    &&& i < self.windows@.len()
                    &&& self.windows@[i as int] == window
                    &&& forall|j: int| 0 <= j < i ==> self.windows@[j] != window
                },
                None => !self.windows@.contains(window),
            },
    {
        let mut i: usize = 0;
        while i < self.windows.len()
            invariant
                i <= self.windows@.len(),
                forall|j: int| 0 <= j < i ==> self.windows@[j] != window,
            decreases self.windows@.len() - i,
        {
            if self.windows[i] == window {
                return Some(i);
            }
            i += 1;
        }
        None
    }

    /// The ordered member ids for which the tiling classification currently
    /// holds; recomputed on demand, never cached.
    pub fn get_tiled_windows(&self, wm: &WindowManager) -> (r: Vec<Id>)
        requires
            wm.windows_distinct(),
            forall|j: int|
                0 <= j < self.windows@.len() ==> wm.has_window(#[trigger] self.windows@[j]),
        ensures
            r@ == wm.tiled_members(*self),
    {
        let ghost pred = wm.tiled_pred();
        let mut result: Vec<Id> = Vec::new();
        let mut i: usize = 0;
        while i < self.windows.len()
            invariant
                i <= self.windows@.len(),
                forall|j: int|
                    0 <= j < self.windows@.len() ==> wm.has_window(#[trigger] self.windows@[j]),
                wm.windows_distinct(),
                pred == wm.tiled_pred(),
                result@ == self.windows@.subrange(0, i as int).filter(pred),
            decreases self.windows@.len() - i,
        {
            let w = self.windows[i];
            proof {
                let pre = self.windows@.subrange(0, i as int);
                let post = self.windows@.subrange(0, i as int + 1);
                assert(post =~= pre + seq![w]);
                Seq::<Id>::filter_distributes_over_add(pre, seq![w], pred);
                reveal_with_fuel(Seq::filter, 2);
                assert(seq![w].drop_last() =~= Seq::<Id>::empty());
                if pred(w) {
                    assert(seq![w].filter(pred) =~= seq![w]);
                } else {
                    assert(seq![w].filter(pred) =~= Seq::<Id>::empty());
                }
            }
            if wm.get_window(w).is_tiled() {
                result.push(w);
            }
            i += 1;
        }
        proof {
            assert(self.windows@.subrange(0, self.windows@.len() as int) =~= self.windows@);
        }
        result
    }

    /// The position of a member within the tiled-only subsequence; absence
    /// is an expected outcome, not an error.
    pub fn get_tiled_window_index(&self, wm: &WindowManager, window: Id) -> (r: Option<usize>)
        requires
            wm.windows_distinct(),
            forall|j: int|
                0 <= j < self.windows@.len() ==> wm.has_window(#[trigger] self.windows@[j]),
        ensures
            match r {
                Some(i) => {
                    &&& i < wm.tiled_members(*self).len()
                    &&& wm.tiled_members(*self)[i as int] == window
                    &&& forall|j: int| 0 <= j < i ==> wm.tiled_members(*self)[j] != window
                },
                None => !wm.tiled_members(*self).contains(window),
            },
    {
        let tiled = self.get_tiled_windows(wm);
        let mut i: usize = 0;
        while i < tiled.len()
            invariant
                i <= tiled@.len(),
                tiled@ == wm.tiled_members(*self),
                forall|j: int| 0 <= j < i ==> tiled@[j] != window,
            decreases tiled@.len() - i,
        {
            if tiled[i] == window {
                return Some(i);
            }
            i += 1;
        }
        None
    }

    /// Exchanges the positions of two existing members in the ordered
    /// sequence.  Calling it with an id that is not a member is a
    /// programming error, so both must be members.
    pub fn swap_windows(&mut self, a: Id, b: Id)
        requires
            old(self).members_distinct(),
            old(self).windows@.contains(a),
            old(self).windows@.contains(b),
        ensures
            final(self).windows@ == old(self).windows@.update(
                member_index(old(self).windows@, a),
                b,
            ).update(member_index(old(self).windows@, b), a),
            final(self).id == old(self).id,
            final(self).on_monitor == old(self).on_monitor,
            final(self).scroll_left == old(self).scroll_left,
            final(self).active_window == old(self).active_window,
            final(self).members_distinct(),
            old(self).wf() ==> final(self).wf(),
    {
        let ghost s0 = self.windows@;
        let a_raw_index = match self.get_window_index(a) {
            Some(i) => i,
            None => {
                proof {
                    assert(false);
                }
                0
            },
        };
        let b_raw_index = match self.get_window_index(b) {
            Some(i) => i,
            None => {
                proof {
                    assert(false);
                }
                0
            },
        };
        proof {
            let ia = member_index(s0, a);
            let ib = member_index(s0, b);
            assert(0 <= ia < s0.len() && s0[ia] == a);
            assert(0 <= ib < s0.len() && s0[ib] == b);
            assert(ia == a_raw_index as int);
            assert(ib == b_raw_index as int);
        }
        let va = self.windows[a_raw_index];
        let vb = self.windows[b_raw_index];
        self.windows[a_raw_index] = vb;
        self.windows[b_raw_index] = va;
        proof {
            let s1 = self.windows@;
            let ia = member_index(s0, a);
            let ib = member_index(s0, b);
            assert(s1 =~= s0.update(ia, b).update(ib, a));
            assert forall|i: int, j: int| 0 <= i < j < s1.len() implies s1[i] != s1[j] by {
                assert(s0[ia] == a && s0[ib] == b);
            }
            if old(self).wf() && old(self).active_window.is_some() {
                let act = old(self).active_window.unwrap();
                let ka = member_index(s0, act);
                assert(0 <= ka < s0.len() && s0[ka] == act);
                if ka == ia {
                    assert(s1[ib] == act);
                } else if ka == ib {
                    assert(s1[ia] == act);
                } else {
                    assert(s1[ka] == act);
                }
            }
        }
    }
}

/// Law: swapping the same two members twice restores the original order.
/// The member sequence that two successive `swap_windows(a, b)` calls
/// produce (each step shaped as that method's contract states) is the
/// sequence they started from.
pub proof fn lemma_swap_windows_involutive(s: Seq<Id>, a: Id, b: Id)
    requires
        forall|i: int, j: int| 0 <= i < j < s.len() ==> s[i] != s[j],
        s.contains(a),
        s.contains(b),
    ensures
        ({
            let s1 = s.update(member_index(s, a), b).update(member_index(s, b), a);
            s1.update(member_index(s1, a), b).update(member_index(s1, b), a) == s
        }),
{
    let ia = member_index(s, a);
    let ib = member_index(s, b);
    assert(0 <= ia < s.len() && s[ia] == a);
    assert(0 <= ib < s.len() && s[ib] == b);
    let s1 = s.update(ia, b).update(ib, a);
    assert(s1[ib] == a);
    assert(s1.contains(a));
    assert(s1.contains(b)) by {
        if ia == ib {
            assert(a == b);
        } else {
            assert(s1[ia] == b);
        }
    }
    let ja = member_index(s1, a);
    let jb = member_index(s1, b);
    assert(0 <= ja < s1.len() && s1[ja] == a);
    assert(0 <= jb < s1.len() && s1[jb] == b);
    assert forall|i: int, j: int| 0 <= i < j < s1.len() implies s1[i] != s1[j] by {
        assert(s[ia] == a && s[ib] == b);
    }
    assert(ja == ib);
    assert(jb == ia) by {
        if ia == ib {
            assert(a == b);
        } else {
            assert(s1[ia] == b);
        }
    }
    assert(s1.update(ja, b).update(jb, a) =~= s);
}

} // verus!

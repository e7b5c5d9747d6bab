//! A monitor: a physical display region bound to exactly one workspace at a
//! time.

use vstd::prelude::*;

use crate::geometry::Rectangle;
use crate::ids::{Id, IdGenerator};

verus! {

/// A physical display region.  A monitor owns exactly one workspace at
/// creation; the binding may later move, but never goes away while the
/// monitor is active.
#[derive(Debug)]
pub struct Monitor {
    pub id: Id,
    pub extents: Rectangle,
    pub workspace: Id,
}

impl Monitor {
    pub fn new(id_generator: &mut IdGenerator, extents: Rectangle, workspace: Id) -> (r: Monitor)
        requires
            old(id_generator).spec_next_id() < Id::MAX,
        ensures
            r.id == old(id_generator).spec_next_id(),
            final(id_generator).spec_next_id() == old(id_generator).spec_next_id() + 1,
            old(id_generator).wf() ==> final(id_generator).wf() && r.id >= 1,
            r.extents == extents,
            r.workspace == workspace,
    {
        Monitor { id: id_generator.next_id(), extents, workspace }
    }
}

} // verus!

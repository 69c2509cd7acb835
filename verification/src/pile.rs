//! Piles: the planes of one coordinate space, kept in an arena under stable
//! handles, and their order from the top down.

use vstd::prelude::*;
use crate::caps::NcCapabilities;
use crate::error::{NcError, NcResult};
use crate::grid::{NcDimension, NC_MAX_DIM};
use crate::plane::{fits, rebound, rehomed, respanned, NcPlane};

verus! {

/// The handle of a plane: its place in the arena, which it keeps for life
/// and which is given to no later plane.
pub type NcPlaneId = usize;

/// The handle of every pile's standard plane.
pub const NCPLANE_STANDARD: NcPlaneId = 0;

/// A pile as a value.
pub struct NcPileView {
    pub rows: int,
    pub cols: int,
    pub caps: NcCapabilities,
    /// The arena: every plane ever made, by handle.
    pub planes: Seq<NcPlane>,
    /// The handles of the planes that exist, topmost first.
    pub order: Seq<NcPlaneId>,
}

impl NcPileView {
    /// Whether the plane with this handle exists.
    pub open spec fn live(self, id: NcPlaneId) -> bool {
        exists|k: int| 0 <= k < self.order.len() && self.order[k] == id
    }

    /// The place of a plane that exists in the order: 0 for the topmost.
    pub open spec fn z_of(self, id: NcPlaneId) -> int {
        choose|k: int| 0 <= k < self.order.len() && self.order[k] == id
    }

    /// Whether the arena holds, under the handle `id`, a plane of this pile.
    pub open spec fn holds(self, id: NcPlaneId) -> bool {
        &&& id < self.planes.len()
        &&& self.planes[id as int].wf()
        &&& self.planes[id as int]@.pile_rows == self.rows
        &&& self.planes[id as int]@.pile_cols == self.cols
        &&& self.planes[id as int]@.caps == self.caps
        &&& (self.planes[id as int]@.standard <==> id == NCPLANE_STANDARD)
    }

    pub open spec fn wf(self) -> bool {
        &&& 1 <= self.rows <= NC_MAX_DIM
        &&& 1 <= self.cols <= NC_MAX_DIM
        &&& self.planes.len() >= 1
        &&& forall|k: int| 0 <= k < self.order.len() ==> self.holds(#[trigger] self.order[k])
        &&& forall|j: int, k: int|
            0 <= j < k < self.order.len() ==> #[trigger] self.order[j] != #[trigger] self.order[k]
        &&& self.live(NCPLANE_STANDARD)
    }

    /// Whether every plane but the standard one fits a pile of `rows` by
    /// `cols` cells.
    pub open spec fn planes_fit(self, rows: int, cols: int) -> bool {
        forall|k: int|
            0 <= k < self.order.len() && #[trigger] self.order[k] != NCPLANE_STANDARD ==> fits(
                self.planes[self.order[k] as int]@.y,
                self.planes[self.order[k] as int]@.x,
                self.planes[self.order[k] as int]@.grid.rows,
                self.planes[self.order[k] as int]@.grid.cols,
                rows,
                cols,
            )
    }

    /// Whether the pile can have `rows` by `cols` cells.
    pub open spec fn can_resize(self, rows: int, cols: int) -> bool {
        1 <= rows <= NC_MAX_DIM && 1 <= cols <= NC_MAX_DIM && self.planes_fit(rows, cols)
    }

    /// Whether `new` is this pile with `rows` by `cols` cells: the standard
    /// plane spans it again, and every other plane is as it was.
    pub open spec fn resized_to(self, new: NcPileView, rows: int, cols: int) -> bool {
        &&& new.rows == rows
        &&& new.cols == cols
        &&& new.caps == self.caps
        &&& new.order == self.order
        &&& new.planes.len() == self.planes.len()
        &&& new.planes[0]@ == respanned(self.planes[0]@, rows, cols)
        &&& forall|i: int|
            1 <= i < self.planes.len() ==> (#[trigger] new.planes[i])@ == rebound(
                self.planes[i]@,
                rows,
                cols,
            )
    }

    /// The pile with the plane `id` taken out of the order.
    pub open spec fn without(self, id: NcPlaneId) -> NcPileView {
        NcPileView { order: self.order.remove(self.z_of(id)), ..self }
    }

    /// The depth that a plane moved to depth `z` ends at: the bottom where
    /// `z` lies below it.
    pub open spec fn depth(self, z: int) -> int {
        if z < self.order.len() {
            z
        } else {
            self.order.len() - 1
        }
    }

    /// The pile with the plane `id` moved to depth `z`.
    pub open spec fn moved(self, id: NcPlaneId, z: int) -> NcPileView {
        NcPileView {
            order: self.order.remove(self.z_of(id)).insert(self.depth(z), id),
            ..self
        }
    }
}

/// A pile of planes.
#[derive(Debug)]
pub struct NcPile {
    rows: NcDimension,
    cols: NcDimension,
    caps: NcCapabilities,
    planes: Vec<NcPlane>,
    order: Vec<NcPlaneId>,
}

impl View for NcPile {
    type V = NcPileView;

    closed spec fn view(&self) -> NcPileView {
        NcPileView {
            rows: self.rows as int,
            cols: self.cols as int,
            caps: self.caps,
            planes: self.planes@,
            order: self.order@,
        }
    }
}

proof fn lemma_remove_keeps_distinct(order: Seq<NcPlaneId>, at: int)
    requires
        0 <= at < order.len(),
        forall|j: int, k: int|
            0 <= j < k < order.len() ==> #[trigger] order[j] != #[trigger] order[k],
    ensures
        order.remove(at).len() == order.len() - 1,
        forall|k: int| 0 <= k < order.remove(at).len() ==> #[trigger] order.remove(at)[k] == order[if k < at { k } else { k + 1 }],
        forall|j: int, k: int|
            0 <= j < k < order.remove(at).len() ==> #[trigger] order.remove(at)[j]
                != #[trigger] order.remove(at)[k],
        forall|k: int| 0 <= k < order.remove(at).len() ==> #[trigger] order.remove(at)[k] != order[at],
{
}

proof fn lemma_insert_keeps_distinct(order: Seq<NcPlaneId>, at: int, id: NcPlaneId)
    requires
        0 <= at <= order.len(),
        forall|j: int, k: int|
            0 <= j < k < order.len() ==> #[trigger] order[j] != #[trigger] order[k],
        forall|k: int| 0 <= k < order.len() ==> #[trigger] order[k] != id,
    ensures
        order.insert(at, id).len() == order.len() + 1,
        order.insert(at, id)[at] == id,
        forall|j: int, k: int|
            0 <= j < k < order.insert(at, id).len() ==> #[trigger] order.insert(at, id)[j]
                != #[trigger] order.insert(at, id)[k],
        forall|k: int| 0 <= k < order.len() ==> #[trigger] order[k] == order.insert(at, id)[if k < at { k } else { k + 1 }],
{
}

proof fn lemma_move_keeps_live(old: NcPileView, new: NcPileView, k: int, at: int, id: NcPlaneId)
    requires
        0 <= k < old.order.len(),
        old.order[k] == id,
        0 <= at < old.order.len(),
        new.order == old.order.remove(k).insert(at, id),
    ensures
        forall|other: NcPlaneId| #[trigger] new.live(other) <==> old.live(other),
{
    assert forall|other: NcPlaneId| old.live(other) implies #[trigger] new.live(other) by {
        if other == id {
            assert(new.order[at] == other);
        } else {
            let j = old.z_of(other);
            let after_removal = if j < k {
                j
            } else {
                j - 1
            };
            let after_insertion = if after_removal < at {
                after_removal
            } else {
                after_removal + 1
            };
            assert(new.order[after_insertion] == other);
        }
    }
}

impl NcPile {
    /// True of every pile that this library hands out.
    pub open spec fn wf(&self) -> bool {
        self@.wf()
    }

    /// A pile of `rows` by `cols` cells with its standard plane, which spans
    /// it. `GeometryError` where the pile would have no cell, or more rows or
    /// columns than a terminal reports.
    pub fn new(rows: NcDimension, cols: NcDimension, caps: NcCapabilities) -> (r: NcResult<Self>)
        ensures
            r is Ok <==> 1 <= rows <= NC_MAX_DIM && 1 <= cols <= NC_MAX_DIM,
            r is Err ==> r == Err::<Self, NcError>(NcError::GeometryError),
            r matches Ok(p) ==> {
                &&& p.wf()
                &&& p@.rows == rows
                &&& p@.cols == cols
                &&& p@.caps == caps
                &&& p@.order == seq![NCPLANE_STANDARD]
                &&& p@.planes.len() == 1
                &&& p@.planes[0]@ == crate::plane::fresh_plane(
                    0,
                    0,
                    rows as int,
                    cols as int,
                    rows as int,
                    cols as int,
                    caps,
                    true,
                )
            },
    {
        if rows < 1 || cols < 1 || rows > NC_MAX_DIM || cols > NC_MAX_DIM {
            return Err(NcError::GeometryError);
        }
        let standard = match NcPlane::new(0, 0, rows, cols, rows, cols, caps, true) {
            Ok(p) => p,
            Err(e) => { return Err(e); },
        };
        let mut planes: Vec<NcPlane> = Vec::new();
        planes.push(standard);
        let mut order: Vec<NcPlaneId> = Vec::new();
        order.push(NCPLANE_STANDARD);
        let pile = NcPile { rows, cols, caps, planes, order };
        assert(pile@.order[0] == NCPLANE_STANDARD);
        Ok(pile)
    }

    pub fn rows(&self) -> (r: NcDimension)
        ensures
            r == self@.rows,
    {
        self.rows
    }

    pub fn cols(&self) -> (r: NcDimension)
        ensures
            r == self@.cols,
    {
        self.cols
    }

    pub fn caps(&self) -> (r: NcCapabilities)
        ensures
            r == self@.caps,
    {
        self.caps
    }

    /// The handle at depth `k` of the order.
    pub fn order_at(&self, k: usize) -> (id: NcPlaneId)
        requires
            self.wf(),
            k < self@.order.len(),
        ensures
            id == self@.order[k as int],
            id < self@.planes.len(),
    {
        self.order[k]
    }

    /// The plane under the handle `id`, which exists.
    pub(crate) fn plane_at(&self, id: NcPlaneId) -> (p: &NcPlane)
        requires
            self.wf(),
            self@.live(id),
        ensures
            *p == self@.planes[id as int],
            p.wf(),
    {
        &self.planes[id]
    }

    /// How many planes exist.
    pub fn count(&self) -> (r: usize)
        ensures
            r == self@.order.len(),
    {
        self.order.len()
    }

    /// The depth of the plane `id` in the order, 0 for the topmost; `None`
    /// where no such plane exists.
    pub fn depth_of(&self, id: NcPlaneId) -> (r: Option<usize>)
        requires
            self.wf(),
        ensures
            r is Some <==> self@.live(id),
            r matches Some(k) ==> k == self@.z_of(id) && k < self@.order.len() && self@.order[
                k as int
            ] == id,
    {
        let n = self.order.len();
        let mut k: usize = 0;
        while k < n
            invariant
                k <= n,
                n == self@.order.len(),
                self.wf(),
                forall|j: int| 0 <= j < k ==> #[trigger] self@.order[j] != id,
            decreases n - k,
        {
            if self.order[k] == id {
                proof {
                    // The order holds no handle twice, so this is where `id` is.
                    let z = self@.z_of(id);
                    assert(z <= k && k <= z);
                }
                return Some(k);
            }
            k = k + 1;
        }
        None
    }

    /// Whether the plane with this handle exists.
    pub fn is_live(&self, id: NcPlaneId) -> (r: bool)
        requires
            self.wf(),
        ensures
            r == self@.live(id),
    {
        self.depth_of(id).is_some()
    }

    /// The handle of the topmost plane.
    pub fn top(&self) -> (id: NcPlaneId)
        requires
            self.wf(),
        ensures
            id == self@.order[0],
            self@.live(id),
            id < self@.planes.len(),
    {
        self.order[0]
    }

    /// The handle of the bottommost plane.
    pub fn bottom(&self) -> (id: NcPlaneId)
        requires
            self.wf(),
        ensures
            id == self@.order[self@.order.len() - 1],
            self@.live(id),
            id < self@.planes.len(),
    {
        self.order[self.order.len() - 1]
    }

    /// The plane with this handle; `LifecycleError` where none exists.
    pub fn plane(&self, id: NcPlaneId) -> (r: NcResult<&NcPlane>)
        requires
            self.wf(),
        ensures
            r is Ok <==> self@.live(id),
            r is Err ==> r == Err::<&NcPlane, NcError>(NcError::LifecycleError),
            r matches Ok(p) ==> id < self@.planes.len() && *p == self@.planes[id as int]
                && p.wf(),
    {
        if self.is_live(id) {
            Ok(&self.planes[id])
        } else {
            Err(NcError::LifecycleError)
        }
    }

    /// The plane with this handle, to be changed; `LifecycleError` where
    /// none exists. The pile ends as it was but for what the caller makes
    /// of that plane.
    pub fn plane_mut(&mut self, id: NcPlaneId) -> (r: NcResult<&mut NcPlane>)
        requires
            old(self).wf(),
        ensures
            r is Ok <==> old(self)@.live(id),
            r is Err ==> r == Err::<&mut NcPlane, NcError>(NcError::LifecycleError) && final(self)@ == old(self)@,
            r matches Ok(p) ==> id < old(self)@.planes.len() && *p == old(self)@.planes[id as int]
                && p.wf() && final(self)@ == (NcPileView {
                planes: old(self)@.planes.update(id as int, *final(p)),
                ..old(self)@
            }),
    {
        if self.is_live(id) {
            Ok(&mut self.planes[id])
        } else {
            Err(NcError::LifecycleError)
        }
    }

    /// Makes a plane of `rows` by `cols` transparent cells at row `y`,
    /// column `x`, on top of all others, and gives its handle.
    /// `GeometryError`, and no change, where it does not fit the pile.
    pub fn create(&mut self, y: NcDimension, x: NcDimension, rows: NcDimension, cols: NcDimension) -> (r:
        NcResult<NcPlaneId>)
        requires
            old(self).wf(),
        ensures
            final(self).wf(),
            r is Ok <==> fits(
                y as int,
                x as int,
                rows as int,
                cols as int,
                old(self)@.rows,
                old(self)@.cols,
            ),
            r is Err ==> r == Err::<NcPlaneId, NcError>(NcError::GeometryError) && final(self)@
                == old(self)@,
            r matches Ok(id) ==> {
                &&& id == old(self)@.planes.len()
                &&& final(self)@.planes.len() == id + 1
                &&& final(self)@.planes.subrange(0, id as int) == old(self)@.planes
                &&& final(self)@.planes[id as int]@ == crate::plane::fresh_plane(
                    y as int,
                    x as int,
                    rows as int,
                    cols as int,
                    old(self)@.rows,
                    old(self)@.cols,
                    old(self)@.caps,
                    false,
                )
                &&& final(self)@.order == seq![id] + old(self)@.order
                &&& final(self)@.rows == old(self)@.rows
                &&& final(self)@.cols == old(self)@.cols
                &&& final(self)@.caps == old(self)@.caps
                &&& final(self)@.live(id)
                &&& forall|other: NcPlaneId|
                    old(self)@.live(other) ==> #[trigger] final(self)@.live(other)
            },
    {
        let plane = match NcPlane::new(y, x, rows, cols, self.rows, self.cols, self.caps, false) {
            Ok(p) => p,
            Err(e) => { return Err(e); },
        };
        let id = self.planes.len();
        self.planes.push(plane);
        self.order.insert(0, id);
        proof {
            lemma_insert_keeps_distinct(old(self)@.order, 0, id);
            // Every plane that was there lies one deeper now.
            assert forall|other: NcPlaneId| old(self)@.live(other) implies #[trigger] self@.live(
                other,
            ) by {
                assert(self@.order[old(self)@.z_of(other) + 1] == other);
            }
            assert(self@.live(NCPLANE_STANDARD));
            assert forall|k: int| 0 <= k < self@.order.len() implies self@.holds(
                #[trigger] self@.order[k],
            ) by {
                if k > 0 {
                    assert(old(self)@.holds(old(self)@.order[k - 1]));
                }
            }
        }
        Ok(id)
    }

    /// Destroys a plane: it leaves the order, and its handle names nothing
    /// from then on. `LifecycleError`, and no change, for the standard plane
    /// and for a handle that names no plane.
    pub fn destroy(&mut self, id: NcPlaneId) -> (r: NcResult<()>)
        requires
            old(self).wf(),
        ensures
            final(self).wf(),
            r is Ok <==> id != NCPLANE_STANDARD && old(self)@.live(id),
            r is Ok ==> final(self)@ == old(self)@.without(id) && !final(self)@.live(id),
            r is Ok ==> forall|other: NcPlaneId|
                other != id ==> (#[trigger] final(self)@.live(other) <==> old(self)@.live(other)),
            r is Err ==> r == Err::<(), NcError>(NcError::LifecycleError) && final(self)@ == old(self)@,
    {
        if id == NCPLANE_STANDARD {
            return Err(NcError::LifecycleError);
        }
        match self.depth_of(id) {
            None => Err(NcError::LifecycleError),
            Some(k) => {
                self.order.remove(k);
                proof {
                    lemma_remove_keeps_distinct(old(self)@.order, k as int);
                    assert forall|other: NcPlaneId| other != id implies (#[trigger] self@.live(
                        other,
                    ) <==> old(self)@.live(other)) by {
                        if old(self)@.live(other) {
                            let j = old(self)@.z_of(other);
                            assert(self@.order[if j < k { j } else { j - 1 }] == other);
                        }
                        if self@.live(other) {
                            let j = self@.z_of(other);
                            assert(old(self)@.order[if j < k { j } else { j + 1 }] == other);
                        }
                    }
                    assert(self@.live(NCPLANE_STANDARD));
                }
                Ok(())
            },
        }
    }

    /// Moves a plane to depth `z` of the order, 0 for the top; a depth below
    /// the bottom means the bottom. The other planes keep their order.
    /// `LifecycleError`, and no change, for a handle that names no plane.
    pub fn move_to(&mut self, id: NcPlaneId, z: usize) -> (r: NcResult<()>)
        requires
            old(self).wf(),
        ensures
            final(self).wf(),
            r is Ok <==> old(self)@.live(id),
            r is Ok ==> final(self)@ == old(self)@.moved(id, z as int) && final(self)@.order[old(self)@.depth(z as int)] == id,
            r is Ok ==> forall|other: NcPlaneId|
                #[trigger] final(self)@.live(other) <==> old(self)@.live(other),
            r is Err ==> r == Err::<(), NcError>(NcError::LifecycleError) && final(self)@ == old(self)@,
    {
        match self.depth_of(id) {
            None => Err(NcError::LifecycleError),
            Some(k) => {
                let n = self.order.len();
                let at: usize = if z < n { z } else { n - 1 };
                self.order.remove(k);
                let ghost rest = self.order@;
                self.order.insert(at, id);
                proof {
                    lemma_remove_keeps_distinct(old(self)@.order, k as int);
                    lemma_insert_keeps_distinct(rest, at as int, id);
                    lemma_move_keeps_live(old(self)@, self@, k as int, at as int, id);
                    assert(self@.live(NCPLANE_STANDARD));
                    assert forall|j: int| 0 <= j < self@.order.len() implies self@.holds(
                        #[trigger] self@.order[j],
                    ) by {
                        assert(old(self)@.live(self@.order[j]));
                        assert(old(self)@.holds(old(self)@.order[old(self)@.z_of(self@.order[j])]));
                    }
                }
                Ok(())
            },
        }
    }

    /// Whether every plane but the standard one, from depth `k` down, fits
    /// a pile of `rows` by `cols` cells.
    fn planes_fit(&self, rows: NcDimension, cols: NcDimension) -> (r: bool)
        requires
            self.wf(),
        ensures
            r == self@.planes_fit(rows as int, cols as int),
    {
        let n = self.order.len();
        let mut k: usize = 0;
        while k < n
            invariant
                self.wf(),
                k <= n,
                n == self@.order.len(),
                forall|j: int|
                    0 <= j < k && #[trigger] self@.order[j] != NCPLANE_STANDARD ==> fits(
                        self@.planes[self@.order[j] as int]@.y,
                        self@.planes[self@.order[j] as int]@.x,
                        self@.planes[self@.order[j] as int]@.grid.rows,
                        self@.planes[self@.order[j] as int]@.grid.cols,
                        rows as int,
                        cols as int,
                    ),
            decreases n - k,
        {
            let id = self.order[k];
            if id != NCPLANE_STANDARD {
                let plane = &self.planes[id];
                let (y, x) = plane.yx();
                let (h, w) = plane.dim_yx();
                if h > rows || w > cols || y > rows - h || x > cols - w {
                    return false;
                }
            }
            k = k + 1;
        }
        true
    }

    /// Gives the pile `rows` by `cols` cells. The standard plane spans it
    /// again, keeping what lies inside both sizes; the other planes stay as
    /// they are. `GeometryError`, and no change, where the pile would have no
    /// cell, or more rows or columns than a terminal reports, or where a
    /// plane would lie outside it.
    pub fn resize(&mut self, rows: NcDimension, cols: NcDimension) -> (r: NcResult<()>)
        requires
            old(self).wf(),
        ensures
            final(self).wf(),
            r is Ok <==> old(self)@.can_resize(rows as int, cols as int),
            r is Err ==> r->Err_0 == NcError::GeometryError && final(self)@ == old(self)@,
            r is Ok ==> old(self)@.resized_to(final(self)@, rows as int, cols as int),
    {
        if rows < 1 || cols < 1 || rows > NC_MAX_DIM || cols > NC_MAX_DIM || !self.planes_fit(
            rows,
            cols,
        ) {
            return Err(NcError::GeometryError);
        }
        let n = self.planes.len();
        self.planes[0].respan(rows, cols);
        let mut i: usize = 1;
        while i < n
            invariant
                1 <= i <= n,
                n == self@.planes.len(),
                n == old(self)@.planes.len(),
                self@.order == old(self)@.order,
                self@.caps == old(self)@.caps,
                self@.rows == old(self)@.rows,
                self@.cols == old(self)@.cols,
                self@.planes[0]@ == respanned(old(self)@.planes[0]@, rows as int, cols as int),
                self@.planes[0].wf(),
                forall|j: int|
                    1 <= j < i ==> (#[trigger] self@.planes[j])@ == rebound(
                        old(self)@.planes[j]@,
                        rows as int,
                        cols as int,
                    ),
                forall|j: int| i <= j < n ==> #[trigger] self@.planes[j] == old(self)@.planes[j],
            decreases n - i,
        {
            self.planes[i].rebound(rows, cols);
            i = i + 1;
        }
        self.rows = rows;
        self.cols = cols;
        proof {
            assert forall|k: int| 0 <= k < self@.order.len() implies self@.holds(
                #[trigger] self@.order[k],
            ) by {
                let id = self@.order[k];
                assert(old(self)@.holds(old(self)@.order[k]));
                if id != NCPLANE_STANDARD {
                    assert(self@.planes[id as int]@ == rebound(
                        old(self)@.planes[id as int]@,
                        rows as int,
                        cols as int,
                    ));
                }
            }
            assert(self@.order[old(self)@.z_of(NCPLANE_STANDARD)] == NCPLANE_STANDARD);
        }
        Ok(())
    }

    /// Moves a plane out of this pile and into the pile `to`, on top of its
    /// planes, with its first cell at row `y`, column `x` there; the result
    /// is its handle in `to`. The plane keeps its cells, its cursor and its
    /// pen, and takes the capabilities of its new pile. `LifecycleError` for
    /// the standard plane and for a handle that names no plane, else
    /// `GeometryError` where the plane does not fit `to`; neither pile
    /// changes then.
    pub fn migrate(&mut self, id: NcPlaneId, to: &mut NcPile, y: NcDimension, x: NcDimension) -> (r:
        NcResult<NcPlaneId>)
        requires
            old(self).wf(),
            old(to).wf(),
        ensures
            final(self).wf(),
            final(to).wf(),
            r == if id == NCPLANE_STANDARD || !old(self)@.live(id) {
                Err::<NcPlaneId, NcError>(NcError::LifecycleError)
            } else if !fits(
                y as int,
                x as int,
                old(self)@.planes[id as int]@.grid.rows,
                old(self)@.planes[id as int]@.grid.cols,
                old(to)@.rows,
                old(to)@.cols,
            ) {
                Err::<NcPlaneId, NcError>(NcError::GeometryError)
            } else {
                Ok::<NcPlaneId, NcError>(old(to)@.planes.len() as NcPlaneId)
            },
            r is Err ==> final(self)@ == old(self)@ && final(to)@ == old(to)@,
            r matches Ok(moved) ==> {
                &&& final(self)@.order == old(self)@.order.remove(old(self)@.z_of(id))
                &&& !final(self)@.live(id)
                &&& forall|other: NcPlaneId|
                    other != id ==> (#[trigger] final(self)@.live(other) <==> old(self)@.live(
                        other,
                    ))
                &&& final(self)@.planes.len() == old(self)@.planes.len()
                &&& forall|other: int|
                    0 <= other < old(self)@.planes.len() && other != id ==> #[trigger] final(self)@.planes[other] == old(self)@.planes[other]
                &&& final(self)@.rows == old(self)@.rows
                &&& final(self)@.cols == old(self)@.cols
                &&& final(self)@.caps == old(self)@.caps
                &&& final(to)@.order == seq![moved] + old(to)@.order
                &&& final(to)@.live(moved)
                &&& forall|other: NcPlaneId|
                    old(to)@.live(other) ==> #[trigger] final(to)@.live(other)
                &&& final(to)@.planes.len() == moved + 1
                &&& final(to)@.planes.subrange(0, moved as int) == old(to)@.planes
                &&& final(to)@.planes[moved as int]@ == rehomed(
                    old(self)@.planes[id as int]@,
                    y as int,
                    x as int,
                    old(to)@.rows,
                    old(to)@.cols,
                    old(to)@.caps,
                )
                &&& final(to)@.rows == old(to)@.rows
                &&& final(to)@.cols == old(to)@.cols
                &&& final(to)@.caps == old(to)@.caps
            },
    {
        if id == NCPLANE_STANDARD {
            return Err(NcError::LifecycleError);
        }
        let k = match self.depth_of(id) {
            Some(k) => k,
            None => { return Err(NcError::LifecycleError); },
        };
        assert(old(self)@.holds(old(self)@.order[k as int]));
        let (rows, cols) = self.planes[id].dim_yx();
        if rows > to.rows || cols > to.cols || y > to.rows - rows || x > to.cols - cols {
            return Err(NcError::GeometryError);
        }
        // What stays behind under the handle is a plane of one cell, which
        // no handle names any more.
        let mut plane = match NcPlane::new(0, 0, 1, 1, self.rows, self.cols, self.caps, false) {
            Ok(p) => p,
            Err(e) => { return Err(e); },
        };
        core::mem::swap(&mut plane, &mut self.planes[id]);
        self.order.remove(k);
        plane.rehome(y, x, to.rows, to.cols, to.caps);
        let moved = to.planes.len();
        to.planes.push(plane);
        to.order.insert(0, moved);
        proof {
            lemma_remove_keeps_distinct(old(self)@.order, k as int);
            assert forall|other: NcPlaneId| other != id implies (#[trigger] self@.live(other)
                <==> old(self)@.live(other)) by {
                if old(self)@.live(other) {
                    let j = old(self)@.z_of(other);
                    assert(self@.order[if j < k { j } else { j - 1 }] == other);
                }
                if self@.live(other) {
                    let j = self@.z_of(other);
                    assert(old(self)@.order[if j < k { j } else { j + 1 }] == other);
                }
            }
            assert(self@.live(NCPLANE_STANDARD));
            assert forall|j: int| 0 <= j < self@.order.len() implies self@.holds(
                #[trigger] self@.order[j],
            ) by {
                assert(old(self)@.holds(old(self)@.order[if j < k { j } else { j + 1 }]));
            }
            lemma_insert_keeps_distinct(old(to)@.order, 0, moved);
            assert forall|other: NcPlaneId| old(to)@.live(other) implies #[trigger] to@.live(
                other,
            ) by {
                assert(to@.order[old(to)@.z_of(other) + 1] == other);
            }
            assert(to@.order[0] == moved);
            assert forall|j: int| 0 <= j < to@.order.len() implies to@.holds(
                #[trigger] to@.order[j],
            ) by {
                if j > 0 {
                    assert(old(to)@.holds(old(to)@.order[j - 1]));
                }
            }
        }
        Ok(moved)
    }

    /// Destroys every plane but the standard one.
    pub fn drop_planes(&mut self)
        requires
            old(self).wf(),
        ensures
            final(self).wf(),
            final(self)@ == (NcPileView { order: seq![NCPLANE_STANDARD], ..old(self)@ }),
    {
        let mut order: Vec<NcPlaneId> = Vec::new();
        order.push(NCPLANE_STANDARD);
        self.order = order;
        proof {
            assert(self@.order[0] == NCPLANE_STANDARD);
        }
    }
}

} // verus!

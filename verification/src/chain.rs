//! The snake's body: an intrusive singly-linked list of segments held in
//! a slab.
//!
//! Each segment carries a role tag (head, body or tail), its grid cell,
//! and the slab index of the segment one step closer to the head. The
//! slab keeps freed slots for reuse, so a segment's index is stable for
//! its whole life. A ghost sequence records the slab indices in chain
//! order, from tail to head; every operation keeps it in step with the
//! links, which is what ties the pointer structure to the mathematical
//! view `cells()`.

use vstd::prelude::*;
use crate::grid::Cell;
use crate::grid::cell_in_grid;
use crate::direction::Direction;
use crate::direction::stepped_cell;
use crate::direction::step_cell;

verus! {

/// Role of one segment within the chain.
#[derive(Clone, Copy, PartialEq, Eq, Structural, Debug)]
pub enum Role {
    Head,
    Body,
    Tail,
}

/// One cell-sized unit of the snake. `next` is the slab index of the
/// segment ahead of this one (closer to the head); the head has none.
#[derive(Clone, Copy, PartialEq, Eq, Structural, Debug)]
pub struct Segment {
    pub role: Role,
    pub cell: Cell,
    pub next: Option<usize>,
}

/// Rotation, in degrees, of a tail at cell `t` whose linked segment sits
/// at cell `n`. Raw coordinates are compared, as the renderer draws
/// them, so a pair split by the torus seam points across the seam.
pub open spec fn spec_tail_orientation(t: Cell, n: Cell) -> int {
    if n.x == t.x {
        if n.y > t.y {
            90
        } else {
            -90
        }
    } else {
        if n.x > t.x {
            0
        } else {
            180
        }
    }
}

/// The body chain. Slots hold live segments or stay free for reuse;
/// `head` and `tail` index the two ends; `count` is the number of live
/// segments; `order` is the ghost chain order, tail first.
pub struct BodyChain {
    slots: Vec<Option<Segment>>,
    head: usize,
    tail: usize,
    count: usize,
    order: Ghost<Seq<int>>,
}

impl BodyChain {
    /// Slab indices in chain order, from tail to head.
    pub closed spec fn ord(self) -> Seq<int> {
        self.order@
    }

    /// Number of live segments.
    pub open spec fn len_spec(self) -> nat {
        self.cells().len()
    }

    /// Whether slab slot `i` holds a live segment.
    pub closed spec fn slot_used(self, i: int) -> bool {
        0 <= i < self.slots@.len() && self.slots@[i] is Some
    }

    /// The segment in slab slot `i`.
    pub closed spec fn seg_at(self, i: int) -> Segment {
        self.slots@[i]->Some_0
    }

    /// The `k`-th segment counted from the tail.
    pub closed spec fn seg_k(self, k: int) -> Segment {
        self.seg_at(self.ord()[k])
    }

    /// The role the `k`-th position of the chain must carry.
    pub open spec fn role_for(self, k: int) -> Role {
        if k == 0 {
            Role::Tail
        } else if k == self.len_spec() - 1 {
            Role::Head
        } else {
            Role::Body
        }
    }

    /// The cells of the chain in order, from tail to head.
    pub closed spec fn cells(self) -> Seq<Cell> {
        Seq::new(self.ord().len(), |k: int| self.seg_k(k).cell)
    }

    /// The cell of the head segment.
    pub open spec fn head_cell_spec(self) -> Cell {
        self.cells().last()
    }

    /// The cell of the tail segment.
    pub open spec fn tail_cell_spec(self) -> Cell {
        self.cells()[0]
    }

    /// Whether some segment of the chain occupies cell `c`.
    pub open spec fn occupied(self, c: Cell) -> bool {
        self.cells().contains(c)
    }

    /// Structural well-formedness: the ghost order lists pairwise
    /// distinct live slots and nothing else, the ends and role tags
    /// agree with it, each segment's link points to the next one in
    /// order, the head has no link, and the cells are pairwise distinct
    /// grid cells. At least a tail and a head are present.
    pub closed spec fn wf0(self) -> bool {
        let ord = self.ord();
        &&& 2 <= ord.len()
        &&& self.count as int == ord.len()
        &&& forall|k: int| 0 <= k < ord.len() ==> self.slot_used(#[trigger] ord[k])
        &&& forall|k1: int, k2: int|
            0 <= k1 < k2 < ord.len() ==> #[trigger] ord[k1] != #[trigger] ord[k2]
        &&& forall|i: int| #[trigger] self.slot_used(i) ==> ord.contains(i)
        &&& self.tail as int == ord[0]
        &&& self.head as int == ord[ord.len() - 1]
        &&& forall|k: int|
            0 <= k < ord.len() ==> (#[trigger] self.seg_k(k)).role == self.role_for(k)
        &&& forall|k: int|
            0 <= k < ord.len() - 1 ==> ((#[trigger] self.seg_k(k)).next matches Some(n)
                && n as int == ord[k + 1])
        &&& self.seg_k(ord.len() - 1).next is None
        &&& forall|k: int| 0 <= k < ord.len() ==> cell_in_grid((#[trigger] self.seg_k(k)).cell)
        &&& forall|k1: int, k2: int|
            0 <= k1 < k2 < ord.len() ==> (#[trigger] self.seg_k(k1)).cell != (
            #[trigger] self.seg_k(k2)).cell
    }

    /// Full well-formedness: the chain never has fewer than three
    /// segments, so a tail shrink always leaves a body chain behind.
    pub open spec fn wf(self) -> bool {
        self.wf0() && self.len_spec() >= 3
    }

    /// No two segments of a well-formed chain occupy the same cell.
    pub proof fn lemma_cells_distinct(self)
        requires
            self.wf0(),
        ensures
            forall|k1: int, k2: int|
                0 <= k1 < k2 < self.cells().len() ==> #[trigger] self.cells()[k1]
                    != #[trigger] self.cells()[k2],
            forall|k: int|
                0 <= k < self.cells().len() ==> cell_in_grid(#[trigger] self.cells()[k]),
            self.cells().len() == self.len_spec(),
    {
    }

    /// A well-formed chain's length fits the machine: it is counted by
    /// a machine word.
    pub proof fn lemma_len_bound(self)
        requires
            self.wf0(),
        ensures
            self.len_spec() <= usize::MAX,
    {
    }

    /// The starting chain: head at the origin, one body segment to its
    /// left, the tail one further left, all moving right.
    pub fn new() -> (c: Self)
        ensures
            c.wf(),
            c.cells() == seq![
                Cell { x: -2i32, y: 0i32 },
                Cell { x: -1i32, y: 0i32 },
                Cell { x: 0i32, y: 0i32 },
            ],
            c.len_spec() == 3,
    {
        let tail_seg = Segment { role: Role::Tail, cell: Cell { x: -2, y: 0 }, next: Some(1) };
        let body_seg = Segment { role: Role::Body, cell: Cell { x: -1, y: 0 }, next: Some(2) };
        let head_seg = Segment { role: Role::Head, cell: Cell { x: 0, y: 0 }, next: None };
        let mut slots: Vec<Option<Segment>> = Vec::new();
        slots.push(Some(tail_seg));
        slots.push(Some(body_seg));
        slots.push(Some(head_seg));
        let ghost ord0: Seq<int> = seq![0int, 1int, 2int];
        let c = BodyChain { slots, head: 2, tail: 0, count: 3, order: Ghost(ord0) };
        proof {
            assert(c.cells() =~= seq![
                Cell { x: -2i32, y: 0i32 },
                Cell { x: -1i32, y: 0i32 },
                Cell { x: 0i32, y: 0i32 },
            ]);
            assert forall|i: int| #[trigger] c.slot_used(i) implies c.ord().contains(i) by {
                assert(c.ord()[i] == i);
            }
        }
        c
    }

    /// Read the live segment in slot `i`.
    fn get_seg(&self, i: usize) -> (s: Segment)
        requires
            self.slot_used(i as int),
        ensures
            s == self.seg_at(i as int),
    {
        match self.slots[i] {
            Some(s) => s,
            None => {
                proof {
                    assert(false);
                }
                Segment { role: Role::Head, cell: Cell { x: 0, y: 0 }, next: None }
            },
        }
    }

    /// Store a segment in a free slot, reusing one if any, and return
    /// its index. Only the chosen slot changes.
    fn allot_slot(&mut self, seg: Segment) -> (i: usize)
        ensures
            final(self).slot_used(i as int),
            final(self).seg_at(i as int) == seg,
            !old(self).slot_used(i as int),
            old(self).slots@.len() <= final(self).slots@.len(),
            forall|j: int|
                0 <= j < final(self).slots@.len() && j != i as int
                    ==> #[trigger] final(self).slot_used(j) == old(self).slot_used(j),
            forall|j: int|
                0 <= j < final(self).slots@.len() && j != i as int && old(self).slot_used(j)
                    ==> #[trigger] final(self).seg_at(j) == old(self).seg_at(j),
            final(self).head == old(self).head,
            final(self).tail == old(self).tail,
            final(self).count == old(self).count,
            final(self).ord() == old(self).ord(),
    {
        let n = self.slots.len();
        let mut idx: usize = 0;
        while idx < n
            invariant
                *self == *old(self),
                n == self.slots@.len(),
                idx <= n,
                forall|j: int| 0 <= j < idx ==> self.slots@[j] is Some,
            decreases n - idx,
        {
            if self.slots[idx].is_none() {
                self.slots.set(idx, Some(seg));
                return idx;
            }
            idx = idx + 1;
        }
        self.slots.push(Some(seg));
        n
    }

    /// Number of segments in the chain.
    pub fn length(&self) -> (n: usize)
        requires
            self.wf0(),
        ensures
            n == self.len_spec(),
    {
        self.count
    }

    /// The cell the head currently occupies.
    pub fn head_cell(&self) -> (c: Cell)
        requires
            self.wf0(),
        ensures
            c == self.head_cell_spec(),
            cell_in_grid(c),
    {
        let s = self.get_seg(self.head);
        s.cell
    }

    /// The cell the tail currently occupies.
    pub fn tail_cell(&self) -> (c: Cell)
        requires
            self.wf0(),
        ensures
            c == self.tail_cell_spec(),
    {
        let s = self.get_seg(self.tail);
        s.cell
    }

    /// Whether any segment occupies cell `c`.
    pub fn is_occupied(&self, c: Cell) -> (r: bool)
        requires
            self.wf0(),
        ensures
            r == self.occupied(c),
    {
        let n = self.slots.len();
        let mut idx: usize = 0;
        while idx < n
            invariant
                self.wf0(),
                n == self.slots@.len(),
                idx <= n,
                forall|j: int|
                    0 <= j < idx && #[trigger] self.slot_used(j) ==> self.seg_at(j).cell != c,
            decreases n - idx,
        {
            match self.slots[idx] {
                Some(s) => {
                    if s.cell == c {
                        proof {
                            let ord = self.ord();
                            assert(self.slot_used(idx as int));
                            assert(ord.contains(idx as int));
                            let k = choose|k: int| 0 <= k < ord.len() && ord[k] == idx as int;
                            assert(self.cells()[k] == c);
                        }
                        return true;
                    }
                },
                None => {},
            }
            idx = idx + 1;
        }
        proof {
            assert forall|k: int| 0 <= k < self.cells().len()
                implies #[trigger] self.cells()[k] != c by {
                assert(self.slot_used(self.ord()[k]));
            }
        }
        false
    }

    /// All occupied cells, in chain order from tail to head, gathered by
    /// following the links.
    pub fn cells_vec(&self) -> (v: Vec<Cell>)
        requires
            self.wf0(),
        ensures
            v@ == self.cells(),
    {
        let mut v: Vec<Cell> = Vec::new();
        let mut idx = self.tail;
        let mut k: usize = 0;
        while k < self.count
            invariant
                self.wf0(),
                k <= self.count,
                v@.len() == k,
                forall|j: int| 0 <= j < k ==> v@[j] == self.cells()[j],
                k < self.count ==> idx as int == self.ord()[k as int],
            decreases self.count - k,
        {
            proof {
                assert(self.slot_used(self.ord()[k as int]));
            }
            let s = self.get_seg(idx);
            proof {
                assert(s == self.seg_k(k as int));
                assert(s.cell == self.cells()[k as int]);
            }
            v.push(s.cell);
            match s.next {
                Some(n) => {
                    idx = n;
                },
                None => {},
            }
            k = k + 1;
        }
        proof {
            assert(v@ =~= self.cells());
        }
        v
    }

    /// All segments in chain order from tail to head, role tags and
    /// links included, for the host to render.
    pub fn segments_vec(&self) -> (v: Vec<Segment>)
        requires
            self.wf0(),
        ensures
            v@.len() == self.len_spec(),
            forall|k: int| 0 <= k < v@.len() ==> #[trigger] v@[k] == self.seg_k(k),
            forall|k: int| 0 <= k < v@.len() ==> (#[trigger] v@[k]).cell == self.cells()[k]
                && v@[k].role == self.role_for(k),
    {
        let mut v: Vec<Segment> = Vec::new();
        let mut idx = self.tail;
        let mut k: usize = 0;
        while k < self.count
            invariant
                self.wf0(),
                k <= self.count,
                v@.len() == k,
                forall|j: int| 0 <= j < k ==> #[trigger] v@[j] == self.seg_k(j),
                k < self.count ==> idx as int == self.ord()[k as int],
            decreases self.count - k,
        {
            proof {
                assert(self.slot_used(self.ord()[k as int]));
            }
            let s = self.get_seg(idx);
            proof {
                assert(s == self.seg_k(k as int));
            }
            v.push(s);
            match s.next {
                Some(n) => {
                    idx = n;
                },
                None => {},
            }
            k = k + 1;
        }
        v
    }

    /// Rotation of the tail sprite, in degrees, derived from the vector
    /// from the tail to the segment it is linked to: along a shared
    /// column the sign of the row difference picks a quarter turn,
    /// otherwise the sign of the column difference picks ahead or back.
    pub fn tail_orientation(&self) -> (deg: i32)
        requires
            self.wf0(),
        ensures
            deg == spec_tail_orientation(self.cells()[0], self.cells()[1]),
    {
        proof {
            assert(self.slot_used(self.ord()[0]));
        }
        let t = self.get_seg(self.tail);
        proof {
            assert(t == self.seg_k(0));
            assert(t.next matches Some(n) && n as int == self.ord()[1]);
        }
        let n_idx = match t.next {
            Some(n) => n,
            None => {
                proof {
                    assert(false);
                }
                0
            },
        };
        proof {
            assert(self.slot_used(self.ord()[1]));
        }
        let n = self.get_seg(n_idx);
        proof {
            assert(n == self.seg_k(1));
            assert(t.cell == self.cells()[0]);
            assert(n.cell == self.cells()[1]);
        }
        if n.cell.x == t.cell.x {
            if n.cell.y > t.cell.y {
                90
            } else {
                -90
            }
        } else {
            if n.cell.x > t.cell.x {
                0
            } else {
                180
            }
        }
    }

    /// Advance the head one wrapped step in direction `dir`: a fresh
    /// head segment appears on the target cell, and the previous head is
    /// reclassified as a body segment linked to it. The target cell must
    /// be free.
    pub fn advance(&mut self, dir: Direction) -> (c: Cell)
        requires
            old(self).wf0(),
            old(self).len_spec() < usize::MAX,
            !old(self).occupied(stepped_cell(old(self).head_cell_spec(), dir)),
        ensures
            final(self).wf0(),
            c == stepped_cell(old(self).head_cell_spec(), dir),
            final(self).cells() == old(self).cells().push(c),
            final(self).len_spec() == old(self).len_spec() + 1,
            final(self).head_cell_spec() == c,
    {
        let ghost s0 = *old(self);
        let ghost ord = self.ord();
        let old_head_idx = self.head;
        proof {
            assert(self.slot_used(ord[ord.len() - 1]));
        }
        let old_head = self.get_seg(old_head_idx);
        proof {
            assert(old_head == s0.seg_k(ord.len() - 1));
            assert(old_head.cell == s0.cells()[ord.len() - 1]);
            assert(cell_in_grid(old_head.cell));
        }
        let nc = step_cell(old_head.cell, dir);
        let new_idx = self.allot_slot(Segment { role: Role::Head, cell: nc, next: None });
        let ghost smid = *self;
        proof {
            // the fresh slot was not part of the old order
            assert forall|k: int| 0 <= k < ord.len() implies #[trigger] ord[k] != new_idx as int by {
                assert(s0.slot_used(ord[k]));
            }
            assert(smid.slot_used(old_head_idx as int));
            assert(smid.seg_at(old_head_idx as int) == old_head);
        }
        self.slots.set(
            old_head_idx,
            Some(Segment { role: Role::Body, cell: old_head.cell, next: Some(new_idx) }),
        );
        self.head = new_idx;
        self.count = self.count + 1;
        self.order = Ghost(self.order@.push(new_idx as int));
        proof {
            let s1 = *self;
            let ord1 = s1.ord();
            assert(ord1 == ord.push(new_idx as int));
            assert(forall|k: int| 0 <= k < ord.len() ==> ord1[k] == #[trigger] ord[k]);
            assert(old_head_idx as int == ord[ord.len() - 1]);
            // segments other than the two touched slots are unchanged
            assert forall|k: int| 0 <= k < ord.len() - 1 implies s1.slot_used(#[trigger] ord[k])
                && s1.seg_at(ord[k]) == s0.seg_at(ord[k]) by {
                assert(s0.slot_used(ord[k]));
                assert(ord[k] != ord[ord.len() - 1]);
                assert(smid.slot_used(ord[k]) == s0.slot_used(ord[k]));
                assert(smid.seg_at(ord[k]) == s0.seg_at(ord[k]));
            }
            // the previous head keeps its slot and cell, now a linked body
            assert(s1.slot_used(old_head_idx as int));
            assert(s1.seg_at(old_head_idx as int).cell == old_head.cell);
            assert(s1.seg_at(old_head_idx as int).role == Role::Body);
            assert(s1.seg_at(old_head_idx as int).next == Some(new_idx));
            // the fresh head slot
            assert(smid.seg_at(new_idx as int) == Segment { role: Role::Head, cell: nc, next: None });
            assert(s1.slot_used(new_idx as int));
            assert(s1.seg_at(new_idx as int) == Segment { role: Role::Head, cell: nc, next: None });
            // every used slot is listed in the new order
            assert forall|i: int| #[trigger] s1.slot_used(i) implies ord1.contains(i) by {
                if i == new_idx as int {
                    assert(ord1[ord1.len() - 1] == i);
                } else if i == old_head_idx as int {
                    assert(ord1[ord.len() - 1] == i);
                } else {
                    assert(smid.slot_used(i) == s1.slot_used(i));
                    assert(s0.slot_used(i));
                    let k = choose|k: int| 0 <= k < ord.len() && ord[k] == i;
                    assert(ord1[k] == i);
                }
            }
            // the mathematical view grows by the new head cell
            assert forall|k: int| 0 <= k < ord1.len() implies s1.seg_k(k)
                == (if k < ord.len() - 1 {
                    s0.seg_k(k)
                } else if k == ord.len() - 1 {
                    Segment { role: Role::Body, cell: old_head.cell, next: Some(new_idx) }
                } else {
                    Segment { role: Role::Head, cell: nc, next: None }
                }) by {
            }
            assert(s1.cells() =~= s0.cells().push(nc));
            // distinct indices in the new order
            assert forall|k1: int, k2: int| 0 <= k1 < k2 < ord1.len() implies #[trigger] ord1[k1]
                != #[trigger] ord1[k2] by {
                if k2 == ord1.len() - 1 {
                    assert(ord[k1] != new_idx as int);
                }
            }
            // roles agree with the new positions
            assert forall|k: int| 0 <= k < ord1.len() implies (#[trigger] s1.seg_k(k)).role
                == s1.role_for(k) by {
                if k < ord.len() - 1 {
                    assert(s0.seg_k(k).role == s0.role_for(k));
                }
            }
            // each segment is linked to the one after it
            assert forall|k: int| 0 <= k < ord1.len() - 1 implies ((#[trigger] s1.seg_k(k)).next
                matches Some(n) && n as int == ord1[k + 1]) by {
                if k < ord.len() - 1 {
                    assert(s0.seg_k(k).next matches Some(n) && n as int == ord[k + 1]);
                }
            }
            // the new cells stay distinct and on the grid
            assert forall|k1: int, k2: int| 0 <= k1 < k2 < ord1.len() implies (
                #[trigger] s1.seg_k(k1)).cell != (#[trigger] s1.seg_k(k2)).cell by {
                if k2 == ord1.len() - 1 {
                    assert(!s0.cells().contains(nc));
                    assert(s0.cells()[k1] == s0.seg_k(k1).cell);
                } else {
                    assert(s0.seg_k(k1).cell != s0.seg_k(k2).cell);
                }
            }
            assert forall|k: int| 0 <= k < ord1.len() implies cell_in_grid(
                (#[trigger] s1.seg_k(k)).cell) by {
                if k < ord.len() {
                    assert(cell_in_grid(s0.seg_k(k).cell));
                }
            }
            assert(s1.wf0());
        }
        nc
    }

    /// Destroy the tail segment and reclassify the one it pointed to as
    /// the new tail. Only called while a body segment remains between
    /// tail and head, so the chain keeps at least a tail and a head.
    pub fn shrink_tail(&mut self)
        requires
            old(self).wf0(),
            old(self).len_spec() >= 3,
        ensures
            final(self).wf0(),
            final(self).cells() == old(self).cells().subrange(1, old(self).len_spec() as int),
            final(self).len_spec() == old(self).len_spec() - 1,
            final(self).head_cell_spec() == old(self).head_cell_spec(),
    {
        let ghost s0 = *old(self);
        let ghost ord = self.ord();
        let old_tail_idx = self.tail;
        proof {
            assert(self.slot_used(ord[0]));
        }
        let old_tail = self.get_seg(old_tail_idx);
        proof {
            assert(old_tail == s0.seg_k(0));
            assert(old_tail.next matches Some(n) && n as int == ord[1]);
        }
        let next_idx = match old_tail.next {
            Some(n) => n,
            None => {
                proof {
                    assert(false);
                }
                0
            },
        };
        proof {
            assert(next_idx as int == ord[1]);
            assert(self.slot_used(ord[1]));
            assert(ord[1] != ord[0]);
        }
        self.slots.set(old_tail_idx, None);
        proof {
            assert(self.slot_used(next_idx as int));
        }
        let next_seg = self.get_seg(next_idx);
        proof {
            assert(next_seg == s0.seg_at(ord[1]));
        }
        self.slots.set(
            next_idx,
            Some(Segment { role: Role::Tail, cell: next_seg.cell, next: next_seg.next }),
        );
        self.tail = next_idx;
        self.count = self.count - 1;
        self.order = Ghost(self.order@.subrange(1, self.order@.len() as int));
        proof {
            let s1 = *self;
            let ord1 = s1.ord();
            assert(ord1 == ord.subrange(1, ord.len() as int));
            assert(forall|k: int| 0 <= k < ord1.len() ==> #[trigger] ord1[k] == ord[k + 1]);
            // segments past the two touched slots are unchanged
            assert forall|k: int| 1 <= k < ord.len() implies s1.slot_used(#[trigger] ord[k]) by {
                assert(s0.slot_used(ord[k]));
                assert(ord[k] != ord[0]);
            }
            assert forall|k: int| 2 <= k < ord.len() implies s1.seg_at(#[trigger] ord[k])
                == s0.seg_at(ord[k]) by {
                assert(ord[k] != ord[0]);
                assert(ord[k] != ord[1]);
            }
            // the freed slot is no longer live, the new tail keeps cell and link
            assert(!s1.slot_used(ord[0]));
            assert(s1.seg_at(ord[1]).cell == s0.seg_at(ord[1]).cell);
            assert(s1.seg_at(ord[1]).next == s0.seg_at(ord[1]).next);
            assert(s1.seg_at(ord[1]).role == Role::Tail);
            // every used slot is still listed in the order
            assert forall|i: int| #[trigger] s1.slot_used(i) implies ord1.contains(i) by {
                assert(i != ord[0]);
                if i == ord[1] {
                    assert(ord1[0] == i);
                } else {
                    assert(s0.slot_used(i));
                    let k = choose|k: int| 0 <= k < ord.len() && ord[k] == i;
                    assert(k != 0);
                    assert(ord1[k - 1] == i);
                }
            }
            // the mathematical view drops its first cell
            assert forall|k: int| 0 <= k < ord1.len() implies s1.seg_k(k).cell
                == s0.seg_k(k + 1).cell by {
            }
            assert(s1.cells() =~= s0.cells().subrange(1, s0.len_spec() as int));
            // distinct indices, roles, links, grid cells at the new positions
            assert forall|k1: int, k2: int| 0 <= k1 < k2 < ord1.len() implies #[trigger] ord1[k1]
                != #[trigger] ord1[k2] by {
                assert(ord[k1 + 1] != ord[k2 + 1]);
            }
            assert forall|k: int| 0 <= k < ord1.len() implies (#[trigger] s1.seg_k(k)).role
                == s1.role_for(k) by {
                if k > 0 {
                    assert(s0.seg_k(k + 1).role == s0.role_for(k + 1));
                }
            }
            assert forall|k: int| 0 <= k < ord1.len() - 1 implies ((#[trigger] s1.seg_k(k)).next
                matches Some(n) && n as int == ord1[k + 1]) by {
                assert(s0.seg_k(k + 1).next matches Some(n) && n as int == ord[k + 2]);
            }
            assert(s1.seg_k(ord1.len() - 1).next is None) by {
                assert(s1.seg_k(ord1.len() - 1) == s0.seg_k(ord.len() - 1));
            }
            assert forall|k1: int, k2: int| 0 <= k1 < k2 < ord1.len() implies (
                #[trigger] s1.seg_k(k1)).cell != (#[trigger] s1.seg_k(k2)).cell by {
                assert(s0.seg_k(k1 + 1).cell != s0.seg_k(k2 + 1).cell);
            }
            assert forall|k: int| 0 <= k < ord1.len() implies cell_in_grid(
                (#[trigger] s1.seg_k(k)).cell) by {
                assert(cell_in_grid(s0.seg_k(k + 1).cell));
            }
            assert(s1.wf0());
        }
    }
}

} // verus!

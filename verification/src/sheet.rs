//! The spreadsheet index: a dual-indexed sparse grid mapping `(row, col)`
//! to a value, queryable along either axis.
//!
//! One logical value per cell is kept once, in an arena (`store`), and both
//! the row-major and the column-major map hold its stable arena key — so
//! the two views can never diverge and the value is never duplicated. A
//! slot is current exactly while the maps point at it; an overwrite or a
//! delete retargets or drops the map entries and the old slot is dead.
//! The abstract state is one map from coordinates to values.

use std::collections::HashMap;
use vstd::prelude::*;

verus! {

/// A cell's content: a number, carried as the 64 bits of its IEEE-754
/// representation, or label text.
#[derive(Debug, PartialEq)]
pub enum SheetValue {
    Number(u64),
    Label(String),
}

/// The mathematical value of a [`SheetValue`].
pub ghost enum SheetValueV {
    Number(u64),
    Label(Seq<char>),
}

impl View for SheetValue {
    type V = SheetValueV;

    open spec fn view(&self) -> SheetValueV {
        match self {
            SheetValue::Number(bits) => SheetValueV::Number(*bits),
            SheetValue::Label(s) => SheetValueV::Label(s@),
        }
    }
}

/// One arena slot: the coordinate it was installed at, and the value. The
/// slot is current exactly while both maps still point at it.
#[derive(Debug)]
struct CellSlot {
    row: u64,
    col: u64,
    val: SheetValue,
}

/// A named sparse sheet. `row_major` maps a row to the cells in it by
/// column; `col_major` maps a column to the same cells by row; both store
/// the arena key of the one logical value.
#[derive(Debug)]
pub struct Sheet {
    name: String,
    row_major: HashMap<u64, HashMap<u64, usize>>,
    col_major: HashMap<u64, HashMap<u64, usize>>,
    store: Vec<CellSlot>,
}

impl Sheet {
    /// The row-major index has an entry for `(r, c)`.
    spec fn rm_has(self, r: u64, c: u64) -> bool {
        self.row_major@.contains_key(r) && self.row_major@[r]@.contains_key(c)
    }

    /// The arena key the row-major index holds for `(r, c)`.
    spec fn rm_id(self, r: u64, c: u64) -> usize {
        self.row_major@[r]@[c]
    }

    /// The column-major index has an entry for `(c, r)`.
    spec fn cm_has(self, c: u64, r: u64) -> bool {
        self.col_major@.contains_key(c) && self.col_major@[c]@.contains_key(r)
    }

    /// The arena key the column-major index holds for `(c, r)`.
    spec fn cm_id(self, c: u64, r: u64) -> usize {
        self.col_major@[c]@[r]
    }

    /// Dual-index consistency: the two maps index exactly the same
    /// coordinates, agree on the arena key of each, and every key points
    /// at a slot that was installed at that very coordinate.
    pub closed spec fn wf(self) -> bool {
        &&& forall|r: u64, c: u64| #[trigger] self.rm_has(r, c) ==> {
            &&& self.cm_has(c, r)
            &&& self.cm_id(c, r) == self.rm_id(r, c)
            &&& self.rm_id(r, c) < self.store@.len()
            &&& self.store@[self.rm_id(r, c) as int].row == r
            &&& self.store@[self.rm_id(r, c) as int].col == c
        }
        &&& forall|c: u64, r: u64| #[trigger] self.cm_has(c, r) ==> self.rm_has(r, c)
    }

    /// The name the sheet was created with.
    pub closed spec fn spec_name(self) -> Seq<char> {
        self.name@
    }
}

impl View for Sheet {
    type V = Map<(u64, u64), SheetValueV>;

    /// The abstract state: the one map from occupied coordinates to the
    /// cell values.
    closed spec fn view(&self) -> Map<(u64, u64), SheetValueV> {
        Map::new(
            |k: (u64, u64)| self.rm_has(k.0, k.1),
            |k: (u64, u64)| self.store@[self.rm_id(k.0, k.1) as int].val@,
        )
    }
}

impl Sheet {
    /// Creates an empty sheet: no cell is occupied.
    pub fn new(name: &str) -> (r: Sheet)
        ensures
            r.wf(),
            r@ == Map::<(u64, u64), SheetValueV>::empty(),
            r.spec_name() == name@,
    {
        let r = Sheet {
            name: name.to_owned(),
            row_major: HashMap::new(),
            col_major: HashMap::new(),
            store: Vec::new(),
        };
        proof {
            assert(r@ =~= Map::<(u64, u64), SheetValueV>::empty());
        }
        r
    }

    /// The name the sheet was created with.
    pub fn name(&self) -> (r: &str)
        ensures
            r@ == self.spec_name(),
    {
        self.name.as_str()
    }

    /// Installs `val` at `(row, col)`, replacing any prior value there:
    /// the abstract map gains (or overwrites) exactly that one entry.
    pub fn add(&mut self, row: u64, col: u64, val: SheetValue)
        requires
            old(self).wf(),
        ensures
            final(self).wf(),
            final(self)@ == old(self)@.insert((row, col), val@),
            final(self).spec_name() == old(self).spec_name(),
    {
        let ghost pre = *self;
        let id = self.store.len();
        self.store.push(CellSlot { row, col, val });
        let mut inner: HashMap<u64, usize> = match self.row_major.remove(&row) {
            Some(m) => m,
            None => HashMap::new(),
        };
        inner.insert(col, id);
        self.row_major.insert(row, inner);
        let mut cinner: HashMap<u64, usize> = match self.col_major.remove(&col) {
            Some(m) => m,
            None => HashMap::new(),
        };
        cinner.insert(row, id);
        self.col_major.insert(col, cinner);
        proof {
            assert forall|r: u64, c: u64| #[trigger] self.rm_has(r, c) implies {
                &&& self.cm_has(c, r)
                &&& self.cm_id(c, r) == self.rm_id(r, c)
                &&& self.rm_id(r, c) < self.store@.len()
                &&& self.store@[self.rm_id(r, c) as int].row == r
                &&& self.store@[self.rm_id(r, c) as int].col == c
            } by {
                if r == row && c == col {
                } else {
                    assert(self.rm_has(r, c) ==> pre.rm_has(r, c));
                    if pre.rm_has(r, c) {
                        assert(pre.cm_has(c, r));
                    }
                }
            }
            assert forall|c: u64, r: u64| #[trigger] self.cm_has(c, r) implies self.rm_has(
                r,
                c,
            ) by {
                if r == row && c == col {
                    assert(self.rm_has(r, c));
                } else {
                    assert(self.cm_has(c, r) ==> pre.cm_has(c, r));
                    if pre.cm_has(c, r) {
                        assert(pre.rm_has(r, c));
                    }
                }
            }
            assert(self@ =~= pre@.insert((row, col), val@));
        }
    }

    /// Removes the cell at `(row, col)` from both indexes; a no-op, and no
    /// error, if the coordinate is absent.
    pub fn del(&mut self, row: u64, col: u64)
        requires
            old(self).wf(),
        ensures
            final(self).wf(),
            final(self)@ == old(self)@.remove((row, col)),
            final(self).spec_name() == old(self).spec_name(),
    {
        let ghost pre = *self;
        match self.row_major.remove(&row) {
            Some(mut inner) => {
                inner.remove(&col);
                self.row_major.insert(row, inner);
            },
            None => {},
        }
        match self.col_major.remove(&col) {
            Some(mut cinner) => {
                cinner.remove(&row);
                self.col_major.insert(col, cinner);
            },
            None => {},
        }
        proof {
            assert forall|r: u64, c: u64| #[trigger] self.rm_has(r, c) implies {
                &&& self.cm_has(c, r)
                &&& self.cm_id(c, r) == self.rm_id(r, c)
                &&& self.rm_id(r, c) < self.store@.len()
                &&& self.store@[self.rm_id(r, c) as int].row == r
                &&& self.store@[self.rm_id(r, c) as int].col == c
            } by {
                assert(self.rm_has(r, c) ==> pre.rm_has(r, c) && !(r == row && c == col));
                if pre.rm_has(r, c) {
                    assert(pre.cm_has(c, r));
                }
            }
            assert forall|c: u64, r: u64| #[trigger] self.cm_has(c, r) implies self.rm_has(
                r,
                c,
            ) by {
                assert(self.cm_has(c, r) ==> pre.cm_has(c, r) && !(r == row && c == col));
                if pre.cm_has(c, r) {
                    assert(pre.rm_has(r, c));
                }
            }
            assert(self@ =~= pre@.remove((row, col)));
        }
    }

    /// Returns the value at `(row, col)`, or `None` if the coordinate is
    /// unoccupied.
    pub fn get(&self, row: u64, col: u64) -> (r: Option<&SheetValue>)
        requires
            self.wf(),
        ensures
            match r {
                Some(v) => self@.contains_key((row, col)) && v@ == self@[(row, col)],
                None => !self@.contains_key((row, col)),
            },
    {
        match self.row_major.get(&row) {
            None => None,
            Some(inner) => match inner.get(&col) {
                None => None,
                Some(id) => {
                    proof {
                        assert(self.rm_has(row, col));
                        assert(self.rm_id(row, col) == *id);
                    }
                    Some(&self.store[*id].val)
                },
            },
        }
    }

    /// Returns every occupied `(row, col, value)` triple exactly once, in
    /// unspecified order: each returned triple is a cell of the sheet,
    /// every occupied coordinate appears, no coordinate appears twice, and
    /// the length is the number of occupied coordinates.
    pub fn cells(&self) -> (r: Vec<(u64, u64, SheetValue)>)
        requires
            self.wf(),
        ensures
            forall|i: int| 0 <= i < r@.len() ==> #[trigger] self@.contains_key(
                (r@[i].0, r@[i].1),
            ) && r@[i].2@ == self@[(r@[i].0, r@[i].1)],
            forall|k: (u64, u64)| #[trigger] self@.contains_key(k) ==> exists|i: int|
                0 <= i < r@.len() && (#[trigger] r@[i]).0 == k.0 && r@[i].1 == k.1,
            forall|i: int, j: int|
                0 <= i < j < r@.len() ==> (r@[i].0, r@[i].1) != (r@[j].0, r@[j].1),
            r@.len() == self@.dom().len(),
    {
        let mut out: Vec<(u64, u64, SheetValue)> = Vec::new();
        let ghost mut seen: Set<(u64, u64)> = Set::empty();
        let mut i: usize = 0;
        while i < self.store.len()
            invariant
                self.wf(),
                i <= self.store@.len(),
                seen.finite(),
                seen.len() == out@.len(),
                forall|j: int| 0 <= j < out@.len() ==> #[trigger] self@.contains_key(
                    (out@[j].0, out@[j].1),
                ) && out@[j].2@ == self@[(out@[j].0, out@[j].1)],
                forall|j: int| 0 <= j < out@.len() ==> seen.contains((out@[j].0, out@[j].1)),
                forall|k: (u64, u64)| #[trigger] seen.contains(k) ==> self@.contains_key(k)
                    && exists|j: int|
                    0 <= j < out@.len() && (#[trigger] out@[j]).0 == k.0 && out@[j].1 == k.1,
                forall|j: int, l: int|
                    0 <= j < l < out@.len() ==> (out@[j].0, out@[j].1) != (out@[l].0, out@[l].1),
                forall|k: (u64, u64)| #[trigger] seen.contains(k) ==> self.rm_id(k.0, k.1) < i,
                forall|k: (u64, u64)| #[trigger] self@.contains_key(k) && self.rm_id(k.0, k.1) < i
                    ==> seen.contains(k),
            decreases self.store@.len() - i,
        {
            let slot = &self.store[i];
            let current = match self.row_major.get(&slot.row) {
                None => false,
                Some(inner) => match inner.get(&slot.col) {
                    None => false,
                    Some(id) => *id == i,
                },
            };
            if current {
                let trip = (slot.row, slot.col, clone_value(&slot.val));
                let ghost k0 = (slot.row, slot.col);
                let ghost out0 = out@;
                proof {
                    assert(self.rm_has(slot.row, slot.col));
                    assert(self.rm_id(slot.row, slot.col) == i);
                    assert(self@.contains_key(k0));
                    assert(self@[k0] == slot.val@);
                    assert(!seen.contains(k0));
                    seen = seen.insert(k0);
                }
                out.push(trip);
                proof {
                    assert(out@ == out0.push(trip));
                    assert(out@[out@.len() - 1] == trip);
                    assert forall|k: (u64, u64)| #[trigger] seen.contains(k) implies
                        self@.contains_key(k) && exists|j: int|
                        0 <= j < out@.len() && (#[trigger] out@[j]).0 == k.0 && out@[j].1
                            == k.1 by {
                        if k == k0 {
                            assert(out@[out@.len() - 1].0 == k.0 && out@[out@.len() - 1].1 == k.1);
                        } else {
                            let j0 = choose|j: int|
                                0 <= j < out0.len() && (#[trigger] out0[j]).0 == k.0 && out0[j].1
                                    == k.1;
                            assert(out@[j0] == out0[j0]);
                        }
                    }
                }
            }
            i = i + 1;
            proof {
                assert forall|k: (u64, u64)|
                    #[trigger] self@.contains_key(k) && self.rm_id(k.0, k.1) < i implies
                    seen.contains(k) by {
                    if self.rm_id(k.0, k.1) == i - 1 {
                        assert(self.rm_has(k.0, k.1));
                        assert(self.store@[i - 1].row == k.0 && self.store@[i - 1].col == k.1);
                    }
                }
            }
        }
        proof {
            assert forall|k: (u64, u64)| #[trigger] self@.contains_key(k) implies seen.contains(
                k,
            ) by {
                assert(self.rm_has(k.0, k.1));
                assert(self.rm_id(k.0, k.1) < self.store@.len());
            }
            assert(seen =~= self@.dom());
        }
        out
    }
}

/// Duplicates a cell value: the copy has the same mathematical value.
fn clone_value(v: &SheetValue) -> (r: SheetValue)
    ensures
        r@ == v@,
{
    match v {
        SheetValue::Number(bits) => SheetValue::Number(*bits),
        SheetValue::Label(s) => SheetValue::Label(s.clone()),
    }
}

/// One mutation of a sheet, at the abstract level: what `add` and `del` do
/// to the cell map.
pub ghost enum SheetOp {
    Add { row: u64, col: u64, val: SheetValueV },
    Del { row: u64, col: u64 },
}

/// The effect of one operation on the cell map — exactly what the
/// `ensures` of `add` and `del` state.
pub open spec fn apply_op(
    m: Map<(u64, u64), SheetValueV>,
    op: SheetOp,
) -> Map<(u64, u64), SheetValueV> {
    match op {
        SheetOp::Add { row, col, val } => m.insert((row, col), val),
        SheetOp::Del { row, col } => m.remove((row, col)),
    }
}

/// The cell map after a whole sequence of operations, first to last.
pub open spec fn apply_ops(
    m: Map<(u64, u64), SheetValueV>,
    ops: Seq<SheetOp>,
) -> Map<(u64, u64), SheetValueV>
    decreases ops.len(),
{
    if ops.len() == 0 {
        m
    } else {
        apply_ops(apply_op(m, ops[0]), ops.drop_first())
    }
}

/// The value of the most recent add at `(r, c)` in `ops` that no later del
/// at `(r, c)` follows, if any.
pub open spec fn surviving_add(ops: Seq<SheetOp>, r: u64, c: u64) -> Option<SheetValueV>
    decreases ops.len(),
{
    if ops.len() == 0 {
        None
    } else {
        match ops.last() {
            SheetOp::Add { row, col, val } => if row == r && col == c {
                Some(val)
            } else {
                surviving_add(ops.drop_last(), r, c)
            },
            SheetOp::Del { row, col } => if row == r && col == c {
                None
            } else {
                surviving_add(ops.drop_last(), r, c)
            },
        }
    }
}

proof fn lemma_apply_ops_snoc(m: Map<(u64, u64), SheetValueV>, ops: Seq<SheetOp>, op: SheetOp)
    ensures
        apply_ops(m, ops.push(op)) == apply_op(apply_ops(m, ops), op),
    decreases ops.len(),
{
    if ops.len() == 0 {
        assert(ops.push(op).drop_first() =~= Seq::<SheetOp>::empty());
        assert(ops.push(op)[0] == op);
        assert(apply_ops(m, ops.push(op)) == apply_ops(apply_op(m, op), Seq::<SheetOp>::empty()));
        assert(apply_ops(apply_op(m, op), Seq::<SheetOp>::empty()) == apply_op(m, op));
        assert(apply_ops(m, ops) == m);
    } else {
        assert(ops.push(op)[0] == ops[0]);
        assert(ops.push(op).drop_first() =~= ops.drop_first().push(op));
        assert(apply_ops(m, ops.push(op)) == apply_ops(
            apply_op(m, ops[0]),
            ops.drop_first().push(op),
        ));
        assert(apply_ops(m, ops) == apply_ops(apply_op(m, ops[0]), ops.drop_first()));
        lemma_apply_ops_snoc(apply_op(m, ops[0]), ops.drop_first(), op);
    }
}

/// Index consistency: starting from an empty sheet, after any sequence of
/// adds and deletes a coordinate is occupied exactly when it has a
/// surviving add — a most recent add there that no later delete there
/// follows — and then holds that add's value; and the occupied coordinates
/// are exactly those with a surviving add, so their number is what
/// `cells()` returns the length of.
pub proof fn lemma_index_consistency(ops: Seq<SheetOp>, r: u64, c: u64)
    ensures
        apply_ops(Map::empty(), ops).contains_key((r, c)) <==> surviving_add(ops, r, c) is Some,
        surviving_add(ops, r, c) matches Some(v) ==> apply_ops(Map::empty(), ops)[(r, c)] == v,
    decreases ops.len(),
{
    if ops.len() > 0 {
        lemma_index_consistency(ops.drop_last(), r, c);
        assert(ops.drop_last().push(ops.last()) =~= ops);
        lemma_apply_ops_snoc(Map::empty(), ops.drop_last(), ops.last());
    }
}

/// Overwrite semantics: a second add at the same coordinate replaces the
/// value and leaves every other cell and the set of occupied coordinates
/// unchanged — the sheet ends as if only the second add had happened.
pub proof fn lemma_overwrite(
    m: Map<(u64, u64), SheetValueV>,
    k: (u64, u64),
    v1: SheetValueV,
    v2: SheetValueV,
)
    ensures
        m.insert(k, v1).insert(k, v2) == m.insert(k, v2),
{
    assert(m.insert(k, v1).insert(k, v2) =~= m.insert(k, v2));
}

/// Idempotent deletion: a del at an absent coordinate changes nothing —
/// together with the `ensures` of `del`, a no-op on the whole sheet state.
pub proof fn lemma_del_absent(m: Map<(u64, u64), SheetValueV>, k: (u64, u64))
    requires
        !m.contains_key(k),
    ensures
        m.remove(k) == m,
{
    assert(m.remove(k) =~= m);
}

} // verus!

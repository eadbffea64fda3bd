//! Sparse occupancy index of the grid: at most one occupant per cell.
use vstd::prelude::*;
use vstd::arithmetic::div_mod::lemma_fundamental_div_mod_converse;
use std::collections::HashMap;

use crate::node::{EntityId, InputSlot, OutputSlot};
use crate::position::Position;

verus! {

broadcast use vstd::std_specs::hash::group_hash_axioms;

/// Number of distinct `i32` values.
pub const SPAN: u64 = 4294967296;

/// Key of a cell in the underlying table: a bijection between `(i32, i32)` and `u64`.
pub open spec fn cell_key(p: (i32, i32)) -> int {
    (p.0 as int + 2147483648) * 4294967296 + (p.1 as int + 2147483648)
}

/// Distinct cells have distinct keys.
pub proof fn lemma_cell_key_injective(p: (i32, i32), q: (i32, i32))
    ensures
        cell_key(p) == cell_key(q) ==> p == q,
{
    if cell_key(p) == cell_key(q) {
        let k = cell_key(p);
        lemma_fundamental_div_mod_converse(k, 4294967296, p.0 as int + 2147483648, p.1 as int + 2147483648);
        lemma_fundamental_div_mod_converse(k, 4294967296, q.0 as int + 2147483648, q.1 as int + 2147483648);
    }
}

fn key_of(p: (i32, i32)) -> (k: u64)
    ensures
        k as int == cell_key(p),
{
    let a: u64 = (p.0 as i64 + 2147483648i64) as u64;
    let b: u64 = (p.1 as i64 + 2147483648i64) as u64;
    assert(a * 4294967296 <= 4294967295 * 4294967296) by (nonlinear_arith)
        requires a <= 4294967295;
    a * SPAN + b
}

/// Why a grid operation was refused.
#[derive(Clone, Copy, Debug, PartialEq, Eq, Structural)]
pub enum GridError {
    /// The target cell already has an occupant.
    Occupied,
    /// A node, or one of its slots, would land on an occupied cell.
    Collision,
}

/// The occupancy index, with the dimensions that bound pulse travel.
#[derive(Debug)]
pub struct Grid {
    pub dims: (i32, i32),
    /// Occupants by cell key (see `cell_key`).
    pub map: HashMap<u64, EntityId>,
}

/// Whether the cell with integer coordinates `(x, y)` exists and is occupied.
pub open spec fn cell_taken(m: Map<(i32, i32), EntityId>, x: int, y: int) -> bool {
    i32::MIN <= x <= i32::MAX && i32::MIN <= y <= i32::MAX && m.contains_key((x as i32, y as i32))
}

/// Whether a node at `pos`, with slots at the given offsets, meets an occupied cell.
pub open spec fn collides(
    m: Map<(i32, i32), EntityId>,
    pos: Position,
    inputs: Seq<Position>,
    outputs: Seq<Position>,
) -> bool {
    ||| cell_taken(m, pos.x as int, pos.y as int)
    ||| exists|i: int| 0 <= i < inputs.len() && cell_taken(m, pos.x + inputs[i].x, pos.y + inputs[i].y)
    ||| exists|i: int| 0 <= i < outputs.len() && cell_taken(m, pos.x + outputs[i].x, pos.y + outputs[i].y)
}

/// The offsets of input slot entities.
pub open spec fn input_offsets(s: Seq<InputSlot>) -> Seq<Position> {
    s.map_values(|e: InputSlot| e.slot.pos)
}

/// The offsets of output slot entities.
pub open spec fn output_offsets(s: Seq<OutputSlot>) -> Seq<Position> {
    s.map_values(|e: OutputSlot| e.slot.pos)
}

impl View for Grid {
    type V = Map<(i32, i32), EntityId>;

    open spec fn view(&self) -> Map<(i32, i32), EntityId> {
        Map::new(
            |p: (i32, i32)| self.map@.contains_key(cell_key(p) as u64),
            |p: (i32, i32)| self.map@[cell_key(p) as u64],
        )
    }
}

impl Grid {
    proof fn lemma_view_insert(old_map: Map<u64, EntityId>, new_map: Map<u64, EntityId>, p: (i32, i32), e: EntityId)
        requires
            new_map == old_map.insert(cell_key(p) as u64, e),
        ensures
            Map::new(|q: (i32, i32)| new_map.contains_key(cell_key(q) as u64), |q: (i32, i32)| new_map[cell_key(q) as u64])
                =~= Map::new(|q: (i32, i32)| old_map.contains_key(cell_key(q) as u64), |q: (i32, i32)| old_map[cell_key(q) as u64]).insert(p, e),
    {
        assert forall|q: (i32, i32)| #[trigger] cell_key(q) == cell_key(p) implies q == p by {
            lemma_cell_key_injective(p, q);
        }
        assert forall|q: (i32, i32)| cell_key(q) as u64 == cell_key(p) as u64 implies q == p by {
            assert(0 <= cell_key(q) < 18446744073709551616) by (nonlinear_arith)
                requires -2147483648 <= q.0 <= 2147483647, -2147483648 <= q.1 <= 2147483647, cell_key(q) == (q.0 as int + 2147483648) * 4294967296 + (q.1 as int + 2147483648);
            assert(0 <= cell_key(p) < 18446744073709551616) by (nonlinear_arith)
                requires -2147483648 <= p.0 <= 2147483647, -2147483648 <= p.1 <= 2147483647, cell_key(p) == (p.0 as int + 2147483648) * 4294967296 + (p.1 as int + 2147483648);
            lemma_cell_key_injective(p, q);
        }
    }

    proof fn lemma_view_remove(old_map: Map<u64, EntityId>, new_map: Map<u64, EntityId>, p: (i32, i32))
        requires
            new_map == old_map.remove(cell_key(p) as u64),
        ensures
            Map::new(|q: (i32, i32)| new_map.contains_key(cell_key(q) as u64), |q: (i32, i32)| new_map[cell_key(q) as u64])
                =~= Map::new(|q: (i32, i32)| old_map.contains_key(cell_key(q) as u64), |q: (i32, i32)| old_map[cell_key(q) as u64]).remove(p),
    {
        assert forall|q: (i32, i32)| cell_key(q) as u64 == cell_key(p) as u64 implies q == p by {
            assert(0 <= cell_key(q) < 18446744073709551616) by (nonlinear_arith)
                requires -2147483648 <= q.0 <= 2147483647, -2147483648 <= q.1 <= 2147483647, cell_key(q) == (q.0 as int + 2147483648) * 4294967296 + (q.1 as int + 2147483648);
            assert(0 <= cell_key(p) < 18446744073709551616) by (nonlinear_arith)
                requires -2147483648 <= p.0 <= 2147483647, -2147483648 <= p.1 <= 2147483647, cell_key(p) == (p.0 as int + 2147483648) * 4294967296 + (p.1 as int + 2147483648);
            lemma_cell_key_injective(p, q);
        }
    }

    /// An empty grid with the given dimensions.
    pub fn new(dims: (i32, i32)) -> (g: Grid)
        ensures
            g.dims == dims,
            g@ == Map::<(i32, i32), EntityId>::empty(),
    {
        let g = Grid { dims, map: HashMap::new() };
        assert(g@ =~= Map::<(i32, i32), EntityId>::empty());
        g
    }

    /// Places `entity` at `pos`; refused when the cell is taken, leaving the grid as it was.
    pub fn add_to_grid(&mut self, entity: EntityId, pos: (i32, i32)) -> (r: Result<(), GridError>)
        ensures
            final(self).dims == old(self).dims,
            r is Err <==> old(self)@.contains_key(pos),
            r is Err ==> r == Err::<(), GridError>(GridError::Occupied) && final(self)@ == old(self)@,
            r is Ok ==> final(self)@ == old(self)@.insert(pos, entity),
    {
        let k = key_of(pos);
        if self.map.contains_key(&k) {
            return Err(GridError::Occupied);
        }
        let ghost old_map = self.map@;
        self.map.insert(k, entity);
        proof {
            Self::lemma_view_insert(old_map, self.map@, pos, entity);
        }
        Ok(())
    }

    /// Frees the cell at `pos`; nothing happens when it is free already.
    pub fn remove_from_grid(&mut self, pos: (i32, i32))
        ensures
            final(self).dims == old(self).dims,
            final(self)@ == old(self)@.remove(pos),
    {
        let k = key_of(pos);
        let ghost old_map = self.map@;
        self.map.remove(&k);
        proof {
            Self::lemma_view_remove(old_map, self.map@, pos);
        }
    }

    /// Frees `pos`, then places `entity` at `npos`. When `npos` is taken, `pos` stays freed.
    pub fn move_entity(&mut self, entity: EntityId, pos: (i32, i32), npos: (i32, i32)) -> (r: Result<(), GridError>)
        ensures
            final(self).dims == old(self).dims,
            r is Err <==> old(self)@.remove(pos).contains_key(npos),
            r is Err ==> r == Err::<(), GridError>(GridError::Occupied) && final(self)@ == old(self)@.remove(pos),
            r is Ok ==> final(self)@ == old(self)@.remove(pos).insert(npos, entity),
    {
        self.remove_from_grid(pos);
        self.add_to_grid(entity, npos)
    }

    /// The occupant of `pos`, if any.
    pub fn get_entities(&self, pos: (i32, i32)) -> (r: Option<EntityId>)
        ensures
            r == (if self@.contains_key(pos) { Some(self@[pos]) } else { None::<EntityId> }),
    {
        let k = key_of(pos);
        match self.map.get(&k) {
            Some(e) => Some(*e),
            None => None,
        }
    }

    /// Whether `pos` has an occupant.
    pub fn occupied(&self, pos: (i32, i32)) -> (r: bool)
        ensures
            r == self@.contains_key(pos),
    {
        let k = key_of(pos);
        self.map.contains_key(&k)
    }

    fn taken_at(&self, x: i64, y: i64) -> (r: bool)
        ensures
            r == cell_taken(self@, x as int, y as int),
    {
        if x < i32::MIN as i64 || x > i32::MAX as i64 || y < i32::MIN as i64 || y > i32::MAX as i64 {
            return false;
        }
        self.occupied((x as i32, y as i32))
    }

    /// Refuses a placement where the node's cell, or the cell of any of its slots, is taken.
    /// The grid is not changed.
    pub fn check_collision(&self, pos: &Position, input_slots: &Vec<InputSlot>, output_slots: &Vec<OutputSlot>) -> (r: Result<(), GridError>)
        ensures
            r is Err <==> collides(self@, *pos, input_offsets(input_slots@), output_offsets(output_slots@)),
            r is Err ==> r == Err::<(), GridError>(GridError::Collision),
    {
        let ghost ins = input_offsets(input_slots@);
        let ghost outs = output_offsets(output_slots@);
        if self.taken_at(pos.x as i64, pos.y as i64) {
            return Err(GridError::Collision);
        }
        let mut i: usize = 0;
        while i < input_slots.len()
            invariant
                i <= input_slots@.len(),
                ins == input_offsets(input_slots@),
                forall|j: int| 0 <= j < i ==> !cell_taken(self@, pos.x + ins[j].x, pos.y + ins[j].y),
            decreases input_slots@.len() - i,
        {
            let off = input_slots[i].slot.pos;
            if self.taken_at(pos.x as i64 + off.x as i64, pos.y as i64 + off.y as i64) {
                assert(cell_taken(self@, pos.x + ins[i as int].x, pos.y + ins[i as int].y));
                return Err(GridError::Collision);
            }
            i = i + 1;
        }
        let mut j: usize = 0;
        while j < output_slots.len()
            invariant
                j <= output_slots@.len(),
                outs == output_offsets(output_slots@),
                forall|k: int| 0 <= k < j ==> !cell_taken(self@, pos.x + outs[k].x, pos.y + outs[k].y),
            decreases output_slots@.len() - j,
        {
            let off = output_slots[j].slot.pos;
            if self.taken_at(pos.x as i64 + off.x as i64, pos.y as i64 + off.y as i64) {
                assert(cell_taken(self@, pos.x + outs[j as int].x, pos.y + outs[j as int].y));
                return Err(GridError::Collision);
            }
            j = j + 1;
        }
        Ok(())
    }
}

impl Default for Grid {
    fn default() -> (g: Grid)
        ensures
            g.dims == (64i32, 64i32),
            g@ == Map::<(i32, i32), EntityId>::empty(),
    {
        Grid::new((64, 64))
    }
}

/// One operation on the occupancy index.
#[derive(Clone, Copy, Debug)]
pub enum GridOp {
    Add(EntityId, (i32, i32)),
    Remove((i32, i32)),
    Move(EntityId, (i32, i32), (i32, i32)),
}

/// The occupancy after `op`; a refused add or move leaves the target cell as it was.
pub open spec fn apply_op(m: Map<(i32, i32), EntityId>, op: GridOp) -> Map<(i32, i32), EntityId> {
    match op {
        GridOp::Add(e, p) => if m.contains_key(p) { m } else { m.insert(p, e) },
        GridOp::Remove(p) => m.remove(p),
        GridOp::Move(e, p, q) => if m.remove(p).contains_key(q) { m.remove(p) } else { m.remove(p).insert(q, e) },
    }
}

/// The occupancy after the operations `ops`, in order.
pub open spec fn run_ops(m: Map<(i32, i32), EntityId>, ops: Seq<GridOp>) -> Map<(i32, i32), EntityId>
    decreases ops.len(),
{
    if ops.len() == 0 {
        m
    } else {
        apply_op(run_ops(m, ops.drop_last()), ops.last())
    }
}

/// Whether `op` frees cell `p`.
pub open spec fn frees(op: GridOp, p: (i32, i32)) -> bool {
    match op {
        GridOp::Remove(q) => q == p,
        GridOp::Move(_, q, _) => q == p,
        GridOp::Add(_, _) => false,
    }
}

impl Grid {
    /// Carries out one operation.
    pub fn apply(&mut self, op: GridOp) -> (r: Result<(), GridError>)
        ensures
            final(self).dims == old(self).dims,
            final(self)@ == apply_op(old(self)@, op),
            r is Err <==> match op {
                GridOp::Add(_, p) => old(self)@.contains_key(p),
                GridOp::Remove(_) => false,
                GridOp::Move(_, p, q) => old(self)@.remove(p).contains_key(q),
            },
    {
        match op {
            GridOp::Add(e, p) => self.add_to_grid(e, p),
            GridOp::Remove(p) => {
                self.remove_from_grid(p);
                Ok(())
            },
            GridOp::Move(e, p, q) => self.move_entity(e, p, q),
        }
    }
}

/// Exclusivity of the grid: over any sequence of adds, removes and moves, the occupant
/// of a cell stays in place until an operation frees that cell; no add or move ever
/// displaces it.
pub proof fn lemma_grid_exclusive(m: Map<(i32, i32), EntityId>, ops: Seq<GridOp>, p: (i32, i32))
    requires
        m.contains_key(p),
        forall|i: int| 0 <= i < ops.len() ==> !frees(#[trigger] ops[i], p),
    ensures
        run_ops(m, ops).contains_key(p),
        run_ops(m, ops)[p] == m[p],
    decreases ops.len(),
{
    if ops.len() > 0 {
        assert forall|i: int| 0 <= i < ops.drop_last().len() implies !frees(#[trigger] ops.drop_last()[i], p) by {
            assert(ops.drop_last()[i] == ops[i]);
        }
        lemma_grid_exclusive(m, ops.drop_last(), p);
        assert(!frees(ops[ops.len() - 1], p));
    }
}

} // verus!

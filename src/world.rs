//! The entity store that nodes, slots and pulses live in, and the pulse simulation that
//! runs over it once per fixed tick.
use vstd::prelude::*;

use crate::dsp::{connected, AudioGraph, ChainError, Dsp, Oscillator};
use crate::grid::collides;
use crate::binding::{initialize_node, InitError, ScriptValue};
use crate::grid::Grid;
use crate::node::{
    construct_node_from_bp, copy_vec, create_default_components, describes_slot, get_lua_wave_handles, instance_of, AssetId, ChannelType, ColorPair, EntityId, GenericNode, InputSlot,
    LuaHandle, LuaType, NativeNode, Node, NodeBP, NodeData, NodeStatus, NodeType, NodeVarient, NotSetup, OutputSlot, Pulse,
    Slot, SlotData,
};
use crate::position::Position;

verus! {

/// Marks a node that takes part in audio: the index of its sub-chain in the chain table.
#[derive(Clone, Copy, Debug, PartialEq, Eq, Structural)]
pub struct AudioNode {
    pub idx: Option<usize>,
}

/// Sent when a pulse ends without extending a chain: the node and output slot it left.
#[derive(Clone, Copy, Debug, PartialEq, Eq, Structural)]
pub struct AudioNodeChangeEvent {
    pub entity: EntityId,
    pub slot_idx: usize,
}

/// The components of one entity. An entity id is its index in the store.
#[derive(Debug)]
pub enum Entity {
    /// Despawned.
    Vacant,
    Node { node: GenericNode, audio: Option<AudioNode>, blueprint: Option<NodeBP>, not_setup: Option<NotSetup> },
    Input { parent: EntityId, slot: InputSlot },
    Output { parent: EntityId, slot: OutputSlot },
    Pulse { node: GenericNode, pulse: Pulse },
}

/// Grid, entities and the chain table: everything the simulation reads and changes.
#[derive(Debug)]
pub struct World {
    pub grid: Grid,
    pub entities: Vec<Entity>,
    pub graph: AudioGraph,
}

/// Where one pulse step leads.
pub enum StepKind {
    /// Past the grid's bounds.
    Exit,
    /// Onto the cell of this occupant.
    Hit(EntityId),
    /// Onto this free cell.
    Move((i32, i32)),
}

/// The cell a pulse at `pos` moving by `dir` enters, or `None` when that lies beyond `dims`.
pub open spec fn step_target(dims: (i32, i32), pos: Position, dir: Position) -> Option<(i32, i32)> {
    let nx = pos.x + dir.x;
    let ny = pos.y + dir.y;
    if nx > dims.0 || nx < -dims.0 || ny > dims.1 || ny < -dims.1 {
        None
    } else {
        Some((nx as i32, ny as i32))
    }
}

/// One pulse step over the occupancy `m`.
pub open spec fn pulse_step(dims: (i32, i32), m: Map<(i32, i32), EntityId>, pos: Position, dir: Position) -> StepKind {
    match step_target(dims, pos, dir) {
        None => StepKind::Exit,
        Some(t) => if m.contains_key(t) { StepKind::Hit(m[t]) } else { StepKind::Move(t) },
    }
}

/// What one pulse did in a tick.
#[derive(Clone, Copy, Debug)]
pub enum PulseOutcome {
    /// Not a pulse: nothing happened.
    Skipped,
    /// Left the grid.
    Exited,
    /// Moved to the cell.
    Moved((i32, i32)),
    /// Struck an occupant that has no input role.
    Blocked(EntityId),
    /// Delivered its value to input slot `slot` of node `node`; when it linked an audio
    /// producer to a constant-signal input, how extending the chain went.
    Fed { node: EntityId, slot: usize, link: Option<Result<(), ChainError>> },
}

/// The node and input slot index behind occupant `o`, when `o` is an input slot of a node.
pub open spec fn input_target(ents: Seq<Entity>, o: EntityId) -> Option<(int, usize)> {
    if o < ents.len() && ents[o as int] is Input {
        let p = ents[o as int]->Input_parent;
        if p < ents.len() && ents[p as int] is Node {
            Some((p as int, ents[o as int]->Input_slot.idx))
        } else {
            None
        }
    } else {
        None
    }
}

/// `d2` is `d` with value `v` written to input slot `idx` (when there is one) and `idx`
/// recorded as updated.
pub open spec fn fed_data(d: NodeData, d2: NodeData, idx: usize, v: SlotData) -> bool {
    &&& d2.slot_data@ == (if idx < d.slot_data@.len() { d.slot_data@.update(idx as int, v) } else { d.slot_data@ })
    &&& d2.updated@ == d.updated@.push(idx)
    &&& d2.data == d.data
    &&& d2.output_slot_data == d.output_slot_data
    &&& d2.state == d.state
    &&& d2.commands == d.commands
}

/// The sub-chain index registered for entity `o`, if any.
pub open spec fn chain_index(ents: Seq<Entity>, o: EntityId) -> Option<usize> {
    if o < ents.len() && ents[o as int] is Node && ents[o as int]->Node_audio is Some {
        ents[o as int]->Node_audio->Some_0.idx
    } else {
        None
    }
}

/// Whether a pulse sent by a node named `sender` that reaches input `idx` of `target`
/// splices a stage into the sender's chain.
pub open spec fn links(target: Node, idx: usize, sender: NodeVarient) -> bool {
    &&& idx < target.slots@.len()
    &&& target.slots@[idx as int].signal_type == NodeType::SignalConst
    &&& sender is AudioProd
}

/// `w2` is `w` after pulse entity `e` took its step, which had outcome `out` and sent `ev`.
pub open spec fn stepped(w: World, w2: World, e: int, out: PulseOutcome, ev: Option<AudioNodeChangeEvent>) -> bool {
    &&& w2.grid.dims == w.grid.dims
    &&& w2.entities@.len() == w.entities@.len()
    &&& if 0 <= e < w.entities@.len() && w.entities@[e] is Pulse {
        let node = w.entities@[e]->Pulse_node;
        let pulse = w.entities@[e]->Pulse_pulse;
        let pos = node.node_of().pos;
        let here = (pos.x, pos.y);
        let gone = Some(AudioNodeChangeEvent { entity: pulse.original_entity, slot_idx: pulse.slot_idx });
        match pulse_step(w.grid.dims, w.grid@, pos, pulse.direction) {
            StepKind::Exit => {
                &&& out == PulseOutcome::Exited
                &&& ev == gone
                &&& w2.grid@ == w.grid@.remove(here)
                &&& w2.entities@ == w.entities@.update(e, Entity::Vacant)
                &&& w2.graph.chains@ == w.graph.chains@
            },
            StepKind::Move(t) => {
                &&& out == PulseOutcome::Moved(t)
                &&& ev is None
                &&& w2.grid@ == w.grid@.remove(here).insert(t, e as EntityId)
                &&& w2.entities@ == w.entities@.update(e, Entity::Pulse {
                    node: node.with_node(Node { pos: Position { x: t.0, y: t.1 }, ..node.node_of() }),
                    pulse,
                })
                &&& w2.graph.chains@ == w.graph.chains@
            },
            StepKind::Hit(o) => {
                &&& w2.grid@ == w.grid@.remove(here)
                &&& w2.entities@[e] is Vacant
                &&& match input_target(w.entities@, o) {
                    None => {
                        &&& out == PulseOutcome::Blocked(o)
                        &&& ev == gone
                        &&& w2.entities@ == w.entities@.update(e, Entity::Vacant)
                        &&& w2.graph.chains@ == w.graph.chains@
                    },
                    Some((p, idx)) => {
                        let pn = w.entities@[p]->Node_node;
                        let pn2 = w2.entities@[p]->Node_node;
                        &&& ev is None
                        &&& out is Fed
                        &&& out->Fed_node == p
                        &&& out->Fed_slot == idx
                        &&& forall|j: int| 0 <= j < w.entities@.len() && j != e && j != p ==> w2.entities@[j] == w.entities@[j]
                        &&& w2.entities@[p] is Node
                        &&& pn2 == pn.with_data(pn2.data_of())
                        &&& fed_data(pn.data_of(), pn2.data_of(), idx, node.data_of().data)
                        &&& w2.entities@[p]->Node_audio == w.entities@[p]->Node_audio
                        &&& w2.entities@[p]->Node_blueprint == w.entities@[p]->Node_blueprint
                        &&& w2.entities@[p]->Node_not_setup == w.entities@[p]->Node_not_setup
                        &&& if links(pn.node_of(), idx, node.node_of().name) {
                            &&& out->Fed_link is Some
                            &&& match chain_index(w.entities@, pulse.original_entity) {
                                Some(ci) => connected(w.graph.chains@, w2.graph.chains@, ci as int, pn.node_of().name, e as EntityId, out->Fed_link->Some_0),
                                None => {
                                    &&& out->Fed_link == Some(Err::<(), ChainError>(ChainError::MissingChain))
                                    &&& w2.graph.chains@ == w.graph.chains@
                                },
                            }
                        } else {
                            &&& out->Fed_link is None
                            &&& w2.graph.chains@ == w.graph.chains@
                        }
                    },
                }
            },
        }
    } else {
        &&& out == PulseOutcome::Skipped
        &&& ev is None
        &&& w2.grid@ == w.grid@
        &&& w2.entities@ == w.entities@
        &&& w2.graph.chains@ == w.graph.chains@
    }
}

impl World {
    /// An empty world over a grid of the given dimensions.
    pub fn new(dims: (i32, i32)) -> (w: World)
        ensures
            w.grid.dims == dims,
            w.grid@ == Map::<(i32, i32), EntityId>::empty(),
            w.entities@.len() == 0,
            w.graph.chains@.len() == 0,
    {
        World { grid: Grid::new(dims), entities: Vec::new(), graph: AudioGraph::new() }
    }

    /// Where a pulse at `pos` moving by `dir` goes next.
    fn next_cell(&self, pos: Position, dir: Position) -> (r: StepKind)
        ensures
            r == pulse_step(self.grid.dims, self.grid@, pos, dir),
    {
        let nx: i64 = pos.x as i64 + dir.x as i64;
        let ny: i64 = pos.y as i64 + dir.y as i64;
        let dx: i64 = self.grid.dims.0 as i64;
        let dy: i64 = self.grid.dims.1 as i64;
        if nx > dx || nx < -dx || ny > dy || ny < -dy {
            return StepKind::Exit;
        }
        let t = (nx as i32, ny as i32);
        match self.grid.get_entities(t) {
            Some(o) => StepKind::Hit(o),
            None => StepKind::Move(t),
        }
    }

    /// Writes `v` into input `idx` of node entity `p` and records the slot as updated.
    fn feed(&mut self, p: usize, idx: usize, v: SlotData)
        requires
            p < old(self).entities@.len(),
            old(self).entities@[p as int] is Node,
        ensures
            final(self).grid == old(self).grid,
            final(self).graph == old(self).graph,
            final(self).entities@.len() == old(self).entities@.len(),
            forall|j: int| 0 <= j < old(self).entities@.len() && j != p ==> final(self).entities@[j] == old(self).entities@[j],
            final(self).entities@[p as int] is Node,
            ({
                let pn = old(self).entities@[p as int]->Node_node;
                let pn2 = final(self).entities@[p as int]->Node_node;
                &&& pn2 == pn.with_data(pn2.data_of())
                &&& fed_data(pn.data_of(), pn2.data_of(), idx, v)
            }),
            final(self).entities@[p as int]->Node_audio == old(self).entities@[p as int]->Node_audio,
            final(self).entities@[p as int]->Node_blueprint == old(self).entities@[p as int]->Node_blueprint,
            final(self).entities@[p as int]->Node_not_setup == old(self).entities@[p as int]->Node_not_setup,
    {
        let ent = &mut self.entities[p];
        match ent {
            Entity::Node { node, .. } => {
                let d = node.get_data_mut();
                if idx < d.slot_data.len() {
                    d.slot_data.set(idx, v);
                }
                d.updated.push(idx);
            },
            _ => {},
        }
    }

    /// Advances pulse entity `e` by one step: it leaves the grid, strikes an occupant, or
    /// moves one cell. A pulse that ends is removed from the grid and despawned.
    pub fn step_pulse(&mut self, e: usize) -> (r: (PulseOutcome, Option<AudioNodeChangeEvent>))
        requires
            old(self).entities@.len() <= u64::MAX,
        ensures
            stepped(*old(self), *final(self), e as int, r.0, r.1),
    {
        if e >= self.entities.len() {
            return (PulseOutcome::Skipped, None);
        }
        let (pos, dir, pulse, carried, sender_is_prod) = match &self.entities[e] {
            Entity::Pulse { node, pulse } => (
                node.pos(),
                pulse.direction,
                *pulse,
                node.get_data().data,
                matches!(node.name(), NodeVarient::AudioProd),
            ),
            _ => {
                return (PulseOutcome::Skipped, None);
            },
        };
        let here = pos.to_tuple();
        let gone = AudioNodeChangeEvent { entity: pulse.original_entity, slot_idx: pulse.slot_idx };
        match self.next_cell(pos, dir) {
            StepKind::Exit => {
                self.grid.remove_from_grid(here);
                self.entities.set(e, Entity::Vacant);
                (PulseOutcome::Exited, Some(gone))
            },
            StepKind::Move(t) => {
                let _ = self.grid.move_entity(e as EntityId, here, t);
                let ghost old_ents = self.entities@;
                let ent = &mut self.entities[e];
                match ent {
                    Entity::Pulse { node, .. } => {
                        node.get_node_mut().pos = Position::new(t.0, t.1);
                    },
                    _ => {},
                }
                proof {
                    let n = old_ents[e as int]->Pulse_node;
                    assert(self.entities@ =~= old_ents.update(e as int, Entity::Pulse {
                        node: n.with_node(Node { pos: Position { x: t.0, y: t.1 }, ..n.node_of() }),
                        pulse,
                    }));
                }
                (PulseOutcome::Moved(t), None)
            },
            StepKind::Hit(o) => {
                let target = if o < self.entities.len() as u64 {
                    match &self.entities[o as usize] {
                        Entity::Input { parent, slot } => {
                            if *parent < self.entities.len() as u64 && matches!(self.entities[*parent as usize], Entity::Node { .. }) {
                                Some((*parent as usize, slot.idx))
                            } else {
                                None
                            }
                        },
                        _ => None,
                    }
                } else {
                    None
                };
                self.grid.remove_from_grid(here);
                self.entities.set(e, Entity::Vacant);
                match target {
                    None => (PulseOutcome::Blocked(o), Some(gone)),
                    Some((p, idx)) => {
                        let link_here = match &self.entities[p] {
                            Entity::Node { node, .. } => {
                                let n = node.get_node();
                                sender_is_prod && idx < n.slots.len() && matches!(n.slots[idx].signal_type, NodeType::SignalConst)
                            },
                            _ => false,
                        };
                        let link = if link_here {
                            let ci = self.chain_index_of(pulse.original_entity);
                            let name = match &self.entities[p] {
                                Entity::Node { node, .. } => node.name().clone_name(),
                                _ => NodeVarient::Unnamed,
                            };
                            match ci {
                                Some(ci) => Some(self.graph.connect(ci, &name, e as EntityId)),
                                None => Some(Err(ChainError::MissingChain)),
                            }
                        } else {
                            None
                        };
                        self.feed(p, idx, carried);
                        (PulseOutcome::Fed { node: p as EntityId, slot: idx, link }, None)
                    },
                }
            },
        }
    }

    /// The sub-chain index registered for entity `o`, if any.
    fn chain_index_of(&self, o: EntityId) -> (r: Option<usize>)
        ensures
            r == chain_index(self.entities@, o),
    {
        if o < self.entities.len() as u64 {
            match &self.entities[o as usize] {
                Entity::Node { audio: Some(a), .. } => a.idx,
                _ => None,
            }
        } else {
            None
        }
    }
}

/// Why a pulse could not be spawned.
#[derive(Clone, Copy, Debug, PartialEq, Eq, Structural)]
pub enum SpawnError {
    /// The entity is not a node.
    NotANode,
    /// The node has no output slot with that index.
    NoSuchSlot,
    /// The spawn cell lies outside the coordinate range.
    OutOfRange,
    /// The spawn cell is occupied.
    Occupied,
}

/// The cell a pulse leaving output slot `slot` of a node at `node_pos` starts on.
pub open spec fn pulse_origin(node_pos: Position, slot_pos: Position, dir: Position) -> (int, int) {
    (dir.x + node_pos.x + slot_pos.x, dir.y + node_pos.y + slot_pos.y)
}

/// Whether `g` is the built-in node that carries a pulse.
pub open spec fn is_pulse_node(g: GenericNode, pos: Position, name: NodeVarient, display: Seq<char>, ntype: Seq<NodeType>, data: SlotData) -> bool {
    &&& g is Native
    &&& g->Native_0.handles is None
    &&& g.node_of().name == name
    &&& g.node_of().display@ == display
    &&& g.node_of().pos == pos
    &&& g.node_of().ntype@ == ntype
    &&& g.node_of().slots@.len() == 0
    &&& g.node_of().output_slots@.len() == 0
    &&& g.data_of().data == data
    &&& g.data_of().state == NodeStatus::Active
    &&& g.data_of().slot_data@.len() == 0
    &&& g.data_of().updated@.len() == 0
}

/// A built-in node with the given identity and payload, active, with no slots.
pub fn construct_pulse_node(pos: Position, name: NodeVarient, display: String, ntype: Vec<NodeType>, data: SlotData) -> (r: GenericNode)
    ensures
        is_pulse_node(r, pos, name, display@, ntype@, data),
{
    let colors = ColorPair::default();
    GenericNode::Native(NativeNode {
        node: Node {
            name,
            display,
            pos,
            active: colors,
            inert: colors,
            inactive: colors,
            ntype,
            slots: Vec::new(),
            output_slots: Vec::new(),
        },
        data: NodeData {
            data,
            slot_data: Vec::new(),
            output_slot_data: Vec::new(),
            updated: Vec::new(),
            state: NodeStatus::Active,
            commands: Vec::new(),
        },
        handles: None,
    })
}

/// The start cell of a pulse leaving output `slot_idx` of `node` in direction `pos`,
/// or `None` when it lies outside the coordinate range.
pub fn calculate_grid_pos(node: &GenericNode, slot_idx: usize, pos: Position) -> (r: Option<Position>)
    requires
        slot_idx < node.node_of().output_slots@.len(),
    ensures
        ({
            let c = pulse_origin(node.node_of().pos, node.node_of().output_slots@[slot_idx as int].pos, pos);
            match r {
                Some(p) => p.x == c.0 && p.y == c.1,
                None => !(i32::MIN <= c.0 <= i32::MAX && i32::MIN <= c.1 <= i32::MAX),
            }
        }),
{
    let n = node.get_node();
    let s = n.output_slots[slot_idx].pos;
    let x: i64 = pos.x as i64 + n.pos.x as i64 + s.x as i64;
    let y: i64 = pos.y as i64 + n.pos.y as i64 + s.y as i64;
    if x < i32::MIN as i64 || x > i32::MAX as i64 || y < i32::MIN as i64 || y > i32::MAX as i64 {
        None
    } else {
        Some(Position::new(x as i32, y as i32))
    }
}

impl World {
    /// Fires output slot `ev.slot_idx` of node `ev.entity`: when that slot is a realtime
    /// link, a pulse starts one step out from the slot, heading the slot's way, and its
    /// id is returned; other slots send nothing.
    pub fn spawn_audio_pulse(&mut self, ev: AudioNodeChangeEvent) -> (r: Result<Option<EntityId>, SpawnError>)
        requires
            old(self).entities@.len() < u64::MAX,
        ensures
            spawned(*old(self), *final(self), ev, r),
    {
        if ev.entity >= self.entities.len() as u64 {
            return Err(SpawnError::NotANode);
        }
        let start = match &self.entities[ev.entity as usize] {
            Entity::Node { node, .. } => {
                let n = node.get_node();
                if ev.slot_idx >= n.output_slots.len() {
                    return Err(SpawnError::NoSuchSlot);
                }
                let slot = n.output_slots[ev.slot_idx];
                if !matches!(slot.signal_type, NodeType::SignalLink) {
                    return Ok(None);
                }
                match calculate_grid_pos(node, ev.slot_idx, slot.direction) {
                    Some(p) => (p, slot.direction),
                    None => {
                        return Err(SpawnError::OutOfRange);
                    },
                }
            },
            _ => {
                return Err(SpawnError::NotANode);
            },
        };
        let (p, direction) = start;
        let id = self.entities.len() as u64;
        if self.grid.add_to_grid(id, p.to_tuple()).is_err() {
            return Err(SpawnError::Occupied);
        }
        let mut ntype: Vec<NodeType> = Vec::new();
        ntype.push(NodeType::Prod);
        let display = pulse_label();
        let node = construct_pulse_node(p, NodeVarient::AudioProd, display, ntype, SlotData::Bang(true));
        self.entities.push(Entity::Pulse {
            node,
            pulse: Pulse { slot_idx: ev.slot_idx, direction, original_entity: ev.entity },
        });
        assert(self.entities@.drop_last() =~= old(self).entities@);
        Ok(Some(id))
    }

    /// Fires each event's output slot in turn (see `spawn_audio_pulse`).
    pub fn spawn_audio_pulses(&mut self, evs: &Vec<AudioNodeChangeEvent>) -> (r: Vec<Result<Option<EntityId>, SpawnError>>)
        requires
            old(self).entities@.len() + evs@.len() < u64::MAX,
        ensures
            r@.len() == evs@.len(),
            exists|trace: Seq<World>| {
                &&& trace.len() == evs@.len() + 1
                &&& trace[0] == *old(self)
                &&& trace.last() == *final(self)
                &&& forall|i: int| 0 <= i < evs@.len() ==> #[trigger] spawned(trace[i], trace[i + 1], evs@[i], r@[i])
            },
    {
        let mut out: Vec<Result<Option<EntityId>, SpawnError>> = Vec::new();
        let ghost mut trace: Seq<World> = seq![*self];
        let mut i: usize = 0;
        while i < evs.len()
            invariant
                i <= evs@.len(),
                out@.len() == i,
                trace.len() == i + 1,
                trace[0] == *old(self),
                trace.last() == *self,
                self.entities@.len() <= old(self).entities@.len() + i,
                old(self).entities@.len() + evs@.len() < u64::MAX,
                forall|j: int| 0 <= j < i ==> #[trigger] spawned(trace[j], trace[j + 1], evs@[j], out@[j]),
            decreases evs@.len() - i,
        {
            let r = self.spawn_audio_pulse(evs[i]);
            out.push(r);
            proof {
                trace = trace.push(*self);
            }
            i = i + 1;
        }
        out
    }

    /// Runs one tick: every pulse takes its step, in entity order. Returns what each
    /// entity did, and the events sent.
    pub fn tick_pulses(&mut self) -> (r: (Vec<PulseOutcome>, Vec<AudioNodeChangeEvent>))
        requires
            old(self).entities@.len() <= u64::MAX,
        ensures
            r.0@.len() == old(self).entities@.len(),
            exists|trace: Seq<World>, evs: Seq<Option<AudioNodeChangeEvent>>| {
                &&& trace.len() == r.0@.len() + 1
                &&& evs.len() == r.0@.len()
                &&& trace[0] == *old(self)
                &&& trace.last() == *final(self)
                &&& (forall|i: int| 0 <= i < r.0@.len() ==> #[trigger] stepped(trace[i], trace[i + 1], i, r.0@[i], evs[i]))
                &&& r.1@ == some_events(evs)
            },
    {
        let n = self.entities.len();
        let mut outs: Vec<PulseOutcome> = Vec::new();
        let mut evs: Vec<AudioNodeChangeEvent> = Vec::new();
        let ghost mut trace: Seq<World> = seq![*self];
        let ghost mut gevs: Seq<Option<AudioNodeChangeEvent>> = seq![];
        let mut e: usize = 0;
        while e < n
            invariant
                e <= n,
                n == old(self).entities@.len(),
                self.entities@.len() == n,
                outs@.len() == e,
                trace.len() == e + 1,
                gevs.len() == e,
                trace[0] == *old(self),
                trace.last() == *self,
                forall|i: int| 0 <= i < e ==> #[trigger] stepped(trace[i], trace[i + 1], i, outs@[i], gevs[i]),
                evs@ == some_events(gevs),
            decreases n - e,
        {
            let ghost g0 = gevs;
            let ghost evs0 = evs@;
            let (o, ev) = self.step_pulse(e);
            outs.push(o);
            match ev {
                Some(x) => evs.push(x),
                None => {},
            }
            proof {
                trace = trace.push(*self);
                gevs = gevs.push(ev);
                assert(gevs.drop_last() =~= g0);
                match ev {
                    Some(x) => assert(evs@ =~= evs0 + seq![x]),
                    None => assert(evs@ =~= evs0 + Seq::<AudioNodeChangeEvent>::empty()),
                }
            }
            e = e + 1;
        }
        (outs, evs)
    }
}

/// The events that were sent, in order.
pub open spec fn some_events(evs: Seq<Option<AudioNodeChangeEvent>>) -> Seq<AudioNodeChangeEvent>
    decreases evs.len(),
{
    if evs.len() == 0 {
        seq![]
    } else {
        some_events(evs.drop_last()) + match evs.last() {
            Some(x) => seq![x],
            None => seq![],
        }
    }
}

/// `w2` is `w` after output slot `ev.slot_idx` of node `ev.entity` fired, with result `r`.
pub open spec fn spawned(w: World, w2: World, ev: AudioNodeChangeEvent, r: Result<Option<EntityId>, SpawnError>) -> bool {
    &&& (w2.grid.dims == w.grid.dims)
    &&& (w2.graph == w.graph)
    &&& (!(ev.entity < w.entities@.len() && w.entities@[ev.entity as int] is Node)
        ==> r == Err::<Option<EntityId>, SpawnError>(SpawnError::NotANode))
    &&& (r is Err || r == Ok::<Option<EntityId>, SpawnError>(None) ==> w2.grid@ == w.grid@ && w2.entities@ == w.entities@)
    &&& (ev.entity < w.entities@.len() && w.entities@[ev.entity as int] is Node ==> {
        let node = w.entities@[ev.entity as int]->Node_node;
        let outs = node.node_of().output_slots@;
        if ev.slot_idx >= outs.len() {
            r == Err::<Option<EntityId>, SpawnError>(SpawnError::NoSuchSlot)
        } else if outs[ev.slot_idx as int].signal_type != NodeType::SignalLink {
            r == Ok::<Option<EntityId>, SpawnError>(None)
        } else {
            let slot = outs[ev.slot_idx as int];
            let c = pulse_origin(node.node_of().pos, slot.pos, slot.direction);
            let cell = (c.0 as i32, c.1 as i32);
            if !(i32::MIN <= c.0 <= i32::MAX && i32::MIN <= c.1 <= i32::MAX) {
                r == Err::<Option<EntityId>, SpawnError>(SpawnError::OutOfRange)
            } else if w.grid@.contains_key(cell) {
                r == Err::<Option<EntityId>, SpawnError>(SpawnError::Occupied)
            } else {
                let id = w.entities@.len();
                &&& r == Ok::<Option<EntityId>, SpawnError>(Some(id as EntityId))
                &&& w2.grid@ == w.grid@.insert(cell, id as EntityId)
                &&& w2.entities@.len() == id + 1
                &&& w2.entities@.drop_last() == w.entities@
                &&& w2.entities@[id as int] is Pulse
                &&& w2.entities@[id as int]->Pulse_pulse == (Pulse {
                    slot_idx: ev.slot_idx,
                    direction: slot.direction,
                    original_entity: ev.entity,
                })
                &&& is_pulse_node(w2.entities@[id as int]->Pulse_node, Position { x: cell.0, y: cell.1 },
                    NodeVarient::AudioProd, seq!['D'], seq![NodeType::Prod], SlotData::Bang(true))
            }
        }
    })
}

/// The label shown on a pulse.
fn pulse_label() -> (r: String)
    ensures
        r@ == seq!['D'],
{
    proof { reveal_strlit("D"); }
    let r = "D".to_string();
    assert(r@ =~= seq!['D']);
    r
}

/// Why a node could not be placed.
#[derive(Clone, Copy, Debug, PartialEq, Eq, Structural)]
pub enum InsertError {
    /// No set-up blueprint has that name.
    NoBlueprint,
    /// The node's cell, or a slot's cell, is occupied.
    Collision,
    /// A slot's cell lies outside the coordinate range.
    OutOfRange,
    /// Two of the node's cells coincide.
    Overlap,
}

/// The offsets of declared slots.
pub open spec fn slot_offsets(s: Seq<Slot>) -> Seq<Position> {
    s.map_values(|x: Slot| x.pos)
}

/// Whether entity `i` is a set-up blueprint named `name`.
pub open spec fn is_blueprint_named(ents: Seq<Entity>, i: int, name: Seq<char>) -> bool {
    &&& ents[i] is Node
    &&& ents[i]->Node_blueprint is Some
    &&& ents[i]->Node_not_setup is None
    &&& ents[i]->Node_node.node_of().name.name_spec() == name
}

/// The first set-up blueprint named `name`.
#[verifier::opaque]
pub open spec fn find_blueprint(ents: Seq<Entity>, name: Seq<char>) -> Option<int> {
    if exists|i: int| 0 <= i < ents.len() && is_blueprint_named(ents, i, name) {
        Some(choose|i: int| 0 <= i < ents.len() && is_blueprint_named(ents, i, name)
            && forall|j: int| 0 <= j < i ==> !is_blueprint_named(ents, j, name))
    } else {
        None
    }
}

/// The cell at offset `off` from `pos`.
pub open spec fn cell_at(pos: Position, off: Position) -> (int, int) {
    (pos.x + off.x, pos.y + off.y)
}

/// Whether every cell of `s` fits the coordinate range.
pub open spec fn offsets_fit(pos: Position, s: Seq<Position>) -> bool {
    forall|i: int| 0 <= i < s.len() ==> {
        let c = #[trigger] cell_at(pos, s[i]);
        i32::MIN <= c.0 <= i32::MAX && i32::MIN <= c.1 <= i32::MAX
    }
}

/// The cells a node at `pos` takes: its own, then its inputs', then its outputs'.
pub open spec fn node_cells(pos: Position, ins: Seq<Position>, outs: Seq<Position>) -> Seq<(i32, i32)> {
    seq![(pos.x, pos.y)] + ins.map_values(|o: Position| ((pos.x + o.x) as i32, (pos.y + o.y) as i32))
        + outs.map_values(|o: Position| ((pos.x + o.x) as i32, (pos.y + o.y) as i32))
}

/// Whether no two entries of `c` are equal.
pub open spec fn cells_distinct(c: Seq<(i32, i32)>) -> bool {
    forall|i: int, j: int| 0 <= i < j < c.len() ==> c[i] != c[j]
}

/// The events announcing each realtime-link output of node `id`, in slot order.
pub open spec fn link_events(id: EntityId, outs: Seq<Slot>) -> Seq<AudioNodeChangeEvent>
    decreases outs.len(),
{
    if outs.len() == 0 {
        seq![]
    } else if outs.last().signal_type == NodeType::SignalLink {
        link_events(id, outs.drop_last()).push(AudioNodeChangeEvent { entity: id, slot_idx: (outs.len() - 1) as usize })
    } else {
        link_events(id, outs.drop_last())
    }
}

/// Whether every distinct cell of `c` is free in `m`.
pub open spec fn all_free(m: Map<(i32, i32), EntityId>, c: Seq<(i32, i32)>) -> bool {
    forall|i: int| 0 <= i < c.len() ==> !m.contains_key(#[trigger] c[i])
}

/// The cells a node at `pos` with the given slots takes, or `None` when one lies outside
/// the coordinate range.
fn placement_cells(pos: Position, ins: &Vec<InputSlot>, outs: &Vec<OutputSlot>) -> (r: Option<Vec<(i32, i32)>>)
    ensures
        ({
            let io = crate::grid::input_offsets(ins@);
            let oo = crate::grid::output_offsets(outs@);
            match r {
                Some(c) => offsets_fit(pos, io) && offsets_fit(pos, oo) && c@ == node_cells(pos, io, oo),
                None => !(offsets_fit(pos, io) && offsets_fit(pos, oo)),
            }
        }),
{
    let ghost io = crate::grid::input_offsets(ins@);
    let ghost oo = crate::grid::output_offsets(outs@);
    let mut c: Vec<(i32, i32)> = Vec::new();
    c.push((pos.x, pos.y));
    let mut i: usize = 0;
    while i < ins.len()
        invariant
            i <= ins@.len(),
            io == crate::grid::input_offsets(ins@),
            offsets_fit(pos, io.subrange(0, i as int)),
            c@ == seq![(pos.x, pos.y)] + io.subrange(0, i as int).map_values(|o: Position| ((pos.x + o.x) as i32, (pos.y + o.y) as i32)),
        decreases ins@.len() - i,
    {
        let o = ins[i].slot.pos;
        let x: i64 = pos.x as i64 + o.x as i64;
        let y: i64 = pos.y as i64 + o.y as i64;
        if x < i32::MIN as i64 || x > i32::MAX as i64 || y < i32::MIN as i64 || y > i32::MAX as i64 {
            assert(!offsets_fit(pos, io)) by {
                assert(cell_at(pos, io[i as int]) == (x as int, y as int));
            }
            return None;
        }
        c.push((x as i32, y as i32));
        i = i + 1;
        assert(c@ =~= seq![(pos.x, pos.y)] + io.subrange(0, i as int).map_values(|o: Position| ((pos.x + o.x) as i32, (pos.y + o.y) as i32)));
        assert forall|k: int| 0 <= k < i implies {
            let cc = #[trigger] cell_at(pos, io.subrange(0, i as int)[k]);
            i32::MIN <= cc.0 <= i32::MAX && i32::MIN <= cc.1 <= i32::MAX
        } by {
            if k < i - 1 {
                assert(io.subrange(0, i as int)[k] == io.subrange(0, i - 1)[k]);
            }
        }
    }
    assert(io.subrange(0, i as int) =~= io);
    let ghost c1 = c@;
    let mut j: usize = 0;
    while j < outs.len()
        invariant
            j <= outs@.len(),
            oo == crate::grid::output_offsets(outs@),
            offsets_fit(pos, oo.subrange(0, j as int)),
            c@ == c1 + oo.subrange(0, j as int).map_values(|o: Position| ((pos.x + o.x) as i32, (pos.y + o.y) as i32)),
        decreases outs@.len() - j,
    {
        let o = outs[j].slot.pos;
        let x: i64 = pos.x as i64 + o.x as i64;
        let y: i64 = pos.y as i64 + o.y as i64;
        if x < i32::MIN as i64 || x > i32::MAX as i64 || y < i32::MIN as i64 || y > i32::MAX as i64 {
            assert(!offsets_fit(pos, oo)) by {
                assert(cell_at(pos, oo[j as int]) == (x as int, y as int));
            }
            return None;
        }
        c.push((x as i32, y as i32));
        j = j + 1;
        assert(c@ =~= c1 + oo.subrange(0, j as int).map_values(|o: Position| ((pos.x + o.x) as i32, (pos.y + o.y) as i32)));
        assert forall|k: int| 0 <= k < j implies {
            let cc = #[trigger] cell_at(pos, oo.subrange(0, j as int)[k]);
            i32::MIN <= cc.0 <= i32::MAX && i32::MIN <= cc.1 <= i32::MAX
        } by {
            if k < j - 1 {
                assert(oo.subrange(0, j as int)[k] == oo.subrange(0, j - 1)[k]);
            }
        }
    }
    assert(oo.subrange(0, j as int) =~= oo);
    Some(c)
}

/// Whether no two of `cells` coincide.
fn distinct_cells(cells: &Vec<(i32, i32)>) -> (r: bool)
    ensures
        r == cells_distinct(cells@),
{
    let mut scratch = Grid::new((0, 0));
    let mut k: usize = 0;
    while k < cells.len()
        invariant
            k <= cells@.len(),
            cells_distinct(cells@.subrange(0, k as int)),
            forall|c: (i32, i32)| scratch@.contains_key(c) <==> exists|i: int| 0 <= i < k && cells@[i] == c,
        decreases cells@.len() - k,
    {
        if scratch.add_to_grid(0, cells[k]).is_err() {
            let ghost i = choose|i: int| 0 <= i < k && cells@[i] == cells@[k as int];
            assert(!cells_distinct(cells@)) by {
                assert(cells@[i] == cells@[k as int]);
            }
            return false;
        }
        k = k + 1;
        assert forall|c: (i32, i32)| scratch@.contains_key(c) <==> exists|i: int| 0 <= i < k && cells@[i] == c by {
            if scratch@.contains_key(c) && c != cells@[k - 1] {
                let i = choose|i: int| 0 <= i < k - 1 && cells@[i] == c;
                assert(0 <= i < k && cells@[i] == c);
            }
            if c == cells@[k - 1] {
                assert(cells@[k - 1] == c);
            }
        }
        assert forall|a: int, b: int| 0 <= a < b < k implies cells@.subrange(0, k as int)[a] != cells@.subrange(0, k as int)[b] by {
            if b < k - 1 {
                assert(cells@.subrange(0, k - 1)[a] != cells@.subrange(0, k - 1)[b]);
            } else {
                if cells@[a] == cells@[b] {
                    assert(scratch@.contains_key(cells@[a]));
                }
            }
        }
    }
    assert(cells@.subrange(0, k as int) =~= cells@);
    true
}

/// Free cells that fit the coordinate range are exactly what a node needs when no
/// collision was found.
proof fn lemma_free_cells(m: Map<(i32, i32), EntityId>, pos: Position, io: Seq<Position>, oo: Seq<Position>)
    requires
        !collides(m, pos, io, oo),
        offsets_fit(pos, io),
        offsets_fit(pos, oo),
    ensures
        all_free(m, node_cells(pos, io, oo)),
{
    let c = node_cells(pos, io, oo);
    assert forall|i: int| 0 <= i < c.len() implies !m.contains_key(#[trigger] c[i]) by {
        if i == 0 {
        } else if i < 1 + io.len() {
            let k = i - 1;
            assert(c[i] == ((pos.x + io[k].x) as i32, (pos.y + io[k].y) as i32));
            assert(i32::MIN <= cell_at(pos, io[k]).0 <= i32::MAX && i32::MIN <= cell_at(pos, io[k]).1 <= i32::MAX);
            assert(!crate::grid::cell_taken(m, pos.x + io[k].x, pos.y + io[k].y));
        } else {
            let k = i - 1 - io.len();
            assert(c[i] == ((pos.x + oo[k].x) as i32, (pos.y + oo[k].y) as i32));
            assert(i32::MIN <= cell_at(pos, oo[k]).0 <= i32::MAX && i32::MIN <= cell_at(pos, oo[k]).1 <= i32::MAX);
            assert(!crate::grid::cell_taken(m, pos.x + oo[k].x, pos.y + oo[k].y));
        }
    }
}

impl World {
    /// The first set-up blueprint named `name`.
    fn find_blueprint_index(&self, name: &String) -> (r: Option<usize>)
        ensures
            r is Some ==> r->Some_0 < self.entities@.len() && is_blueprint_named(self.entities@, r->Some_0 as int, name@),
            match find_blueprint(self.entities@, name@) {
                Some(i) => r is Some && r->Some_0 as int == i,
                None => r is None,
            },
    {
        reveal(find_blueprint);
        let mut i: usize = 0;
        while i < self.entities.len()
            invariant
                i <= self.entities@.len(),
                forall|j: int| 0 <= j < i ==> !is_blueprint_named(self.entities@, j, name@),
            decreases self.entities@.len() - i,
        {
            let hit = match &self.entities[i] {
                Entity::Node { node, blueprint: Some(_), not_setup: None, .. } => node.name().to_name() == *name,
                _ => false,
            };
            if hit {
                proof {
                    reveal(find_blueprint);
                    assert(is_blueprint_named(self.entities@, i as int, name@));
                    let c = choose|c: int| 0 <= c < self.entities@.len() && is_blueprint_named(self.entities@, c, name@)
                        && forall|j: int| 0 <= j < c ==> !is_blueprint_named(self.entities@, j, name@);
                    assert(c == i as int);
                }
                return Some(i);
            }
            i = i + 1;
        }
        proof {
            reveal(find_blueprint);
        }
        None
    }

    /// Spawns `t_node` and its slot entities on the free, distinct `cells`: the node on the
    /// first, then the inputs, then the outputs, with ids following one another.
    fn place_node(&mut self, t_node: GenericNode, ins: &Vec<InputSlot>, outs: &Vec<OutputSlot>, cells: &Vec<(i32, i32)>)
        requires
            cells@.len() == 1 + ins@.len() + outs@.len(),
            cells_distinct(cells@),
            all_free(old(self).grid@, cells@),
        ensures
            ({
                let id = old(self).entities@.len();
                let cs = cells@;
                let nin = ins@.len();
                &&& final(self).grid.dims == old(self).grid.dims
                &&& final(self).graph == old(self).graph
                &&& final(self).entities@.len() == id + cs.len()
                &&& final(self).entities@.subrange(0, id as int) == old(self).entities@
                &&& final(self).entities@[id as int] == (Entity::Node { node: t_node, audio: None, blueprint: None, not_setup: None })
                &&& forall|k: int| 0 <= k < cs.len() ==> final(self).grid@.contains_key(#[trigger] cs[k]) && final(self).grid@[cs[k]] == id + k
                &&& forall|c: (i32, i32)| #[trigger] final(self).grid@.contains_key(c) <==> old(self).grid@.contains_key(c) || cs.contains(c)
                &&& forall|c: (i32, i32)| old(self).grid@.contains_key(c) ==> #[trigger] final(self).grid@[c] == old(self).grid@[c]
                &&& forall|i: int| 0 <= i < nin ==> #[trigger] final(self).entities@[id + 1 + i] == (Entity::Input { parent: id as EntityId, slot: ins@[i] })
                &&& forall|i: int| 0 <= i < outs@.len() ==> #[trigger] final(self).entities@[id + 1 + nin + i] == (Entity::Output { parent: id as EntityId, slot: outs@[i] })
            }),
    {
        let id = self.entities.len();
        let nin = ins.len();
        let nout = outs.len();
        let ghost cs = cells@;
        let ghost g0 = self.grid@;
        let ghost e0 = self.entities@;
        let ghost tn = t_node;
        let mut t_slot = Some(t_node);
        let mut k: usize = 0;
        while k < cells.len()
            invariant
                k <= cells@.len(),
                cs == cells@,
                cs.len() == 1 + nin + nout,
                nin == ins@.len(),
                nout == outs@.len(),
                cells_distinct(cs),
                all_free(g0, cs),
                id == e0.len(),
                self.entities@.len() == id + k,
                self.entities@.subrange(0, id as int) == e0,
                self.grid.dims == old(self).grid.dims,
                self.graph == old(self).graph,
                g0 == old(self).grid@,
                e0 == old(self).entities@,
                k == 0 ==> t_slot == Some(tn),
                k > 0 ==> self.entities@[id as int] == (Entity::Node { node: tn, audio: None, blueprint: None, not_setup: None }),
                forall|i: int| 0 <= i < k ==> self.grid@.contains_key(#[trigger] cs[i]) && self.grid@[cs[i]] == id + i,
                forall|c: (i32, i32)| #[trigger] self.grid@.contains_key(c) <==> g0.contains_key(c) || exists|i: int| 0 <= i < k && cs[i] == c,
                forall|c: (i32, i32)| g0.contains_key(c) ==> #[trigger] self.grid@[c] == g0[c],
                forall|i: int| 0 <= i < nin && 1 + i < k ==> {
                    let ent = #[trigger] self.entities@[id + 1 + i];
                    ent == Entity::Input { parent: id as EntityId, slot: ins@[i] }
                },
                forall|i: int| 0 <= i < nout && 1 + nin + i < k ==> {
                    let ent = #[trigger] self.entities@[id + 1 + nin + i];
                    ent == Entity::Output { parent: id as EntityId, slot: outs@[i] }
                },
            decreases cells@.len() - k,
        {
            let eid = self.entities.len() as EntityId;
            if k == 0 {
                let n = t_slot.take().unwrap();
                self.entities.push(Entity::Node { node: n, audio: None, blueprint: None, not_setup: None });
            } else if k <= nin {
                self.entities.push(Entity::Input { parent: id as EntityId, slot: InputSlot { idx: ins[k - 1].idx, slot: ins[k - 1].slot.copy() } });
            } else {
                self.entities.push(Entity::Output { parent: id as EntityId, slot: OutputSlot { idx: outs[k - 1 - nin].idx, slot: outs[k - 1 - nin].slot.copy() } });
            }
            assert(!self.grid@.contains_key(cs[k as int])) by {
                if self.grid@.contains_key(cs[k as int]) {
                    if !g0.contains_key(cs[k as int]) {
                        let i = choose|i: int| 0 <= i < k && cs[i] == cs[k as int];
                        assert(cs[i] != cs[k as int]);
                    }
                }
            }
            let _ = self.grid.add_to_grid(eid, cells[k]);
            k = k + 1;
            assert(self.entities@.subrange(0, id as int) =~= e0);
            assert forall|c: (i32, i32)| #[trigger] self.grid@.contains_key(c) <==> g0.contains_key(c) || exists|i: int| 0 <= i < k && cs[i] == c by {
                if c == cs[k - 1] {
                    assert(cs[k - 1] == c);
                } else if self.grid@.contains_key(c) && !g0.contains_key(c) {
                    let i = choose|i: int| 0 <= i < k - 1 && cs[i] == c;
                    assert(0 <= i < k && cs[i] == c);
                }
            }
            assert forall|c: (i32, i32)| g0.contains_key(c) implies #[trigger] self.grid@[c] == g0[c] by {
                assert(c != cs[k - 1]) by {
                    assert(!g0.contains_key(cs[k - 1]));
                }
            }
        }
        proof {
            assert forall|c: (i32, i32)| #[trigger] self.grid@.contains_key(c) <==> g0.contains_key(c) || cs.contains(c) by {
                if cs.contains(c) {
                    let i = choose|i: int| 0 <= i < cs.len() && cs[i] == c;
                    assert(self.grid@.contains_key(cs[i]));
                }
                if self.grid@.contains_key(c) && !g0.contains_key(c) {
                    let i = choose|i: int| 0 <= i < k && cs[i] == c;
                    assert(cs.contains(c));
                }
            }
        }
    }

    /// Registers a chain stage for each realtime-link output of node `id` (an oscillator
    /// for a pulse instrument, an output stage for an audio output, none otherwise), records
    /// the last sub-chain index on the node, and returns one event per such output.
    fn register_audio(&mut self, id: usize) -> (evs: Vec<AudioNodeChangeEvent>)
        requires
            id < old(self).entities@.len(),
            old(self).entities@[id as int] is Node,
        ensures
            final(self).grid == old(self).grid,
            final(self).entities@.len() == old(self).entities@.len(),
            forall|j: int| 0 <= j < old(self).entities@.len() && j != id ==> final(self).entities@[j] == old(self).entities@[j],
            final(self).entities@[id as int] is Node,
            final(self).entities@[id as int]->Node_node == old(self).entities@[id as int]->Node_node,
            final(self).entities@[id as int]->Node_blueprint == old(self).entities@[id as int]->Node_blueprint,
            final(self).entities@[id as int]->Node_not_setup == old(self).entities@[id as int]->Node_not_setup,
            evs@ == link_events(id as EntityId, old(self).entities@[id as int]->Node_node.node_of().output_slots@),
            final(self).graph.chains@.subrange(0, old(self).graph.chains@.len() as int) == old(self).graph.chains@,
    {
        let ghost gn = self.entities@[id as int]->Node_node;
        let (outs, name, waves) = match &self.entities[id] {
            Entity::Node { node, .. } => (copy_vec(&node.get_node().output_slots), node.name().clone_name(), get_lua_wave_handles(node)),
            _ => (Vec::new(), NodeVarient::Unnamed, Vec::new()),
        };
        let ghost c0 = self.graph.chains@;
        let mut evs: Vec<AudioNodeChangeEvent> = Vec::new();
        let mut last: Option<AudioNode> = None;
        let mut j: usize = 0;
        while j < outs.len()
            invariant
                j <= outs@.len(),
                outs@ == gn.node_of().output_slots@,
                evs@ == link_events(id as EntityId, outs@.subrange(0, j as int)),
                self.graph.chains@.len() >= c0.len(),
                self.graph.chains@.subrange(0, c0.len() as int) == c0,
                self.grid == old(self).grid,
                self.entities == old(self).entities,
            decreases outs@.len() - j,
        {
            if matches!(outs[j].signal_type, NodeType::SignalLink) {
                let idx: usize = match &name {
                    NodeVarient::LuaPulse => {
                        let osc = Oscillator { lua_handle: copy_vec(&waves), lua_string: String::new() };
                        self.graph.push_stage(Dsp::Input(osc), id as EntityId)
                    },
                    NodeVarient::AudioOut => self.graph.push_stage(Dsp::Output, id as EntityId),
                    _ => 0,
                };
                assert(self.graph.chains@.subrange(0, c0.len() as int) =~= c0);
                last = Some(AudioNode { idx: Some(idx) });
                evs.push(AudioNodeChangeEvent { entity: id as EntityId, slot_idx: j });
            }
            j = j + 1;
            assert(outs@.subrange(0, j as int).drop_last() =~= outs@.subrange(0, j - 1));
        }
        assert(outs@.subrange(0, j as int) =~= outs@);
        if last.is_some() {
            let ent = &mut self.entities[id];
            match ent {
                Entity::Node { audio, .. } => {
                    *audio = last;
                },
                _ => {},
            }
        }
        evs
    }

    /// Places the instance `t_node` of blueprint `bp` at `pos`, with the slot entities
    /// `ins` and `outs` built for it, after the checks that placement needs.
    #[verifier::spinoff_prover]
    fn insert_instance(&mut self, bp: Ghost<GenericNode>, t_node: GenericNode, ins: Vec<InputSlot>, outs: Vec<OutputSlot>, pos: Position)
        -> (r: Result<(EntityId, Vec<AudioNodeChangeEvent>), InsertError>)
        requires
            instance_of(t_node, bp@, pos),
            ins@.len() == bp@.node_of().slots@.len(),
            outs@.len() == bp@.node_of().output_slots@.len(),
            crate::grid::input_offsets(ins@) == slot_offsets(bp@.node_of().slots@),
            crate::grid::output_offsets(outs@) == slot_offsets(bp@.node_of().output_slots@),
            forall|i: int| 0 <= i < ins@.len() ==> (#[trigger] ins@[i]).idx == i && describes_slot(ins@[i].slot, bp@.node_of().slots@[i], false),
            forall|i: int| 0 <= i < outs@.len() ==> (#[trigger] outs@[i]).idx == i && describes_slot(outs@[i].slot, bp@.node_of().output_slots@[i], true),
        ensures
            inserted(*old(self), *final(self), bp@, pos, r),
            r is Ok ==> slots_spawned(*final(self), old(self).entities@.len() as int, bp@),
    {
        let ghost io = slot_offsets(bp@.node_of().slots@);
        let ghost oo = slot_offsets(bp@.node_of().output_slots@);
        proof {
            reveal(inserted);
        }
        if self.grid.check_collision(&pos, &ins, &outs).is_err() {
            return Err(InsertError::Collision);
        }
        let cells = match placement_cells(pos, &ins, &outs) {
            Some(c) => c,
            None => {
                return Err(InsertError::OutOfRange);
            },
        };
        if !distinct_cells(&cells) {
            return Err(InsertError::Overlap);
        }
        proof {
            lemma_free_cells(old(self).grid@, pos, io, oo);
        }
        let is_native = matches!(t_node, GenericNode::Native(_));
        let id = self.entities.len();
        self.place_node(t_node, &ins, &outs, &cells);
        let ghost mid = *self;
        let events = if is_native { self.register_audio(id) } else { Vec::new() };
        proof {
            assert forall|i: int| 0 <= i < ins@.len() implies #[trigger] self.entities@[id + 1 + i]
                == (Entity::Input { parent: id as EntityId, slot: ins@[i] }) by {
                assert(mid.entities@[id + 1 + i] == (Entity::Input { parent: id as EntityId, slot: ins@[i] }));
            }
            assert forall|i: int| 0 <= i < outs@.len() implies #[trigger] self.entities@[id + 1 + ins@.len() + i]
                == (Entity::Output { parent: id as EntityId, slot: outs@[i] }) by {
                assert(mid.entities@[id + 1 + ins@.len() + i] == (Entity::Output { parent: id as EntityId, slot: outs@[i] }));
            }
            assert(self.entities@.subrange(0, id as int) =~= mid.entities@.subrange(0, id as int));
            assert(self.graph.chains@.subrange(0, old(self).graph.chains@.len() as int) =~= old(self).graph.chains@);
            reveal(inserted);
            reveal(slots_spawned);
            let nin = bp@.node_of().slots@.len();
            assert forall|k: int| 0 <= k < nin implies {
                let ent = #[trigger] self.entities@[id + 1 + k];
                &&& ent is Input
                &&& ent->Input_parent == id
                &&& ent->Input_slot.idx == k
                &&& describes_slot(ent->Input_slot.slot, bp@.node_of().slots@[k], false)
            } by {
                assert(ins@[k].idx == k);
            }
            assert forall|k: int| 0 <= k < bp@.node_of().output_slots@.len() implies {
                let ent = #[trigger] self.entities@[id + 1 + nin + k];
                &&& ent is Output
                &&& ent->Output_parent == id
                &&& ent->Output_slot.idx == k
                &&& describes_slot(ent->Output_slot.slot, bp@.node_of().output_slots@[k], true)
            } by {
                assert(outs@[k].idx == k);
            }
        }
        Ok((id as EntityId, events))
    }

    /// Places a new node from the set-up blueprint named `name` at `pos`, with one entity
    /// per slot. Placement is all or nothing: it is refused, and nothing changes, when
    /// any cell the node or its slots need is taken, out of range, or needed twice.
    /// A built-in node registers a chain stage for each realtime-link output and
    /// announces those outputs; the events are returned with the new node's id.
    #[verifier::spinoff_prover]
    pub fn insert_node(&mut self, name: &String, pos: Position) -> (r: Result<(EntityId, Vec<AudioNodeChangeEvent>), InsertError>)
        ensures
            match find_blueprint(old(self).entities@, name@) {
                None => r == Err::<(EntityId, Vec<AudioNodeChangeEvent>), InsertError>(InsertError::NoBlueprint)
                    && final(self).grid@ == old(self).grid@ && final(self).entities@ == old(self).entities@
                    && final(self).graph.chains@ == old(self).graph.chains@,
                Some(b) => inserted(*old(self), *final(self), old(self).entities@[b]->Node_node, pos, r)
                    && (r is Ok ==> slots_spawned(*final(self), old(self).entities@.len() as int, old(self).entities@[b]->Node_node)),
            },
    {
        let b = match self.find_blueprint_index(name) {
            Some(b) => b,
            None => {
                return Err(InsertError::NoBlueprint);
            },
        };
        let node = match &self.entities[b] {
            Entity::Node { node, .. } => construct_node_from_bp(node, pos),
            _ => {
                return Err(InsertError::NoBlueprint);
            },
        };
        let ghost bp = old(self).entities@[b as int]->Node_node;
        let (t_node, ins, outs) = create_default_components(node);
        assert(crate::grid::input_offsets(ins@) =~= slot_offsets(bp.node_of().slots@));
        assert(crate::grid::output_offsets(outs@) =~= slot_offsets(bp.node_of().output_slots@));
        self.insert_instance(Ghost(bp), t_node, ins, outs, pos)
    }
}

/// The slot entities of a node `bp` placed with id `id`: its inputs, then its outputs,
/// each naming `id` as parent and describing its slot.
#[verifier::opaque]
pub open spec fn slots_spawned(w: World, id: int, bp: GenericNode) -> bool {
    let nin = bp.node_of().slots@.len();
    &&& forall|k: int| 0 <= k < nin ==> {
        let ent = #[trigger] w.entities@[id + 1 + k];
        &&& ent is Input
        &&& ent->Input_parent == id
        &&& ent->Input_slot.idx == k
        &&& describes_slot(ent->Input_slot.slot, bp.node_of().slots@[k], false)
    }
    &&& forall|k: int| 0 <= k < bp.node_of().output_slots@.len() ==> {
        let ent = #[trigger] w.entities@[id + 1 + nin + k];
        &&& ent is Output
        &&& ent->Output_parent == id
        &&& ent->Output_slot.idx == k
        &&& describes_slot(ent->Output_slot.slot, bp.node_of().output_slots@[k], true)
    }
}

/// `w2` is `w` after placing an instance of blueprint `bp` at `pos`, with result `r`.
#[verifier::opaque]
pub open spec fn inserted(w: World, w2: World, bp: GenericNode, pos: Position, r: Result<(EntityId, Vec<AudioNodeChangeEvent>), InsertError>) -> bool {
    let io = slot_offsets(bp.node_of().slots@);
    let oo = slot_offsets(bp.node_of().output_slots@);
    let cells = node_cells(pos, io, oo);
    let fits = offsets_fit(pos, io) && offsets_fit(pos, oo);
    let id = w.entities@.len();
    &&& w2.grid.dims == w.grid.dims
    &&& (r == Err::<(EntityId, Vec<AudioNodeChangeEvent>), InsertError>(InsertError::Collision) <==> collides(w.grid@, pos, io, oo))
    &&& (r == Err::<(EntityId, Vec<AudioNodeChangeEvent>), InsertError>(InsertError::OutOfRange) <==> !collides(w.grid@, pos, io, oo) && !fits)
    &&& (r == Err::<(EntityId, Vec<AudioNodeChangeEvent>), InsertError>(InsertError::Overlap)
        <==> !collides(w.grid@, pos, io, oo) && fits && !cells_distinct(cells))
    &&& r != Err::<(EntityId, Vec<AudioNodeChangeEvent>), InsertError>(InsertError::NoBlueprint)
    &&& r is Err ==> w2.grid@ == w.grid@ && w2.entities@ == w.entities@ && w2.graph.chains@ == w.graph.chains@
    &&& r is Ok ==> {
        &&& r->Ok_0.0 == id
        &&& w2.entities@.len() == id + cells.len()
        &&& w2.entities@.subrange(0, id as int) == w.entities@
        &&& w2.entities@[id as int] is Node
        &&& instance_of(w2.entities@[id as int]->Node_node, bp, pos)
        &&& w2.entities@[id as int]->Node_blueprint is None
        &&& w2.entities@[id as int]->Node_not_setup is None
        &&& forall|k: int| 0 <= k < cells.len() ==> w2.grid@.contains_key(#[trigger] cells[k]) && w2.grid@[cells[k]] == id + k
        &&& forall|c: (i32, i32)| #[trigger] w2.grid@.contains_key(c) <==> w.grid@.contains_key(c) || cells.contains(c)
        &&& forall|c: (i32, i32)| w.grid@.contains_key(c) ==> #[trigger] w2.grid@[c] == w.grid@[c]
        &&& r->Ok_0.1@ == (if bp is Native { link_events(id as EntityId, bp.node_of().output_slots@) } else { seq![] })
        &&& w2.graph.chains@.subrange(0, w.graph.chains@.len() as int) == w.graph.chains@
    }
}

/// The roles of a blueprint family's sources, in order: an instrument has three node
/// sources (common, family, own) and two waveform sources (family, own); a transmitter
/// has three node sources.
pub open spec fn family_roles(k: ChannelType) -> Seq<LuaType> {
    match k {
        ChannelType::Instrument => seq![LuaType::Node, LuaType::Node, LuaType::Node, LuaType::Wave, LuaType::Wave],
        ChannelType::Transmitter => seq![LuaType::Node, LuaType::Node, LuaType::Node],
    }
}

fn roles_of(k: ChannelType) -> (r: Vec<LuaType>)
    ensures
        r@ == family_roles(k),
{
    let mut r: Vec<LuaType> = Vec::new();
    r.push(LuaType::Node);
    r.push(LuaType::Node);
    r.push(LuaType::Node);
    match k {
        ChannelType::Instrument => {
            r.push(LuaType::Wave);
            r.push(LuaType::Wave);
        },
        ChannelType::Transmitter => {},
    }
    assert(r@ =~= family_roles(k));
    r
}

/// A node with no name, no slots and the default colours, at `pos`.
fn empty_node(pos: Position) -> (r: Node)
    ensures
        r.pos == pos,
        r.name is Unnamed,
        r.slots@.len() == 0,
        r.output_slots@.len() == 0,
        r.ntype@.len() == 0,
{
    let colors = ColorPair::default();
    Node {
        name: NodeVarient::Unnamed,
        display: String::new(),
        pos,
        active: colors,
        inert: colors,
        inactive: colors,
        ntype: Vec::new(),
        slots: Vec::new(),
        output_slots: Vec::new(),
    }
}

/// An empty, inactive payload.
fn empty_data() -> (r: NodeData)
    ensures
        r.data == SlotData::Empty,
        r.state == NodeStatus::Inactive,
        r.slot_data@.len() == 0,
        r.updated@.len() == 0,
{
    NodeData {
        data: SlotData::Empty,
        slot_data: Vec::new(),
        output_slot_data: Vec::new(),
        updated: Vec::new(),
        state: NodeStatus::Inactive,
        commands: Vec::new(),
    }
}

impl World {
    /// Registers a blueprint of family `node_type` at `pos`, whose sources are `sources`
    /// in the family's order. It awaits initialization. `None` when the number of sources
    /// does not match the family.
    pub fn load_node(&mut self, node_type: ChannelType, sources: &Vec<AssetId>, pos: Position) -> (r: Option<EntityId>)
        ensures
            final(self).grid == old(self).grid,
            final(self).graph == old(self).graph,
            sources@.len() != family_roles(node_type).len() ==> r is None && final(self).entities@ == old(self).entities@,
            sources@.len() == family_roles(node_type).len() ==> {
                let id = old(self).entities@.len();
                let e = final(self).entities@[id as int];
                &&& r == Some(id as EntityId)
                &&& final(self).entities@.len() == id + 1
                &&& final(self).entities@.drop_last() == old(self).entities@
                &&& e is Node
                &&& e->Node_blueprint is Some
                &&& e->Node_not_setup is Some
                &&& e->Node_audio is None
                &&& e->Node_node is Native
                &&& e->Node_node.node_of().pos == pos
                &&& e->Node_node.handles_of() is Some
                &&& e->Node_node.handles_of()->Some_0@.len() == sources@.len()
                &&& forall|i: int| 0 <= i < sources@.len() ==> (#[trigger] e->Node_node.handles_of()->Some_0@[i]) == (LuaHandle {
                    ltype: family_roles(node_type)[i],
                    handle: sources@[i],
                })
            },
    {
        let roles = roles_of(node_type);
        if sources.len() != roles.len() {
            return None;
        }
        let mut handles: Vec<LuaHandle> = Vec::new();
        let mut i: usize = 0;
        while i < sources.len()
            invariant
                i <= sources@.len(),
                roles@.len() == sources@.len(),
                roles@ == family_roles(node_type),
                handles@.len() == i,
                forall|j: int| 0 <= j < i ==> (#[trigger] handles@[j]) == (LuaHandle { ltype: roles@[j], handle: sources@[j] }),
            decreases sources@.len() - i,
        {
            handles.push(LuaHandle { ltype: roles[i], handle: sources[i] });
            i = i + 1;
        }
        let id = self.entities.len() as EntityId;
        let node = GenericNode::Native(NativeNode { node: empty_node(pos), data: empty_data(), handles: Some(handles) });
        self.entities.push(Entity::Node { node, audio: None, blueprint: Some(NodeBP), not_setup: Some(NotSetup) });
        assert(self.entities@.drop_last() =~= old(self).entities@);
        Some(id)
    }

    /// The blueprints that await initialization, in entity order.
    pub fn pending_setup(&self) -> (r: Vec<usize>)
        ensures
            forall|k: int| 0 <= k < r@.len() ==> {
                let i = #[trigger] r@[k];
                &&& i < self.entities@.len()
                &&& self.entities@[i as int] is Node
                &&& self.entities@[i as int]->Node_blueprint is Some
                &&& self.entities@[i as int]->Node_not_setup is Some
            },
            forall|i: int| 0 <= i < self.entities@.len() && #[trigger] self.entities@[i] is Node
                && self.entities@[i]->Node_blueprint is Some && self.entities@[i]->Node_not_setup is Some
                ==> r@.contains(i as usize),
    {
        let mut r: Vec<usize> = Vec::new();
        let mut i: usize = 0;
        while i < self.entities.len()
            invariant
                i <= self.entities@.len(),
                forall|k: int| 0 <= k < r@.len() ==> {
                    let j = #[trigger] r@[k];
                    &&& j < i
                    &&& self.entities@[j as int] is Node
                    &&& self.entities@[j as int]->Node_blueprint is Some
                    &&& self.entities@[j as int]->Node_not_setup is Some
                },
                forall|j: int| 0 <= j < i && #[trigger] self.entities@[j] is Node
                    && self.entities@[j]->Node_blueprint is Some && self.entities@[j]->Node_not_setup is Some
                    ==> r@.contains(j as usize),
            decreases self.entities@.len() - i,
        {
            let hit = match &self.entities[i] {
                Entity::Node { blueprint: Some(_), not_setup: Some(_), .. } => true,
                _ => false,
            };
            assert(hit == (self.entities@[i as int] is Node && self.entities@[i as int]->Node_blueprint is Some
                && self.entities@[i as int]->Node_not_setup is Some));
            let ghost r0 = r@;
            if hit {
                r.push(i);
                assert(r@[r@.len() - 1] == i);
                assert(r@.contains(i));
            }
            assert forall|j: int| 0 <= j < i && #[trigger] r0.contains(j as usize) implies r@.contains(j as usize) by {
                let k = choose|k: int| 0 <= k < r0.len() && r0[k] == j as usize;
                assert(r@[k] == j as usize);
            }
            i = i + 1;
        }
        r
    }

    /// The node of entity `id`, when it is a node.
    pub fn node_at(&self, id: usize) -> (r: Option<&GenericNode>)
        ensures
            match r {
                Some(n) => id < self.entities@.len() && self.entities@[id as int] is Node && *n == self.entities@[id as int]->Node_node,
                None => !(id < self.entities@.len() && self.entities@[id as int] is Node),
            },
    {
        if id >= self.entities.len() {
            return None;
        }
        match &self.entities[id] {
            Entity::Node { node, .. } => Some(node),
            _ => None,
        }
    }

    /// Completes the initialization of node entity `id` from its program's globals (see
    /// `initialize_node`). `None` when `id` is not a node.
    pub fn initialize_entity(&mut self, id: usize, globals: Option<(&ScriptValue, &ScriptValue)>) -> (r: Option<Result<(), InitError>>)
        ensures
            final(self).grid == old(self).grid,
            final(self).graph == old(self).graph,
            final(self).entities@.len() == old(self).entities@.len(),
            !(id < old(self).entities@.len() && old(self).entities@[id as int] is Node) ==> r is None && final(self).entities@ == old(self).entities@,
            id < old(self).entities@.len() && old(self).entities@[id as int] is Node ==> {
                &&& r is Some
                &&& forall|j: int| 0 <= j < old(self).entities@.len() && j != id ==> final(self).entities@[j] == old(self).entities@[j]
                &&& final(self).entities@[id as int] is Node
                &&& final(self).entities@[id as int]->Node_blueprint == old(self).entities@[id as int]->Node_blueprint
                &&& final(self).entities@[id as int]->Node_not_setup == old(self).entities@[id as int]->Node_not_setup
                &&& final(self).entities@[id as int]->Node_audio == old(self).entities@[id as int]->Node_audio
                &&& r->Some_0 is Ok ==> final(self).entities@[id as int]->Node_node.data_of().slot_data@
                    == crate::node::default_slot_values(final(self).entities@[id as int]->Node_node.node_of().slots@)
                &&& match globals {
                    Some((nv, dv)) => r->Some_0 is Ok ==> crate::binding::node_decoded(*nv, final(self).entities@[id as int]->Node_node.node_of()),
                    None => r->Some_0 is Ok,
                }
            },
    {
        if id >= self.entities.len() {
            return None;
        }
        let ent = &mut self.entities[id];
        match ent {
            Entity::Node { node, .. } => Some(initialize_node(node, globals)),
            _ => None,
        }
    }

    /// Marks every blueprint that awaits initialization as set up, once all of them
    /// succeeded this pass; otherwise nothing changes and they are retried.
    pub fn finish_setup(&mut self, all_succeeded: bool)
        ensures
            final(self).grid == old(self).grid,
            final(self).graph == old(self).graph,
            final(self).entities@.len() == old(self).entities@.len(),
            !all_succeeded ==> final(self).entities@ == old(self).entities@,
            all_succeeded ==> forall|i: int| 0 <= i < old(self).entities@.len() ==> {
                let (a, b) = (old(self).entities@[i], #[trigger] final(self).entities@[i]);
                match a {
                    Entity::Node { node, audio, blueprint, not_setup } => b == (Entity::Node {
                        node,
                        audio,
                        blueprint,
                        not_setup: if blueprint is Some { None } else { not_setup },
                    }),
                    _ => b == a,
                }
            },
    {
        if !all_succeeded {
            return;
        }
        let mut i: usize = 0;
        while i < self.entities.len()
            invariant
                i <= self.entities@.len(),
                self.entities@.len() == old(self).entities@.len(),
                self.grid == old(self).grid,
                self.graph == old(self).graph,
                forall|j: int| i <= j < old(self).entities@.len() ==> #[trigger] self.entities@[j] == old(self).entities@[j],
                forall|j: int| 0 <= j < i ==> {
                    let (a, b) = (old(self).entities@[j], #[trigger] self.entities@[j]);
                    match a {
                        Entity::Node { node, audio, blueprint, not_setup } => b == (Entity::Node {
                            node,
                            audio,
                            blueprint,
                            not_setup: if blueprint is Some { None } else { not_setup },
                        }),
                        _ => b == a,
                    }
                },
            decreases self.entities@.len() - i,
        {
            let ent = &mut self.entities[i];
            match ent {
                Entity::Node { blueprint: Some(_), not_setup, .. } => {
                    *not_setup = None;
                },
                _ => {},
            }
            i = i + 1;
        }
    }
}

/// Where a pulse stands after some ticks: still travelling at a position, or ended.
pub enum Fate {
    Travelling(Position),
    Ended,
}

/// The fate of a pulse that starts at `pos` and moves by `dir`, after `k` ticks, when the
/// grid's occupancy at tick `i` is `grids[i]`.
pub open spec fn travel(dims: (i32, i32), grids: Seq<Map<(i32, i32), EntityId>>, pos: Position, dir: Position, k: nat) -> Fate
    decreases k,
{
    if k == 0 {
        Fate::Travelling(pos)
    } else {
        match travel(dims, grids, pos, dir, (k - 1) as nat) {
            Fate::Ended => Fate::Ended,
            Fate::Travelling(p) => match pulse_step(dims, grids[k - 1], p, dir) {
                StepKind::Exit => Fate::Ended,
                StepKind::Hit(_) => Fate::Ended,
                StepKind::Move(t) => Fate::Travelling(Position { x: t.0, y: t.1 }),
            },
        }
    }
}

/// Whether `p` lies within `dims`.
pub open spec fn in_bounds(dims: (i32, i32), p: Position) -> bool {
    -dims.0 <= p.x <= dims.0 && -dims.1 <= p.y <= dims.1
}

pub open spec fn abs(v: int) -> int {
    if v < 0 { -v } else { v }
}

/// The number of ticks within which every pulse ends: `2 * max(dims) / |dir| + 1`, with
/// `|dir|` the larger of the direction's components.
pub open spec fn tick_bound(dims: (i32, i32), dir: Position) -> nat {
    let m = if dims.0 >= dims.1 { dims.0 as int } else { dims.1 as int };
    let d = if abs(dir.x as int) >= abs(dir.y as int) { abs(dir.x as int) } else { abs(dir.y as int) };
    (2 * m / d + 1) as nat
}

proof fn lemma_travel_line(dims: (i32, i32), grids: Seq<Map<(i32, i32), EntityId>>, pos: Position, dir: Position, k: nat)
    requires
        in_bounds(dims, pos),
    ensures
        travel(dims, grids, pos, dir, k) is Travelling ==> {
            let p = travel(dims, grids, pos, dir, k)->Travelling_0;
            &&& p.x == pos.x + k * dir.x
            &&& p.y == pos.y + k * dir.y
            &&& in_bounds(dims, p)
        },
    decreases k,
{
    if k > 0 {
        lemma_travel_line(dims, grids, pos, dir, (k - 1) as nat);
        assert(pos.x + k * dir.x == pos.x + (k - 1) * dir.x + dir.x) by (nonlinear_arith);
        assert(pos.y + k * dir.y == pos.y + (k - 1) * dir.y + dir.y) by (nonlinear_arith);
    }
}

/// Pulse termination: a pulse that starts within the grid and moves in a fixed non-zero
/// direction has ended, by leaving the grid or by striking an occupant, within
/// `tick_bound(dims, dir)` ticks, whatever else happens on the grid meanwhile.
pub proof fn lemma_pulse_terminates(dims: (i32, i32), grids: Seq<Map<(i32, i32), EntityId>>, pos: Position, dir: Position)
    requires
        in_bounds(dims, pos),
        dir.x != 0 || dir.y != 0,
    ensures
        travel(dims, grids, pos, dir, tick_bound(dims, dir)) is Ended,
{
    let k = tick_bound(dims, dir);
    let m: int = if dims.0 >= dims.1 { dims.0 as int } else { dims.1 as int };
    let ax = abs(dir.x as int);
    let ay = abs(dir.y as int);
    let d: int = if ax >= ay { ax } else { ay };
    assert(d >= 1);
    assert(m >= 0);
    lemma_travel_line(dims, grids, pos, dir, k);
    vstd::arithmetic::div_mod::lemma_fundamental_div_mod(2 * m, d);
    let q = (2 * m) / d;
    let rem = (2 * m) % d;
    assert(k == q + 1);
    assert(k * d > 2 * m) by (nonlinear_arith)
        requires 2 * m == d * q + rem, 0 <= rem < d, k == q + 1;
    if travel(dims, grids, pos, dir, k) is Travelling {
        let p = travel(dims, grids, pos, dir, k)->Travelling_0;
        if ax >= ay {
            assert(abs(k * dir.x) == k * ax) by (nonlinear_arith)
                requires ax == abs(dir.x as int), k >= 0;
            assert(abs(p.x - pos.x) == k * ax);
        } else {
            assert(abs(k * dir.y) == k * ay) by (nonlinear_arith)
                requires ay == abs(dir.y as int), k >= 0;
            assert(abs(p.y - pos.y) == k * ay);
        }
    }
}

} // verus!

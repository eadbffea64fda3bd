use pulsar::dsp::{ChainType, Dsp};
use pulsar::grid::Grid;
use pulsar::node::{
    ColorPair, GenericNode, InputSlot, NativeNode, Node, NodeData, NodeStatus, NodeType, NodeVarient, OutputSlot, PColor,
    Slot, SlotData, SlotNode, SlotType,
};
use pulsar::position::Position;
use pulsar::world::{AudioNodeChangeEvent, Entity, InsertError, PulseOutcome, World};

fn colors() -> ColorPair {
    let c = PColor { r: 0, g: 0, b: 0 };
    ColorPair { foreground: c, background: c }
}

fn slot(x: i32, y: i32, signal: NodeType, dx: i32, dy: i32) -> Slot {
    Slot {
        pos: Position::new(x, y),
        slot_type: SlotType::Bang,
        signal_type: signal,
        direction: Position::new(dx, dy),
    }
}

fn native(name: NodeVarient, pos: Position, slots: Vec<Slot>, outs: Vec<Slot>) -> GenericNode {
    let n = slots.len();
    GenericNode::Native(NativeNode {
        node: Node {
            name,
            display: "N".to_string(),
            pos,
            active: colors(),
            inert: colors(),
            inactive: colors(),
            ntype: vec![],
            slots,
            output_slots: outs,
        },
        data: NodeData {
            data: SlotData::Empty,
            slot_data: vec![SlotData::Bang(false); n],
            output_slot_data: vec![],
            updated: vec![],
            state: NodeStatus::Active,
            commands: vec![],
        },
        handles: None,
    })
}

fn spawn(w: &mut World, node: GenericNode) -> u64 {
    let id = w.entities.len() as u64;
    let p = node.pos();
    w.entities.push(Entity::Node { node, audio: None, blueprint: None, not_setup: None });
    w.grid.add_to_grid(id, p.to_tuple()).unwrap();
    id
}

fn pulse_pos(w: &World, id: u64) -> Option<Position> {
    match &w.entities[id as usize] {
        Entity::Pulse { node, .. } => Some(node.pos()),
        _ => None,
    }
}

#[test]
fn pulse_travels_then_leaves_the_grid() {
    let mut w = World::new((4, 4));
    let producer = native(
        NodeVarient::LuaPulse,
        Position::new(0, 0),
        vec![],
        vec![slot(0, 0, NodeType::SignalLink, 1, 0)],
    );
    let origin = spawn(&mut w, producer);
    let pulse = w.spawn_audio_pulse(AudioNodeChangeEvent { entity: origin, slot_idx: 0 }).unwrap().unwrap();
    assert_eq!(pulse_pos(&w, pulse), Some(Position::new(1, 0)));
    for _ in 0..2 {
        let (_, evs) = w.tick_pulses();
        assert!(evs.is_empty());
    }
    assert_eq!(pulse_pos(&w, pulse), Some(Position::new(3, 0)));
    let (_, evs) = w.tick_pulses();
    assert!(evs.is_empty());
    assert_eq!(pulse_pos(&w, pulse), Some(Position::new(4, 0)));
    let (outs, evs) = w.tick_pulses();
    assert!(matches!(outs[pulse as usize], PulseOutcome::Exited));
    assert_eq!(evs, vec![AudioNodeChangeEvent { entity: origin, slot_idx: 0 }]);
    assert!(matches!(w.entities[pulse as usize], Entity::Vacant));
    assert!(!w.grid.occupied((4, 0)));
    assert!(!w.grid.occupied((5, 0)));
}

#[test]
fn pulse_feeds_an_input_slot() {
    let mut w = World::new((8, 8));
    let a = native(
        NodeVarient::Custom("a".to_string()),
        Position::new(3, 0),
        vec![slot(-1, 0, NodeType::SignalConst, 0, 0)],
        vec![],
    );
    let a_id = spawn(&mut w, a);
    let input_id = w.entities.len() as u64;
    let sn = SlotNode {
        slot_type: SlotType::Bang,
        signal_type: NodeType::SignalConst,
        pos: Position::new(-1, 0),
        display: "I!".to_string(),
        name: NodeVarient::Custom("I!".to_string()),
        active: colors(),
        inert: colors(),
        inactive: colors(),
    };
    w.entities.push(Entity::Input { parent: a_id, slot: InputSlot { idx: 0, slot: sn } });
    w.grid.add_to_grid(input_id, (2, 0)).unwrap();
    let src = native(
        NodeVarient::Custom("src".to_string()),
        Position::new(0, 5),
        vec![],
        vec![slot(1, -5, NodeType::SignalLink, 0, 0)],
    );
    let src_id = spawn(&mut w, src);
    let mut n = w.entities.len();
    if let Entity::Node { node, .. } = &mut w.entities[src_id as usize] {
        node.get_node_mut().output_slots[0].direction = Position::new(1, 0);
    }
    let pulse = w.spawn_audio_pulse(AudioNodeChangeEvent { entity: src_id, slot_idx: 0 });
    // the pulse starts on (2, 0), which the slot holds
    assert!(pulse.is_err());
    assert_eq!(w.entities.len(), n);
    if let Entity::Node { node, .. } = &mut w.entities[src_id as usize] {
        node.get_node_mut().output_slots[0].pos = Position::new(0, -5);
    }
    let pulse = w.spawn_audio_pulse(AudioNodeChangeEvent { entity: src_id, slot_idx: 0 }).unwrap().unwrap();
    n = w.entities.len();
    assert_eq!(pulse_pos(&w, pulse), Some(Position::new(1, 0)));
    let (outs, evs) = w.tick_pulses();
    assert_eq!(w.entities.len(), n);
    assert!(evs.is_empty());
    assert!(matches!(outs[pulse as usize], PulseOutcome::Fed { slot: 0, .. }));
    match &w.entities[a_id as usize] {
        Entity::Node { node, .. } => {
            assert_eq!(node.get_data().slot_data[0], SlotData::Bang(true));
            assert_eq!(node.get_data().updated, vec![0]);
        },
        _ => panic!("node A is gone"),
    }
    assert!(matches!(w.entities[pulse as usize], Entity::Vacant));
    assert_eq!(w.grid.get_entities((1, 0)), None);
    assert_eq!(w.grid.get_entities((2, 0)), Some(input_id));
}

#[test]
fn pulse_blocked_by_a_node_sends_an_event() {
    let mut w = World::new((8, 8));
    let wall = native(NodeVarient::Unnamed, Position::new(2, 0), vec![], vec![]);
    spawn(&mut w, wall);
    let src = native(NodeVarient::LuaPulse, Position::new(0, 0), vec![], vec![slot(0, 0, NodeType::SignalLink, 1, 0)]);
    let src_id = spawn(&mut w, src);
    let pulse = w.spawn_audio_pulse(AudioNodeChangeEvent { entity: src_id, slot_idx: 0 }).unwrap().unwrap();
    let (outs, evs) = w.tick_pulses();
    assert!(matches!(outs[pulse as usize], PulseOutcome::Blocked(0)));
    assert_eq!(evs, vec![AudioNodeChangeEvent { entity: src_id, slot_idx: 0 }]);
}

#[test]
fn non_link_slot_spawns_nothing() {
    let mut w = World::new((8, 8));
    let src = native(NodeVarient::LuaPulse, Position::new(0, 0), vec![], vec![slot(0, 1, NodeType::Signal, 1, 0)]);
    let src_id = spawn(&mut w, src);
    let n = w.entities.len();
    assert_eq!(w.spawn_audio_pulse(AudioNodeChangeEvent { entity: src_id, slot_idx: 0 }), Ok(None));
    assert_eq!(w.entities.len(), n);
}

fn blueprint(w: &mut World, name: &str, slots: Vec<Slot>, outs: Vec<Slot>) {
    let node = native(NodeVarient::Custom(name.to_string()), Position::new(0, 0), slots, outs);
    w.entities.push(Entity::Node { node, audio: None, blueprint: Some(pulsar::node::NodeBP), not_setup: None });
}

#[test]
fn insert_node_places_node_and_slots() {
    let mut w = World::new((16, 16));
    blueprint(&mut w, "osc", vec![slot(0, 1, NodeType::SignalConst, 0, 0)], vec![slot(1, 0, NodeType::Signal, 1, 0)]);
    let (id, evs) = w.insert_node(&"osc".to_string(), Position::new(5, 5)).unwrap();
    assert_eq!(id, 1);
    assert!(evs.is_empty());
    assert_eq!(w.grid.get_entities((5, 5)), Some(1));
    assert_eq!(w.grid.get_entities((5, 6)), Some(2));
    assert_eq!(w.grid.get_entities((6, 5)), Some(3));
    assert!(matches!(w.entities[2], Entity::Input { parent: 1, .. }));
    assert!(matches!(w.entities[3], Entity::Output { parent: 1, .. }));
    // the same place again collides
    let before = w.entities.len();
    assert_eq!(w.insert_node(&"osc".to_string(), Position::new(5, 5)).err(), Some(InsertError::Collision));
    // one slot cell taken is enough
    assert_eq!(w.insert_node(&"osc".to_string(), Position::new(6, 4)).err(), Some(InsertError::Collision));
    assert_eq!(w.entities.len(), before);
    assert_eq!(w.insert_node(&"none".to_string(), Position::new(0, 0)).err(), Some(InsertError::NoBlueprint));
}

#[test]
fn insert_node_refuses_overlapping_slots() {
    let mut w = World::new((16, 16));
    blueprint(&mut w, "bad", vec![slot(0, 0, NodeType::Signal, 0, 0)], vec![]);
    assert_eq!(w.insert_node(&"bad".to_string(), Position::new(1, 1)).err(), Some(InsertError::Overlap));
    assert!(!w.grid.occupied((1, 1)));
}

#[test]
fn insert_audio_out_registers_a_chain() {
    let mut w = World::new((16, 16));
    let node = native(NodeVarient::AudioOut, Position::new(0, 0), vec![], vec![slot(0, 1, NodeType::SignalLink, 0, 1)]);
    w.entities.push(Entity::Node { node, audio: None, blueprint: Some(pulsar::node::NodeBP), not_setup: None });
    let (id, evs) = w.insert_node(&"audio_out".to_string(), Position::new(2, 2)).unwrap();
    assert_eq!(evs, vec![AudioNodeChangeEvent { entity: id, slot_idx: 0 }]);
    assert_eq!(w.graph.chains.len(), 1);
    match &w.graph.chains[0].t {
        ChainType::ChainList(l) => {
            assert_eq!(l.len(), 1);
            assert!(matches!(l[0].t, ChainType::Dsp(Dsp::Output)));
        },
        _ => panic!("expected a list"),
    }
    match &w.entities[id as usize] {
        Entity::Node { audio, .. } => assert_eq!(audio.unwrap().idx, Some(0)),
        _ => panic!("not a node"),
    }
}

#[test]
fn collision_check_does_not_change_the_grid() {
    let mut g = Grid::new((4, 4));
    g.add_to_grid(7, (1, 1)).unwrap();
    let mk = |x: i32, y: i32| SlotNode {
        slot_type: SlotType::F32,
        signal_type: NodeType::Signal,
        pos: Position::new(x, y),
        display: String::new(),
        name: NodeVarient::Unnamed,
        active: colors(),
        inert: colors(),
        inactive: colors(),
    };
    let ins = vec![InputSlot { idx: 0, slot: mk(1, 0) }];
    let outs = vec![OutputSlot { idx: 0, slot: mk(0, 1) }];
    assert!(g.check_collision(&Position::new(0, 0), &ins, &outs).is_ok());
    assert!(g.check_collision(&Position::new(0, 1), &ins, &outs).is_err());
    assert!(g.check_collision(&Position::new(1, 0), &ins, &outs).is_err());
    assert!(g.check_collision(&Position::new(1, 1), &vec![], &vec![]).is_err());
    assert_eq!(g.get_entities((1, 1)), Some(7));
    assert!(!g.occupied((0, 0)));
}

#[test]
fn second_pulse_into_the_same_cell_collides_with_the_first() {
    let mut w = World::new((8, 8));
    let left = native(NodeVarient::LuaPulse, Position::new(-2, 0), vec![], vec![slot(0, 0, NodeType::SignalLink, 1, 0)]);
    let right = native(NodeVarient::LuaPulse, Position::new(2, 0), vec![], vec![slot(0, 0, NodeType::SignalLink, -1, 0)]);
    let l = spawn(&mut w, left);
    let r = spawn(&mut w, right);
    let pl = w.spawn_audio_pulse(AudioNodeChangeEvent { entity: l, slot_idx: 0 }).unwrap().unwrap();
    let pr = w.spawn_audio_pulse(AudioNodeChangeEvent { entity: r, slot_idx: 0 }).unwrap().unwrap();
    let (outs, evs) = w.tick_pulses();
    assert!(matches!(outs[pl as usize], PulseOutcome::Moved((0, 0))));
    assert!(matches!(outs[pr as usize], PulseOutcome::Blocked(b) if b == pl));
    assert_eq!(evs, vec![AudioNodeChangeEvent { entity: r, slot_idx: 0 }]);
    assert_eq!(w.grid.get_entities((0, 0)), Some(pl));
}

#[test]
fn pulse_into_a_reader_extends_the_origin_chain() {
    let mut w = World::new((8, 8));
    let reader = native(NodeVarient::LuaRead, Position::new(3, 1), vec![slot(0, -1, NodeType::SignalConst, 0, 0)], vec![]);
    let reader_id = spawn(&mut w, reader);
    let input_id = w.entities.len() as u64;
    let sn = SlotNode {
        slot_type: SlotType::Bang,
        signal_type: NodeType::SignalConst,
        pos: Position::new(0, -1),
        display: "I!".to_string(),
        name: NodeVarient::Custom("I!".to_string()),
        active: colors(),
        inert: colors(),
        inactive: colors(),
    };
    w.entities.push(Entity::Input { parent: reader_id, slot: InputSlot { idx: 0, slot: sn } });
    w.grid.add_to_grid(input_id, (3, 0)).unwrap();
    let src = native(NodeVarient::LuaPulse, Position::new(0, 0), vec![], vec![slot(0, 0, NodeType::SignalLink, 1, 0)]);
    let src_id = spawn(&mut w, src);
    let ci = w.graph.push_stage(pulsar::dsp::Dsp::Output, src_id);
    if let Entity::Node { audio, .. } = &mut w.entities[src_id as usize] {
        *audio = Some(pulsar::world::AudioNode { idx: Some(ci) });
    }
    let p = w.spawn_audio_pulse(AudioNodeChangeEvent { entity: src_id, slot_idx: 0 }).unwrap().unwrap();
    w.tick_pulses();
    let (outs, evs) = w.tick_pulses();
    assert!(evs.is_empty());
    assert!(matches!(outs[p as usize], PulseOutcome::Fed { link: Some(Ok(())), .. }));
    match &w.graph.chains[ci].t {
        ChainType::ChainList(l) => {
            assert_eq!(l.len(), 2);
            assert_eq!(l[1].e, Some(p));
            match &l[1].t {
                ChainType::ChainList(inner) => assert!(matches!(inner[0].t, ChainType::Dsp(Dsp::Read(_)))),
                _ => panic!("expected a sub-chain"),
            }
        },
        _ => panic!("expected a list"),
    }
}

#[test]
fn batch_spawn_reports_each_event() {
    let mut w = World::new((8, 8));
    let src = native(
        NodeVarient::LuaPulse,
        Position::new(0, 0),
        vec![],
        vec![slot(0, 0, NodeType::SignalLink, 1, 0), slot(0, 0, NodeType::Signal, 0, 1)],
    );
    let id = spawn(&mut w, src);
    let evs = vec![
        AudioNodeChangeEvent { entity: id, slot_idx: 0 },
        AudioNodeChangeEvent { entity: id, slot_idx: 1 },
        AudioNodeChangeEvent { entity: id, slot_idx: 2 },
        AudioNodeChangeEvent { entity: 99, slot_idx: 0 },
        AudioNodeChangeEvent { entity: id, slot_idx: 0 },
    ];
    let r = w.spawn_audio_pulses(&evs);
    assert_eq!(r[0], Ok(Some(1)));
    assert_eq!(r[1], Ok(None));
    assert_eq!(r[2], Err(pulsar::world::SpawnError::NoSuchSlot));
    assert_eq!(r[3], Err(pulsar::world::SpawnError::NotANode));
    assert_eq!(r[4], Err(pulsar::world::SpawnError::Occupied));
    assert_eq!(w.entities.len(), 2);
}

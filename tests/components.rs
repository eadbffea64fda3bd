use pulsar::assets::ScriptAssets;
use pulsar::binding::{initialize_node, node_sources, DecodeError, InitError, ScriptValue};
use pulsar::dsp::{wiring, AudioGraph, Chain, ChainError, ChainType, Dsp, Oscillator, Read, StagePlan, TChain};
use pulsar::grid::{Grid, GridError, GridOp};
use pulsar::node::{
    default_slot_data, get_slot_name, ChannelType, ColorPair, GenericNode, LuaHandle, LuaNode, LuaType, NativeNode, Node,
    NodeData, NodeStatus, NodeType, NodeVarient, PColor, Slot, SlotData, SlotType,
};
use pulsar::position::Position;
use pulsar::read::ReadStream;
use pulsar::world::{Entity, World};

fn s(v: &str) -> ScriptValue {
    ScriptValue::Str(v.to_string())
}

fn table(fields: Vec<(&str, ScriptValue)>, items: Vec<ScriptValue>) -> ScriptValue {
    ScriptValue::Table(fields.into_iter().map(|(k, v)| (k.to_string(), v)).collect(), items)
}

fn pos(x: i64, y: i64) -> ScriptValue {
    table(vec![("x", ScriptValue::Integer(x)), ("y", ScriptValue::Integer(y))], vec![])
}

fn num(f: f32) -> ScriptValue {
    ScriptValue::Number(f.to_bits())
}

fn color_pair() -> ScriptValue {
    let c = || table(vec![], vec![num(1.0), num(0.5), num(0.0)]);
    table(vec![("foreground", c()), ("background", c())], vec![])
}

fn node_value() -> ScriptValue {
    let slot = table(
        vec![("pos", pos(0, 1)), ("signal_type", s("SignalConst")), ("slot_type", s("Bang")), ("direction", pos(0, 0))],
        vec![],
    );
    let out = table(
        vec![("pos", pos(1, 0)), ("signal_type", s("SignalLink")), ("slot_type", s("F32")), ("direction", pos(1, 0))],
        vec![],
    );
    table(
        vec![
            ("name", s("lua_pulse")),
            ("display", s("P")),
            ("pos", pos(2, 3)),
            ("active", color_pair()),
            ("inert", color_pair()),
            ("inactive", color_pair()),
            ("ntype", table(vec![], vec![s("Prod"), s("Signal")])),
            ("slots", table(vec![], vec![slot])),
            ("output_slots", table(vec![], vec![out])),
        ],
        vec![],
    )
}

fn data_value() -> ScriptValue {
    table(
        vec![
            ("slot_data", table(vec![], vec![ScriptValue::Integer(5)])),
            ("output_slot_data", table(vec![], vec![ScriptValue::Boolean(true), ScriptValue::Nil])),
            ("updated", table(vec![], vec![ScriptValue::Integer(0)])),
            ("state", s("Inert")),
            ("data", table(vec![], vec![num(0.25), num(-1.0)])),
        ],
        vec![],
    )
}

fn empty_node() -> Node {
    let c = PColor { r: 0, g: 0, b: 0 };
    let cp = ColorPair { foreground: c, background: c };
    Node {
        name: NodeVarient::Unnamed,
        display: String::new(),
        pos: Position::new(0, 0),
        active: cp,
        inert: cp,
        inactive: cp,
        ntype: vec![],
        slots: vec![],
        output_slots: vec![],
    }
}

fn empty_data() -> NodeData {
    NodeData {
        data: SlotData::Empty,
        slot_data: vec![],
        output_slot_data: vec![],
        updated: vec![],
        state: NodeStatus::Inactive,
        commands: vec![],
    }
}

#[test]
fn reader_hands_over_one_block_then_nothing() {
    let mut r: ReadStream<f32> = ReadStream::new(8, 0.0);
    let a0 = vec![0.1, 0.2, 0.3, 0.4];
    let a1 = vec![-0.1, -0.2, -0.3, -0.4];
    let (o0, o1) = r.generate_samples(&a0, &a1);
    assert_eq!(o0, a0);
    assert_eq!(o1, a1);
    let (n, chans) = r.last_out().unwrap();
    assert_eq!(n, 4);
    assert_eq!(chans, vec![a0.clone(), a1.clone()]);
    assert!(r.last_out().is_none());
    let b0 = vec![1.0, 2.0, 3.0, 4.0];
    let b1 = vec![5.0, 6.0, 7.0, 8.0];
    r.generate_samples(&b0, &b1);
    let (n, chans) = r.last_out().unwrap();
    assert_eq!(n, 4);
    assert_eq!(chans, vec![b0, b1]);
}

#[test]
fn reader_wraps_when_full() {
    let mut r: ReadStream<i32> = ReadStream::new(4, 0);
    // the first block is handed over at once; the next ones fill the other buffer
    r.generate_samples(&vec![1, 2], &vec![1, 2]);
    r.generate_samples(&vec![3, 4], &vec![3, 4]);
    r.generate_samples(&vec![5, 6], &vec![5, 6]);
    r.generate_samples(&vec![7, 8], &vec![7, 8]);
    assert_eq!(r.get_active_buf().out_idx, 2);
    assert_eq!(r.get_active_buf().last_out[0], vec![7, 8, 5, 6]);
    let (n, chans) = r.last_out().unwrap();
    assert_eq!(n, 2);
    assert_eq!(chans[0], vec![1, 2]);
    r.generate_samples(&vec![9, 10], &vec![9, 10]);
    let (n, chans) = r.last_out().unwrap();
    assert_eq!(n, 4);
    assert_eq!(chans[1], vec![7, 8, 9, 10]);
}

#[test]
fn decodes_node_and_data() {
    let n = Node::from_script(&node_value()).unwrap();
    assert!(matches!(n.name, NodeVarient::LuaPulse));
    assert_eq!(n.display, "P");
    assert_eq!(n.pos, Position::new(2, 3));
    assert_eq!(n.ntype, vec![NodeType::Unset, NodeType::Signal]);
    assert_eq!(n.slots[0].signal_type, NodeType::SignalConst);
    assert_eq!(n.slots[0].slot_type, SlotType::Bang);
    assert_eq!(n.output_slots[0].direction, Position::new(1, 0));
    assert_eq!(n.active.foreground, PColor { r: 1.0f32.to_bits(), g: 0.5f32.to_bits(), b: 0 });
    let d = NodeData::from_script(&data_value()).unwrap();
    assert_eq!(d.slot_data, vec![SlotData::I32(5)]);
    assert_eq!(d.output_slot_data, vec![SlotData::Bang(true), SlotData::Empty]);
    assert_eq!(d.updated, vec![0]);
    assert_eq!(d.state, NodeStatus::Inert);
    assert_eq!(d.data, SlotData::F32x2(0.25f32.to_bits(), (-1.0f32).to_bits()));
}

#[test]
fn decode_errors() {
    assert_eq!(Position::from_script(&s("x")).err(), Some(DecodeError::NotATable));
    assert_eq!(Position::from_script(&table(vec![("x", ScriptValue::Integer(1))], vec![])).err(), Some(DecodeError::MissingField));
    assert_eq!(Position::from_script(&pos(1 << 40, 0)).err(), Some(DecodeError::NotAnInteger));
    assert_eq!(NodeType::from_script(&ScriptValue::Integer(1)).err(), Some(DecodeError::NotAString));
    assert_eq!(SlotData::from_script(&s("no")).err(), Some(DecodeError::BadSlotData));
    assert_eq!(SlotData::from_script(&table(vec![], vec![num(1.0)])).err(), Some(DecodeError::NotANumber));
    assert_eq!(PColor::from_script(&table(vec![], vec![ScriptValue::Integer(1), num(0.0), num(0.0)])).err(), Some(DecodeError::NotANumber));
    assert_eq!(SlotType::from_script(&s("Other")), Ok(SlotType::Unset));
    assert_eq!(NodeStatus::from_script(&s("Active")), Ok(NodeStatus::Active));
    assert!(matches!(NodeVarient::from_script(&s("mine")), Ok(NodeVarient::Custom(ref x)) if x == "mine"));
    assert!(matches!(NodeVarient::from_script(&ScriptValue::Nil), Ok(NodeVarient::Unnamed)));
    assert_eq!(NodeVarient::from_script(&ScriptValue::Boolean(true)).err(), Some(DecodeError::NotAString));
}

#[test]
fn initialization_resets_slot_data() {
    let mut g = GenericNode::Lua(LuaNode { node: empty_node(), data: empty_data(), handles: vec![] });
    assert_eq!(initialize_node(&mut g, Some((&node_value(), &data_value()))), Ok(()));
    assert_eq!(g.get_node().pos, Position::new(2, 3));
    assert_eq!(g.get_data().slot_data, vec![SlotData::Bang(false)]);
    assert_eq!(g.get_data().state, NodeStatus::Inert);
    let before = g.get_node().display.clone();
    let r = initialize_node(&mut g, Some((&s("bad"), &data_value())));
    assert_eq!(r, Err(InitError::Malformed(DecodeError::NotATable)));
    assert_eq!(g.get_node().display, before);
}

#[test]
fn default_slot_values_follow_types() {
    let mk = |t| Slot { pos: Position::new(0, 0), slot_type: t, signal_type: NodeType::Signal, direction: Position::new(0, 0) };
    let slots = vec![mk(SlotType::F32), mk(SlotType::I32), mk(SlotType::Bang), mk(SlotType::F32x2), mk(SlotType::Unset)];
    assert_eq!(
        default_slot_data(&slots),
        vec![SlotData::F32(0), SlotData::I32(0), SlotData::Bang(false), SlotData::F32x2(0, 0), SlotData::Empty]
    );
}

#[test]
fn node_sources_wait_for_every_asset() {
    let handles = vec![
        LuaHandle { ltype: LuaType::Node, handle: 1 },
        LuaHandle { ltype: LuaType::Wave, handle: 2 },
        LuaHandle { ltype: LuaType::Node, handle: 3 },
    ];
    let g = GenericNode::Native(NativeNode { node: empty_node(), data: empty_data(), handles: Some(handles) });
    let mut assets = ScriptAssets::new();
    assets.insert(1, "a".to_string());
    assert_eq!(node_sources(&g, &assets), Err(InitError::NotLoaded));
    assets.insert(3, "c".to_string());
    assert_eq!(node_sources(&g, &assets), Ok(vec!["a".to_string(), "c".to_string()]));
    let bare = GenericNode::Native(NativeNode { node: empty_node(), data: empty_data(), handles: None });
    assert_eq!(node_sources(&bare, &assets), Ok(vec![]));
}

#[test]
fn chain_is_built_whole_or_not_at_all() {
    let chain = Chain {
        items: vec![Dsp::Input(Oscillator { lua_handle: vec![4, 5], lua_string: String::new() }), Dsp::Read(Read), Dsp::Output],
    };
    let mut assets = ScriptAssets::new();
    assets.insert(4, "w".to_string());
    assert!(chain.plan(&assets).is_none());
    assets.insert(5, "v".to_string());
    let plan = chain.plan(&assets).unwrap();
    assert_eq!(plan.len(), 3);
    assert!(matches!(&plan[0], StagePlan::Oscillator(t) if *t == vec!["w".to_string(), "v".to_string()]));
    assert!(matches!(plan[1], StagePlan::Reader));
    assert!(matches!(plan[2], StagePlan::Output));
    assert!(chain.depends_on(5));
    assert!(!chain.depends_on(6));
}

#[test]
fn wiring_is_sequential() {
    assert_eq!(wiring(3), (vec![None, Some(0), Some(1)], Some(2)));
    assert_eq!(wiring(0), (vec![], None));
}

#[test]
fn connect_appends_the_stage_of_the_target() {
    let mut g = AudioGraph::new();
    let idx = g.push_stage(Dsp::Output, 9);
    assert_eq!(idx, 0);
    assert_eq!(g.connect(0, &NodeVarient::LuaRead, 11), Ok(()));
    match &g.get_chain()[0].t {
        ChainType::ChainList(l) => {
            assert_eq!(l.len(), 2);
            assert_eq!(l[1].e, Some(11));
            match &l[1].t {
                ChainType::ChainList(inner) => assert!(matches!(inner[0].t, ChainType::Dsp(Dsp::Read(_)))),
                _ => panic!("expected a sub-chain"),
            }
        },
        _ => panic!("expected a list"),
    }
    assert_eq!(g.connect(0, &NodeVarient::LuaPulse, 11), Err(ChainError::PulseSource));
    assert_eq!(g.connect(0, &NodeVarient::Unnamed, 11), Err(ChainError::NotAudio));
    assert_eq!(g.connect(3, &NodeVarient::LuaRead, 11), Err(ChainError::MissingChain));
    g.get_chain_mut().push(TChain::dsp(Dsp::Output, None));
    assert_eq!(g.connect(1, &NodeVarient::LuaRead, 11), Err(ChainError::NotAList));
}

#[test]
fn double_add_is_refused_and_changes_nothing() {
    let mut g = Grid::default();
    assert_eq!(g.dims, (64, 64));
    assert_eq!(g.add_to_grid(1, (0, 0)), Ok(()));
    assert_eq!(g.add_to_grid(2, (0, 0)), Err(GridError::Occupied));
    assert_eq!(g.get_entities((0, 0)), Some(1));
    assert_eq!(g.move_entity(1, (0, 0), (i32::MAX, i32::MIN)), Ok(()));
    assert_eq!(g.get_entities((i32::MAX, i32::MIN)), Some(1));
    assert!(!g.occupied((0, 0)));
    g.remove_from_grid((5, 5));
    assert_eq!(g.apply(GridOp::Add(3, (i32::MAX, i32::MIN))), Err(GridError::Occupied));
    assert_eq!(g.apply(GridOp::Remove((i32::MAX, i32::MIN))), Ok(()));
    assert_eq!(g.get_entities((i32::MAX, i32::MIN)), None);
    assert_eq!(g.apply(GridOp::Move(4, (9, 9), (-1, -1))), Ok(()));
    assert_eq!(g.get_entities((-1, -1)), Some(4));
}

#[test]
fn pulse_ends_within_the_bound_on_an_empty_grid() {
    // dims (4, 4), direction (2, 0): the bound is 2 * 4 / 2 + 1 = 5 ticks
    let mut w = World::new((4, 4));
    let c = PColor { r: 0, g: 0, b: 0 };
    let cp = ColorPair { foreground: c, background: c };
    let node = GenericNode::Native(NativeNode {
        node: Node {
            name: NodeVarient::LuaPulse,
            display: String::new(),
            pos: Position::new(-4, 0),
            active: cp,
            inert: cp,
            inactive: cp,
            ntype: vec![],
            slots: vec![],
            output_slots: vec![Slot { pos: Position::new(0, 0), slot_type: SlotType::Bang, signal_type: NodeType::SignalLink, direction: Position::new(2, 0) }],
        },
        data: empty_data(),
        handles: None,
    });
    w.entities.push(Entity::Node { node, audio: None, blueprint: None, not_setup: None });
    let p = w.spawn_audio_pulse(pulsar::world::AudioNodeChangeEvent { entity: 0, slot_idx: 0 }).unwrap().unwrap();
    let mut ticks = 0;
    while !matches!(w.entities[p as usize], Entity::Vacant) {
        w.tick_pulses();
        ticks += 1;
        assert!(ticks <= 5);
    }
    assert_eq!(ticks, 4);
}

#[test]
fn names_and_labels() {
    assert_eq!(get_slot_name(true, &SlotType::F32), "OF");
    assert_eq!(get_slot_name(false, &SlotType::Bang), "I!");
    assert_eq!(get_slot_name(false, &SlotType::Unset), "I_");
    assert_eq!(NodeVarient::AudioOut.to_name(), "audio_out");
    assert_eq!(NodeVarient::Custom("x".to_string()).to_name(), "x");
    let mut w = World::new((2, 2));
    assert_eq!(w.load_node(ChannelType::Transmitter, &vec![1, 2], Position::new(0, 0)), None);
    let id = w.load_node(ChannelType::Instrument, &vec![1, 2, 3, 4, 5], Position::new(1, 0)).unwrap();
    assert_eq!(w.pending_setup(), vec![id as usize]);
    w.finish_setup(false);
    assert_eq!(w.pending_setup(), vec![id as usize]);
    w.finish_setup(true);
    assert!(w.pending_setup().is_empty());
    let g = w.node_at(id as usize).unwrap();
    assert_eq!(pulsar::node::get_lua_wave_handles(g), vec![4, 5]);
}

#[test]
fn encoded_values_decode_back() {
    let p = Position::new(-7, 12);
    assert_eq!(Position::from_script(&p.to_script()), Ok(p));
    for d in [SlotData::F32(1.5f32.to_bits()), SlotData::I32(-3), SlotData::F32x2(1, 2), SlotData::Bang(true), SlotData::Empty] {
        assert_eq!(SlotData::from_script(&d.to_script()), Ok(d));
    }
    for st in [NodeStatus::Active, NodeStatus::Inactive, NodeStatus::Inert, NodeStatus::Unset] {
        assert_eq!(NodeStatus::from_script(&st.to_script()), Ok(st));
    }
    let d = NodeData {
        data: SlotData::I32(4),
        slot_data: vec![SlotData::Bang(true), SlotData::Empty],
        output_slot_data: vec![SlotData::F32(0)],
        updated: vec![1, 0],
        state: NodeStatus::Active,
        commands: vec![],
    };
    let back = NodeData::from_script(&d.to_script()).unwrap();
    assert_eq!(back.data, d.data);
    assert_eq!(back.slot_data, d.slot_data);
    assert_eq!(back.output_slot_data, d.output_slot_data);
    assert_eq!(back.updated, d.updated);
    assert_eq!(back.state, d.state);
}

#[test]
fn node_round_trips_through_its_script_form() {
    let n = Node::from_script(&node_value()).unwrap();
    let mut m = n.clone();
    m.ntype = vec![NodeType::Signal, NodeType::Receiver];
    let back = Node::from_script(&m.to_script()).unwrap();
    assert!(matches!(back.name, NodeVarient::LuaPulse));
    assert_eq!(back.display, m.display);
    assert_eq!(back.pos, m.pos);
    assert_eq!(back.active, m.active);
    assert_eq!(back.ntype, m.ntype);
    assert_eq!(back.slots, m.slots);
    assert_eq!(back.output_slots, m.output_slots);
    // a producer kind is read back as unset
    assert_eq!(NodeType::from_script(&NodeType::Prod.to_script()), Ok(NodeType::Unset));
    assert_eq!(SlotType::from_script(&SlotType::F32x2.to_script()), Ok(SlotType::F32x2));
}

#[test]
fn reader_hands_over_accumulated_blocks_in_order() {
    let mut r: ReadStream<u32> = ReadStream::new(16, 0);
    r.generate_samples(&vec![1, 2], &vec![11, 12]);
    // three blocks while the consumer is busy elsewhere
    r.generate_samples(&vec![3, 4], &vec![13, 14]);
    r.generate_samples(&vec![5, 6], &vec![15, 16]);
    r.generate_samples(&vec![7, 8], &vec![17, 18]);
    assert_eq!(r.last_out(), Some((2, vec![vec![1, 2], vec![11, 12]])));
    assert_eq!(r.last_out(), None);
    r.generate_samples(&vec![9, 10], &vec![19, 20]);
    assert_eq!(r.last_out(), Some((8, vec![vec![3, 4, 5, 6, 7, 8, 9, 10], vec![13, 14, 15, 16, 17, 18, 19, 20]])));
    assert_eq!(r.last_out(), None);
}

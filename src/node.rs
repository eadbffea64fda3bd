//! The node model: slots, signal kinds, run-time payloads and the two node kinds.
use vstd::prelude::*;

use crate::position::Position;

verus! {

/// Identifier of an entity in the surrounding entity store.
pub type EntityId = u64;

/// Identifier of a script asset in the asset store.
pub type AssetId = u64;

/// Signal kind of a node or a slot.
#[derive(Clone, Copy, Debug, PartialEq, Eq, Structural)]
pub enum NodeType {
    Signal,
    SignalConst,
    /// A realtime audio link.
    SignalLink,
    Prod,
    Emitter,
    Receiver,
    /// No signal kind declared.
    Unset,
}

/// The value type a slot carries.
#[derive(Clone, Copy, Debug, PartialEq, Eq, Structural)]
pub enum SlotType {
    F32,
    I32,
    F32x2,
    Bang,
    /// No value type declared.
    Unset,
}

/// A value held by a slot. Floating-point values are kept as their IEEE-754 bit patterns.
#[derive(Clone, Copy, Debug, PartialEq, Eq, Structural)]
pub enum SlotData {
    F32(u32),
    I32(i32),
    F32x2(u32, u32),
    Bang(bool),
    Empty,
}

/// Coarse status of a node.
#[derive(Clone, Copy, Debug, PartialEq, Eq, Structural)]
pub enum NodeStatus {
    Active,
    Inert,
    Inactive,
    Unset,
}

/// Which family of script sources a blueprint is built from.
#[derive(Clone, Copy, Debug, PartialEq, Eq, Structural)]
pub enum ChannelType {
    Instrument,
    Transmitter,
}

/// Role of a script source: node behaviour, or waveform data.
#[derive(Clone, Copy, Debug, PartialEq, Eq, Structural)]
pub enum LuaType {
    Wave,
    Node,
}

/// The variant name of a node: one of the built-in ones, or a free-form name.
#[derive(Clone, Debug)]
pub enum NodeVarient {
    LuaRead,
    LuaPulse,
    AudioProd,
    AudioOut,
    Custom(String),
    Unnamed,
}

/// A colour, each channel kept as the IEEE-754 bit pattern of a value in `[0, 1]`.
#[derive(Clone, Copy, Debug, PartialEq, Eq, Structural)]
pub struct PColor {
    pub r: u32,
    pub g: u32,
    pub b: u32,
}

/// Foreground and background colours of one display state.
#[derive(Clone, Copy, Debug, PartialEq, Eq, Structural)]
pub struct ColorPair {
    pub foreground: PColor,
    pub background: PColor,
}

/// A declared input or output port of a node.
#[derive(Clone, Copy, Debug, PartialEq, Eq, Structural)]
pub struct Slot {
    /// Offset from the node's position.
    pub pos: Position,
    pub slot_type: SlotType,
    pub signal_type: NodeType,
    /// Propagation direction of pulses leaving an output slot.
    pub direction: Position,
}

/// The grid entity that stands for one slot of a node.
#[derive(Clone, Debug)]
pub struct SlotNode {
    pub slot_type: SlotType,
    pub signal_type: NodeType,
    pub pos: Position,
    pub display: String,
    pub name: NodeVarient,
    pub active: ColorPair,
    pub inert: ColorPair,
    pub inactive: ColorPair,
}

/// An output slot entity: the index of the slot in its node, and its description.
#[derive(Clone, Debug)]
pub struct OutputSlot {
    pub idx: usize,
    pub slot: SlotNode,
}

/// An input slot entity: the index of the slot in its node, and its description.
#[derive(Clone, Debug)]
pub struct InputSlot {
    pub idx: usize,
    pub slot: SlotNode,
}

/// Structural fields of a node.
#[derive(Clone, Debug)]
pub struct Node {
    pub name: NodeVarient,
    pub display: String,
    pub pos: Position,
    pub active: ColorPair,
    pub inert: ColorPair,
    pub inactive: ColorPair,
    pub ntype: Vec<NodeType>,
    pub slots: Vec<Slot>,
    pub output_slots: Vec<Slot>,
}

/// A command a node asks the runtime to carry out.
#[derive(Clone, Debug)]
pub enum NodeCommand {
    SpawnNode(Node),
    Idle,
}

/// Run-time payload of a node.
#[derive(Clone, Debug)]
pub struct NodeData {
    pub data: SlotData,
    pub slot_data: Vec<SlotData>,
    pub output_slot_data: Vec<SlotData>,
    /// Indices of input slots written since the node last looked.
    pub updated: Vec<usize>,
    pub state: NodeStatus,
    pub commands: Vec<NodeCommand>,
}

/// A script source of a node, with its role.
#[derive(Clone, Copy, Debug, PartialEq, Eq, Structural)]
pub struct LuaHandle {
    pub ltype: LuaType,
    pub handle: AssetId,
}

/// A node driven by scripts. Its script context lives with the runtime, keyed by entity.
#[derive(Clone, Debug)]
pub struct LuaNode {
    pub node: Node,
    pub data: NodeData,
    pub handles: Vec<LuaHandle>,
}

/// A built-in node, which may have script sources or none.
#[derive(Clone, Debug)]
pub struct NativeNode {
    pub node: Node,
    pub data: NodeData,
    pub handles: Option<Vec<LuaHandle>>,
}

/// A travelling pulse: the output slot it left, its direction, and the node it came from.
#[derive(Clone, Copy, Debug, PartialEq, Eq, Structural)]
pub struct Pulse {
    pub slot_idx: usize,
    pub direction: Position,
    pub original_entity: EntityId,
}

/// Marks a node that is a template for spawning others, never placed on the grid.
#[derive(Clone, Copy, Debug, PartialEq, Eq, Structural)]
pub struct NodeBP;

/// Marks a node whose initialization has not completed yet.
#[derive(Clone, Copy, Debug, PartialEq, Eq, Structural)]
pub struct NotSetup;

/// Marks a node whose behaviour comes from scripts.
#[derive(Clone, Copy, Debug, PartialEq, Eq, Structural)]
pub struct IsLuaNode;

/// Marks a built-in node.
#[derive(Clone, Copy, Debug, PartialEq, Eq, Structural)]
pub struct IsNativeNode;

/// The default value of a slot of the given type.
pub open spec fn default_slot_value(t: SlotType) -> SlotData {
    match t {
        SlotType::F32 => SlotData::F32(0),
        SlotType::I32 => SlotData::I32(0),
        SlotType::F32x2 => SlotData::F32x2(0, 0),
        SlotType::Bang => SlotData::Bang(false),
        SlotType::Unset => SlotData::Empty,
    }
}

/// One default value per slot, in slot order.
pub open spec fn default_slot_values(slots: Seq<Slot>) -> Seq<SlotData> {
    Seq::new(slots.len(), |i: int| default_slot_value(slots[i].slot_type))
}

impl SlotData {
    pub fn default_for(t: SlotType) -> (r: SlotData)
        ensures
            r == default_slot_value(t),
    {
        match t {
            SlotType::F32 => SlotData::F32(0),
            SlotType::I32 => SlotData::I32(0),
            SlotType::F32x2 => SlotData::F32x2(0, 0),
            SlotType::Bang => SlotData::Bang(false),
            SlotType::Unset => SlotData::Empty,
        }
    }
}

/// The default value of every declared input slot, in order.
pub fn default_slot_data(slots: &Vec<Slot>) -> (r: Vec<SlotData>)
    ensures
        r@ == default_slot_values(slots@),
{
    let mut r: Vec<SlotData> = Vec::new();
    let mut i: usize = 0;
    while i < slots.len()
        invariant
            i <= slots@.len(),
            r@ == default_slot_values(slots@.subrange(0, i as int)),
        decreases slots@.len() - i,
    {
        r.push(SlotData::default_for(slots[i].slot_type));
        i = i + 1;
        assert(r@ =~= default_slot_values(slots@.subrange(0, i as int)));
    }
    assert(slots@.subrange(0, i as int) =~= slots@);
    r
}

/// A node of either kind.
#[derive(Clone, Debug)]
pub enum GenericNode {
    Lua(LuaNode),
    Native(NativeNode),
}

/// Colour channel value 1.0.
pub const ONE: u32 = 0x3f800000;

/// Colour channel value 0.0.
pub const ZERO: u32 = 0;

/// Slot colours while active.
pub fn slot_active() -> (r: ColorPair)
    ensures
        r == (ColorPair { foreground: PColor { r: ONE, g: ZERO, b: ZERO }, background: PColor { r: ZERO, g: ONE, b: ZERO } }),
{
    ColorPair { foreground: PColor { r: ONE, g: ZERO, b: ZERO }, background: PColor { r: ZERO, g: ONE, b: ZERO } }
}

/// Slot colours while inactive.
pub fn slot_inactive() -> (r: ColorPair)
    ensures
        r == (ColorPair { foreground: PColor { r: ZERO, g: ZERO, b: ONE }, background: PColor { r: ONE, g: ONE, b: ZERO } }),
{
    ColorPair { foreground: PColor { r: ZERO, g: ZERO, b: ONE }, background: PColor { r: ONE, g: ONE, b: ZERO } }
}

/// Slot colours while inert: red on mantle.
pub fn slot_inert() -> (r: ColorPair)
    ensures
        r == (ColorPair {
            foreground: PColor { r: 0x3f73f3f4, g: 0x3f0b8b8c, b: 0x3f28a8a9 },
            background: PColor { r: 0x3dc0c0c1, g: 0x3dc0c0c1, b: 0x3e149495 },
        }),
{
    ColorPair {
        foreground: PColor { r: 0x3f73f3f4, g: 0x3f0b8b8c, b: 0x3f28a8a9 },
        background: PColor { r: 0x3dc0c0c1, g: 0x3dc0c0c1, b: 0x3e149495 },
    }
}

/// The two-letter label of a slot: `O` or `I`, then the value type.
pub open spec fn slot_name(is_output: bool, t: SlotType) -> Seq<char> {
    seq![
        if is_output { 'O' } else { 'I' },
        match t {
            SlotType::F32 => 'F',
            SlotType::I32 => 'I',
            SlotType::F32x2 => 'G',
            SlotType::Bang => '!',
            SlotType::Unset => '_',
        },
    ]
}

pub fn get_slot_name(is_output: bool, slot_type: &SlotType) -> (r: String)
    ensures
        r@ == slot_name(is_output, *slot_type),
{
    broadcast use vstd::string::group_string_axioms;
    let r = match (is_output, slot_type) {
        (true, SlotType::F32) => {
            proof { reveal_strlit("OF"); }
            "OF".to_string()
        },
        (true, SlotType::I32) => {
            proof { reveal_strlit("OI"); }
            "OI".to_string()
        },
        (true, SlotType::F32x2) => {
            proof { reveal_strlit("OG"); }
            "OG".to_string()
        },
        (true, SlotType::Bang) => {
            proof { reveal_strlit("O!"); }
            "O!".to_string()
        },
        (true, SlotType::Unset) => {
            proof { reveal_strlit("O_"); }
            "O_".to_string()
        },
        (false, SlotType::F32) => {
            proof { reveal_strlit("IF"); }
            "IF".to_string()
        },
        (false, SlotType::I32) => {
            proof { reveal_strlit("II"); }
            "II".to_string()
        },
        (false, SlotType::F32x2) => {
            proof { reveal_strlit("IG"); }
            "IG".to_string()
        },
        (false, SlotType::Bang) => {
            proof { reveal_strlit("I!"); }
            "I!".to_string()
        },
        (false, SlotType::Unset) => {
            proof { reveal_strlit("I_"); }
            "I_".to_string()
        },
    };
    assert(r@ =~= slot_name(is_output, *slot_type));
    r
}

impl NodeVarient {
    /// A copy of the variant.
    pub fn clone_name(&self) -> (r: NodeVarient)
        ensures
            r == *self,
    {
        match self {
            NodeVarient::LuaRead => NodeVarient::LuaRead,
            NodeVarient::LuaPulse => NodeVarient::LuaPulse,
            NodeVarient::AudioProd => NodeVarient::AudioProd,
            NodeVarient::AudioOut => NodeVarient::AudioOut,
            NodeVarient::Custom(s) => NodeVarient::Custom(s.clone()),
            NodeVarient::Unnamed => NodeVarient::Unnamed,
        }
    }

    /// The name under which nodes of this variant are looked up.
    pub open spec fn name_spec(self) -> Seq<char> {
        match self {
            NodeVarient::LuaRead => seq!['l', 'u', 'a', '_', 'r', 'e', 'a', 'd'],
            NodeVarient::LuaPulse => seq!['l', 'u', 'a', '_', 'p', 'u', 'l', 's', 'e'],
            NodeVarient::AudioProd => seq!['a', 'u', 'd', 'i', 'o', '_', 'p', 'r', 'o', 'd'],
            NodeVarient::AudioOut => seq!['a', 'u', 'd', 'i', 'o', '_', 'o', 'u', 't'],
            NodeVarient::Custom(s) => s@,
            NodeVarient::Unnamed => seq![],
        }
    }

    pub fn to_name(&self) -> (r: String)
        ensures
            r@ == self.name_spec(),
    {
        broadcast use vstd::string::group_string_axioms;
        let r = match self {
            NodeVarient::LuaRead => {
            proof { reveal_strlit("lua_read"); }
            "lua_read".to_string()
        },
            NodeVarient::LuaPulse => {
            proof { reveal_strlit("lua_pulse"); }
            "lua_pulse".to_string()
        },
            NodeVarient::AudioProd => {
            proof { reveal_strlit("audio_prod"); }
            "audio_prod".to_string()
        },
            NodeVarient::AudioOut => {
            proof { reveal_strlit("audio_out"); }
            "audio_out".to_string()
        },
            NodeVarient::Custom(s) => s.clone(),
            NodeVarient::Unnamed => String::new(),
        };
        assert(r@ =~= self.name_spec());
        r
    }
}

impl GenericNode {
    pub open spec fn node_of(self) -> Node {
        match self {
            GenericNode::Lua(n) => n.node,
            GenericNode::Native(n) => n.node,
        }
    }

    pub open spec fn data_of(self) -> NodeData {
        match self {
            GenericNode::Lua(n) => n.data,
            GenericNode::Native(n) => n.data,
        }
    }

    pub open spec fn handles_of(self) -> Option<Vec<LuaHandle>> {
        match self {
            GenericNode::Lua(n) => Some(n.handles),
            GenericNode::Native(n) => n.handles,
        }
    }

    /// `self` with its payload replaced by `d`.
    pub open spec fn with_data(self, d: NodeData) -> GenericNode {
        match self {
            GenericNode::Lua(n) => GenericNode::Lua(LuaNode { data: d, ..n }),
            GenericNode::Native(n) => GenericNode::Native(NativeNode { data: d, ..n }),
        }
    }

    /// `self` with its structural fields replaced by `m`.
    pub open spec fn with_node(self, m: Node) -> GenericNode {
        match self {
            GenericNode::Lua(n) => GenericNode::Lua(LuaNode { node: m, ..n }),
            GenericNode::Native(n) => GenericNode::Native(NativeNode { node: m, ..n }),
        }
    }

    pub fn get_lua_node(&self) -> (r: Option<&LuaNode>)
        ensures
            r == (match self { GenericNode::Lua(n) => Some(n), _ => None::<&LuaNode> }),
    {
        match self {
            GenericNode::Lua(n) => Some(n),
            _ => None,
        }
    }

    pub fn get_native_node(&self) -> (r: Option<&NativeNode>)
        ensures
            r == (match self { GenericNode::Native(n) => Some(n), _ => None::<&NativeNode> }),
    {
        match self {
            GenericNode::Native(n) => Some(n),
            _ => None,
        }
    }

    pub fn get_node(&self) -> (r: &Node)
        ensures
            *r == self.node_of(),
    {
        match self {
            GenericNode::Lua(n) => &n.node,
            GenericNode::Native(n) => &n.node,
        }
    }

    pub fn get_data(&self) -> (r: &NodeData)
        ensures
            *r == self.data_of(),
    {
        match self {
            GenericNode::Lua(n) => &n.data,
            GenericNode::Native(n) => &n.data,
        }
    }

    pub fn get_node_mut(&mut self) -> (r: &mut Node)
        ensures
            *r == old(self).node_of(),
            *final(self) == old(self).with_node(*final(r)),
    {
        match self {
            GenericNode::Lua(n) => &mut n.node,
            GenericNode::Native(n) => &mut n.node,
        }
    }

    pub fn get_data_mut(&mut self) -> (r: &mut NodeData)
        ensures
            *r == old(self).data_of(),
            *final(self) == old(self).with_data(*final(r)),
    {
        match self {
            GenericNode::Lua(n) => &mut n.data,
            GenericNode::Native(n) => &mut n.data,
        }
    }

    pub fn get_lua_handles(&self) -> (r: Option<&Vec<LuaHandle>>)
        ensures
            match self {
                GenericNode::Lua(n) => r == Some(&n.handles),
                GenericNode::Native(n) => match n.handles {
                    Some(h) => r is Some && *r->Some_0 == h,
                    None => r is None,
                },
            },
    {
        match self {
            GenericNode::Lua(n) => Some(&n.handles),
            GenericNode::Native(n) => match &n.handles {
                Some(h) => Some(h),
                None => None,
            },
        }
    }

    pub fn name(&self) -> (r: &NodeVarient)
        ensures
            *r == self.node_of().name,
    {
        &self.get_node().name
    }

    pub fn pos(&self) -> (r: Position)
        ensures
            r == self.node_of().pos,
    {
        self.get_node().pos
    }

    pub fn get_active(&self) -> (r: ColorPair)
        ensures
            r == self.node_of().active,
    {
        self.get_node().active
    }

    pub fn get_inert(&self) -> (r: ColorPair)
        ensures
            r == self.node_of().inert,
    {
        self.get_node().inert
    }

    pub fn get_inactive(&self) -> (r: ColorPair)
        ensures
            r == self.node_of().inactive,
    {
        self.get_node().inactive
    }
}

/// Whether `e` is the slot entity built for slot `s` at index `i`.
pub open spec fn describes_slot(e: SlotNode, s: Slot, is_output: bool) -> bool {
    &&& e.slot_type == s.slot_type
    &&& e.signal_type == s.signal_type
    &&& e.pos == s.pos
    &&& e.display@ == slot_name(is_output, s.slot_type)
    &&& e.name is Custom && e.name->Custom_0@ == slot_name(is_output, s.slot_type)
}

fn slot_node(s: &Slot, is_output: bool) -> (r: SlotNode)
    ensures
        describes_slot(r, *s, is_output),
{
    SlotNode {
        slot_type: s.slot_type,
        signal_type: s.signal_type,
        display: get_slot_name(is_output, &s.slot_type),
        name: NodeVarient::Custom(get_slot_name(is_output, &s.slot_type)),
        pos: s.pos,
        active: slot_active(),
        inert: slot_inert(),
        inactive: slot_inactive(),
    }
}

/// The input and output slot entities of a node, one per declared slot, in slot order.
pub fn create_default_components(c: GenericNode) -> (r: (GenericNode, Vec<InputSlot>, Vec<OutputSlot>))
    ensures
        r.0 == c,
        r.1@.len() == c.node_of().slots@.len(),
        forall|i: int| 0 <= i < r.1@.len() ==> (#[trigger] r.1@[i]).idx == i && describes_slot(r.1@[i].slot, c.node_of().slots@[i], false),
        r.2@.len() == c.node_of().output_slots@.len(),
        forall|i: int| 0 <= i < r.2@.len() ==> (#[trigger] r.2@[i]).idx == i && describes_slot(r.2@[i].slot, c.node_of().output_slots@[i], true),
{
    let mut ins: Vec<InputSlot> = Vec::new();
    let mut outs: Vec<OutputSlot> = Vec::new();
    let n = c.get_node();
    let mut i: usize = 0;
    while i < n.output_slots.len()
        invariant
            *n == c.node_of(),
            i <= n.output_slots@.len(),
            outs@.len() == i,
            forall|j: int| 0 <= j < i ==> (#[trigger] outs@[j]).idx == j && describes_slot(outs@[j].slot, n.output_slots@[j], true),
        decreases n.output_slots@.len() - i,
    {
        outs.push(OutputSlot { idx: i, slot: slot_node(&n.output_slots[i], true) });
        i = i + 1;
    }
    let mut j: usize = 0;
    while j < n.slots.len()
        invariant
            *n == c.node_of(),
            j <= n.slots@.len(),
            ins@.len() == j,
            forall|k: int| 0 <= k < j ==> (#[trigger] ins@[k]).idx == k && describes_slot(ins@[k].slot, n.slots@[k], false),
        decreases n.slots@.len() - j,
    {
        ins.push(InputSlot { idx: j, slot: slot_node(&n.slots[j], false) });
        j = j + 1;
    }
    (c, ins, outs)
}

/// A copy of `v`.
pub fn copy_vec<T: Copy>(v: &Vec<T>) -> (r: Vec<T>)
    ensures
        r@ == v@,
{
    let mut r: Vec<T> = Vec::new();
    let mut i: usize = 0;
    while i < v.len()
        invariant
            i <= v@.len(),
            r@ == v@.subrange(0, i as int),
        decreases v@.len() - i,
    {
        r.push(v[i]);
        i = i + 1;
        assert(r@ =~= v@.subrange(0, i as int));
    }
    assert(v@.subrange(0, i as int) =~= v@);
    r
}

impl Node {
    /// Whether `self` and `o` hold the same structural fields.
    pub open spec fn same_as(self, o: Node) -> bool {
        &&& self.name == o.name
        &&& self.display == o.display
        &&& self.pos == o.pos
        &&& self.active == o.active
        &&& self.inert == o.inert
        &&& self.inactive == o.inactive
        &&& self.ntype@ == o.ntype@
        &&& self.slots@ == o.slots@
        &&& self.output_slots@ == o.output_slots@
    }

    /// A copy of the node, moved to `pos`.
    pub fn copy_at(&self, pos: Position) -> (r: Node)
        ensures
            r.same_as(Node { pos, ..*self }),
    {
        Node {
            name: self.name.clone_name(),
            display: self.display.clone(),
            pos,
            active: self.active,
            inert: self.inert,
            inactive: self.inactive,
            ntype: copy_vec(&self.ntype),
            slots: copy_vec(&self.slots),
            output_slots: copy_vec(&self.output_slots),
        }
    }
}

impl NodeData {
    /// Whether `self` and `o` hold the same payload; pending commands are not compared.
    pub open spec fn same_as(self, o: NodeData) -> bool {
        &&& self.data == o.data
        &&& self.slot_data@ == o.slot_data@
        &&& self.output_slot_data@ == o.output_slot_data@
        &&& self.updated@ == o.updated@
        &&& self.state == o.state
    }

    /// A copy of the payload, without pending commands.
    pub fn copy(&self) -> (r: NodeData)
        ensures
            r.same_as(*self),
            r.commands@.len() == 0,
    {
        NodeData {
            data: self.data,
            slot_data: copy_vec(&self.slot_data),
            output_slot_data: copy_vec(&self.output_slot_data),
            updated: copy_vec(&self.updated),
            state: self.state,
            commands: Vec::new(),
        }
    }
}

/// Whether `g` is an instance of blueprint `bp` placed at `pos`: same kind, same
/// structure but for the position, same payload and same script sources.
pub open spec fn instance_of(g: GenericNode, bp: GenericNode, pos: Position) -> bool {
    &&& (g is Lua <==> bp is Lua)
    &&& g.node_of().same_as(Node { pos, ..bp.node_of() })
    &&& g.data_of().same_as(bp.data_of())
    &&& match (g.handles_of(), bp.handles_of()) {
        (Some(a), Some(b)) => a@ == b@,
        (None, None) => true,
        _ => false,
    }
}

/// A fresh node from blueprint `bp`, placed at `pos`.
pub fn construct_node_from_bp(bp: &GenericNode, pos: Position) -> (r: GenericNode)
    ensures
        instance_of(r, *bp, pos),
{
    match bp {
        GenericNode::Lua(n) => GenericNode::Lua(LuaNode {
            node: n.node.copy_at(pos),
            data: n.data.copy(),
            handles: copy_vec(&n.handles),
        }),
        GenericNode::Native(n) => GenericNode::Native(NativeNode {
            node: n.node.copy_at(pos),
            data: n.data.copy(),
            handles: match &n.handles {
                Some(h) => Some(copy_vec(h)),
                None => None,
            },
        }),
    }
}

/// The asset ids of the handles that have role `role`, in order.
pub open spec fn ids_with_role(h: Seq<LuaHandle>, role: LuaType) -> Seq<AssetId>
    decreases h.len(),
{
    if h.len() == 0 {
        seq![]
    } else if h.last().ltype == role {
        ids_with_role(h.drop_last(), role).push(h.last().handle)
    } else {
        ids_with_role(h.drop_last(), role)
    }
}

/// The asset ids of the handles that have role `role`, in order.
pub fn handles_with_role(h: &Vec<LuaHandle>, role: LuaType) -> (r: Vec<AssetId>)
    ensures
        r@ == ids_with_role(h@, role),
{
    let mut r: Vec<AssetId> = Vec::new();
    let mut i: usize = 0;
    while i < h.len()
        invariant
            i <= h@.len(),
            r@ == ids_with_role(h@.subrange(0, i as int), role),
        decreases h@.len() - i,
    {
        if h[i].ltype == role {
            r.push(h[i].handle);
        }
        i = i + 1;
        assert(h@.subrange(0, i as int).drop_last() =~= h@.subrange(0, i - 1));
    }
    assert(h@.subrange(0, i as int) =~= h@);
    r
}

/// The waveform sources of a node, in order; none when it has no script sources.
pub fn get_lua_wave_handles(node: &GenericNode) -> (r: Vec<AssetId>)
    ensures
        r@ == match node.handles_of() {
            Some(h) => ids_with_role(h@, LuaType::Wave),
            None => Seq::<AssetId>::empty(),
        },
{
    match node.get_lua_handles() {
        Some(h) => handles_with_role(h, LuaType::Wave),
        None => Vec::new(),
    }
}

impl SlotNode {
    /// An identical slot entity.
    pub fn copy(&self) -> (r: SlotNode)
        ensures
            r == *self,
    {
        SlotNode {
            slot_type: self.slot_type,
            signal_type: self.signal_type,
            pos: self.pos,
            display: self.display.clone(),
            name: self.name.clone_name(),
            active: self.active,
            inert: self.inert,
            inactive: self.inactive,
        }
    }
}

impl Default for ColorPair {
    /// Mantle on maroon.
    fn default() -> (r: ColorPair)
        ensures
            r == (ColorPair {
                foreground: PColor { r: 0x3dc0c0c1, g: 0x3dc0c0c1, b: 0x3e149495 },
                background: PColor { r: 0x3f6bebec, g: 0x3f20a0a1, b: 0x3f2cacad },
            }),
    {
        ColorPair {
            foreground: PColor { r: 0x3dc0c0c1, g: 0x3dc0c0c1, b: 0x3e149495 },
            background: PColor { r: 0x3f6bebec, g: 0x3f20a0a1, b: 0x3f2cacad },
        }
    }
}

} // verus!

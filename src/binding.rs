//! The script binding layer: values read out of a node program's environment, their
//! decoding into the node model, and node initialization.
use vstd::prelude::*;

use crate::assets::{all_loaded, texts_of, ScriptAssets};
use crate::node::{
    default_slot_data, default_slot_values, handles_with_role, ids_with_role, ColorPair, GenericNode, LuaType, Node, NodeData,
    NodeStatus, NodeType, NodeVarient, PColor, Slot, SlotData, SlotType,
};
use crate::position::Position;

verus! {

/// A value read out of a node program's environment.
#[derive(Debug)]
pub enum ScriptValue {
    Nil,
    Boolean(bool),
    Integer(i64),
    /// A number, as the bit pattern of its single-precision value.
    Number(u32),
    Str(String),
    /// A table: its string-keyed fields, and its sequence part (keys 1, 2, ...).
    Table(Vec<(String, ScriptValue)>, Vec<ScriptValue>),
}

/// Why a script value does not describe what was asked for.
#[derive(Clone, Copy, Debug, PartialEq, Eq, Structural)]
pub enum DecodeError {
    /// A table was expected.
    NotATable,
    /// A string was expected.
    NotAString,
    /// A number was expected.
    NotANumber,
    /// An integer in range was expected.
    NotAnInteger,
    /// A field is absent.
    MissingField,
    /// The value has a form no slot value has.
    BadSlotData,
}

/// The value of the first field named `key`.
pub open spec fn field_of(fs: Seq<(String, ScriptValue)>, key: Seq<char>) -> Option<ScriptValue>
    decreases fs.len(),
{
    if fs.len() == 0 {
        None
    } else if fs[0].0@ == key {
        Some(fs[0].1)
    } else {
        field_of(fs.subrange(1, fs.len() as int), key)
    }
}

/// The field `key` of table `v`.
pub open spec fn get_spec(v: ScriptValue, key: Seq<char>) -> Result<ScriptValue, DecodeError> {
    match v {
        ScriptValue::Table(fs, _) => match field_of(fs@, key) {
            Some(x) => Ok(x),
            None => Err(DecodeError::MissingField),
        },
        _ => Err(DecodeError::NotATable),
    }
}

fn find_field<'a>(fs: &'a Vec<(String, ScriptValue)>, key: &str) -> (r: Option<&'a ScriptValue>)
    ensures
        match field_of(fs@, key@) {
            Some(x) => r is Some && *r->Some_0 == x,
            None => r is None,
        },
{
    broadcast use vstd::string::group_string_axioms;
    let k = key.to_string();
    let mut i: usize = 0;
    assert(fs@.subrange(0, fs@.len() as int) =~= fs@);
    while i < fs.len()
        invariant
            i <= fs@.len(),
            k@ == key@,
            field_of(fs@, key@) == field_of(fs@.subrange(i as int, fs@.len() as int), key@),
        decreases fs@.len() - i,
    {
        assert(fs@.subrange(i as int, fs@.len() as int)[0] == fs@[i as int]);
        assert(fs@.subrange(i as int, fs@.len() as int).subrange(1, fs@.len() - i) =~= fs@.subrange(i + 1, fs@.len() as int));
        if fs[i].0 == k {
            return Some(&fs[i].1);
        }
        i = i + 1;
    }
    None
}

/// The field `key` of a table.
pub fn get_field<'a>(v: &'a ScriptValue, key: &str) -> (r: Result<&'a ScriptValue, DecodeError>)
    ensures
        match get_spec(*v, key@) {
            Ok(x) => r is Ok && *r->Ok_0 == x,
            Err(e) => r == Err::<&ScriptValue, DecodeError>(e),
        },
{
    match v {
        ScriptValue::Table(fs, _) => match find_field(fs, key) {
            Some(x) => Ok(x),
            None => Err(DecodeError::MissingField),
        },
        _ => Err(DecodeError::NotATable),
    }
}

/// An integer that fits `i32`.
pub open spec fn int_of(v: ScriptValue) -> Result<i32, DecodeError> {
    match v {
        ScriptValue::Integer(i) => if i32::MIN <= i <= i32::MAX { Ok(i as i32) } else { Err(DecodeError::NotAnInteger) },
        _ => Err(DecodeError::NotAnInteger),
    }
}

fn decode_i32(v: &ScriptValue) -> (r: Result<i32, DecodeError>)
    ensures
        r == int_of(*v),
{
    match v {
        ScriptValue::Integer(i) => if *i >= i32::MIN as i64 && *i <= i32::MAX as i64 {
            Ok(*i as i32)
        } else {
            Err(DecodeError::NotAnInteger)
        },
        _ => Err(DecodeError::NotAnInteger),
    }
}

/// A position: a table with integer fields `x` and `y`.
pub open spec fn position_of(v: ScriptValue) -> Result<Position, DecodeError> {
    match get_spec(v, "x"@) {
        Err(e) => Err(e),
        Ok(x) => match int_of(x) {
            Err(e) => Err(e),
            Ok(xi) => match get_spec(v, "y"@) {
                Err(e) => Err(e),
                Ok(y) => match int_of(y) {
                    Err(e) => Err(e),
                    Ok(yi) => Ok(Position { x: xi, y: yi }),
                },
            },
        },
    }
}

impl Position {
    pub fn from_script(v: &ScriptValue) -> (r: Result<Position, DecodeError>)
        ensures
            r == position_of(*v),
    {
        let x = decode_i32(get_field(v, "x")?)?;
        let y = decode_i32(get_field(v, "y")?)?;
        Ok(Position::new(x, y))
    }
}

/// The string held by `v`.
pub open spec fn str_of(v: ScriptValue) -> Result<Seq<char>, DecodeError> {
    match v {
        ScriptValue::Str(s) => Ok(s@),
        _ => Err(DecodeError::NotAString),
    }
}

/// A signal kind, by name; unknown names give `Unset`.
pub open spec fn node_type_named(s: Seq<char>) -> NodeType {
    if s == "Signal"@ {
        NodeType::Signal
    } else if s == "SignalConst"@ {
        NodeType::SignalConst
    } else if s == "SignalLink"@ {
        NodeType::SignalLink
    } else if s == "Emitter"@ {
        NodeType::Emitter
    } else if s == "Receiver"@ {
        NodeType::Receiver
    } else {
        NodeType::Unset
    }
}

fn is_named(s: &String, name: &str) -> (r: bool)
    ensures
        r == (s@ == name@),
{
    broadcast use vstd::string::group_string_axioms;
    *s == name.to_string()
}

impl NodeType {
    pub fn from_script(v: &ScriptValue) -> (r: Result<NodeType, DecodeError>)
        ensures
            r == (match str_of(*v) { Ok(s) => Ok(node_type_named(s)), Err(e) => Err(e) }),
    {
        match v {
            ScriptValue::Str(s) => Ok(
                if is_named(s, "Signal") {
                    NodeType::Signal
                } else if is_named(s, "SignalConst") {
                    NodeType::SignalConst
                } else if is_named(s, "SignalLink") {
                    NodeType::SignalLink
                } else if is_named(s, "Emitter") {
                    NodeType::Emitter
                } else if is_named(s, "Receiver") {
                    NodeType::Receiver
                } else {
                    NodeType::Unset
                },
            ),
            _ => Err(DecodeError::NotAString),
        }
    }
}

/// A value type, by name; unknown names give `Unset`.
pub open spec fn slot_type_named(s: Seq<char>) -> SlotType {
    if s == "F32"@ {
        SlotType::F32
    } else if s == "I32"@ {
        SlotType::I32
    } else if s == "F32x2"@ {
        SlotType::F32x2
    } else if s == "Bang"@ {
        SlotType::Bang
    } else {
        SlotType::Unset
    }
}

impl SlotType {
    pub fn from_script(v: &ScriptValue) -> (r: Result<SlotType, DecodeError>)
        ensures
            r == (match str_of(*v) { Ok(s) => Ok(slot_type_named(s)), Err(e) => Err(e) }),
    {
        match v {
            ScriptValue::Str(s) => Ok(
                if is_named(s, "F32") {
                    SlotType::F32
                } else if is_named(s, "I32") {
                    SlotType::I32
                } else if is_named(s, "F32x2") {
                    SlotType::F32x2
                } else if is_named(s, "Bang") {
                    SlotType::Bang
                } else {
                    SlotType::Unset
                },
            ),
            _ => Err(DecodeError::NotAString),
        }
    }
}

/// A status, by name; unknown names give `Unset`.
pub open spec fn status_named(s: Seq<char>) -> NodeStatus {
    if s == "Active"@ {
        NodeStatus::Active
    } else if s == "Inactive"@ {
        NodeStatus::Inactive
    } else if s == "Inert"@ {
        NodeStatus::Inert
    } else {
        NodeStatus::Unset
    }
}

impl NodeStatus {
    pub fn from_script(v: &ScriptValue) -> (r: Result<NodeStatus, DecodeError>)
        ensures
            r == (match str_of(*v) { Ok(s) => Ok(status_named(s)), Err(e) => Err(e) }),
    {
        match v {
            ScriptValue::Str(s) => Ok(
                if is_named(s, "Active") {
                    NodeStatus::Active
                } else if is_named(s, "Inactive") {
                    NodeStatus::Inactive
                } else if is_named(s, "Inert") {
                    NodeStatus::Inert
                } else {
                    NodeStatus::Unset
                },
            ),
            _ => Err(DecodeError::NotAString),
        }
    }
}

/// The number held by `v`, as single-precision bits.
pub open spec fn number_of(v: ScriptValue) -> Result<u32, DecodeError> {
    match v {
        ScriptValue::Number(b) => Ok(b),
        _ => Err(DecodeError::NotANumber),
    }
}

fn decode_number(v: &ScriptValue) -> (r: Result<u32, DecodeError>)
    ensures
        r == number_of(*v),
{
    match v {
        ScriptValue::Number(b) => Ok(*b),
        _ => Err(DecodeError::NotANumber),
    }
}

/// A slot value: an integer, a number, a flag, a pair of numbers, or nil.
pub open spec fn slot_data_of(v: ScriptValue) -> Result<SlotData, DecodeError> {
    match v {
        ScriptValue::Integer(i) => Ok(SlotData::I32(i as i32)),
        ScriptValue::Number(b) => Ok(SlotData::F32(b)),
        ScriptValue::Boolean(b) => Ok(SlotData::Bang(b)),
        ScriptValue::Table(_, items) => if items@.len() >= 2 {
            match (number_of(items@[0]), number_of(items@[1])) {
                (Ok(a), Ok(b)) => Ok(SlotData::F32x2(a, b)),
                _ => Err(DecodeError::NotANumber),
            }
        } else {
            Err(DecodeError::NotANumber)
        },
        ScriptValue::Nil => Ok(SlotData::Empty),
        ScriptValue::Str(_) => Err(DecodeError::BadSlotData),
    }
}

impl SlotData {
    pub fn from_script(v: &ScriptValue) -> (r: Result<SlotData, DecodeError>)
        ensures
            r == slot_data_of(*v),
    {
        match v {
            ScriptValue::Integer(i) => Ok(SlotData::I32(*i as i32)),
            ScriptValue::Number(b) => Ok(SlotData::F32(*b)),
            ScriptValue::Boolean(b) => Ok(SlotData::Bang(*b)),
            ScriptValue::Table(_, items) => {
                if items.len() >= 2 {
                    match (decode_number(&items[0]), decode_number(&items[1])) {
                        (Ok(a), Ok(b)) => Ok(SlotData::F32x2(a, b)),
                        _ => Err(DecodeError::NotANumber),
                    }
                } else {
                    Err(DecodeError::NotANumber)
                }
            },
            ScriptValue::Nil => Ok(SlotData::Empty),
            ScriptValue::Str(_) => Err(DecodeError::BadSlotData),
        }
    }
}

/// Decodes field `key` of `v` with the spec decoder `f`.
pub open spec fn field_then<T>(v: ScriptValue, key: Seq<char>, f: spec_fn(ScriptValue) -> Result<T, DecodeError>) -> Result<T, DecodeError> {
    match get_spec(v, key) {
        Ok(x) => f(x),
        Err(e) => Err(e),
    }
}

pub open spec fn node_type_in(v: ScriptValue) -> Result<NodeType, DecodeError> {
    match str_of(v) {
        Ok(s) => Ok(node_type_named(s)),
        Err(e) => Err(e),
    }
}

pub open spec fn slot_type_in(v: ScriptValue) -> Result<SlotType, DecodeError> {
    match str_of(v) {
        Ok(s) => Ok(slot_type_named(s)),
        Err(e) => Err(e),
    }
}

/// A slot: a table with fields `pos`, `signal_type`, `slot_type` and `direction`.
pub open spec fn slot_of(v: ScriptValue) -> Result<Slot, DecodeError> {
    match field_then(v, "pos"@, |x: ScriptValue| position_of(x)) {
        Err(e) => Err(e),
        Ok(pos) => match field_then(v, "signal_type"@, |x: ScriptValue| node_type_in(x)) {
            Err(e) => Err(e),
            Ok(signal_type) => match field_then(v, "slot_type"@, |x: ScriptValue| slot_type_in(x)) {
                Err(e) => Err(e),
                Ok(slot_type) => match field_then(v, "direction"@, |x: ScriptValue| position_of(x)) {
                    Err(e) => Err(e),
                    Ok(direction) => Ok(Slot { pos, slot_type, signal_type, direction }),
                },
            },
        },
    }
}

impl Slot {
    pub fn from_script(v: &ScriptValue) -> (r: Result<Slot, DecodeError>)
        ensures
            r == slot_of(*v),
    {
        let pos = Position::from_script(get_field(v, "pos")?)?;
        let signal_type = NodeType::from_script(get_field(v, "signal_type")?)?;
        let slot_type = SlotType::from_script(get_field(v, "slot_type")?)?;
        let direction = Position::from_script(get_field(v, "direction")?)?;
        Ok(Slot { pos, slot_type, signal_type, direction })
    }
}

/// A colour: a table whose sequence part holds three numbers.
pub open spec fn color_of(v: ScriptValue) -> Result<PColor, DecodeError> {
    match v {
        ScriptValue::Table(_, items) => if items@.len() >= 3 {
            match (number_of(items@[0]), number_of(items@[1]), number_of(items@[2])) {
                (Ok(r), Ok(g), Ok(b)) => Ok(PColor { r, g, b }),
                _ => Err(DecodeError::NotANumber),
            }
        } else {
            Err(DecodeError::NotANumber)
        },
        _ => Err(DecodeError::NotATable),
    }
}

impl PColor {
    pub fn from_script(v: &ScriptValue) -> (r: Result<PColor, DecodeError>)
        ensures
            r == color_of(*v),
    {
        match v {
            ScriptValue::Table(_, items) => {
                if items.len() >= 3 {
                    match (decode_number(&items[0]), decode_number(&items[1]), decode_number(&items[2])) {
                        (Ok(r), Ok(g), Ok(b)) => Ok(PColor { r, g, b }),
                        _ => Err(DecodeError::NotANumber),
                    }
                } else {
                    Err(DecodeError::NotANumber)
                }
            },
            _ => Err(DecodeError::NotATable),
        }
    }
}

/// A colour pair: a table with fields `foreground` and `background`.
pub open spec fn colors_of(v: ScriptValue) -> Result<ColorPair, DecodeError> {
    match field_then(v, "foreground"@, |x: ScriptValue| color_of(x)) {
        Err(e) => Err(e),
        Ok(foreground) => match field_then(v, "background"@, |x: ScriptValue| color_of(x)) {
            Err(e) => Err(e),
            Ok(background) => Ok(ColorPair { foreground, background }),
        },
    }
}

impl ColorPair {
    pub fn from_script(v: &ScriptValue) -> (r: Result<ColorPair, DecodeError>)
        ensures
            r == colors_of(*v),
    {
        let foreground = PColor::from_script(get_field(v, "foreground")?)?;
        let background = PColor::from_script(get_field(v, "background")?)?;
        Ok(ColorPair { foreground, background })
    }
}

/// Whether the name `s` denotes the variant `n`: the built-in names denote their
/// variants, any other name a custom one.
pub open spec fn varient_named(s: Seq<char>, n: NodeVarient) -> bool {
    if s == "lua_read"@ {
        n is LuaRead
    } else if s == "lua_pulse"@ {
        n is LuaPulse
    } else if s == "audio_prod"@ {
        n is AudioProd
    } else if s == "audio_out"@ {
        n is AudioOut
    } else {
        n is Custom && n->Custom_0@ == s
    }
}

/// Whether `v` decodes to the variant `n`: a name, or nil for an unnamed node.
pub open spec fn varient_of(v: ScriptValue, n: NodeVarient) -> bool {
    match v {
        ScriptValue::Str(s) => varient_named(s@, n),
        ScriptValue::Nil => n is Unnamed,
        _ => false,
    }
}

impl NodeVarient {
    pub fn from_script(v: &ScriptValue) -> (r: Result<NodeVarient, DecodeError>)
        ensures
            match r {
                Ok(n) => varient_of(*v, n),
                Err(e) => e == DecodeError::NotAString && forall|n: NodeVarient| !varient_of(*v, n),
            },
    {
        match v {
            ScriptValue::Str(s) => Ok(
                if is_named(s, "lua_read") {
                    NodeVarient::LuaRead
                } else if is_named(s, "lua_pulse") {
                    NodeVarient::LuaPulse
                } else if is_named(s, "audio_prod") {
                    NodeVarient::AudioProd
                } else if is_named(s, "audio_out") {
                    NodeVarient::AudioOut
                } else {
                    NodeVarient::Custom(s.clone())
                },
            ),
            ScriptValue::Nil => Ok(NodeVarient::Unnamed),
            _ => Err(DecodeError::NotAString),
        }
    }
}

/// The sequence part of a table.
pub open spec fn items_of(v: ScriptValue) -> Result<Seq<ScriptValue>, DecodeError> {
    match v {
        ScriptValue::Table(_, items) => Ok(items@),
        _ => Err(DecodeError::NotATable),
    }
}

fn items<'a>(v: &'a ScriptValue) -> (r: Result<&'a Vec<ScriptValue>, DecodeError>)
    ensures
        match items_of(*v) {
            Ok(s) => r is Ok && r->Ok_0@ == s,
            Err(e) => r == Err::<&Vec<ScriptValue>, DecodeError>(e),
        },
{
    match v {
        ScriptValue::Table(_, items) => Ok(items),
        _ => Err(DecodeError::NotATable),
    }
}

/// Whether `out` is `items` decoded one by one with `f`.
pub open spec fn all_decode<T>(items: Seq<ScriptValue>, out: Seq<T>, f: spec_fn(ScriptValue) -> Result<T, DecodeError>) -> bool {
    &&& out.len() == items.len()
    &&& forall|i: int| 0 <= i < items.len() ==> f(#[trigger] items[i]) == Ok::<T, DecodeError>(out[i])
}

/// Whether some item of `items` fails to decode with `f`.
pub open spec fn some_fails<T>(items: Seq<ScriptValue>, f: spec_fn(ScriptValue) -> Result<T, DecodeError>) -> bool {
    exists|i: int| 0 <= i < items.len() && (#[trigger] f(items[i])) is Err
}

/// An index: a non-negative integer.
pub open spec fn index_of(v: ScriptValue) -> Result<usize, DecodeError> {
    match v {
        ScriptValue::Integer(i) => if 0 <= i <= usize::MAX { Ok(i as usize) } else { Err(DecodeError::NotAnInteger) },
        _ => Err(DecodeError::NotAnInteger),
    }
}

fn decode_types(items: &Vec<ScriptValue>) -> (r: Result<Vec<NodeType>, DecodeError>)
    ensures
        match r {
            Ok(out) => all_decode(items@, out@, |x: ScriptValue| node_type_in(x)),
            Err(_) => some_fails(items@, |x: ScriptValue| node_type_in(x)),
        },
{
    let mut out: Vec<NodeType> = Vec::new();
    let mut i: usize = 0;
    while i < items.len()
        invariant
            i <= items@.len(),
            all_decode(items@.subrange(0, i as int), out@, |x: ScriptValue| node_type_in(x)),
        decreases items@.len() - i,
    {
        match NodeType::from_script(&items[i]) {
            Ok(t) => out.push(t),
            Err(e) => {
                assert(((|x: ScriptValue| node_type_in(x)))(items@[i as int]) is Err);
                return Err(e);
            },
        }
        i = i + 1;
        assert forall|j: int| 0 <= j < i implies node_type_in(#[trigger] items@.subrange(0, i as int)[j]) == Ok::<NodeType, DecodeError>(out@[j]) by {
            if j < i - 1 {
                assert(items@.subrange(0, i as int)[j] == items@.subrange(0, i - 1)[j]);
            }
        }
    }
    assert(items@.subrange(0, i as int) =~= items@);
    Ok(out)
}

fn decode_slots(items: &Vec<ScriptValue>) -> (r: Result<Vec<Slot>, DecodeError>)
    ensures
        match r {
            Ok(out) => all_decode(items@, out@, |x: ScriptValue| slot_of(x)),
            Err(_) => some_fails(items@, |x: ScriptValue| slot_of(x)),
        },
{
    let mut out: Vec<Slot> = Vec::new();
    let mut i: usize = 0;
    while i < items.len()
        invariant
            i <= items@.len(),
            all_decode(items@.subrange(0, i as int), out@, |x: ScriptValue| slot_of(x)),
        decreases items@.len() - i,
    {
        match Slot::from_script(&items[i]) {
            Ok(t) => out.push(t),
            Err(e) => {
                assert(((|x: ScriptValue| slot_of(x)))(items@[i as int]) is Err);
                return Err(e);
            },
        }
        i = i + 1;
        assert forall|j: int| 0 <= j < i implies slot_of(#[trigger] items@.subrange(0, i as int)[j]) == Ok::<Slot, DecodeError>(out@[j]) by {
            if j < i - 1 {
                assert(items@.subrange(0, i as int)[j] == items@.subrange(0, i - 1)[j]);
            }
        }
    }
    assert(items@.subrange(0, i as int) =~= items@);
    Ok(out)
}

fn decode_slot_data(items: &Vec<ScriptValue>) -> (r: Result<Vec<SlotData>, DecodeError>)
    ensures
        match r {
            Ok(out) => all_decode(items@, out@, |x: ScriptValue| slot_data_of(x)),
            Err(_) => some_fails(items@, |x: ScriptValue| slot_data_of(x)),
        },
{
    let mut out: Vec<SlotData> = Vec::new();
    let mut i: usize = 0;
    while i < items.len()
        invariant
            i <= items@.len(),
            all_decode(items@.subrange(0, i as int), out@, |x: ScriptValue| slot_data_of(x)),
        decreases items@.len() - i,
    {
        match SlotData::from_script(&items[i]) {
            Ok(t) => out.push(t),
            Err(e) => {
                assert(((|x: ScriptValue| slot_data_of(x)))(items@[i as int]) is Err);
                return Err(e);
            },
        }
        i = i + 1;
        assert forall|j: int| 0 <= j < i implies slot_data_of(#[trigger] items@.subrange(0, i as int)[j]) == Ok::<SlotData, DecodeError>(out@[j]) by {
            if j < i - 1 {
                assert(items@.subrange(0, i as int)[j] == items@.subrange(0, i - 1)[j]);
            }
        }
    }
    assert(items@.subrange(0, i as int) =~= items@);
    Ok(out)
}

fn decode_indices(items: &Vec<ScriptValue>) -> (r: Result<Vec<usize>, DecodeError>)
    ensures
        match r {
            Ok(out) => all_decode(items@, out@, |x: ScriptValue| index_of(x)),
            Err(_) => some_fails(items@, |x: ScriptValue| index_of(x)),
        },
{
    let mut out: Vec<usize> = Vec::new();
    let mut i: usize = 0;
    while i < items.len()
        invariant
            i <= items@.len(),
            all_decode(items@.subrange(0, i as int), out@, |x: ScriptValue| index_of(x)),
        decreases items@.len() - i,
    {
        let d = match &items[i] {
            ScriptValue::Integer(k) => if *k >= 0 && (*k as u64) <= (usize::MAX as u64) {
                Ok(*k as usize)
            } else {
                Err(DecodeError::NotAnInteger)
            },
            _ => Err(DecodeError::NotAnInteger),
        };
        match d {
            Ok(t) => out.push(t),
            Err(e) => {
                assert(((|x: ScriptValue| index_of(x)))(items@[i as int]) is Err);
                return Err(e);
            },
        }
        i = i + 1;
        assert forall|j: int| 0 <= j < i implies index_of(#[trigger] items@.subrange(0, i as int)[j]) == Ok::<usize, DecodeError>(out@[j]) by {
            if j < i - 1 {
                assert(items@.subrange(0, i as int)[j] == items@.subrange(0, i - 1)[j]);
            }
        }
    }
    assert(items@.subrange(0, i as int) =~= items@);
    Ok(out)
}

/// Whether the sequence field `key` of `v` decodes item by item with `f` to `out`.
pub open spec fn seq_field<T>(v: ScriptValue, key: Seq<char>, out: Seq<T>, f: spec_fn(ScriptValue) -> Result<T, DecodeError>) -> bool {
    &&& field_then(v, key, |x: ScriptValue| items_of(x)) is Ok
    &&& all_decode(field_then(v, key, |x: ScriptValue| items_of(x))->Ok_0, out, f)
}

/// Whether `v`, the program's `node` global, describes the structural fields `n`.
pub open spec fn node_decoded(v: ScriptValue, n: Node) -> bool {
    &&& get_spec(v, "name"@) is Ok
    &&& varient_of(get_spec(v, "name"@)->Ok_0, n.name)
    &&& field_then(v, "display"@, |x: ScriptValue| str_of(x)) == Ok::<Seq<char>, DecodeError>(n.display@)
    &&& field_then(v, "pos"@, |x: ScriptValue| position_of(x)) == Ok::<Position, DecodeError>(n.pos)
    &&& field_then(v, "active"@, |x: ScriptValue| colors_of(x)) == Ok::<ColorPair, DecodeError>(n.active)
    &&& field_then(v, "inert"@, |x: ScriptValue| colors_of(x)) == Ok::<ColorPair, DecodeError>(n.inert)
    &&& field_then(v, "inactive"@, |x: ScriptValue| colors_of(x)) == Ok::<ColorPair, DecodeError>(n.inactive)
    &&& seq_field(v, "ntype"@, n.ntype@, |x: ScriptValue| node_type_in(x))
    &&& seq_field(v, "slots"@, n.slots@, |x: ScriptValue| slot_of(x))
    &&& seq_field(v, "output_slots"@, n.output_slots@, |x: ScriptValue| slot_of(x))
}

/// Whether `v`, the program's `data` global, describes the payload `d`, its input slot
/// values aside.
pub open spec fn data_decoded_but_slots(v: ScriptValue, d: NodeData) -> bool {
    &&& field_then(v, "slot_data"@, |x: ScriptValue| items_of(x)) is Ok
    &&& seq_field(v, "output_slot_data"@, d.output_slot_data@, |x: ScriptValue| slot_data_of(x))
    &&& seq_field(v, "updated"@, d.updated@, |x: ScriptValue| index_of(x))
    &&& field_then(v, "state"@, |x: ScriptValue| match str_of(x) { Ok(s) => Ok(status_named(s)), Err(e) => Err(e) })
        == Ok::<NodeStatus, DecodeError>(d.state)
    &&& field_then(v, "data"@, |x: ScriptValue| slot_data_of(x)) == Ok::<SlotData, DecodeError>(d.data)
    &&& d.commands@.len() == 0
}

/// Whether `v` describes the payload `d`.
pub open spec fn data_decoded(v: ScriptValue, d: NodeData) -> bool {
    &&& data_decoded_but_slots(v, d)
    &&& seq_field(v, "slot_data"@, d.slot_data@, |x: ScriptValue| slot_data_of(x))
}

fn seq_items<'a>(v: &'a ScriptValue, key: &str) -> (r: Result<&'a Vec<ScriptValue>, DecodeError>)
    ensures
        match field_then(*v, key@, |x: ScriptValue| items_of(x)) {
            Ok(s) => r is Ok && r->Ok_0@ == s,
            Err(e) => r == Err::<&Vec<ScriptValue>, DecodeError>(e),
        },
{
    items(get_field(v, key)?)
}

impl Node {
    pub fn from_script(v: &ScriptValue) -> (r: Result<Node, DecodeError>)
        ensures
            match r {
                Ok(n) => node_decoded(*v, n),
                Err(_) => forall|n: Node| !node_decoded(*v, n),
            },
    {
        let name = NodeVarient::from_script(get_field(v, "name")?)?;
        let display = match get_field(v, "display")? {
            ScriptValue::Str(s) => s.clone(),
            _ => {
                return Err(DecodeError::NotAString);
            },
        };
        let pos = Position::from_script(get_field(v, "pos")?)?;
        let active = ColorPair::from_script(get_field(v, "active")?)?;
        let inert = ColorPair::from_script(get_field(v, "inert")?)?;
        let inactive = ColorPair::from_script(get_field(v, "inactive")?)?;
        let ntype = decode_types(seq_items(v, "ntype")?)?;
        let slots = decode_slots(seq_items(v, "slots")?)?;
        let output_slots = decode_slots(seq_items(v, "output_slots")?)?;
        Ok(Node { name, display, pos, active, inert, inactive, ntype, slots, output_slots })
    }
}

impl NodeData {
    pub fn from_script(v: &ScriptValue) -> (r: Result<NodeData, DecodeError>)
        ensures
            match r {
                Ok(d) => data_decoded(*v, d),
                Err(_) => forall|d: NodeData| !data_decoded(*v, d),
            },
    {
        let slot_data = decode_slot_data(seq_items(v, "slot_data")?)?;
        let output_slot_data = decode_slot_data(seq_items(v, "output_slot_data")?)?;
        let updated = decode_indices(seq_items(v, "updated")?)?;
        let state = NodeStatus::from_script(get_field(v, "state")?)?;
        let data = SlotData::from_script(get_field(v, "data")?)?;
        Ok(NodeData { data, slot_data, output_slot_data, updated, state, commands: Vec::new() })
    }
}

/// Why a node could not be initialized.
#[derive(Clone, Copy, Debug, PartialEq, Eq, Structural)]
pub enum InitError {
    /// A node-role source has not finished loading: retry on a later tick.
    NotLoaded,
    /// The program's globals do not describe a node: fatal for this node.
    Malformed(DecodeError),
}

/// The node-role sources of `node`, in order, once every one of them has loaded; a node
/// without script sources has none to run.
pub fn node_sources(node: &GenericNode, assets: &ScriptAssets) -> (r: Result<Vec<String>, InitError>)
    ensures
        match node.handles_of() {
            None => r is Ok && r->Ok_0@.len() == 0,
            Some(h) => {
                let ids = ids_with_role(h@, LuaType::Node);
                &&& (r is Ok <==> all_loaded(assets@, ids))
                &&& r is Ok ==> texts_of(assets@, ids, r->Ok_0@)
                &&& r is Err ==> r == Err::<Vec<String>, InitError>(InitError::NotLoaded)
            },
        },
{
    match node.get_lua_handles() {
        None => Ok(Vec::new()),
        Some(h) => {
            let ids = handles_with_role(h, LuaType::Node);
            match assets.collect_sources(&ids) {
                Some(texts) => Ok(texts),
                None => Err(InitError::NotLoaded),
            }
        },
    }
}

/// Completes the initialization of `node`. `globals` holds the `node` and `data` globals
/// that running its sources left, or is `None` for a node without script sources. On
/// success the node's structure and payload are those globals, and every input slot
/// holds the default value of its type; a malformed global leaves the node unchanged.
pub fn initialize_node(node: &mut GenericNode, globals: Option<(&ScriptValue, &ScriptValue)>) -> (r: Result<(), InitError>)
    ensures
        (*final(node) is Lua) == (*old(node) is Lua),
        final(node).handles_of() == old(node).handles_of(),
        match globals {
            None => {
                &&& r is Ok
                &&& final(node).node_of() == old(node).node_of()
                &&& final(node).data_of().data == old(node).data_of().data
                &&& final(node).data_of().state == old(node).data_of().state
                &&& final(node).data_of().updated == old(node).data_of().updated
                &&& final(node).data_of().output_slot_data == old(node).data_of().output_slot_data
                &&& final(node).data_of().commands == old(node).data_of().commands
            },
            Some((nv, dv)) => {
                &&& r is Err <==> (forall|n: Node| !node_decoded(*nv, n)) || (forall|d: NodeData| !data_decoded(*dv, d))
                &&& r is Err ==> *final(node) == *old(node) && r->Err_0 is Malformed
                &&& r is Ok ==> node_decoded(*nv, final(node).node_of()) && data_decoded_but_slots(*dv, final(node).data_of())
            },
        },
        r is Ok ==> final(node).data_of().slot_data@ == default_slot_values(final(node).node_of().slots@),
{
    match globals {
        Some((nv, dv)) => {
            let n = match Node::from_script(nv) {
                Ok(n) => n,
                Err(e) => {
                    return Err(InitError::Malformed(e));
                },
            };
            let d = match NodeData::from_script(dv) {
                Ok(d) => d,
                Err(e) => {
                    assert(node_decoded(*nv, n));
                    return Err(InitError::Malformed(e));
                },
            };
            *node.get_node_mut() = n;
            *node.get_data_mut() = d;
        },
        None => {},
    }
    let defaults = default_slot_data(&node.get_node().slots);
    let data = node.get_data_mut();
    data.slot_data = defaults;
    Ok(())
}

fn text(s: &str) -> (r: String)
    ensures
        r@ == s@,
{
    broadcast use vstd::string::group_string_axioms;
    s.to_string()
}

impl Position {
    /// A table with integer fields `x` and `y`.
    pub fn to_script(&self) -> (r: ScriptValue)
        ensures
            position_of(r) == Ok::<Position, DecodeError>(*self),
    {
        let mut fs: Vec<(String, ScriptValue)> = Vec::new();
        fs.push((text("x"), ScriptValue::Integer(self.x as i64)));
        fs.push((text("y"), ScriptValue::Integer(self.y as i64)));
        proof {
            assert(("x"@) != ("y"@)) by {
                reveal_strlit("x");
                reveal_strlit("y");
                assert(("x"@)[0] != ("y"@)[0]);
            }
            let t = fs@.subrange(1, 2);
            assert(fs@.subrange(1, fs@.len() as int) == t);
            assert(t[0] == fs@[1]);
            assert(t.subrange(1, 1) =~= Seq::<(String, ScriptValue)>::empty());
            assert(field_of(t, "y"@) == Some(ScriptValue::Integer(self.y as i64)));
            assert(field_of(fs@, "y"@) == Some(ScriptValue::Integer(self.y as i64)));
            assert(field_of(fs@, "x"@) == Some(ScriptValue::Integer(self.x as i64)));
        }
        ScriptValue::Table(fs, Vec::new())
    }
}

impl SlotData {
    /// The script form of a slot value: decoding it gives the value back.
    pub fn to_script(&self) -> (r: ScriptValue)
        ensures
            slot_data_of(r) == Ok::<SlotData, DecodeError>(*self),
    {
        match self {
            SlotData::F32(b) => ScriptValue::Number(*b),
            SlotData::I32(i) => ScriptValue::Integer(*i as i64),
            SlotData::F32x2(a, b) => {
                let mut items: Vec<ScriptValue> = Vec::new();
                items.push(ScriptValue::Number(*a));
                items.push(ScriptValue::Number(*b));
                ScriptValue::Table(Vec::new(), items)
            },
            SlotData::Bang(b) => ScriptValue::Boolean(*b),
            SlotData::Empty => ScriptValue::Nil,
        }
    }
}

impl NodeStatus {
    /// The status by name; an unset status is written as `None`.
    pub fn to_script(&self) -> (r: ScriptValue)
        ensures
            (match str_of(r) { Ok(s) => Ok(status_named(s)), Err(e) => Err(e) }) == Ok::<NodeStatus, DecodeError>(*self),
    {
        proof {
            reveal_strlit("Active");
            reveal_strlit("Inactive");
            reveal_strlit("Inert");
            reveal_strlit("None");
        }
        match self {
            NodeStatus::Active => {
                let r = ScriptValue::Str(text("Active"));
                assert(str_of(r) == Ok::<Seq<char>, DecodeError>("Active"@));
                r
            },
            NodeStatus::Inactive => {
                let r = ScriptValue::Str(text("Inactive"));
                assert(str_of(r) == Ok::<Seq<char>, DecodeError>("Inactive"@));
                assert(("Inactive"@).len() != ("Active"@).len());
                r
            },
            NodeStatus::Inert => {
                let r = ScriptValue::Str(text("Inert"));
                assert(str_of(r) == Ok::<Seq<char>, DecodeError>("Inert"@));
                assert(("Inert"@).len() != ("Active"@).len());
                assert(("Inert"@).len() != ("Inactive"@).len());
                r
            },
            NodeStatus::Unset => {
                let r = ScriptValue::Str(text("None"));
                assert(("None"@) != ("Active"@) && ("None"@) != ("Inactive"@) && ("None"@) != ("Inert"@)) by {
                    assert(("None"@).len() != ("Active"@).len());
                    assert(("None"@).len() != ("Inactive"@).len());
                    assert(("None"@)[0] != ("Inert"@)[0]);
                }
                r
            },
        }
    }
}

fn encode_slot_data(v: &Vec<SlotData>) -> (r: Vec<ScriptValue>)
    ensures
        all_decode(r@, v@, |x: ScriptValue| slot_data_of(x)),
{
    let mut r: Vec<ScriptValue> = Vec::new();
    let mut i: usize = 0;
    while i < v.len()
        invariant
            i <= v@.len(),
            all_decode(r@, v@.subrange(0, i as int), |x: ScriptValue| slot_data_of(x)),
        decreases v@.len() - i,
    {
        r.push(v[i].to_script());
        i = i + 1;
        assert forall|j: int| 0 <= j < i implies slot_data_of(#[trigger] r@[j]) == Ok::<SlotData, DecodeError>(v@.subrange(0, i as int)[j]) by {
            if j < i - 1 {
                assert(v@.subrange(0, i as int)[j] == v@.subrange(0, i - 1)[j]);
            }
        }
    }
    assert(v@.subrange(0, i as int) =~= v@);
    r
}

fn encode_indices(v: &Vec<usize>) -> (r: Vec<ScriptValue>)
    requires
        forall|i: int| 0 <= i < v@.len() ==> v@[i] <= i64::MAX,
    ensures
        all_decode(r@, v@, |x: ScriptValue| index_of(x)),
{
    let mut r: Vec<ScriptValue> = Vec::new();
    let mut i: usize = 0;
    while i < v.len()
        invariant
            i <= v@.len(),
            all_decode(r@, v@.subrange(0, i as int), |x: ScriptValue| index_of(x)),
            forall|k: int| 0 <= k < v@.len() ==> v@[k] <= i64::MAX,
        decreases v@.len() - i,
    {
        let x = v[i];
        assert(0 <= x as i64 && (x as i64) as usize == x);
        r.push(ScriptValue::Integer(x as i64));
        assert(index_of(r@[i as int]) == Ok::<usize, DecodeError>(x));
        i = i + 1;
        assert forall|j: int| 0 <= j < i implies index_of(#[trigger] r@[j]) == Ok::<usize, DecodeError>(v@.subrange(0, i as int)[j]) by {
            if j < i - 1 {
                assert(v@.subrange(0, i as int)[j] == v@.subrange(0, i - 1)[j]);
            }
        }
    }
    assert(v@.subrange(0, i as int) =~= v@);
    r
}

/// In a table whose earlier keys differ from key `k`, looking that key up finds entry `k`.
proof fn lemma_field_found(fs: Seq<(String, ScriptValue)>, k: int)
    requires
        0 <= k < fs.len(),
        forall|j: int| 0 <= j < k ==> fs[j].0@ != fs[k].0@,
    ensures
        field_of(fs, fs[k].0@) == Some(fs[k].1),
    decreases k,
{
    if k > 0 {
        let t = fs.subrange(1, fs.len() as int);
        assert forall|j: int| 0 <= j < k - 1 implies (#[trigger] t[j]).0@ != t[k - 1].0@ by {
            assert(t[j] == fs[j + 1]);
        }
        lemma_field_found(t, k - 1);
        assert(t[k - 1] == fs[k]);
    }
}

impl NodeData {
    /// The script form of the payload, with fields `slot_data`, `output_slot_data`,
    /// `updated`, `state` and `data`: decoding it gives the payload back.
    pub fn to_script(&self) -> (r: ScriptValue)
        requires
            forall|i: int| 0 <= i < self.updated@.len() ==> self.updated@[i] <= i64::MAX,
        ensures
            self.commands@.len() == 0 ==> data_decoded(r, *self),
    {
        let mut fs: Vec<(String, ScriptValue)> = Vec::new();
        fs.push((text("slot_data"), ScriptValue::Table(Vec::new(), encode_slot_data(&self.slot_data))));
        fs.push((text("output_slot_data"), ScriptValue::Table(Vec::new(), encode_slot_data(&self.output_slot_data))));
        fs.push((text("updated"), ScriptValue::Table(Vec::new(), encode_indices(&self.updated))));
        fs.push((text("state"), self.state.to_script()));
        fs.push((text("data"), self.data.to_script()));
        proof {
            reveal_strlit("slot_data");
            reveal_strlit("output_slot_data");
            reveal_strlit("updated");
            reveal_strlit("state");
            reveal_strlit("data");
            let f = fs@;
            assert forall|a: int, b: int| 0 <= a < b < 5 implies (#[trigger] f[a]).0@ != (#[trigger] f[b]).0@ by {
                assert(f[a].0@.len() != f[b].0@.len());
            }
            lemma_field_found(f, 0);
            lemma_field_found(f, 1);
            lemma_field_found(f, 2);
            lemma_field_found(f, 3);
            lemma_field_found(f, 4);
        }
        ScriptValue::Table(fs, Vec::new())
    }
}

impl PColor {
    /// A table whose sequence part holds the three channels.
    pub fn to_script(&self) -> (r: ScriptValue)
        ensures
            color_of(r) == Ok::<PColor, DecodeError>(*self),
    {
        let mut items: Vec<ScriptValue> = Vec::new();
        items.push(ScriptValue::Number(self.r));
        items.push(ScriptValue::Number(self.g));
        items.push(ScriptValue::Number(self.b));
        ScriptValue::Table(Vec::new(), items)
    }
}

impl ColorPair {
    /// A table with fields `foreground` and `background`.
    pub fn to_script(&self) -> (r: ScriptValue)
        ensures
            colors_of(r) == Ok::<ColorPair, DecodeError>(*self),
    {
        let mut fs: Vec<(String, ScriptValue)> = Vec::new();
        fs.push((text("foreground"), self.foreground.to_script()));
        fs.push((text("background"), self.background.to_script()));
        proof {
            reveal_strlit("foreground");
            reveal_strlit("background");
            assert(fs@[0].0@[0] != fs@[1].0@[0]);
            lemma_field_found(fs@, 0);
            lemma_field_found(fs@, 1);
        }
        ScriptValue::Table(fs, Vec::new())
    }
}

/// The name a signal kind is written as.
pub open spec fn node_type_name(t: NodeType) -> Seq<char> {
    match t {
        NodeType::Signal => "Signal"@,
        NodeType::SignalConst => "SignalConst"@,
        NodeType::SignalLink => "SignalLink"@,
        NodeType::Prod => "Prod"@,
        NodeType::Emitter => "Emitter"@,
        NodeType::Receiver => "Receiver"@,
        NodeType::Unset => "None"@,
    }
}

impl NodeType {
    /// The kind by name. Every kind but `Prod` decodes back to itself; `Prod` is read
    /// back as `Unset`.
    pub fn to_script(&self) -> (r: ScriptValue)
        ensures
            str_of(r) == Ok::<Seq<char>, DecodeError>(node_type_name(*self)),
            *self != NodeType::Prod ==> node_type_in(r) == Ok::<NodeType, DecodeError>(*self),
    {
        proof {
            reveal_strlit("Signal");
            reveal_strlit("SignalConst");
            reveal_strlit("SignalLink");
            reveal_strlit("Prod");
            reveal_strlit("Emitter");
            reveal_strlit("Receiver");
            reveal_strlit("None");
        }
        let r = match self {
            NodeType::Signal => ScriptValue::Str(text("Signal")),
            NodeType::SignalConst => ScriptValue::Str(text("SignalConst")),
            NodeType::SignalLink => ScriptValue::Str(text("SignalLink")),
            NodeType::Prod => ScriptValue::Str(text("Prod")),
            NodeType::Emitter => ScriptValue::Str(text("Emitter")),
            NodeType::Receiver => ScriptValue::Str(text("Receiver")),
            NodeType::Unset => ScriptValue::Str(text("None")),
        };
        proof {
            let n = node_type_name(*self);
            assert(str_of(r) == Ok::<Seq<char>, DecodeError>(n));
            assert(("Signal"@).len() == 6 && ("SignalConst"@).len() == 11 && ("SignalLink"@).len() == 10);
            assert(("Emitter"@).len() == 7 && ("Receiver"@).len() == 8 && ("None"@).len() == 4);
            if *self != NodeType::Signal { assert(n != "Signal"@ ) by { assert(n.len() != 6); } }
            if *self != NodeType::SignalConst { assert(n != "SignalConst"@) by { assert(n.len() != 11); } }
            if *self != NodeType::SignalLink { assert(n != "SignalLink"@) by { assert(n.len() != 10); } }
            if *self != NodeType::Emitter { assert(n != "Emitter"@) by { assert(n.len() != 7); } }
            if *self != NodeType::Receiver { assert(n != "Receiver"@) by { assert(n.len() != 8); } }
        }
        r
    }
}

/// The name a value type is written as.
pub open spec fn slot_type_name(t: SlotType) -> Seq<char> {
    match t {
        SlotType::F32 => "F32"@,
        SlotType::I32 => "I32"@,
        SlotType::F32x2 => "F32x2"@,
        SlotType::Bang => "Bang"@,
        SlotType::Unset => "None"@,
    }
}

impl SlotType {
    /// The type by name: it decodes back to itself.
    pub fn to_script(&self) -> (r: ScriptValue)
        ensures
            str_of(r) == Ok::<Seq<char>, DecodeError>(slot_type_name(*self)),
            slot_type_in(r) == Ok::<SlotType, DecodeError>(*self),
    {
        proof {
            reveal_strlit("F32");
            reveal_strlit("I32");
            reveal_strlit("F32x2");
            reveal_strlit("Bang");
            reveal_strlit("None");
        }
        let r = match self {
            SlotType::F32 => ScriptValue::Str(text("F32")),
            SlotType::I32 => ScriptValue::Str(text("I32")),
            SlotType::F32x2 => ScriptValue::Str(text("F32x2")),
            SlotType::Bang => ScriptValue::Str(text("Bang")),
            SlotType::Unset => ScriptValue::Str(text("None")),
        };
        proof {
            reveal_strlit("F32");
            reveal_strlit("I32");
            reveal_strlit("F32x2");
            reveal_strlit("Bang");
            reveal_strlit("None");
            let n = slot_type_name(*self);
            assert(("F32"@)[0] != ("I32"@)[0]);
            assert(("Bang"@)[0] != ("None"@)[0]);
            if *self != SlotType::F32 {
                assert(n != "F32"@) by {
                    if *self == SlotType::I32 { assert(n[0] != ("F32"@)[0]); } else { assert(n.len() != ("F32"@).len()); }
                }
            }
            if *self != SlotType::I32 && *self != SlotType::F32 {
                assert(n.len() != ("I32"@).len());
            }
            if *self == SlotType::Unset {
                assert(n[0] != ("Bang"@)[0]);
            }
        }
        r
    }
}

impl Slot {
    /// A table with fields `pos`, `signal_type`, `slot_type` and `direction`; it decodes
    /// back to the slot unless its signal kind is `Prod`.
    pub fn to_script(&self) -> (r: ScriptValue)
        ensures
            self.signal_type != NodeType::Prod ==> slot_of(r) == Ok::<Slot, DecodeError>(*self),
    {
        let mut fs: Vec<(String, ScriptValue)> = Vec::new();
        fs.push((text("pos"), self.pos.to_script()));
        fs.push((text("signal_type"), self.signal_type.to_script()));
        fs.push((text("slot_type"), self.slot_type.to_script()));
        fs.push((text("direction"), self.direction.to_script()));
        proof {
            reveal_strlit("pos");
            reveal_strlit("signal_type");
            reveal_strlit("slot_type");
            reveal_strlit("direction");
            let f = fs@;
            assert(f[2].0@[0] != f[3].0@[0]);
            assert forall|a: int, b: int| 0 <= a < b < 4 implies (#[trigger] f[a]).0@ != (#[trigger] f[b]).0@ by {
                if !(a == 2 && b == 3) {
                    assert(f[a].0@.len() != f[b].0@.len());
                }
            }
            lemma_field_found(f, 0);
            lemma_field_found(f, 1);
            lemma_field_found(f, 2);
            lemma_field_found(f, 3);
        }
        ScriptValue::Table(fs, Vec::new())
    }
}

fn encode_types(v: &Vec<NodeType>) -> (r: Vec<ScriptValue>)
    ensures
        (forall|i: int| 0 <= i < v@.len() ==> v@[i] != NodeType::Prod) ==> all_decode(r@, v@, |x: ScriptValue| node_type_in(x)),
        r@.len() == v@.len(),
{
    let mut r: Vec<ScriptValue> = Vec::new();
    let mut i: usize = 0;
    while i < v.len()
        invariant
            i <= v@.len(),
            r@.len() == i,
            forall|j: int| 0 <= j < i && v@[j] != NodeType::Prod ==> node_type_in(#[trigger] r@[j]) == Ok::<NodeType, DecodeError>(v@[j]),
        decreases v@.len() - i,
    {
        r.push(v[i].to_script());
        i = i + 1;
    }
    r
}

fn encode_slots(v: &Vec<Slot>) -> (r: Vec<ScriptValue>)
    ensures
        (forall|i: int| 0 <= i < v@.len() ==> v@[i].signal_type != NodeType::Prod) ==> all_decode(r@, v@, |x: ScriptValue| slot_of(x)),
        r@.len() == v@.len(),
{
    let mut r: Vec<ScriptValue> = Vec::new();
    let mut i: usize = 0;
    while i < v.len()
        invariant
            i <= v@.len(),
            r@.len() == i,
            forall|j: int| 0 <= j < i && v@[j].signal_type != NodeType::Prod ==> slot_of(#[trigger] r@[j]) == Ok::<Slot, DecodeError>(v@[j]),
        decreases v@.len() - i,
    {
        r.push(v[i].to_script());
        i = i + 1;
    }
    r
}

/// Whether `s` is the name of a built-in variant.
pub open spec fn builtin_name(s: Seq<char>) -> bool {
    s == "lua_read"@ || s == "lua_pulse"@ || s == "audio_prod"@ || s == "audio_out"@
}

impl NodeVarient {
    /// The variant by name, or nil for an unnamed node; it decodes back to the variant
    /// unless it is a custom name that a built-in variant has.
    pub fn to_script(&self) -> (r: ScriptValue)
        ensures
            !(*self is Custom && builtin_name(self->Custom_0@)) ==> varient_of(r, *self),
    {
        proof {
            reveal_strlit("lua_read");
            reveal_strlit("lua_pulse");
            reveal_strlit("audio_prod");
            reveal_strlit("audio_out");
        }
        match self {
            NodeVarient::Unnamed => ScriptValue::Nil,
            _ => {
                let r = ScriptValue::Str(self.to_name());
                proof {
                    assert(("lua_read"@).len() == 8 && ("lua_pulse"@).len() == 9 && ("audio_prod"@).len() == 10 && ("audio_out"@).len() == 9);
                    assert(("lua_pulse"@)[0] != ("audio_out"@)[0]);
                    match *self {
                        NodeVarient::LuaRead => assert(self.name_spec() =~= "lua_read"@),
                        NodeVarient::LuaPulse => assert(self.name_spec() =~= "lua_pulse"@),
                        NodeVarient::AudioProd => assert(self.name_spec() =~= "audio_prod"@),
                        NodeVarient::AudioOut => assert(self.name_spec() =~= "audio_out"@),
                        _ => {},
                    }
                }
                r
            },
        }
    }
}

/// Whether encoding `n` loses nothing: no signal kind is `Prod` and a custom name is
/// not a built-in one.
pub open spec fn encodes_faithfully(n: Node) -> bool {
    &&& !(n.name is Custom && builtin_name(n.name->Custom_0@))
    &&& forall|i: int| 0 <= i < n.ntype@.len() ==> n.ntype@[i] != NodeType::Prod
    &&& forall|i: int| 0 <= i < n.slots@.len() ==> n.slots@[i].signal_type != NodeType::Prod
    &&& forall|i: int| 0 <= i < n.output_slots@.len() ==> n.output_slots@[i].signal_type != NodeType::Prod
}

impl Node {
    /// A table holding every structural field; it decodes back to the node when the
    /// encoding loses nothing.
    pub fn to_script(&self) -> (r: ScriptValue)
        ensures
            encodes_faithfully(*self) ==> node_decoded(r, *self),
    {
        let mut fs: Vec<(String, ScriptValue)> = Vec::new();
        fs.push((text("name"), self.name.to_script()));
        fs.push((text("display"), ScriptValue::Str(self.display.clone())));
        fs.push((text("pos"), self.pos.to_script()));
        fs.push((text("active"), self.active.to_script()));
        fs.push((text("inert"), self.inert.to_script()));
        fs.push((text("inactive"), self.inactive.to_script()));
        fs.push((text("ntype"), ScriptValue::Table(Vec::new(), encode_types(&self.ntype))));
        fs.push((text("slots"), ScriptValue::Table(Vec::new(), encode_slots(&self.slots))));
        fs.push((text("output_slots"), ScriptValue::Table(Vec::new(), encode_slots(&self.output_slots))));
        proof {
            reveal_strlit("name");
            reveal_strlit("display");
            reveal_strlit("pos");
            reveal_strlit("active");
            reveal_strlit("inert");
            reveal_strlit("inactive");
            reveal_strlit("ntype");
            reveal_strlit("slots");
            reveal_strlit("output_slots");
            let f = fs@;
            assert forall|a: int, b: int| 0 <= a < b < 9 implies (#[trigger] f[a]).0@ != (#[trigger] f[b]).0@ by {
                if f[a].0@.len() == f[b].0@.len() {
                    assert(f[a].0@[0] != f[b].0@[0]);
                }
            }
            lemma_field_found(f, 0);
            lemma_field_found(f, 1);
            lemma_field_found(f, 2);
            lemma_field_found(f, 3);
            lemma_field_found(f, 4);
            lemma_field_found(f, 5);
            lemma_field_found(f, 6);
            lemma_field_found(f, 7);
            lemma_field_found(f, 8);
        }
        ScriptValue::Table(fs, Vec::new())
    }
}

} // verus!

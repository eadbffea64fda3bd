//! Declarative audio chains, the per-entity chain table, and the checks that decide
//! when a chain can be built or must be torn down.
use vstd::prelude::*;

use crate::assets::{all_loaded, texts_of, ScriptAssets};
use crate::node::{AssetId, EntityId, NodeVarient};

verus! {

/// Samples per audio block: also the number of oscillator lanes.
pub const AUDIO_SIZE: usize = 64;

/// Samples each reader buffer holds.
pub const AUDIO_BUFFER: usize = 16384;

/// An oscillator stage: the ordered script sources of its waveform program.
#[derive(Clone, Debug)]
pub struct Oscillator {
    pub lua_handle: Vec<AssetId>,
    pub lua_string: String,
}

/// A reader stage: taps the stream for a non-realtime consumer.
#[derive(Clone, Copy, Debug, PartialEq, Eq, Structural)]
pub struct Read;

/// One stage of an audio chain.
#[derive(Clone, Debug)]
pub enum Dsp {
    Input(Oscillator),
    Read(Read),
    Output,
}

/// A flat chain of stages: stage `i` feeds stage `i + 1`.
#[derive(Clone, Debug)]
pub struct Chain {
    pub items: Vec<Dsp>,
}

/// A chain node: one stage, or an ordered list of sub-chains.
#[derive(Debug)]
pub enum ChainType {
    Dsp(Dsp),
    ChainList(Vec<TChain>),
    Unset,
}

/// A chain node, tagged with the entity it belongs to.
#[derive(Debug)]
pub struct TChain {
    pub t: ChainType,
    pub e: Option<EntityId>,
}

impl TChain {
    pub fn dsp(dsp: Dsp, e: Option<EntityId>) -> (r: TChain)
        ensures
            r.t == ChainType::Dsp(dsp),
            r.e == e,
    {
        TChain { t: ChainType::Dsp(dsp), e }
    }

    pub fn vec(vec: Vec<TChain>, e: Option<EntityId>) -> (r: TChain)
        ensures
            r.t == ChainType::ChainList(vec),
            r.e == e,
    {
        TChain { t: ChainType::ChainList(vec), e }
    }
}

/// Which stage a connection appends.
#[derive(Clone, Copy, Debug, PartialEq, Eq, Structural)]
pub enum StageKind {
    Reader,
    Output,
}

/// Why a connection could not be made.
#[derive(Clone, Copy, Debug, PartialEq, Eq, Structural)]
pub enum ChainError {
    /// No sub-chain is registered under the index.
    MissingChain,
    /// The sub-chain under the index is a single stage, not a list.
    NotAList,
    /// The target only ever emits pulses and cannot extend a chain.
    PulseSource,
    /// The target has no audio role.
    NotAudio,
}

/// The stage that a node of the given variant appends to a chain, if any.
pub open spec fn stage_for(name: NodeVarient) -> Result<StageKind, ChainError> {
    match name {
        NodeVarient::LuaRead => Ok(StageKind::Reader),
        NodeVarient::AudioProd => Ok(StageKind::Output),
        NodeVarient::LuaPulse => Err(ChainError::PulseSource),
        _ => Err(ChainError::NotAudio),
    }
}

/// Whether `t` is the one-stage sub-chain of the given kind, tagged with `e`.
pub open spec fn is_stage_chain(t: TChain, kind: StageKind, e: EntityId) -> bool {
    &&& t.e == Some(e)
    &&& t.t is ChainList
    &&& t.t->ChainList_0@.len() == 1
    &&& t.t->ChainList_0@[0].e == Some(e)
    &&& match kind {
        StageKind::Reader => t.t->ChainList_0@[0].t == ChainType::Dsp(Dsp::Read(Read)),
        StageKind::Output => t.t->ChainList_0@[0].t is Dsp && t.t->ChainList_0@[0].t->Dsp_0 is Output,
    }
}

/// `c2` is the sub-chain table `c` after appending, to sub-chain `idx`, the stage that a
/// node named `target` provides, tagged with `e`; `r` tells how that went.
pub open spec fn connected(c: Seq<TChain>, c2: Seq<TChain>, idx: int, target: NodeVarient, e: EntityId, r: Result<(), ChainError>) -> bool {
    &&& (idx < 0 || idx >= c.len()) ==> r == Err::<(), ChainError>(ChainError::MissingChain)
    &&& 0 <= idx < c.len() && !(c[idx].t is ChainList) ==> r == Err::<(), ChainError>(ChainError::NotAList)
    &&& 0 <= idx < c.len() && c[idx].t is ChainList ==> match stage_for(target) {
        Err(err) => r == Err::<(), ChainError>(err),
        Ok(kind) => r is Ok,
    }
    &&& r is Err ==> c2 == c
    &&& r is Ok ==> {
        let old_c = c[idx];
        let new_c = c2[idx];
        &&& c2.len() == c.len()
        &&& forall|j: int| 0 <= j < c.len() && j != idx ==> c2[j] == c[j]
        &&& new_c.e == old_c.e
        &&& new_c.t is ChainList
        &&& new_c.t->ChainList_0@.len() == old_c.t->ChainList_0@.len() + 1
        &&& new_c.t->ChainList_0@.drop_last() == old_c.t->ChainList_0@
        &&& is_stage_chain(new_c.t->ChainList_0@.last(), stage_for(target)->Ok_0, e)
    }
}

/// The table of live per-entity audio sub-chains, indexed by `AudioNode::idx`.
#[derive(Debug)]
pub struct AudioGraph {
    pub chains: Vec<TChain>,
}

impl AudioGraph {
    pub fn new() -> (g: AudioGraph)
        ensures
            g.chains@.len() == 0,
    {
        AudioGraph { chains: Vec::new() }
    }

    pub fn get_chain(&self) -> (r: &Vec<TChain>)
        ensures
            r@ == self.chains@,
    {
        &self.chains
    }

    pub fn get_chain_mut(&mut self) -> (r: &mut Vec<TChain>)
        ensures
            *r == old(self).chains,
            final(self).chains == *final(r),
    {
        &mut self.chains
    }

    /// Registers a new sub-chain holding one stage tagged with `e`; returns its index.
    pub fn push_stage(&mut self, dsp: Dsp, e: EntityId) -> (idx: usize)
        ensures
            idx == old(self).chains@.len(),
            final(self).chains@.len() == old(self).chains@.len() + 1,
            final(self).chains@.subrange(0, idx as int) == old(self).chains@,
            final(self).chains@[idx as int].e == Some(e),
            final(self).chains@[idx as int].t is ChainList,
            final(self).chains@[idx as int].t->ChainList_0@.len() == 1,
            final(self).chains@[idx as int].t->ChainList_0@[0].t == ChainType::Dsp(dsp),
            final(self).chains@[idx as int].t->ChainList_0@[0].e == Some(e),
    {
        let mut inner: Vec<TChain> = Vec::new();
        inner.push(TChain::dsp(dsp, Some(e)));
        self.chains.push(TChain::vec(inner, Some(e)));
        let idx = self.chains.len() - 1;
        assert(self.chains@.subrange(0, idx as int) =~= old(self).chains@);
        idx
    }

    /// Appends to sub-chain `idx` the stage that a node named `target` provides,
    /// tagged with the entity `e` that ended the pulse.
    pub fn connect(&mut self, idx: usize, target: &NodeVarient, e: EntityId) -> (r: Result<(), ChainError>)
        ensures
            connected(old(self).chains@, final(self).chains@, idx as int, *target, e, r),
    {
        if idx >= self.chains.len() {
            return Err(ChainError::MissingChain);
        }
        let stage = match target {
            NodeVarient::LuaRead => Dsp::Read(Read),
            NodeVarient::AudioProd => Dsp::Output,
            NodeVarient::LuaPulse => {
                return if matches!(self.chains[idx].t, ChainType::ChainList(_)) { Err(ChainError::PulseSource) } else { Err(ChainError::NotAList) };
            },
            _ => {
                return if matches!(self.chains[idx].t, ChainType::ChainList(_)) { Err(ChainError::NotAudio) } else { Err(ChainError::NotAList) };
            },
        };
        if !matches!(self.chains[idx].t, ChainType::ChainList(_)) {
            return Err(ChainError::NotAList);
        }
        let ghost before = self.chains@[idx as int].t->ChainList_0@;
        let mut inner: Vec<TChain> = Vec::new();
        inner.push(TChain::dsp(stage, Some(e)));
        let c = &mut self.chains[idx];
        match &mut c.t {
            ChainType::ChainList(l) => {
                l.push(TChain::vec(inner, Some(e)));
            },
            _ => {},
        }
        assert(self.chains@[idx as int].t->ChainList_0@.drop_last() =~= before);
        Ok(())
    }
}

/// What to build for one stage once its sources are at hand.
#[derive(Clone, Debug)]
pub enum StagePlan {
    /// An oscillator whose lanes each run these sources, in order.
    Oscillator(Vec<String>),
    Reader,
    Output,
}

/// Whether every oscillator stage of `items` has all of its sources loaded.
pub open spec fn chain_loaded(m: Map<AssetId, String>, items: Seq<Dsp>) -> bool {
    forall|i: int| 0 <= i < items.len() && (#[trigger] items[i]) is Input ==> all_loaded(m, items[i]->Input_0.lua_handle@)
}

/// Whether `p` is the plan for stage `d` over the loaded sources `m`.
pub open spec fn plans_stage(m: Map<AssetId, String>, d: Dsp, p: StagePlan) -> bool {
    match d {
        Dsp::Input(o) => p is Oscillator && texts_of(m, o.lua_handle@, p->Oscillator_0@),
        Dsp::Read(_) => p is Reader,
        Dsp::Output => p is Output,
    }
}

/// Whether the upstream unit of unit `i` is unit `i - 1`, and the first has none.
pub open spec fn is_sequential_wiring(w: Seq<Option<usize>>, n: nat) -> bool {
    &&& w.len() == n
    &&& forall|i: int| 0 <= i < n ==> #[trigger] w[i] == (if i == 0 { None } else { Some((i - 1) as usize) })
}

impl Chain {
    /// The build plan of every stage, or `None` when any oscillator source is still missing:
    /// a chain is built whole or not at all.
    pub fn plan(&self, assets: &ScriptAssets) -> (r: Option<Vec<StagePlan>>)
        ensures
            r is Some <==> chain_loaded(assets@, self.items@),
            r is Some ==> r->Some_0@.len() == self.items@.len()
                && forall|i: int| 0 <= i < self.items@.len() ==> plans_stage(assets@, #[trigger] self.items@[i], r->Some_0@[i]),
    {
        let mut out: Vec<StagePlan> = Vec::new();
        let mut i: usize = 0;
        while i < self.items.len()
            invariant
                i <= self.items@.len(),
                out@.len() == i,
                forall|j: int| 0 <= j < i ==> plans_stage(assets@, #[trigger] self.items@[j], out@[j]),
                chain_loaded(assets@, self.items@.subrange(0, i as int)),
            decreases self.items@.len() - i,
        {
            let p = match &self.items[i] {
                Dsp::Input(o) => {
                    match assets.collect_sources(&o.lua_handle) {
                        Some(texts) => StagePlan::Oscillator(texts),
                        None => {
                            assert(!chain_loaded(assets@, self.items@));
                            return None;
                        },
                    }
                },
                Dsp::Read(_) => StagePlan::Reader,
                Dsp::Output => StagePlan::Output,
            };
            out.push(p);
            i = i + 1;
            assert forall|j: int| 0 <= j < i && (#[trigger] self.items@.subrange(0, i as int)[j]) is Input
                implies all_loaded(assets@, self.items@.subrange(0, i as int)[j]->Input_0.lua_handle@) by {
                if j < i - 1 {
                    assert(self.items@.subrange(0, i as int)[j] == self.items@.subrange(0, i - 1)[j]);
                }
            }
        }
        assert(self.items@.subrange(0, i as int) =~= self.items@);
        Some(out)
    }

    /// Whether an oscillator of this chain runs the script `asset`; such a chain is torn
    /// down when that script changes.
    pub fn depends_on(&self, asset: AssetId) -> (r: bool)
        ensures
            r == exists|i: int| 0 <= i < self.items@.len() && (#[trigger] self.items@[i]) is Input
                && self.items@[i]->Input_0.lua_handle@.contains(asset),
    {
        let mut i: usize = 0;
        while i < self.items.len()
            invariant
                i <= self.items@.len(),
                forall|j: int| 0 <= j < i && (#[trigger] self.items@[j]) is Input ==> !self.items@[j]->Input_0.lua_handle@.contains(asset),
            decreases self.items@.len() - i,
        {
            match &self.items[i] {
                Dsp::Input(o) => {
                    let mut k: usize = 0;
                    while k < o.lua_handle.len()
                        invariant
                            i < self.items@.len(),
                            self.items@[i as int] == Dsp::Input(*o),
                            forall|j: int| 0 <= j < i && (#[trigger] self.items@[j]) is Input ==> !self.items@[j]->Input_0.lua_handle@.contains(asset),
                            k <= o.lua_handle@.len(),
                            forall|m: int| 0 <= m < k ==> o.lua_handle@[m] != asset,
                        decreases o.lua_handle@.len() - k,
                    {
                        if o.lua_handle[k] == asset {
                            assert(o.lua_handle@[k as int] == asset);
                            return true;
                        }
                        k = k + 1;
                    }
                },
                _ => {},
            }
            i = i + 1;
        }
        false
    }
}

/// How `n` built units are connected: each takes its two inputs from the two outputs of
/// the unit before it, the first takes none, and the last feeds the hardware output.
pub fn wiring(n: usize) -> (r: (Vec<Option<usize>>, Option<usize>))
    ensures
        is_sequential_wiring(r.0@, n as nat),
        r.1 == (if n == 0 { None } else { Some((n - 1) as usize) }),
{
    let mut w: Vec<Option<usize>> = Vec::new();
    let mut i: usize = 0;
    while i < n
        invariant
            i <= n,
            w@.len() == i,
            forall|j: int| 0 <= j < i ==> #[trigger] w@[j] == (if j == 0 { None } else { Some((j - 1) as usize) }),
        decreases n - i,
    {
        if i == 0 {
            w.push(None);
        } else {
            w.push(Some(i - 1));
        }
        i = i + 1;
    }
    let last = if n == 0 { None } else { Some(n - 1) };
    (w, last)
}

} // verus!

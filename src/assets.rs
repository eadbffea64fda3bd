//! The script sources that have finished loading, by asset id.
use vstd::prelude::*;
use std::collections::HashMap;

use crate::node::AssetId;

verus! {

broadcast use vstd::std_specs::hash::group_hash_axioms;

/// Loaded script texts. An id that is absent has not finished loading.
#[derive(Debug)]
pub struct ScriptAssets {
    pub scripts: HashMap<AssetId, String>,
}

/// Whether every id of `ids` is loaded.
pub open spec fn all_loaded(m: Map<AssetId, String>, ids: Seq<AssetId>) -> bool {
    forall|i: int| 0 <= i < ids.len() ==> m.contains_key(#[trigger] ids[i])
}

/// Whether `texts` holds the text of each id of `ids`, in order.
pub open spec fn texts_of(m: Map<AssetId, String>, ids: Seq<AssetId>, texts: Seq<String>) -> bool {
    &&& texts.len() == ids.len()
    &&& forall|i: int| 0 <= i < ids.len() ==> #[trigger] texts[i] == m[ids[i]]
}

impl View for ScriptAssets {
    type V = Map<AssetId, String>;

    open spec fn view(&self) -> Map<AssetId, String> {
        self.scripts@
    }
}

impl ScriptAssets {
    pub fn new() -> (r: ScriptAssets)
        ensures
            r@ == Map::<AssetId, String>::empty(),
    {
        ScriptAssets { scripts: HashMap::new() }
    }

    /// Records (or replaces) the text of `id`.
    pub fn insert(&mut self, id: AssetId, text: String)
        ensures
            final(self)@ == old(self)@.insert(id, text),
    {
        self.scripts.insert(id, text);
    }

    /// Whether `id` has finished loading.
    pub fn is_loaded(&self, id: AssetId) -> (r: bool)
        ensures
            r == self@.contains_key(id),
    {
        self.scripts.contains_key(&id)
    }

    /// The texts of `ids` in order, or `None` when any of them is not loaded yet.
    pub fn collect_sources(&self, ids: &Vec<AssetId>) -> (r: Option<Vec<String>>)
        ensures
            r is Some <==> all_loaded(self@, ids@),
            r is Some ==> texts_of(self@, ids@, r->Some_0@),
    {
        let mut out: Vec<String> = Vec::new();
        let mut i: usize = 0;
        while i < ids.len()
            invariant
                i <= ids@.len(),
                texts_of(self@, ids@.subrange(0, i as int), out@),
                all_loaded(self@, ids@.subrange(0, i as int)),
            decreases ids@.len() - i,
        {
            match self.scripts.get(&ids[i]) {
                Some(text) => {
                    out.push(text.clone());
                },
                None => {
                    assert(!self@.contains_key(ids@[i as int]));
                    return None;
                },
            }
            i = i + 1;
            assert(ids@.subrange(0, i as int).drop_last() =~= ids@.subrange(0, i - 1));
            assert forall|j: int| 0 <= j < i implies #[trigger] out@[j] == self@[ids@.subrange(0, i as int)[j]] by {
                if j < i - 1 {
                    assert(ids@.subrange(0, i as int)[j] == ids@.subrange(0, i - 1)[j]);
                }
            }
            assert forall|j: int| 0 <= j < i implies self@.contains_key(#[trigger] ids@.subrange(0, i as int)[j]) by {
                if j < i - 1 {
                    assert(ids@.subrange(0, i as int)[j] == ids@.subrange(0, i - 1)[j]);
                }
            }
        }
        assert(ids@.subrange(0, i as int) =~= ids@);
        Some(out)
    }
}

} // verus!

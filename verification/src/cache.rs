//! The content-addressed cache: a process-wide map from structural hash to
//! compiled routine. Entries are never evicted — the number of distinct
//! structural shapes the game constructs is small and bounded by the fixed
//! question taxonomy — and a hash already present always wins, so identical
//! shapes share one routine and are never compiled twice.

use std::sync::Arc;

use vstd::hash_map::HashMapWithView;
use vstd::prelude::*;

use crate::shader::ShapeShader;

verus! {

/// Relies on `Arc::clone`: the clone is a handle to the very same routine,
/// and Verus models an `Arc` by the value it points to.
#[verifier::external_body]
pub(crate) fn clone_shader_handle(v: &Arc<ShapeShader>) -> (r: Arc<ShapeShader>)
    ensures
        r == *v,
{
    v.clone()
}

/// Process-wide map from structural hash to compiled routine.
pub struct ShaderCache {
    cache: HashMapWithView<u64, Arc<ShapeShader>>,
}

impl View for ShaderCache {
    type V = Map<u64, Arc<ShapeShader>>;

    closed spec fn view(&self) -> Map<u64, Arc<ShapeShader>> {
        self.cache@
    }
}

impl ShaderCache {
    pub fn new() -> (r: ShaderCache)
        ensures
            r@ == Map::<u64, Arc<ShapeShader>>::empty(),
    {
        ShaderCache { cache: HashMapWithView::new() }
    }

    pub fn len(&self) -> (r: usize)
        ensures
            r == self@.dom().len(),
    {
        self.cache.len()
    }

    /// Return the routine filed under `hash`, installing `shader` only if
    /// the hash is new: an entry already present is returned as is and the
    /// candidate discarded, so both of two racing compilations of one shape
    /// end up sharing whichever was installed first.
    pub fn get_or_create(&mut self, hash: u64, shader: Arc<ShapeShader>) -> (r: Arc<ShapeShader>)
        ensures
            old(self)@.contains_key(hash) ==> final(self)@ == old(self)@ && r == old(self)@[hash],
            !old(self)@.contains_key(hash) ==> final(self)@ == old(self)@.insert(hash, shader)
                && r == shader,
            final(self)@.contains_key(hash),
            r == final(self)@[hash],
    {
        let existing = self.cache.get(&hash);
        match existing {
            Some(found) => {
                return clone_shader_handle(found);
            },
            None => {},
        }
        let handle = clone_shader_handle(&shader);
        self.cache.insert(hash, handle);
        shader
    }
}

} // verus!

//! The registry of textures: conrod's image map, which hands out a handle
//! for each texture that is registered.

use vstd::prelude::*;
use conrod_core::image::Id;

verus! {

/// Makes `conrod_core::image::Id`, the handle of a texture, known to the
/// verifier. What a handle holds stays hidden: two handles can be told apart
/// and no more.
#[verifier::external_type_specification]
#[verifier::external_body]
pub struct ExImageId(Id);

/// The registry of textures, keyed by the handles that it hands out. For
/// each texture it holds the width and the height of the pixels behind it.
///
/// It wraps `conrod_core::image::Map`, which the verifier cannot take in
/// itself because the map derefs to a hash map with a hasher of another
/// crate. The contracts of the methods below say what the map does.
#[verifier::external_body]
pub struct TextureMap {
    map: conrod_core::image::Map<(u32, u32)>,
}

/// What a registry holds: the size registered under each handle.
pub uninterp spec fn textures(map: TextureMap) -> Map<Id, (u32, u32)>;

/// A registry that holds nothing.
pub open spec fn no_textures() -> Map<Id, (u32, u32)> {
    Map::empty()
}

/// The size registered under a handle, if there is one.
pub open spec fn texture_at(held: Map<Id, (u32, u32)>, id: Id) -> Option<(u32, u32)> {
    if held.dom().contains(id) {
        Some(held[id])
    } else {
        None
    }
}

impl TextureMap {
    /// Calls `Map::new`, which makes an image map without entries.
    #[verifier::external_body]
    pub(crate) fn new() -> (r: TextureMap)
        ensures
            textures(r) == no_textures(),
    {
        TextureMap { map: conrod_core::image::Map::new() }
    }

    /// Calls `Map::insert`, which stores the value under the handle made
    /// from its counter and returns that handle. The counter wraps, so the
    /// contract does not claim that the handle is new.
    #[verifier::external_body]
    pub(crate) fn insert(&mut self, size: (u32, u32)) -> (id: Id)
        ensures
            textures(*final(self)) == textures(*old(self)).insert(id, size),
    {
        self.map.insert(size)
    }

    /// Calls `Map::remove`, which takes the entry of the handle out of the
    /// underlying hash map and returns its value, if it had one.
    #[verifier::external_body]
    pub(crate) fn remove(&mut self, id: Id) -> (r: Option<(u32, u32)>)
        ensures
            textures(*final(self)) == textures(*old(self)).remove(id),
            r == texture_at(textures(*old(self)), id),
    {
        self.map.remove(id)
    }

    /// Calls `HashMap::get` on the hash map that the image map derefs to.
    #[verifier::external_body]
    pub(crate) fn get(&self, id: Id) -> (r: Option<(u32, u32)>)
        ensures
            r == texture_at(textures(*self), id),
    {
        self.map.get(&id).copied()
    }
}

} // verus!

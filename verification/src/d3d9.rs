//! The Direct3D 9 device's function table, as copied out of a dummy device.

use vstd::prelude::*;

verus! {

/// Index of `EndScene` in the `IDirect3DDevice9` function table.
pub const END_SCENE_INDEX: usize = 42;

/// The function addresses of a Direct3D 9 device, in table order.
#[derive(Debug)]
pub struct D3d9 {
    d3d9_vtable: Vec<usize>,
}

impl D3d9 {
    /// The table's entries.
    pub closed spec fn vtable(&self) -> Seq<usize> {
        self.d3d9_vtable@
    }

    /// A device table read from a dummy device; it must not be empty.
    pub fn new(d3d9_vtable: Vec<usize>) -> (r: Self)
        requires
            d3d9_vtable@.len() > 0,
        ensures
            r.vtable() == d3d9_vtable@,
    {
        D3d9 { d3d9_vtable }
    }

    /// The address of `EndScene`.
    pub fn get_endscene(&self) -> (r: usize)
        requires
            self.vtable().len() > END_SCENE_INDEX,
        ensures
            r == self.vtable()[END_SCENE_INDEX as int],
    {
        self.d3d9_vtable[END_SCENE_INDEX]
    }
}

} // verus!

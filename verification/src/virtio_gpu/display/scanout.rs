use vstd::prelude::*;

verus! {

/// The state of one display output.
#[derive(Clone, Copy, Debug)]
pub struct Scanout {
    pub enabled: bool,
    pub resource_id: u32,
    pub width: u32,
    pub height: u32,
}

impl Default for Scanout {
    /// A disabled scanout showing no resource.
    fn default() -> (s: Self)
        ensures
            s == (Scanout { enabled: false, resource_id: 0, width: 0, height: 0 }),
    {
        Self { enabled: false, resource_id: 0, width: 0, height: 0 }
    }
}

} // verus!

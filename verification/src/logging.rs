//! Log filtering defaults.

use vstd::prelude::*;

verus! {

/// The filter directives used when `RUST_LOG` is not set: the configured
/// level for the viewer, and warnings only from the GPU stack, which is
/// verbose on every frame.
pub fn default_directives(level: &str) -> (r: String)
    ensures
        r@ == level@ + ",wgpu_core=warn,wgpu_hal=warn,naga=warn"@,
{
    let mut d = level.to_owned();
    d.append(",wgpu_core=warn,wgpu_hal=warn,naga=warn");
    d
}

} // verus!

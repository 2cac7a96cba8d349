//! The window's decisions on what the compositor sends: which globals to
//! bind and at which version, the size a configure event asks for, and how
//! a frame's pixels are laid out in shared memory.

use crate::text::text_eq;
use vstd::prelude::*;

verus! {

/// A compositor global that the viewer binds.
#[derive(Clone, Copy, Debug, PartialEq, Eq, Structural)]
pub enum Global {
    Compositor,
    Shm,
    WmBase,
    Seat,
}

/// The global that the interface name announces, if the viewer binds it.
pub open spec fn spec_global_for(interface: Seq<char>) -> Option<Global> {
    if interface == "wl_compositor"@ {
        Some(Global::Compositor)
    } else if interface == "wl_shm"@ {
        Some(Global::Shm)
    } else if interface == "xdg_wm_base"@ {
        Some(Global::WmBase)
    } else if interface == "wl_seat"@ {
        Some(Global::Seat)
    } else {
        None
    }
}

/// The highest protocol version the viewer speaks for each global.
pub open spec fn max_version(global: Global) -> u32 {
    match global {
        Global::Compositor => 6,
        Global::Shm => 1,
        Global::WmBase => 5,
        Global::Seat => 9,
    }
}

/// The global that a registry announcement of `interface` is bound as.
pub fn global_for(interface: &str) -> (r: Option<Global>)
    ensures
        r == spec_global_for(interface@),
{
    if text_eq(interface, "wl_compositor") {
        Some(Global::Compositor)
    } else if text_eq(interface, "wl_shm") {
        Some(Global::Shm)
    } else if text_eq(interface, "xdg_wm_base") {
        Some(Global::WmBase)
    } else if text_eq(interface, "wl_seat") {
        Some(Global::Seat)
    } else {
        None
    }
}

/// The version to bind a global at: the offered one, capped at the
/// highest the viewer speaks.
pub fn bind_version(global: Global, offered: u32) -> (r: u32)
    ensures
        r == if offered < max_version(global) {
            offered
        } else {
            max_version(global)
        },
{
    let max: u32 = match global {
        Global::Compositor => 6,
        Global::Shm => 1,
        Global::WmBase => 5,
        Global::Seat => 9,
    };
    if offered < max {
        offered
    } else {
        max
    }
}

/// The window size after a toplevel configure event: a zero width or
/// height keeps the current one; other values are taken as sent
/// (reinterpreted as unsigned).
pub fn configured_size(width: i32, height: i32, current: (u32, u32)) -> (r: (u32, u32))
    ensures
        r.0 == if width == 0 {
            current.0
        } else {
            width as u32
        },
        r.1 == if height == 0 {
            current.1
        } else {
            height as u32
        },
{
    let w: u32 = if width == 0 {
        current.0
    } else {
        width as u32
    };
    let h: u32 = if height == 0 {
        current.1
    } else {
        height as u32
    };
    (w, h)
}

/// What to do with the shared-memory pool before writing a frame.
#[derive(Clone, Copy, Debug, PartialEq, Eq, Structural)]
pub enum PoolPlan {
    /// No pool yet: create one of the frame's size.
    Create,
    /// The pool is too small: grow it to the frame's size.
    Grow,
    /// The pool is large enough: use it as it is.
    Reuse,
}

/// Whether to create, grow or reuse the pool, given its current size (if
/// any) and the bytes the frame needs.
pub fn pool_plan(pool_size: Option<usize>, needed: usize) -> (r: PoolPlan)
    ensures
        r == match pool_size {
            None => PoolPlan::Create,
            Some(s) => if s < needed {
                PoolPlan::Grow
            } else {
                PoolPlan::Reuse
            },
        },
{
    match pool_size {
        None => PoolPlan::Create,
        Some(s) => if s < needed {
            PoolPlan::Grow
        } else {
            PoolPlan::Reuse
        },
    }
}

/// Byte count and row stride of a `w × h` ARGB8888 frame; `None` when
/// the byte count does not fit `u32` or the stride does not fit `i32`.
pub fn frame_layout(w: u32, h: u32) -> (r: Option<(usize, i32)>)
    ensures
        r is Some <==> w * h * 4 <= u32::MAX && w * 4 <= i32::MAX,
        r matches Some(l) ==> l.0 == w * h * 4 && l.1 == w * 4,
{
    let wide = (w as u64) * 4;
    if wide > 0x7fff_ffff {
        return None;
    }
    assert((w as u64) * (h as u64) <= 0xffff_ffff * 0xffff_ffff) by (nonlinear_arith)
        requires
            (w as u64) <= 0xffff_ffff,
            (h as u64) <= 0xffff_ffff,
    ;
    let wh = (w as u64) * (h as u64);
    if wh > 0x3fff_ffff {
        assert(w * h * 4 > u32::MAX);
        return None;
    }
    let size = (wh * 4) as usize;
    let stride = (w as i32) * 4;
    Some((size, stride))
}

/// The viewer binds `wl_compositor` up to version 6, `wl_shm` at version 1,
/// `xdg_wm_base` up to 5 and `wl_seat` up to 9, and no other global: a
/// global offered at a lower version is bound at the offered one.
pub proof fn lemma_bound_versions(offered: u32)
    ensures
        spec_global_for("wl_compositor"@) == Some(Global::Compositor),
        spec_global_for("wl_shm"@) == Some(Global::Shm),
        spec_global_for("xdg_wm_base"@) == Some(Global::WmBase),
        spec_global_for("wl_seat"@) == Some(Global::Seat),
        max_version(Global::Compositor) == 6,
        max_version(Global::Shm) == 1,
        max_version(Global::WmBase) == 5,
        max_version(Global::Seat) == 9,
        forall|g: Global| offered <= #[trigger] max_version(g) ==> (if offered < max_version(g) {
            offered
        } else {
            max_version(g)
        }) == offered,
{
    reveal_strlit("wl_compositor");
    reveal_strlit("wl_shm");
    reveal_strlit("xdg_wm_base");
    reveal_strlit("wl_seat");
    assert("wl_shm"@.len() != "wl_compositor"@.len());
    assert("xdg_wm_base"@.len() != "wl_compositor"@.len());
    assert("xdg_wm_base"@.len() != "wl_shm"@.len());
    assert("wl_seat"@.len() != "wl_compositor"@.len());
    assert("wl_seat"@.len() != "wl_shm"@.len());
    assert("wl_seat"@.len() != "xdg_wm_base"@.len());
}

} // verus!

//! Rotation of the viewer, in quarter turns.
//!
//! The rotation is stored in degrees, clockwise: `0`, `90`, `180` or `270`.

use vstd::prelude::*;

verus! {

/// `rotation` is one of the four quarter-turn values.
pub open spec fn is_quarter_turn(rotation: int) -> bool {
    rotation == 0 || rotation == 90 || rotation == 180 || rotation == 270
}

/// The rotation after turning 90° counter-clockwise.
pub fn rotate_left(rotation: u16) -> (r: u16)
    requires
        rotation + 270 <= u16::MAX,
    ensures
        r == (rotation + 270) % 360,
        is_quarter_turn(rotation as int) ==> is_quarter_turn(r as int),
{
    (rotation + 270) % 360
}

/// The rotation after turning 90° clockwise.
pub fn rotate_right(rotation: u16) -> (r: u16)
    requires
        rotation + 90 <= u16::MAX,
    ensures
        r == (rotation + 90) % 360,
        is_quarter_turn(rotation as int) ==> is_quarter_turn(r as int),
{
    (rotation + 90) % 360
}

/// Turning left undoes turning right and the other way round, for every
/// rotation below a full turn.
pub proof fn lemma_left_right_inverse(rotation: int)
    requires
        0 <= rotation < 360,
    ensures
        ((rotation + 90) % 360 + 270) % 360 == rotation,
        ((rotation + 270) % 360 + 90) % 360 == rotation,
{
}

proof fn lemma_turn_right(rotation: int)
    requires
        0 <= rotation < 360,
    ensures
        0 <= (rotation + 90) % 360 < 360,
        (rotation + 90) % 360 == if rotation < 270 { rotation + 90 } else { rotation - 270 },
{
}

proof fn lemma_turn_left(rotation: int)
    requires
        0 <= rotation < 360,
    ensures
        0 <= (rotation + 270) % 360 < 360,
        (rotation + 270) % 360 == if rotation < 90 { rotation + 270 } else { rotation - 90 },
{
}

/// Four quarter turns in the same direction come back to the start.
pub proof fn lemma_four_turns_identity(rotation: int)
    requires
        0 <= rotation < 360,
    ensures
        ((((rotation + 90) % 360 + 90) % 360 + 90) % 360 + 90) % 360 == rotation,
        ((((rotation + 270) % 360 + 270) % 360 + 270) % 360 + 270) % 360 == rotation,
{
    let r1 = (rotation + 90) % 360;
    lemma_turn_right(rotation);
    let r2 = (r1 + 90) % 360;
    lemma_turn_right(r1);
    let r3 = (r2 + 90) % 360;
    lemma_turn_right(r2);
    lemma_turn_right(r3);
    let l1 = (rotation + 270) % 360;
    lemma_turn_left(rotation);
    let l2 = (l1 + 270) % 360;
    lemma_turn_left(l1);
    let l3 = (l2 + 270) % 360;
    lemma_turn_left(l2);
    lemma_turn_left(l3);
}

} // verus!

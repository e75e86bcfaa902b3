//! The movement resolver: what the pressed keys ask of the actor in one tick,
//! given whether it stands on ground. The arithmetic on vectors is left to
//! the caller; what is decided here is which terms enter it.

use crate::ground::{Ground, Grounded, GroundedState};
use crate::platform::{carried_displacement, carry, Cubeovator};
use vstd::prelude::*;

verus! {

/// The movement keys, as sampled once for the tick.
#[derive(Clone, Copy, Debug, PartialEq, Eq, Structural)]
pub struct MoveKeys {
    /// Move along the camera's forward vector.
    pub forward: bool,
    /// Move along the camera's back vector.
    pub back: bool,
    /// Move along the camera's left vector.
    pub left: bool,
    /// Move along the camera's right vector.
    pub right: bool,
    /// Jump.
    pub jump: bool,
}

impl MoveKeys {
    /// Whether any of the four direction keys is pressed.
    pub open spec fn any_direction(self) -> bool {
        self.forward || self.back || self.left || self.right
    }
}

/// Why a tick of the movement resolver was abandoned.
#[derive(Clone, Copy, Debug, PartialEq, Eq, Structural)]
pub enum MovementError {
    /// There is no camera to take the directions from.
    MissingCamera,
}

/// What the actor does in one tick. Each of the four direction flags says
/// that the camera's vector of that name, flattened to the horizontal plane,
/// is a term of the direction sum.
pub struct MovementIntent<D> {
    /// The forward vector is a term of the direction.
    pub forward: bool,
    /// The back vector is a term of the direction.
    pub back: bool,
    /// The left vector is a term of the direction.
    pub left: bool,
    /// The right vector is a term of the direction.
    pub right: bool,
    /// The jump impulse is added to the velocity.
    pub jump: bool,
    /// Vertical displacement taken over from the platform that carries the
    /// actor.
    pub carry: Option<D>,
}

impl<D> MovementIntent<D> {
    /// Net number of steps along the camera's forward vector: the forward
    /// and the back vector are opposite, so together they cancel.
    pub open spec fn along(self) -> int {
        (if self.forward { 1int } else { 0int }) - (if self.back { 1int } else { 0int })
    }

    /// Net number of steps along the camera's right vector.
    pub open spec fn across(self) -> int {
        (if self.right { 1int } else { 0int }) - (if self.left { 1int } else { 0int })
    }

    /// Whether the terms of the direction do not cancel. Without a heading
    /// the direction is the zero vector, whatever the camera.
    pub open spec fn has_heading(self) -> bool {
        self.along() != 0 || self.across() != 0
    }

    /// Whether the actor turns in this tick, given whether the direction that
    /// the caller summed up is other than the zero vector.
    pub open spec fn turns(self, direction_nonzero: bool) -> bool {
        self.has_heading() && direction_nonzero
    }

    /// Executable form of [`MovementIntent::along`].
    pub fn steps_along(&self) -> (steps: i8)
        ensures
            steps == self.along(),
    {
        let ahead: i8 = if self.forward { 1 } else { 0 };
        let behind: i8 = if self.back { 1 } else { 0 };
        ahead - behind
    }

    /// Executable form of [`MovementIntent::across`].
    pub fn steps_across(&self) -> (steps: i8)
        ensures
            steps == self.across(),
    {
        let rightward: i8 = if self.right { 1 } else { 0 };
        let leftward: i8 = if self.left { 1 } else { 0 };
        rightward - leftward
    }

    /// Decides whether the actor is turned to face its direction. It keeps
    /// its facing when the direction is the zero vector.
    pub fn should_turn(&self, direction_nonzero: bool) -> (turn: bool)
        ensures
            turn == self.turns(direction_nonzero),
    {
        direction_nonzero && (self.forward != self.back || self.left != self.right)
    }
}

/// The intent that the keys amount to. Direction keys and the jump key are
/// honoured only while the actor is grounded.
pub open spec fn intent_of<D>(keys: MoveKeys, state: GroundedState, carry: Option<D>)
    -> MovementIntent<D> {
    MovementIntent {
        forward: keys.forward && state.is_grounded(),
        back: keys.back && state.is_grounded(),
        left: keys.left && state.is_grounded(),
        right: keys.right && state.is_grounded(),
        jump: keys.jump && state.is_grounded(),
        carry,
    }
}

/// Resolves the actor's movement for one tick. Without a camera the tick is
/// abandoned. Otherwise the pressed keys are gated by the grounded state, and
/// an actor that stands on a single ground owned by a platform takes over
/// that platform's displacement.
pub fn player_movement<D: Copy>(
    keys: MoveKeys,
    camera_found: bool,
    grounded: &Grounded,
    grounds: &Vec<Ground>,
    cubes: &Vec<Cubeovator<D>>,
) -> (outcome: Result<MovementIntent<D>, MovementError>)
    ensures
        outcome == if camera_found {
            Ok::<MovementIntent<D>, MovementError>(
                intent_of(keys, grounded@, carry(grounded@, grounds@, cubes@)),
            )
        } else {
            Err::<MovementIntent<D>, MovementError>(MovementError::MissingCamera)
        },
{
    if !camera_found {
        return Err(MovementError::MissingCamera);
    }
    let on_ground = grounded.is_grounded();
    Ok(
        MovementIntent {
            forward: keys.forward && on_ground,
            back: keys.back && on_ground,
            left: keys.left && on_ground,
            right: keys.right && on_ground,
            jump: keys.jump && on_ground,
            carry: carried_displacement(grounded, grounds, cubes),
        },
    )
}

/// The jump impulse is applied if and only if the jump key is pressed while
/// the actor counts at least one ground contact.
pub proof fn lemma_jump_needs_ground<D>(keys: MoveKeys, state: GroundedState, carry: Option<D>)
    ensures
        intent_of(keys, state, carry).jump <==> keys.jump && state.count > 0,
{
}

/// While the actor counts no ground contact, no key has any effect: the
/// intent is the same whatever is pressed, and neither a jump nor a direction
/// is part of it.
pub proof fn lemma_airborne_keys_are_inert<D>(
    keys: MoveKeys,
    other_keys: MoveKeys,
    state: GroundedState,
    carry: Option<D>,
)
    requires
        state.count == 0,
    ensures
        intent_of(keys, state, carry) == intent_of(other_keys, state, carry),
        !intent_of(keys, state, carry).jump,
        !intent_of(keys, state, carry).has_heading(),
{
}

/// With no direction key pressed no vector enters the direction sum, so the
/// direction is zero and the actor does not turn.
pub proof fn lemma_no_direction_key_no_direction<D>(
    keys: MoveKeys,
    state: GroundedState,
    carry: Option<D>,
    direction_nonzero: bool,
)
    requires
        !keys.any_direction(),
    ensures
        ({
            let intent = intent_of(keys, state, carry);
            &&& !intent.forward && !intent.back && !intent.left && !intent.right
            &&& intent.along() == 0 && intent.across() == 0
            &&& !intent.turns(direction_nonzero)
        }),
{
}

/// The actor keeps its facing across a tick whose direction is the zero
/// vector, whatever is pressed.
pub proof fn lemma_zero_direction_keeps_facing<D>(intent: MovementIntent<D>)
    ensures
        !intent.turns(false),
{
}

} // verus!

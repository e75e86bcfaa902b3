//! Verified core of a third-person platformer: the ground-contact tracker of
//! the actor, the gating of its movement intent, the bookkeeping of the
//! oscillating platforms that may carry it, and the timer-driven lifecycle of
//! short-lived bodies. Everything here works on plain values; the engine that
//! feeds it lives outside.

pub mod entity;
pub mod ground;
pub mod lifecycle;
pub mod movement;
pub mod platform;
pub mod timer;

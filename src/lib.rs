//! Edge-triggered drawer and window-layout core.
//!
//! Geometry is kept in whole logical points. Everything that talks to the
//! window server, the accessibility interface or the drawer window itself
//! lives outside this library; it hands plain values in and acts on the plain
//! values that come back.

pub mod geometry;
pub mod layout;
pub mod text;
pub mod windows;
pub mod drawer;
pub mod animation;

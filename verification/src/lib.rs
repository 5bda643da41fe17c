//! The decision logic of a canvas heart animation: how many cards a
//! viewport gets, where each card sits in the deck, in which order the
//! cards are painted, when the canvas has to be resized, and which lines
//! of the code-editor backdrop are drawn.
//!
//! Everything here works on integers; the drawing itself, and the
//! floating-point geometry of each frame, live with the host program.
pub mod backdrop;
pub mod deck;
pub mod layout;
pub mod order;
pub mod viewport;

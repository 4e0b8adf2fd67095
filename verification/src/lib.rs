//! Core of a tally application: an ordered collection of named, colored
//! counters with integer scores, a press-duration classifier that turns a
//! pointer-down/up pair into a signed delta, a modal dialog controller that
//! mediates add/edit against the collection, and a cyclic palette for the
//! default color of new counters.

pub mod dialog;
pub mod model;
pub mod palette;
pub mod press;
pub mod state;
pub mod text;

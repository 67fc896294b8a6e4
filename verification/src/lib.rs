//! Random jazz-chord labels: a small xorshift generator, a fixed catalog of
//! chord archetypes, and a formatter that assembles one chord line.

pub mod chord;
pub mod laws;
pub mod rng;

pub use chord::random_chord;
pub use chord::random_chord_type;
pub use chord::random_root;
pub use chord::ChordType;
pub use rng::Rng;

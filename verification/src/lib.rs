//! Synesthesia's library: the exact (integer and text) logic of the sound
//! and image explorer — generator ids and their integer recipes, the
//! random-number core, the gene list's index tables and the route slots of
//! a genome, the search history behind like / dislike / undo, what a key
//! does to the screen, the point tokens, the command line, the player
//! command lines, WAV framing, the kept points, the delay line's ring, the
//! terminal picture's colour mapping and the layout arithmetic of the
//! picture.

pub mod rng;
pub mod text;
pub mod formula;
pub mod lfo;
pub mod tui;
pub mod sim;
pub mod share;
pub mod explorer;
pub mod cli;
pub mod session;
pub mod fx;
pub mod schema;
pub mod genes;
pub mod fft;
pub mod wav;
pub mod store;
pub mod sink;
pub mod ring;
pub mod routes;
pub mod rounding;

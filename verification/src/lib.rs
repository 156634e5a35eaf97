//! Router-filter policy synthesis for tailnet users, with the change test
//! that decides whether the generated text has to be written out.

pub mod bird;
pub mod clock;
pub mod digest;
pub mod headscale;
pub mod peerlab;
pub mod text;
pub mod writer;

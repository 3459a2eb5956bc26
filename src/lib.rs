//! Client core for lock-step multiplayer sessions speaking the
//! "CHOCOLATE_DOOM_0" network protocol: the wire codec, tic-command
//! diffing, the session state machine with its sliding tic windows, and
//! the loop driver that decides when tics are built and run.

pub mod net_structs;
pub mod packet;
pub mod ticdiff;
pub mod client;
pub mod game;

//! A discrete-time simulator of packet network paths.
//!
//! A path is assembled from four kinds of element: propagation links
//! ([`transport::Transport`]), rate-limited drop-tail buffers
//! ([`bottleneck::Bottleneck`]), receivers that acknowledge every packet
//! ([`simple_elems::Acker`]) and packet graves ([`simple_elems::Sink`]).
//! Time advances in ticks; every element is a deterministic state machine
//! whose transitions are specified over mathematical models and proved.
pub mod base;
pub mod simple_elems;
pub mod transport;
pub mod delivery;
pub mod bottleneck;
pub mod service;
pub mod element;
pub mod network;
pub mod routing;
pub mod simulation;
pub mod elem_anim;
pub mod sender;
pub mod path_anim;
pub mod two_bottlenecks_anim;
pub mod fair_anim;

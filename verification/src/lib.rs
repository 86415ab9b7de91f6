//! Networked simulation core of a small real-time multiplayer platformer.
//!
//! The library holds everything that is decided in whole numbers: which
//! scheduled input runs in which fixed substep, what each datagram holds,
//! which identity a peer has, what a recipient is shown, which predicted
//! inputs are still unconfirmed, and what becomes due in a delay queue.
//! Kinematic quantities travel through it as bit patterns ([`scalar::Scalar`]);
//! the arithmetic on them belongs to the embedding program, which receives
//! its work as explicit plans.
//!
//! * [`command`], [`state`]: the data.
//! * [`queue`], [`mutate`]: the scheduler and the fixed-timestep advance.
//! * [`wire`], [`wire_laws`], [`mapper`]: the datagram formats.
//! * [`identity`], [`server`], [`snapshot`]: the authority.
//! * [`delay_queue`], [`network`], [`predictor`], [`interpolator`],
//!   [`game_loop`], [`game_logic`]: the client.

pub mod command;
pub mod delay_queue;
pub mod game_logic;
pub mod game_loop;
pub mod identity;
pub mod interpolator;
pub mod mapper;
pub mod mutate;
pub mod network;
pub mod predictor;
pub mod queue;
pub mod scalar;
pub mod server;
pub mod snapshot;
pub mod state;
pub mod wire;
pub mod wire_laws;

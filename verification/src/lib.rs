//! An evolutionary simulation: animals that forage on a torus, steered by
//! small neural networks whose weights a genetic algorithm breeds.
//!
//! Three parts share one flat vector of numbers.  The genetic algorithm
//! ([`genetic`], with [`roulette_wheel`], [`uniform_crossover`] and
//! [`gaussian_mutation`]) breeds chromosomes; a network ([`network`], made of
//! [`layer`]s of [`neuron`]s) is read from a chromosome and written back to
//! one without loss; and the simulation ([`simulation`], over a [`world`] of
//! [`animal`]s and [`food`]) lets the networks steer and counts what they
//! earn.
//!
//! Numbers are decimal fixed-point ([`fixed`]), so every result is an exact
//! function of the inputs and of what was drawn.  What is drawn comes from a
//! generator that the caller hands in ([`entropy`]).  Angles and directions
//! are plain numbers here ([`geometry`]); the trigonometry that turns
//! positions into angles and rotations into directions is left to the
//! caller, whom [`simulation::Simulation::step`] asks for it between the
//! parts of a tick.

pub mod animal;
pub mod animal_individual;
pub mod brain;
pub mod chromosome;
pub mod entropy;
pub mod eye;
pub mod fixed;
pub mod food;
pub mod gaussian_mutation;
pub mod genetic;
pub mod geometry;
pub mod layer;
pub mod network;
pub mod neuron;
pub mod roulette_wheel;
pub mod simulation;
pub mod statistics;
pub mod uniform_crossover;
pub mod world;

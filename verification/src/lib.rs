//! A verified library built around a fixed-size worker-pool protocol —
//! bounded job queue, FIFO dispatch, orderly shutdown — together with a
//! collection of smaller verified modules it grew up with: a linked
//! list, a base64 encoder, text utilities, and assorted domain rules.

pub mod add_one;
pub mod adder;
pub mod appendix;
pub mod base64_encode;
pub mod celsius_and_farenheit;
pub mod closures;
pub mod closures_advanced;
pub mod employee_manager;
pub mod enums;
pub mod error_handling;
pub mod generics;
pub mod guessing_game;
pub mod http;
pub mod lifetimes;
pub mod linkedlist;
pub mod mock_messages;
pub mod pool;
pub mod restaurant;
pub mod restaurant_single;
pub mod slices;
pub mod smart_pointers;
pub mod state_pattern;
pub mod structs;
pub mod text;
pub mod trait_objects;
pub mod traits;
pub mod traits_advanced;
pub mod types_advanced;
pub mod vars_and_types;

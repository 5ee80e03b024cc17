//! In-memory world model of a role-playing game: value-addressed characters
//! and items, one active map with all others dormant, and map construction.
pub mod ids;
pub mod item;
pub mod chara;
pub mod map;
pub mod site;
pub mod world;
pub mod resolver;
pub mod builder;
pub mod template;
pub mod populate;
pub mod newgame;

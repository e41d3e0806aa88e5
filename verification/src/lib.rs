//! Battle-scene logic of a small turn-based RPG: the cooperative task
//! runtime that drives scripted scenes frame by frame, key input state,
//! keyframe tracks, menus and the battle rules.

pub mod components;
pub mod runtime;
pub mod frame;
pub mod task;
pub mod keyframe;
pub mod input;
pub mod menu;
pub mod submenu;
pub mod battle;

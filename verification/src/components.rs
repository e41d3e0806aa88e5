//! Marker and tag components attached to entities of the scene.

use vstd::prelude::*;

verus! {

/// Name of an entity, used to bind animation tracks to it.
pub struct Name {
    pub name: String,
}

/// Marks the rectangle that shows the enemy's hit points.
pub struct EnemyHpBar;

/// Marks the rectangle that shows the player's hit points.
pub struct PlayerHpBar;

/// Marks the text that shows the player's hit points.
pub struct PlayerHpText;

/// Highlight rectangle of the submenu slot `index`.
pub struct SubMenuHighlight {
    pub index: usize,
}

/// Text of the submenu slot `index`.
pub struct SubMenuText {
    pub index: usize,
}

/// Marks the description text of the submenu.
pub struct SubMenuDescriptionText;

} // verus!

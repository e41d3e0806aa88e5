//! The battle command menu: four commands in a ring, moved through with the
//! up and down keys and chosen with the confirm key.

use vstd::prelude::*;

verus! {

/// A command of the battle menu.
#[derive(PartialEq, Eq, Structural, Clone, Copy, Debug)]
pub enum MenuResult {
    Attack,
    Skill,
    Item,
    Escape,
}

/// A key the menus react to.
#[derive(PartialEq, Eq, Structural, Clone, Copy, Debug)]
pub enum MenuKey {
    /// Chooses the highlighted entry.
    Confirm,
    /// Leaves a submenu without choosing.
    Cancel,
    Up,
    Down,
}

/// The command below `m`, the last one wrapping to the first.
pub open spec fn menu_below(m: MenuResult) -> MenuResult {
    match m {
        MenuResult::Attack => MenuResult::Skill,
        MenuResult::Skill => MenuResult::Item,
        MenuResult::Item => MenuResult::Escape,
        MenuResult::Escape => MenuResult::Attack,
    }
}

/// The command above `m`, the first one wrapping to the last.
pub open spec fn menu_above(m: MenuResult) -> MenuResult {
    match m {
        MenuResult::Attack => MenuResult::Escape,
        MenuResult::Skill => MenuResult::Attack,
        MenuResult::Item => MenuResult::Skill,
        MenuResult::Escape => MenuResult::Item,
    }
}

/// The word that names `m` in animation names.
pub open spec fn menu_word(m: MenuResult) -> Seq<char> {
    match m {
        MenuResult::Attack => "attack"@,
        MenuResult::Skill => "skill"@,
        MenuResult::Item => "item"@,
        MenuResult::Escape => "escape"@,
    }
}

/// Name of the animation that highlights `m`.
pub open spec fn focus_in_name(m: MenuResult) -> Seq<char> {
    "menu-"@ + menu_word(m) + "-focus-in"@
}

/// Name of the animation that removes the highlight from `m`.
pub open spec fn focus_out_name(m: MenuResult) -> Seq<char> {
    "menu-"@ + menu_word(m) + "-focus-out"@
}

/// Name of the animation that shows the menu.
pub open spec fn menu_fade_in_name() -> Seq<char> {
    "menu-fade-in"@
}

/// Name of the animation that hides the menu.
pub open spec fn menu_fade_out_name() -> Seq<char> {
    "menu-fade-out"@
}

/// What a key press does to the menu.
pub enum MenuTransition {
    /// The highlighted command is chosen: play `focus_out`, then `fade_out`,
    /// and the menu returns `choice`.
    Chosen { choice: MenuResult, focus_out: String, fade_out: String },
    /// The highlight moves to `to`: play `focus_out` and `focus_in` together.
    Moved { to: MenuResult, focus_out: String, focus_in: String },
    /// The key does nothing here.
    Ignored,
}

impl MenuResult {
    /// Name of the animation that highlights this command.
    pub fn focus_in_animation(&self) -> (name: String)
        ensures
            name@ == focus_in_name(*self),
    {
        let word = self.word();
        let mut name = String::from_str("menu-");
        name.append(word.as_str());
        name.append("-focus-in");
        name
    }

    /// Name of the animation that removes the highlight from this command.
    pub fn focus_out_animation(&self) -> (name: String)
        ensures
            name@ == focus_out_name(*self),
    {
        let word = self.word();
        let mut name = String::from_str("menu-");
        name.append(word.as_str());
        name.append("-focus-out");
        name
    }

    fn word(&self) -> (w: String)
        ensures
            w@ == menu_word(*self),
    {
        match self {
            MenuResult::Attack => String::from_str("attack"),
            MenuResult::Skill => String::from_str("skill"),
            MenuResult::Item => String::from_str("item"),
            MenuResult::Escape => String::from_str("escape"),
        }
    }
}

/// Name of the animation that shows the menu.
pub fn menu_fade_in_animation() -> (name: String)
    ensures
        name@ == menu_fade_in_name(),
{
    String::from_str("menu-fade-in")
}

/// One key press in the battle menu while `current` is highlighted.
/// Confirm chooses `current`; up and down move the highlight around the
/// ring of commands; any other key is ignored.
pub fn menu_select(current: MenuResult, key: MenuKey) -> (t: MenuTransition)
    ensures
        match key {
            MenuKey::Confirm => t matches MenuTransition::Chosen { choice, focus_out, fade_out }
                && choice == current && focus_out@ == focus_out_name(current) && fade_out@
                == menu_fade_out_name(),
            MenuKey::Up => t matches MenuTransition::Moved { to, focus_out, focus_in } && to
                == menu_above(current) && focus_out@ == focus_out_name(current) && focus_in@
                == focus_in_name(menu_above(current)),
            MenuKey::Down => t matches MenuTransition::Moved { to, focus_out, focus_in } && to
                == menu_below(current) && focus_out@ == focus_out_name(current) && focus_in@
                == focus_in_name(menu_below(current)),
            MenuKey::Cancel => t is Ignored,
        },
{
    match key {
        MenuKey::Confirm => MenuTransition::Chosen {
            choice: current,
            focus_out: current.focus_out_animation(),
            fade_out: String::from_str("menu-fade-out"),
        },
        MenuKey::Up => {
            let to = match current {
                MenuResult::Attack => MenuResult::Escape,
                MenuResult::Skill => MenuResult::Attack,
                MenuResult::Item => MenuResult::Skill,
                MenuResult::Escape => MenuResult::Item,
            };
            MenuTransition::Moved {
                to,
                focus_out: current.focus_out_animation(),
                focus_in: to.focus_in_animation(),
            }
        },
        MenuKey::Down => {
            let to = match current {
                MenuResult::Attack => MenuResult::Skill,
                MenuResult::Skill => MenuResult::Item,
                MenuResult::Item => MenuResult::Escape,
                MenuResult::Escape => MenuResult::Attack,
            };
            MenuTransition::Moved {
                to,
                focus_out: current.focus_out_animation(),
                focus_in: to.focus_in_animation(),
            }
        },
        MenuKey::Cancel => MenuTransition::Ignored,
    }
}

/// Moving up undoes moving down, and moving down undoes moving up.
pub proof fn lemma_up_undoes_down(m: MenuResult)
    ensures
        menu_above(menu_below(m)) == m,
        menu_below(menu_above(m)) == m,
{
}

/// Four moves in the same direction come back to the start: the commands
/// form a ring of four, all distinct.
pub proof fn lemma_menu_is_a_ring(m: MenuResult)
    ensures
        menu_below(menu_below(menu_below(menu_below(m)))) == m,
        menu_above(menu_above(menu_above(menu_above(m)))) == m,
        menu_below(m) != m,
        menu_below(menu_below(m)) != m,
        menu_below(menu_below(menu_below(m))) != m,
{
}

/// Each command has its own highlight animations.
pub proof fn lemma_focus_names_distinct(a: MenuResult, b: MenuResult)
    requires
        a != b,
    ensures
        focus_in_name(a) != focus_in_name(b),
        focus_out_name(a) != focus_out_name(b),
        focus_in_name(a) != focus_out_name(b),
{
    reveal_strlit("menu-");
    reveal_strlit("-focus-in");
    reveal_strlit("-focus-out");
    reveal_strlit("attack");
    reveal_strlit("skill");
    reveal_strlit("item");
    reveal_strlit("escape");
    assert(focus_in_name(a)[5] != focus_in_name(b)[5] || focus_in_name(a).len() != focus_in_name(b).len());
    assert(focus_out_name(a)[5] != focus_out_name(b)[5] || focus_out_name(a).len() != focus_out_name(b).len());
    assert(focus_in_name(a)[5] != focus_out_name(b)[5] || focus_in_name(a).len() != focus_out_name(b).len()
        || focus_in_name(a)[focus_in_name(a).len() - 2] != focus_out_name(b)[focus_out_name(b).len() - 2]);
}

/// Place of `m` in the ring, counted from the top.
pub open spec fn menu_index(m: MenuResult) -> int {
    match m {
        MenuResult::Attack => 0,
        MenuResult::Skill => 1,
        MenuResult::Item => 2,
        MenuResult::Escape => 3,
    }
}

/// The command at place `i` of the ring, places counted modulo four.
pub open spec fn menu_at(i: int) -> MenuResult {
    let r = i % 4;
    if r == 0 {
        MenuResult::Attack
    } else if r == 1 {
        MenuResult::Skill
    } else if r == 2 {
        MenuResult::Item
    } else {
        MenuResult::Escape
    }
}

/// The highlighted command after the presses of `keys`, starting from
/// `start`: up and down move it, the other keys leave it.
pub open spec fn menu_after(start: MenuResult, keys: Seq<MenuKey>) -> MenuResult
    decreases keys.len(),
{
    if keys.len() == 0 {
        start
    } else {
        let m = menu_after(start, keys.drop_last());
        match keys.last() {
            MenuKey::Up => menu_above(m),
            MenuKey::Down => menu_below(m),
            _ => m,
        }
    }
}

/// How many presses of `key` `keys` holds.
pub open spec fn count_presses(keys: Seq<MenuKey>, key: MenuKey) -> int
    decreases keys.len(),
{
    if keys.len() == 0 {
        0
    } else {
        count_presses(keys.drop_last(), key) + if keys.last() == key { 1int } else { 0int }
    }
}

proof fn lemma_ring_steps(i: int)
    ensures
        menu_below(menu_at(i)) == menu_at(i + 1),
        menu_above(menu_at(i)) == menu_at(i - 1),
        menu_at(menu_index(menu_at(i))) == menu_at(i),
{
    let r = i % 4;
    assert(0 <= r < 4);
    assert((i + 1) % 4 == if r == 3 { 0 } else { r + 1 });
    assert((i - 1) % 4 == if r == 0 { 3 } else { r - 1 });
}

/// After `d` presses of down and `u` presses of up, in any order, the
/// highlight is `d - u` places below where it started, around the ring of
/// four commands; so from the top, a lone up highlights escaping.
pub proof fn lemma_menu_after_presses(start: MenuResult, keys: Seq<MenuKey>)
    ensures
        menu_after(start, keys) == menu_at(
            menu_index(start) + count_presses(keys, MenuKey::Down) - count_presses(keys, MenuKey::Up),
        ),
    decreases keys.len(),
{
    if keys.len() == 0 {
        assert(menu_at(menu_index(start)) == start);
    } else {
        let rest = keys.drop_last();
        lemma_menu_after_presses(start, rest);
        let i = menu_index(start) + count_presses(rest, MenuKey::Down) - count_presses(rest, MenuKey::Up);
        lemma_ring_steps(i);
    }
}

/// The highlight animations are named after the command, in lower case:
/// "menu-attack-focus-in", "menu-skill-focus-in", "menu-item-focus-in",
/// "menu-escape-focus-in", and likewise with "-focus-out"; these are the
/// animations the game loads.
pub proof fn lemma_focus_animation_names()
    ensures
        focus_in_name(MenuResult::Attack) == "menu-attack-focus-in"@,
        focus_in_name(MenuResult::Skill) == "menu-skill-focus-in"@,
        focus_in_name(MenuResult::Item) == "menu-item-focus-in"@,
        focus_in_name(MenuResult::Escape) == "menu-escape-focus-in"@,
        focus_out_name(MenuResult::Attack) == "menu-attack-focus-out"@,
        focus_out_name(MenuResult::Skill) == "menu-skill-focus-out"@,
        focus_out_name(MenuResult::Item) == "menu-item-focus-out"@,
        focus_out_name(MenuResult::Escape) == "menu-escape-focus-out"@,
        menu_fade_in_name() == "menu-fade-in"@,
        menu_fade_out_name() == "menu-fade-out"@,
{
    reveal_strlit("menu-");
    reveal_strlit("-focus-in");
    reveal_strlit("-focus-out");
    reveal_strlit("attack");
    reveal_strlit("skill");
    reveal_strlit("item");
    reveal_strlit("escape");
    reveal_strlit("menu-attack-focus-in");
    reveal_strlit("menu-skill-focus-in");
    reveal_strlit("menu-item-focus-in");
    reveal_strlit("menu-escape-focus-in");
    reveal_strlit("menu-attack-focus-out");
    reveal_strlit("menu-skill-focus-out");
    reveal_strlit("menu-item-focus-out");
    reveal_strlit("menu-escape-focus-out");
    assert(focus_in_name(MenuResult::Attack) =~= "menu-attack-focus-in"@);
    assert(focus_in_name(MenuResult::Skill) =~= "menu-skill-focus-in"@);
    assert(focus_in_name(MenuResult::Item) =~= "menu-item-focus-in"@);
    assert(focus_in_name(MenuResult::Escape) =~= "menu-escape-focus-in"@);
    assert(focus_out_name(MenuResult::Attack) =~= "menu-attack-focus-out"@);
    assert(focus_out_name(MenuResult::Skill) =~= "menu-skill-focus-out"@);
    assert(focus_out_name(MenuResult::Item) =~= "menu-item-focus-out"@);
    assert(focus_out_name(MenuResult::Escape) =~= "menu-escape-focus-out"@);
}

} // verus!

use rpg_battle::battle::{
    create_items, enemy_turn, item_menu_entries, menu_outcome, skill_descriptions, skill_effect,
    skill_names, use_item, Battle, EnemyTurnResult, Item, MenuOutcome, PlayerTurnOutcome,
    PlayerTurnResult,
};
use rpg_battle::menu::{menu_fade_in_animation, menu_select, MenuKey, MenuResult, MenuTransition};
use rpg_battle::submenu::{entry_at_rank, submenu_slot_texts, submenu_step, SubmenuCursor, SubmenuStep};

fn moved(t: MenuTransition) -> (MenuResult, String, String) {
    match t {
        MenuTransition::Moved { to, focus_out, focus_in } => (to, focus_out, focus_in),
        _ => panic!("expected a move"),
    }
}

#[test]
fn menu_moves_around_a_ring() {
    let (to, out, inn) = moved(menu_select(MenuResult::Attack, MenuKey::Down));
    assert_eq!(to, MenuResult::Skill);
    assert_eq!(out, "menu-attack-focus-out");
    assert_eq!(inn, "menu-skill-focus-in");
    let (to, out, inn) = moved(menu_select(MenuResult::Attack, MenuKey::Up));
    assert_eq!(to, MenuResult::Escape);
    assert_eq!(out, "menu-attack-focus-out");
    assert_eq!(inn, "menu-escape-focus-in");
    let mut m = MenuResult::Item;
    for _ in 0..4 {
        m = moved(menu_select(m, MenuKey::Down)).0;
    }
    assert_eq!(m, MenuResult::Item);
    let up = moved(menu_select(MenuResult::Escape, MenuKey::Down)).0;
    assert_eq!(moved(menu_select(up, MenuKey::Up)).0, MenuResult::Escape);
}

#[test]
fn confirm_chooses_and_cancel_is_ignored() {
    match menu_select(MenuResult::Skill, MenuKey::Confirm) {
        MenuTransition::Chosen { choice, focus_out, fade_out } => {
            assert_eq!(choice, MenuResult::Skill);
            assert_eq!(focus_out, "menu-skill-focus-out");
            assert_eq!(fade_out, "menu-fade-out");
        }
        _ => panic!("expected a choice"),
    }
    assert!(matches!(menu_select(MenuResult::Item, MenuKey::Cancel), MenuTransition::Ignored));
    assert_eq!(menu_fade_in_animation(), "menu-fade-in");
}

#[test]
fn submenu_cursor_wraps_and_scrolls() {
    let mut c = SubmenuCursor::new(6);
    assert_eq!(c.visible_range(), (0, 4));
    for expected in [(0, 1, 0), (1, 2, 0), (2, 3, 0), (3, 3, 1), (3, 3, 2)] {
        match submenu_step(&mut c, MenuKey::Down) {
            SubmenuStep::Moved { from, to, top } => assert_eq!((from, to, top), expected),
            _ => panic!("expected a move"),
        }
    }
    assert_eq!(c.index(), 5);
    assert_eq!(c.visible_range(), (2, 6));
    match submenu_step(&mut c, MenuKey::Down) {
        SubmenuStep::Moved { from, to, top } => assert_eq!((from, to, top), (3, 0, 0)),
        _ => panic!("expected a move"),
    }
    assert_eq!(c.index(), 0);
    match submenu_step(&mut c, MenuKey::Up) {
        SubmenuStep::Moved { from, to, top } => assert_eq!((from, to, top), (0, 3, 2)),
        _ => panic!("expected a move"),
    }
    assert_eq!(c.index(), 5);
    for _ in 0..4 {
        submenu_step(&mut c, MenuKey::Up);
    }
    assert_eq!(c.index(), 1);
    assert_eq!(c.visible_range(), (1, 5));
    assert_eq!(c.slot(), 0);
}

#[test]
fn submenu_short_list_and_choices() {
    let mut c = SubmenuCursor::new(2);
    assert_eq!(c.visible_range(), (0, 2));
    submenu_step(&mut c, MenuKey::Down);
    assert_eq!(submenu_step(&mut c, MenuKey::Confirm), SubmenuStep::Select(1));
    assert_eq!(submenu_step(&mut c, MenuKey::Cancel), SubmenuStep::Cancel);
    submenu_step(&mut c, MenuKey::Down);
    assert_eq!(c.index(), 0);
    let mut len_moves = SubmenuCursor::new(3);
    submenu_step(&mut len_moves, MenuKey::Down);
    for _ in 0..3 {
        submenu_step(&mut len_moves, MenuKey::Down);
    }
    assert_eq!(len_moves.index(), 1);
}

#[test]
fn slot_texts_are_padded_to_the_window() {
    let texts = vec!["a".to_string(), "b".to_string()];
    assert_eq!(submenu_slot_texts(&texts), vec!["a", "b", "", ""]);
    let many: Vec<String> = (0..6).map(|i| i.to_string()).collect();
    assert_eq!(submenu_slot_texts(&many[1..]), vec!["1", "2", "3", "4"]);
}

#[test]
fn entries_are_found_by_rank() {
    let keys = vec![2, 0, 3, 1];
    assert_eq!(entry_at_rank(&keys, 0), Some(1));
    assert_eq!(entry_at_rank(&keys, 1), Some(3));
    assert_eq!(entry_at_rank(&keys, 2), Some(0));
    assert_eq!(entry_at_rank(&keys, 3), Some(2));
    assert_eq!(entry_at_rank(&keys, 4), None);
    let ties = vec![1, 1, 0];
    assert_eq!(entry_at_rank(&ties, 0), Some(2));
    assert_eq!(entry_at_rank(&ties, 1), Some(0));
    assert_eq!(entry_at_rank(&ties, 2), Some(1));
}

#[test]
fn items_skills_and_commands() {
    let items = create_items();
    assert_eq!(items.len(), 5);
    assert_eq!(items[0].name, "Potion 1");
    assert_eq!(items[3].description, "Heals the player 300");
    assert_eq!(items[4].effect, PlayerTurnResult::EnemyDamage(1000));
    assert_eq!(skill_names()[5], "Skill F");
    assert_eq!(skill_descriptions()[1], "Deals 250 damage to enemies.");
    assert_eq!(skill_effect(2), PlayerTurnResult::EnemyDamage(300));
    assert_eq!(
        menu_outcome(MenuResult::Attack),
        MenuOutcome::Turn(PlayerTurnResult::EnemyDamage(100))
    );
    assert_eq!(menu_outcome(MenuResult::Escape), MenuOutcome::Turn(PlayerTurnResult::Escape));
    assert_eq!(menu_outcome(MenuResult::Skill), MenuOutcome::OpenSkills);
    assert_eq!(menu_outcome(MenuResult::Item), MenuOutcome::OpenItems);
    assert_eq!(enemy_turn(), EnemyTurnResult::PlayerDamage(35));
}

#[test]
fn using_an_item_removes_it() {
    let mut items = create_items();
    let used = use_item(&mut items, 3);
    assert_eq!(used.name, "Potion 2");
    assert_eq!(used.effect, PlayerTurnResult::PlayerRecovery(300));
    assert_eq!(items.len(), 4);
    assert_eq!(items[3].name, "Fire Scroll");
    let (names, descriptions) = item_menu_entries(&items).unwrap();
    assert_eq!(names, vec!["Potion 1", "Potion 1", "Potion 1", "Fire Scroll"]);
    assert_eq!(descriptions[3], "Deals 1000 damage to enemies.");
    let empty: Vec<Item> = Vec::new();
    assert!(item_menu_entries(&empty).is_none());
}

#[test]
fn hit_points_are_clamped() {
    let mut b = Battle::new();
    assert_eq!((b.player_hp, b.enemy_hp), (300, 1500));
    assert_eq!(
        b.apply_player_turn(PlayerTurnResult::EnemyDamage(1000)),
        PlayerTurnOutcome::EnemyDamaged { damage: 1000, down: false }
    );
    assert_eq!(b.enemy_hp, 500);
    assert_eq!(
        b.apply_player_turn(PlayerTurnResult::EnemyDamage(750)),
        PlayerTurnOutcome::EnemyDamaged { damage: 750, down: true }
    );
    assert_eq!(b.enemy_hp, 0);
    assert!(!b.apply_enemy_turn(EnemyTurnResult::PlayerDamage(35)));
    assert_eq!(b.player_hp, 265);
    assert_eq!(
        b.apply_player_turn(PlayerTurnResult::PlayerRecovery(100)),
        PlayerTurnOutcome::PlayerRecovered { amount: 100 }
    );
    assert_eq!(b.player_hp, 300);
    assert_eq!(b.apply_player_turn(PlayerTurnResult::Escape), PlayerTurnOutcome::Nothing);
    assert!(b.apply_enemy_turn(EnemyTurnResult::PlayerDamage(400)));
    assert_eq!(b.player_hp, 0);
    b.revive();
    assert_eq!(b.player_hp, 300);
    b.encounter();
    assert_eq!(b.enemy_hp, 1500);
}

#[test]
fn exact_kill_downs_the_enemy() {
    let mut b = Battle::new();
    b.apply_player_turn(PlayerTurnResult::EnemyDamage(1000));
    assert_eq!(
        b.apply_player_turn(PlayerTurnResult::EnemyDamage(500)),
        PlayerTurnOutcome::EnemyDamaged { damage: 500, down: true }
    );
    assert_eq!(b.enemy_hp, 0);
}

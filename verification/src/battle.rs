//! The rules of the battle: what the player's commands, skills and items do,
//! what the enemy does, and how hit points change.

use vstd::prelude::*;
use crate::menu::MenuResult;

verus! {

/// The player's hit points at the start, and their maximum.
pub const PLAYER_MAX_HP: i32 = 300;

/// The enemy's hit points at each encounter, and their maximum.
pub const ENEMY_MAX_HP: i32 = 1500;

/// Damage of the plain attack.
pub const ATTACK_DAMAGE: i32 = 100;

/// Damage of the enemy's attack.
pub const ENEMY_ATTACK_DAMAGE: i32 = 35;

/// What the player's turn does.
#[derive(PartialEq, Eq, Structural, Clone, Copy, Debug)]
pub enum PlayerTurnResult {
    /// The enemy takes this much damage.
    EnemyDamage(i32),
    /// The player recovers this many hit points.
    PlayerRecovery(i32),
    /// The player tries to run.
    Escape,
}

/// What the enemy's turn does.
#[derive(PartialEq, Eq, Structural, Clone, Copy, Debug)]
pub enum EnemyTurnResult {
    /// The player takes this much damage.
    PlayerDamage(i32),
}

/// An item the player carries.
pub struct Item {
    pub name: String,
    pub description: String,
    pub effect: PlayerTurnResult,
}

/// The name, description and effect of each item at the start of an
/// encounter, in order.
pub open spec fn initial_items() -> Seq<(Seq<char>, Seq<char>, PlayerTurnResult)> {
    seq![
        ("Potion 1"@, "Heals the player 100"@, PlayerTurnResult::PlayerRecovery(100)),
        ("Potion 1"@, "Heals the player 100"@, PlayerTurnResult::PlayerRecovery(100)),
        ("Potion 1"@, "Heals the player 100"@, PlayerTurnResult::PlayerRecovery(100)),
        ("Potion 2"@, "Heals the player 300"@, PlayerTurnResult::PlayerRecovery(300)),
        ("Fire Scroll"@, "Deals 1000 damage to enemies."@, PlayerTurnResult::EnemyDamage(1000)),
    ]
}

/// `item` has the name, description and effect of `entry`.
pub open spec fn item_is(item: Item, entry: (Seq<char>, Seq<char>, PlayerTurnResult)) -> bool {
    item.name@ == entry.0 && item.description@ == entry.1 && item.effect == entry.2
}

fn make_item(name: &str, description: &str, effect: PlayerTurnResult) -> (item: Item)
    ensures
        item.name@ == name@,
        item.description@ == description@,
        item.effect == effect,
{
    Item { name: String::from_str(name), description: String::from_str(description), effect }
}

/// The items the player carries at the start of an encounter.
pub fn create_items() -> (items: Vec<Item>)
    ensures
        items@.len() == initial_items().len(),
        forall|i: int| 0 <= i < items@.len() ==> item_is(#[trigger] items@[i], initial_items()[i]),
{
    let mut items: Vec<Item> = Vec::new();
    items.push(make_item("Potion 1", "Heals the player 100", PlayerTurnResult::PlayerRecovery(100)));
    items.push(make_item("Potion 1", "Heals the player 100", PlayerTurnResult::PlayerRecovery(100)));
    items.push(make_item("Potion 1", "Heals the player 100", PlayerTurnResult::PlayerRecovery(100)));
    items.push(make_item("Potion 2", "Heals the player 300", PlayerTurnResult::PlayerRecovery(300)));
    items.push(
        make_item(
            "Fire Scroll",
            "Deals 1000 damage to enemies.",
            PlayerTurnResult::EnemyDamage(1000),
        ),
    );
    assert(forall|i: int| 0 <= i < 5 ==> item_is(#[trigger] items@[i], initial_items()[i]));
    items
}

/// The name, description and damage of each skill, in menu order.
pub open spec fn skill_table() -> Seq<(Seq<char>, Seq<char>, i32)> {
    seq![
        ("Skill A"@, "Deals 150 damage to enemies."@, 150i32),
        ("Skill B"@, "Deals 250 damage to enemies."@, 250i32),
        ("Skill C"@, "Deals 300 damage to enemies."@, 300i32),
        ("Skill D"@, "Deals 400 damage to enemies."@, 400i32),
        ("Skill E"@, "Deals 500 damage to enemies."@, 500i32),
        ("Skill F"@, "Deals 750 damage to enemies."@, 750i32),
    ]
}

/// The names of the skills, in menu order.
pub fn skill_names() -> (names: Vec<String>)
    ensures
        names@.len() == skill_table().len(),
        forall|i: int| 0 <= i < names@.len() ==> (#[trigger] names@[i])@ == skill_table()[i].0,
{
    let mut names: Vec<String> = Vec::new();
    names.push(String::from_str("Skill A"));
    names.push(String::from_str("Skill B"));
    names.push(String::from_str("Skill C"));
    names.push(String::from_str("Skill D"));
    names.push(String::from_str("Skill E"));
    names.push(String::from_str("Skill F"));
    assert(forall|i: int| 0 <= i < 6 ==> (#[trigger] names@[i])@ == skill_table()[i].0);
    names
}

/// The descriptions of the skills, in menu order.
pub fn skill_descriptions() -> (descriptions: Vec<String>)
    ensures
        descriptions@.len() == skill_table().len(),
        forall|i: int|
            0 <= i < descriptions@.len() ==> (#[trigger] descriptions@[i])@ == skill_table()[i].1,
{
    let mut d: Vec<String> = Vec::new();
    d.push(String::from_str("Deals 150 damage to enemies."));
    d.push(String::from_str("Deals 250 damage to enemies."));
    d.push(String::from_str("Deals 300 damage to enemies."));
    d.push(String::from_str("Deals 400 damage to enemies."));
    d.push(String::from_str("Deals 500 damage to enemies."));
    d.push(String::from_str("Deals 750 damage to enemies."));
    assert(forall|i: int| 0 <= i < 6 ==> (#[trigger] d@[i])@ == skill_table()[i].1);
    d
}

/// What using skill `index` does.
pub fn skill_effect(index: usize) -> (effect: PlayerTurnResult)
    requires
        index < skill_table().len(),
    ensures
        effect == PlayerTurnResult::EnemyDamage(skill_table()[index as int].2),
{
    let damages: [i32; 6] = [150, 250, 300, 400, 500, 750];
    PlayerTurnResult::EnemyDamage(damages[index])
}

/// The entries of the item submenu: the names and descriptions of the
/// items, or `None` when the player carries none.
pub fn item_menu_entries(items: &Vec<Item>) -> (entries: Option<(Vec<String>, Vec<String>)>)
    ensures
        items@.len() == 0 <==> entries is None,
        entries matches Some((names, descriptions)) ==> {
            &&& names@.len() == items@.len()
            &&& descriptions@.len() == items@.len()
            &&& forall|i: int|
                0 <= i < items@.len() ==> (#[trigger] names@[i])@ == items@[i].name@
                    && descriptions@[i]@ == items@[i].description@
        },
{
    if items.len() == 0 {
        return None;
    }
    let mut names: Vec<String> = Vec::new();
    let mut descriptions: Vec<String> = Vec::new();
    let mut i: usize = 0;
    while i < items.len()
        invariant
            i <= items@.len(),
            names@.len() == i,
            descriptions@.len() == i,
            forall|j: int| 0 <= j < i ==> (#[trigger] names@[j])@ == items@[j].name@,
            forall|j: int| 0 <= j < i ==> (#[trigger] descriptions@[j])@ == items@[j].description@,
        decreases items@.len() - i,
    {
        let name = items[i].name.clone();
        let description = items[i].description.clone();
        names.push(name);
        descriptions.push(description);
        i = i + 1;
    }
    Some((names, descriptions))
}

/// The player uses item `index`: it is taken out of the bag and its effect
/// applies.
pub fn use_item(items: &mut Vec<Item>, index: usize) -> (used: Item)
    requires
        index < old(items)@.len(),
    ensures
        used == old(items)@[index as int],
        final(items)@ == old(items)@.remove(index as int),
{
    items.remove(index)
}

/// What choosing a command of the battle menu leads to.
#[derive(PartialEq, Eq, Structural, Clone, Copy, Debug)]
pub enum MenuOutcome {
    /// The turn ends with this result.
    Turn(PlayerTurnResult),
    /// The skill submenu opens.
    OpenSkills,
    /// The item submenu opens.
    OpenItems,
}

/// What choosing `choice` in the battle menu leads to: attacking deals the
/// attack's damage, escaping ends the turn, skills and items open their
/// submenus.
pub fn menu_outcome(choice: MenuResult) -> (outcome: MenuOutcome)
    ensures
        outcome == match choice {
            MenuResult::Attack => MenuOutcome::Turn(PlayerTurnResult::EnemyDamage(ATTACK_DAMAGE)),
            MenuResult::Skill => MenuOutcome::OpenSkills,
            MenuResult::Item => MenuOutcome::OpenItems,
            MenuResult::Escape => MenuOutcome::Turn(PlayerTurnResult::Escape),
        },
{
    match choice {
        MenuResult::Attack => MenuOutcome::Turn(PlayerTurnResult::EnemyDamage(ATTACK_DAMAGE)),
        MenuResult::Skill => MenuOutcome::OpenSkills,
        MenuResult::Item => MenuOutcome::OpenItems,
        MenuResult::Escape => MenuOutcome::Turn(PlayerTurnResult::Escape),
    }
}

/// The enemy's turn: it attacks.
pub fn enemy_turn() -> (r: EnemyTurnResult)
    ensures
        r == EnemyTurnResult::PlayerDamage(ENEMY_ATTACK_DAMAGE),
{
    EnemyTurnResult::PlayerDamage(ENEMY_ATTACK_DAMAGE)
}

/// Hit points after taking `damage`: never below zero.
pub open spec fn after_damage(hp: int, damage: int) -> int {
    if hp - damage < 0 { 0 } else { hp - damage }
}

/// Hit points after recovering `amount`: never above `max`.
pub open spec fn after_recovery(hp: int, amount: int, max: int) -> int {
    if hp + amount > max { max } else { hp + amount }
}

/// What the player's turn did.
#[derive(PartialEq, Eq, Structural, Clone, Copy, Debug)]
pub enum PlayerTurnOutcome {
    /// The enemy took `damage`; `down` tells whether it fell.
    EnemyDamaged { damage: i32, down: bool },
    /// The player recovered `amount`.
    PlayerRecovered { amount: i32 },
    /// Nothing happened.
    Nothing,
}

/// Hit points of both sides.
pub struct Battle {
    pub player_hp: i32,
    pub player_max_hp: i32,
    pub enemy_hp: i32,
    pub enemy_max_hp: i32,
}

/// `hp` lies between zero and `max`.
pub open spec fn in_range(hp: int, max: int) -> bool {
    0 <= hp <= max
}

impl Battle {
    /// Hit points of both sides are within their ranges.
    pub open spec fn wf(&self) -> bool {
        &&& in_range(self.player_hp as int, self.player_max_hp as int)
        &&& in_range(self.enemy_hp as int, self.enemy_max_hp as int)
    }

    /// The game starts: both sides at full hit points.
    pub fn new() -> (b: Self)
        ensures
            b.player_hp == PLAYER_MAX_HP,
            b.player_max_hp == PLAYER_MAX_HP,
            b.enemy_hp == ENEMY_MAX_HP,
            b.enemy_max_hp == ENEMY_MAX_HP,
            b.wf(),
    {
        Battle {
            player_hp: PLAYER_MAX_HP,
            player_max_hp: PLAYER_MAX_HP,
            enemy_hp: ENEMY_MAX_HP,
            enemy_max_hp: ENEMY_MAX_HP,
        }
    }

    /// A new enemy appears at full hit points; the player keeps theirs.
    pub fn encounter(&mut self)
        ensures
            final(self).enemy_hp == ENEMY_MAX_HP,
            final(self).enemy_max_hp == ENEMY_MAX_HP,
            final(self).player_hp == old(self).player_hp,
            final(self).player_max_hp == old(self).player_max_hp,
    {
        self.enemy_hp = ENEMY_MAX_HP;
        self.enemy_max_hp = ENEMY_MAX_HP;
    }

    /// Applies the player's turn.  Damage lowers the enemy's hit points, not
    /// below zero, and the enemy is down when they reach zero; recovery
    /// raises the player's, not above their maximum; escaping does nothing.
    pub fn apply_player_turn(&mut self, result: PlayerTurnResult) -> (outcome: PlayerTurnOutcome)
        requires
            match result {
                PlayerTurnResult::EnemyDamage(d) => i32::MIN <= old(self).enemy_hp - d <= i32::MAX,
                PlayerTurnResult::PlayerRecovery(r) => i32::MIN <= old(self).player_hp + r
                    <= i32::MAX,
                PlayerTurnResult::Escape => true,
            },
        ensures
            final(self).player_max_hp == old(self).player_max_hp,
            final(self).enemy_max_hp == old(self).enemy_max_hp,
            match result {
                PlayerTurnResult::EnemyDamage(d) => {
                    &&& final(self).enemy_hp == after_damage(old(self).enemy_hp as int, d as int)
                    &&& final(self).player_hp == old(self).player_hp
                    &&& outcome == PlayerTurnOutcome::EnemyDamaged {
                        damage: d,
                        down: final(self).enemy_hp <= 0,
                    }
                },
                PlayerTurnResult::PlayerRecovery(r) => {
                    &&& final(self).player_hp == after_recovery(
                        old(self).player_hp as int,
                        r as int,
                        old(self).player_max_hp as int,
                    )
                    &&& final(self).enemy_hp == old(self).enemy_hp
                    &&& outcome == PlayerTurnOutcome::PlayerRecovered { amount: r }
                },
                PlayerTurnResult::Escape => {
                    &&& *final(self) == *old(self)
                    &&& outcome == PlayerTurnOutcome::Nothing
                },
            },
    {
        match result {
            PlayerTurnResult::EnemyDamage(damage) => {
                let hp = self.enemy_hp - damage;
                self.enemy_hp = if hp < 0 { 0 } else { hp };
                PlayerTurnOutcome::EnemyDamaged { damage, down: self.enemy_hp <= 0 }
            },
            PlayerTurnResult::PlayerRecovery(amount) => {
                let hp = self.player_hp + amount;
                self.player_hp = if hp > self.player_max_hp { self.player_max_hp } else { hp };
                PlayerTurnOutcome::PlayerRecovered { amount }
            },
            PlayerTurnResult::Escape => PlayerTurnOutcome::Nothing,
        }
    }

    /// Applies the enemy's turn: the player's hit points drop, not below
    /// zero.  Returns whether the game is over, that is, whether they
    /// reached zero.
    pub fn apply_enemy_turn(&mut self, result: EnemyTurnResult) -> (game_over: bool)
        requires
            match result {
                EnemyTurnResult::PlayerDamage(d) => i32::MIN <= old(self).player_hp - d
                    <= i32::MAX,
            },
        ensures
            final(self).player_max_hp == old(self).player_max_hp,
            final(self).enemy_hp == old(self).enemy_hp,
            final(self).enemy_max_hp == old(self).enemy_max_hp,
            match result {
                EnemyTurnResult::PlayerDamage(d) => final(self).player_hp == after_damage(
                    old(self).player_hp as int,
                    d as int,
                ),
            },
            game_over == (final(self).player_hp <= 0),
    {
        match result {
            EnemyTurnResult::PlayerDamage(damage) => {
                let hp = self.player_hp - damage;
                self.player_hp = if hp < 0 { 0 } else { hp };
            },
        }
        self.player_hp <= 0
    }

    /// After a game over the player starts again at full hit points.
    pub fn revive(&mut self)
        ensures
            final(self).player_hp == PLAYER_MAX_HP,
            final(self).player_max_hp == old(self).player_max_hp,
            final(self).enemy_hp == old(self).enemy_hp,
            final(self).enemy_max_hp == old(self).enemy_max_hp,
    {
        self.player_hp = PLAYER_MAX_HP;
    }
}

/// Hit points stay within range under any damage or recovery that is not
/// negative; the enemy is down exactly when its hit points are zero, and
/// the game is over exactly when the player's are.
pub proof fn lemma_hp_stays_in_range(hp: int, max: int, amount: int)
    requires
        in_range(hp, max),
        amount >= 0,
    ensures
        in_range(after_damage(hp, amount), max),
        in_range(after_recovery(hp, amount, max), max),
        after_damage(hp, amount) <= 0 <==> after_damage(hp, amount) == 0,
        after_damage(hp, amount) == 0 <==> amount >= hp,
        after_recovery(hp, amount, max) == max <==> hp + amount >= max,
{
}

/// Every effect the game itself produces (the attack, each skill, each
/// item, the enemy's attack) is a non-negative amount, so hit points stay
/// within range throughout a battle.
pub proof fn lemma_game_effects_not_negative()
    ensures
        ATTACK_DAMAGE >= 0,
        ENEMY_ATTACK_DAMAGE >= 0,
        forall|i: int| 0 <= i < skill_table().len() ==> (#[trigger] skill_table()[i]).2 >= 0,
        forall|i: int|
            0 <= i < initial_items().len() ==> match (#[trigger] initial_items()[i]).2 {
                PlayerTurnResult::EnemyDamage(d) => d >= 0,
                PlayerTurnResult::PlayerRecovery(r) => r >= 0,
                PlayerTurnResult::Escape => true,
            },
{
}

/// A battle started by `new`, or by `encounter` from a well-formed state,
/// is well formed, and the player's turn and the enemy's turn keep it so
/// under non-negative amounts.
pub proof fn lemma_turns_keep_battle_well_formed(b: Battle, b2: Battle, amount: int)
    requires
        b.wf(),
        amount >= 0,
        b2.player_max_hp == b.player_max_hp,
        b2.enemy_max_hp == b.enemy_max_hp,
        b2.player_hp == after_recovery(b.player_hp as int, amount, b.player_max_hp as int)
            || b2.player_hp == after_damage(b.player_hp as int, amount) || b2.player_hp
            == b.player_hp,
        b2.enemy_hp == after_damage(b.enemy_hp as int, amount) || b2.enemy_hp == b.enemy_hp,
    ensures
        b2.wf(),
{
}

/// Where the battle loop stands, and what it waits for.
#[derive(PartialEq, Eq, Structural, Clone, Copy, Debug)]
pub enum BattlePhase {
    /// Waits for the confirm key to meet an enemy.
    AwaitEncounter,
    /// Waits for the player's turn.
    PlayerTurn,
    /// Waits for the enemy's turn.
    EnemyTurn,
    /// The player fell; waits for the confirm key to start again.
    GameOver,
}

/// What the battle loop is told.
#[derive(PartialEq, Eq, Structural, Clone, Copy, Debug)]
pub enum BattleEvent {
    /// The confirm key was pressed.
    Confirm,
    /// The player's turn ended with this result.
    PlayerActed(PlayerTurnResult),
    /// The enemy's turn ended with this result.
    EnemyActed(EnemyTurnResult),
}

/// A message the battle shows.
#[derive(PartialEq, Eq, Structural, Clone, Copy, Debug)]
pub enum BattleMessage {
    /// "Encounter the enemy!"
    Encounter,
    /// "{damage} damage to enemies!"
    DamageToEnemies(i32),
    /// "The enemy is down!"
    EnemyDown,
    /// "Recover Player {amount}!"
    RecoverPlayer(i32),
    /// "Attack of the enemy!"
    EnemyAttacks,
    /// "{damage} damage to Player!"
    DamageToPlayer(i32),
    /// "Game Over..."
    GameOver,
}

/// An animation the battle plays, waiting for it to end.
#[derive(PartialEq, Eq, Structural, Clone, Copy, Debug)]
pub enum BattleAnimation {
    /// "encounter-enemy"
    EncounterEnemy,
    /// "enemy-down"
    EnemyDown,
    /// "enemy-attack"
    EnemyAttack,
}

/// Something the battle loop does, in order, before it waits again.
#[derive(PartialEq, Eq, Structural, Clone, Copy, Debug)]
pub enum BattleAction {
    /// Shows the enemy's hit points.
    SetEnemyHpBar { hp: i32, max: i32 },
    /// Shows the player's hit points.
    SetPlayerHpBar { hp: i32, max: i32 },
    /// The player gets a fresh bag of items.
    NewItems,
    ShowMessage(BattleMessage),
    /// Damage pops up over the enemy.
    EnemyDamageEffect(i32),
    /// Damage pops up over the player.
    PlayerDamageEffect(i32),
    /// Recovery pops up over the player.
    PlayerRecoveryEffect(i32),
    PlayAnimation(BattleAnimation),
    /// Waits this many milliseconds.
    Delay(u64),
    /// Waits for the next frame.
    NextFrame,
}

/// The pause between the player's turn and the enemy's, in milliseconds.
pub const TURN_PAUSE_MS: u64 = 1200;

/// What comes before the enemy's turn: a pause, then the enemy's attack.
pub open spec fn enemy_turn_intro() -> Seq<BattleAction> {
    seq![
        BattleAction::Delay(TURN_PAUSE_MS),
        BattleAction::ShowMessage(BattleMessage::EnemyAttacks),
        BattleAction::PlayAnimation(BattleAnimation::EnemyAttack),
    ]
}

/// The amounts of `event` keep hit points within `i32` in `phase`.
pub open spec fn step_fits(b: Battle, phase: BattlePhase, event: BattleEvent) -> bool {
    match (phase, event) {
        (BattlePhase::PlayerTurn, BattleEvent::PlayerActed(PlayerTurnResult::EnemyDamage(d))) =>
            i32::MIN <= b.enemy_hp - d <= i32::MAX,
        (BattlePhase::PlayerTurn, BattleEvent::PlayerActed(PlayerTurnResult::PlayerRecovery(r))) =>
            i32::MIN <= b.player_hp + r <= i32::MAX,
        (BattlePhase::EnemyTurn, BattleEvent::EnemyActed(EnemyTurnResult::PlayerDamage(d))) =>
            i32::MIN <= b.player_hp - d <= i32::MAX,
        _ => true,
    }
}

/// The battle, phase and actions after `event` in `phase`:
/// - waiting for an encounter, confirm brings a fresh enemy and bag of items,
///   and the player's turn;
/// - the player's turn applies its result; an enemy that goes down ends the
///   battle, otherwise (escaping too) the enemy's turn follows a pause;
/// - the enemy's turn applies its damage; a player at zero ends in a game
///   over, otherwise the player's turn follows;
/// - after a game over, confirm revives the player and waits for the next
///   encounter;
/// - any other event changes nothing.
pub open spec fn battle_step_spec(b: Battle, phase: BattlePhase, event: BattleEvent) -> (
    Battle,
    BattlePhase,
    Seq<BattleAction>,
) {
    match (phase, event) {
        (BattlePhase::AwaitEncounter, BattleEvent::Confirm) => (
            Battle { enemy_hp: ENEMY_MAX_HP, enemy_max_hp: ENEMY_MAX_HP, ..b },
            BattlePhase::PlayerTurn,
            seq![
                BattleAction::SetEnemyHpBar { hp: ENEMY_MAX_HP, max: ENEMY_MAX_HP },
                BattleAction::NewItems,
                BattleAction::ShowMessage(BattleMessage::Encounter),
                BattleAction::PlayAnimation(BattleAnimation::EncounterEnemy),
            ],
        ),
        (BattlePhase::PlayerTurn, BattleEvent::PlayerActed(PlayerTurnResult::EnemyDamage(d))) => {
            let hp = after_damage(b.enemy_hp as int, d as int) as i32;
            let shown = seq![
                BattleAction::SetEnemyHpBar { hp, max: b.enemy_max_hp },
                BattleAction::ShowMessage(BattleMessage::DamageToEnemies(d)),
                BattleAction::EnemyDamageEffect(d),
            ];
            if hp <= 0 {
                (
                    Battle { enemy_hp: hp, ..b },
                    BattlePhase::AwaitEncounter,
                    shown + seq![
                        BattleAction::PlayAnimation(BattleAnimation::EnemyDown),
                        BattleAction::ShowMessage(BattleMessage::EnemyDown),
                    ],
                )
            } else {
                (Battle { enemy_hp: hp, ..b }, BattlePhase::EnemyTurn, shown + enemy_turn_intro())
            }
        },
        (BattlePhase::PlayerTurn, BattleEvent::PlayerActed(PlayerTurnResult::PlayerRecovery(r))) => {
            let hp = after_recovery(b.player_hp as int, r as int, b.player_max_hp as int) as i32;
            (
                Battle { player_hp: hp, ..b },
                BattlePhase::EnemyTurn,
                seq![
                    BattleAction::SetPlayerHpBar { hp, max: b.player_max_hp },
                    BattleAction::ShowMessage(BattleMessage::RecoverPlayer(r)),
                    BattleAction::PlayerRecoveryEffect(r),
                ] + enemy_turn_intro(),
            )
        },
        (BattlePhase::PlayerTurn, BattleEvent::PlayerActed(PlayerTurnResult::Escape)) => (
            b,
            BattlePhase::EnemyTurn,
            enemy_turn_intro(),
        ),
        (BattlePhase::EnemyTurn, BattleEvent::EnemyActed(EnemyTurnResult::PlayerDamage(d))) => {
            let hp = after_damage(b.player_hp as int, d as int) as i32;
            let shown = seq![
                BattleAction::SetPlayerHpBar { hp, max: b.player_max_hp },
                BattleAction::ShowMessage(BattleMessage::DamageToPlayer(d)),
                BattleAction::PlayerDamageEffect(d),
            ];
            if hp <= 0 {
                (
                    Battle { player_hp: hp, ..b },
                    BattlePhase::GameOver,
                    shown + seq![
                        BattleAction::NextFrame,
                        BattleAction::ShowMessage(BattleMessage::GameOver),
                    ],
                )
            } else {
                (Battle { player_hp: hp, ..b }, BattlePhase::PlayerTurn, shown)
            }
        },
        (BattlePhase::GameOver, BattleEvent::Confirm) => (
            Battle { player_hp: PLAYER_MAX_HP, ..b },
            BattlePhase::AwaitEncounter,
            seq![BattleAction::SetPlayerHpBar { hp: PLAYER_MAX_HP, max: b.player_max_hp }],
        ),
        _ => (b, phase, Seq::empty()),
    }
}

/// The battle at the start of the game: full hit points, waiting for an
/// encounter, with the player's hit points shown.
pub fn start_battle() -> (start: (Battle, BattlePhase, Vec<BattleAction>))
    ensures
        start.0 == Battle::new_spec(),
        start.1 == BattlePhase::AwaitEncounter,
        start.2@ == seq![BattleAction::SetPlayerHpBar { hp: PLAYER_MAX_HP, max: PLAYER_MAX_HP }],
{
    let b = Battle::new();
    let mut actions: Vec<BattleAction> = Vec::new();
    actions.push(BattleAction::SetPlayerHpBar { hp: b.player_hp, max: b.player_max_hp });
    (b, BattlePhase::AwaitEncounter, actions)
}

impl Battle {
    /// Both sides at full hit points.
    pub open spec fn new_spec() -> Battle {
        Battle {
            player_hp: PLAYER_MAX_HP,
            player_max_hp: PLAYER_MAX_HP,
            enemy_hp: ENEMY_MAX_HP,
            enemy_max_hp: ENEMY_MAX_HP,
        }
    }
}

fn push_all(actions: &mut Vec<BattleAction>, more: Vec<BattleAction>)
    ensures
        final(actions)@ == old(actions)@ + more@,
{
    let mut i: usize = 0;
    while i < more.len()
        invariant
            i <= more@.len(),
            actions@ == old(actions)@ + more@.subrange(0, i as int),
        decreases more@.len() - i,
    {
        actions.push(more[i]);
        i = i + 1;
        assert(more@.subrange(0, i as int) == more@.subrange(0, i - 1).push(more@[i - 1]));
    }
    assert(more@.subrange(0, more@.len() as int) =~= more@);
}

fn enemy_turn_intro_actions() -> (actions: Vec<BattleAction>)
    ensures
        actions@ == enemy_turn_intro(),
{
    let mut actions: Vec<BattleAction> = Vec::new();
    actions.push(BattleAction::Delay(TURN_PAUSE_MS));
    actions.push(BattleAction::ShowMessage(BattleMessage::EnemyAttacks));
    actions.push(BattleAction::PlayAnimation(BattleAnimation::EnemyAttack));
    actions
}

/// One step of the battle loop: in `phase`, `event` happens; the battle
/// changes, and the loop performs the returned actions in order and then
/// waits in the returned phase.
pub fn battle_step(battle: &mut Battle, phase: BattlePhase, event: BattleEvent) -> (next: (
    BattlePhase,
    Vec<BattleAction>,
))
    requires
        step_fits(*old(battle), phase, event),
    ensures
        (*final(battle), next.0, next.1@) == battle_step_spec(*old(battle), phase, event),
{
    let mut actions: Vec<BattleAction> = Vec::new();
    match (phase, event) {
        (BattlePhase::AwaitEncounter, BattleEvent::Confirm) => {
            battle.encounter();
            actions.push(BattleAction::SetEnemyHpBar { hp: battle.enemy_hp, max: battle.enemy_max_hp });
            actions.push(BattleAction::NewItems);
            actions.push(BattleAction::ShowMessage(BattleMessage::Encounter));
            actions.push(BattleAction::PlayAnimation(BattleAnimation::EncounterEnemy));
            (BattlePhase::PlayerTurn, actions)
        },
        (BattlePhase::PlayerTurn, BattleEvent::PlayerActed(result)) => {
            match battle.apply_player_turn(result) {
                PlayerTurnOutcome::EnemyDamaged { damage, down } => {
                    actions.push(
                        BattleAction::SetEnemyHpBar { hp: battle.enemy_hp, max: battle.enemy_max_hp },
                    );
                    actions.push(BattleAction::ShowMessage(BattleMessage::DamageToEnemies(damage)));
                    actions.push(BattleAction::EnemyDamageEffect(damage));
                    if down {
                        actions.push(BattleAction::PlayAnimation(BattleAnimation::EnemyDown));
                        actions.push(BattleAction::ShowMessage(BattleMessage::EnemyDown));
                        (BattlePhase::AwaitEncounter, actions)
                    } else {
                        push_all(&mut actions, enemy_turn_intro_actions());
                        (BattlePhase::EnemyTurn, actions)
                    }
                },
                PlayerTurnOutcome::PlayerRecovered { amount } => {
                    actions.push(
                        BattleAction::SetPlayerHpBar { hp: battle.player_hp, max: battle.player_max_hp },
                    );
                    actions.push(BattleAction::ShowMessage(BattleMessage::RecoverPlayer(amount)));
                    actions.push(BattleAction::PlayerRecoveryEffect(amount));
                    push_all(&mut actions, enemy_turn_intro_actions());
                    (BattlePhase::EnemyTurn, actions)
                },
                PlayerTurnOutcome::Nothing => (BattlePhase::EnemyTurn, enemy_turn_intro_actions()),
            }
        },
        (BattlePhase::EnemyTurn, BattleEvent::EnemyActed(result)) => {
            let game_over = battle.apply_enemy_turn(result);
            let EnemyTurnResult::PlayerDamage(damage) = result;
            actions.push(BattleAction::SetPlayerHpBar { hp: battle.player_hp, max: battle.player_max_hp });
            actions.push(BattleAction::ShowMessage(BattleMessage::DamageToPlayer(damage)));
            actions.push(BattleAction::PlayerDamageEffect(damage));
            if game_over {
                actions.push(BattleAction::NextFrame);
                actions.push(BattleAction::ShowMessage(BattleMessage::GameOver));
                (BattlePhase::GameOver, actions)
            } else {
                (BattlePhase::PlayerTurn, actions)
            }
        },
        (BattlePhase::GameOver, BattleEvent::Confirm) => {
            battle.revive();
            actions.push(BattleAction::SetPlayerHpBar { hp: battle.player_hp, max: battle.player_max_hp });
            (BattlePhase::AwaitEncounter, actions)
        },
        _ => (phase, actions),
    }
}

/// The turns alternate: after a player's turn that does not down the
/// enemy, escaping included, the enemy acts after a pause; after an enemy's
/// turn that leaves the player standing, the player acts again.  A battle
/// ends only when the enemy is down, or after a game over and a confirm.
/// (The player's turn only comes while the enemy stands.)
pub proof fn lemma_turn_order(b: Battle, phase: BattlePhase, event: BattleEvent)
    requires
        phase == BattlePhase::PlayerTurn ==> b.enemy_hp > 0,
    ensures
        ({
            let (nb, next, actions) = battle_step_spec(b, phase, event);
            &&& phase == BattlePhase::PlayerTurn && event is PlayerActed ==> (next
                == BattlePhase::EnemyTurn <==> nb.enemy_hp > 0)
            &&& phase == BattlePhase::PlayerTurn && event is PlayerActed && nb.enemy_hp > 0
                ==> actions.len() >= 3 && actions.subrange(
                actions.len() - 3,
                actions.len() as int,
            ) == enemy_turn_intro()
            &&& phase == BattlePhase::PlayerTurn && event is PlayerActed ==> (next
                == BattlePhase::AwaitEncounter <==> nb.enemy_hp <= 0)
            &&& phase == BattlePhase::EnemyTurn && event is EnemyActed ==> (next
                == BattlePhase::PlayerTurn <==> nb.player_hp > 0) && (next == BattlePhase::GameOver
                <==> nb.player_hp <= 0)
            &&& next == BattlePhase::AwaitEncounter && phase != BattlePhase::AwaitEncounter ==> (
            phase == BattlePhase::PlayerTurn && nb.enemy_hp <= 0) || (phase == BattlePhase::GameOver
                && nb.player_hp == PLAYER_MAX_HP)
        }),
{
    let (nb, next, actions) = battle_step_spec(b, phase, event);
    if phase == BattlePhase::PlayerTurn && event is PlayerActed && nb.enemy_hp > 0 {
        assert(actions.subrange(actions.len() - 3, actions.len() as int) =~= enemy_turn_intro());
    }
}

/// The enemy stands whenever a turn is awaited: from the start of the game
/// and through any step, the player's and the enemy's turns only come while
/// the enemy's hit points are above zero.
pub proof fn lemma_enemy_stands_during_turns(b: Battle, phase: BattlePhase, event: BattleEvent)
    requires
        phase == BattlePhase::PlayerTurn || phase == BattlePhase::EnemyTurn ==> b.enemy_hp > 0,
    ensures
        ({
            let (nb, next, actions) = battle_step_spec(b, phase, event);
            next == BattlePhase::PlayerTurn || next == BattlePhase::EnemyTurn ==> nb.enemy_hp > 0
        }),
        Battle::new_spec().enemy_hp > 0,
{
}

/// Recovery adds the amount to the player's hit points, and only the
/// maximum caps it: below the cap the full amount counts, the result never
/// drops below the hit points before, and it reaches the maximum exactly
/// when the sum does.
pub proof fn lemma_recovery_adds_up_to_max(hp: int, amount: int, max: int)
    requires
        0 <= hp <= max,
        amount >= 0,
    ensures
        hp + amount <= max ==> after_recovery(hp, amount, max) == hp + amount,
        hp + amount >= max ==> after_recovery(hp, amount, max) == max,
        hp <= after_recovery(hp, amount, max) <= max,
        after_recovery(hp, amount, max) - hp <= amount,
{
}

/// Damage takes the amount off the hit points, and only zero stops it.
pub proof fn lemma_damage_subtracts_down_to_zero(hp: int, damage: int)
    requires
        hp >= 0,
        damage >= 0,
    ensures
        damage <= hp ==> after_damage(hp, damage) == hp - damage,
        damage >= hp ==> after_damage(hp, damage) == 0,
        0 <= after_damage(hp, damage) <= hp,
{
}

/// A recovery item in the player's turn raises the player's hit points by
/// its amount, capped at their maximum, shows exactly that on the bar, and
/// leaves the enemy untouched; the enemy's turn follows.
pub proof fn lemma_recovery_step(b: Battle, r: i32)
    requires
        0 <= b.player_hp <= b.player_max_hp,
        r >= 0,
        b.player_hp + r <= i32::MAX,
    ensures
        ({
            let (nb, next, actions) = battle_step_spec(
                b,
                BattlePhase::PlayerTurn,
                BattleEvent::PlayerActed(PlayerTurnResult::PlayerRecovery(r)),
            );
            &&& b.player_hp + r <= b.player_max_hp ==> nb.player_hp == b.player_hp + r
            &&& b.player_hp + r > b.player_max_hp ==> nb.player_hp == b.player_max_hp
            &&& nb.enemy_hp == b.enemy_hp
            &&& nb.player_max_hp == b.player_max_hp
            &&& actions[0] == BattleAction::SetPlayerHpBar { hp: nb.player_hp, max: b.player_max_hp }
            &&& actions[1] == BattleAction::ShowMessage(BattleMessage::RecoverPlayer(r))
            &&& actions[2] == BattleAction::PlayerRecoveryEffect(r)
            &&& next == BattlePhase::EnemyTurn
        }),
{
}

/// A damaging turn of either side lowers the target's hit points by the
/// damage, stopping at zero, and shows exactly that on the target's bar.
pub proof fn lemma_damage_steps(b: Battle, d: i32)
    requires
        b.enemy_hp >= 0,
        b.player_hp >= 0,
        d >= 0,
    ensures
        ({
            let (nb, next, actions) = battle_step_spec(
                b,
                BattlePhase::PlayerTurn,
                BattleEvent::PlayerActed(PlayerTurnResult::EnemyDamage(d)),
            );
            &&& d <= b.enemy_hp ==> nb.enemy_hp == b.enemy_hp - d
            &&& d >= b.enemy_hp ==> nb.enemy_hp == 0
            &&& nb.player_hp == b.player_hp
            &&& actions[0] == BattleAction::SetEnemyHpBar { hp: nb.enemy_hp, max: b.enemy_max_hp }
            &&& actions[1] == BattleAction::ShowMessage(BattleMessage::DamageToEnemies(d))
            &&& actions[2] == BattleAction::EnemyDamageEffect(d)
        }),
        ({
            let (nb, next, actions) = battle_step_spec(
                b,
                BattlePhase::EnemyTurn,
                BattleEvent::EnemyActed(EnemyTurnResult::PlayerDamage(d)),
            );
            &&& d <= b.player_hp ==> nb.player_hp == b.player_hp - d
            &&& d >= b.player_hp ==> nb.player_hp == 0
            &&& nb.enemy_hp == b.enemy_hp
            &&& actions[0] == BattleAction::SetPlayerHpBar { hp: nb.player_hp, max: b.player_max_hp }
            &&& actions[1] == BattleAction::ShowMessage(BattleMessage::DamageToPlayer(d))
            &&& actions[2] == BattleAction::PlayerDamageEffect(d)
        }),
{
}

} // verus!

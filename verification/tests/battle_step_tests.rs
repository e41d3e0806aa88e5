use rpg_battle::battle::{
    battle_step, start_battle, BattleAction, BattleAnimation, BattleEvent, BattleMessage,
    BattlePhase, EnemyTurnResult, PlayerTurnResult,
};

fn intro() -> Vec<BattleAction> {
    vec![
        BattleAction::Delay(1200),
        BattleAction::ShowMessage(BattleMessage::EnemyAttacks),
        BattleAction::PlayAnimation(BattleAnimation::EnemyAttack),
    ]
}

#[test]
fn a_battle_runs_through_its_phases() {
    let (mut b, phase, actions) = start_battle();
    assert_eq!(phase, BattlePhase::AwaitEncounter);
    assert_eq!(actions, vec![BattleAction::SetPlayerHpBar { hp: 300, max: 300 }]);

    let (phase, actions) = battle_step(&mut b, phase, BattleEvent::Confirm);
    assert_eq!(phase, BattlePhase::PlayerTurn);
    assert_eq!(
        actions,
        vec![
            BattleAction::SetEnemyHpBar { hp: 1500, max: 1500 },
            BattleAction::NewItems,
            BattleAction::ShowMessage(BattleMessage::Encounter),
            BattleAction::PlayAnimation(BattleAnimation::EncounterEnemy),
        ]
    );

    let (phase, actions) =
        battle_step(&mut b, phase, BattleEvent::PlayerActed(PlayerTurnResult::EnemyDamage(1000)));
    assert_eq!(phase, BattlePhase::EnemyTurn);
    let mut expected = vec![
        BattleAction::SetEnemyHpBar { hp: 500, max: 1500 },
        BattleAction::ShowMessage(BattleMessage::DamageToEnemies(1000)),
        BattleAction::EnemyDamageEffect(1000),
    ];
    expected.extend(intro());
    assert_eq!(actions, expected);

    let (phase, actions) =
        battle_step(&mut b, phase, BattleEvent::EnemyActed(EnemyTurnResult::PlayerDamage(35)));
    assert_eq!(phase, BattlePhase::PlayerTurn);
    assert_eq!(
        actions,
        vec![
            BattleAction::SetPlayerHpBar { hp: 265, max: 300 },
            BattleAction::ShowMessage(BattleMessage::DamageToPlayer(35)),
            BattleAction::PlayerDamageEffect(35),
        ]
    );

    let (phase, actions) = battle_step(&mut b, phase, BattleEvent::PlayerActed(PlayerTurnResult::Escape));
    assert_eq!(phase, BattlePhase::EnemyTurn);
    assert_eq!(actions, intro());

    let (phase, _) =
        battle_step(&mut b, phase, BattleEvent::EnemyActed(EnemyTurnResult::PlayerDamage(35)));
    let (phase, actions) =
        battle_step(&mut b, phase, BattleEvent::PlayerActed(PlayerTurnResult::EnemyDamage(750)));
    assert_eq!(phase, BattlePhase::AwaitEncounter);
    assert_eq!(b.enemy_hp, 0);
    assert_eq!(
        actions,
        vec![
            BattleAction::SetEnemyHpBar { hp: 0, max: 1500 },
            BattleAction::ShowMessage(BattleMessage::DamageToEnemies(750)),
            BattleAction::EnemyDamageEffect(750),
            BattleAction::PlayAnimation(BattleAnimation::EnemyDown),
            BattleAction::ShowMessage(BattleMessage::EnemyDown),
        ]
    );
}

#[test]
fn game_over_then_revive() {
    let (mut b, phase, _) = start_battle();
    let (phase, _) = battle_step(&mut b, phase, BattleEvent::Confirm);
    let (phase, actions) =
        battle_step(&mut b, phase, BattleEvent::PlayerActed(PlayerTurnResult::PlayerRecovery(100)));
    assert_eq!(phase, BattlePhase::EnemyTurn);
    assert_eq!(actions[0], BattleAction::SetPlayerHpBar { hp: 300, max: 300 });
    assert_eq!(actions[2], BattleAction::PlayerRecoveryEffect(100));
    let (phase, actions) =
        battle_step(&mut b, phase, BattleEvent::EnemyActed(EnemyTurnResult::PlayerDamage(400)));
    assert_eq!(phase, BattlePhase::GameOver);
    assert_eq!(
        actions,
        vec![
            BattleAction::SetPlayerHpBar { hp: 0, max: 300 },
            BattleAction::ShowMessage(BattleMessage::DamageToPlayer(400)),
            BattleAction::PlayerDamageEffect(400),
            BattleAction::NextFrame,
            BattleAction::ShowMessage(BattleMessage::GameOver),
        ]
    );
    let (phase, actions) = battle_step(&mut b, phase, BattleEvent::Confirm);
    assert_eq!(phase, BattlePhase::AwaitEncounter);
    assert_eq!(actions, vec![BattleAction::SetPlayerHpBar { hp: 300, max: 300 }]);
    assert_eq!(b.player_hp, 300);
}

#[test]
fn events_out_of_turn_change_nothing() {
    let (mut b, phase, _) = start_battle();
    let (p, actions) =
        battle_step(&mut b, phase, BattleEvent::EnemyActed(EnemyTurnResult::PlayerDamage(35)));
    assert_eq!(p, BattlePhase::AwaitEncounter);
    assert!(actions.is_empty());
    assert_eq!(b.player_hp, 300);
}

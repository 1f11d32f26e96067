use atb_battle::battle::BattleState;
use atb_battle::characters::{
    time_mod_of_draw, update_chars_time, Character, CommandError, Commands, READY_MAX, READY_UNIT, TIME_MOD_ONE,
};
use atb_battle::game::{get_initial_parties, AppState, Game};
use atb_battle::ui::{gauge_percent, input_of_key, InputEvent, Key, StatefulList, UiState};

fn named(name: &str) -> Character {
    let mut c = Character::default();
    c.name = name.to_string();
    c
}

fn battle_of(enemies: &[&str], players: &[&str]) -> BattleState {
    BattleState {
        enemy_party: enemies.iter().map(|n| named(n)).collect(),
        player_party: players.iter().map(|n| named(n)).collect(),
    }
}

fn fresh_ui() -> UiState {
    UiState {
        from: StatefulList::with_items(vec![String::new()], "Quien?"),
        what: StatefulList::with_items(vec![String::new()], "Qué?"),
        which: StatefulList::with_items(vec![String::new()], "Cual?"),
        to: StatefulList::with_items(vec![String::new()], "A quien?"),
    }
}

fn strings(items: &[&str]) -> Vec<String> {
    items.iter().map(|s| s.to_string()).collect()
}

fn locks(ui: &UiState) -> [bool; 4] {
    [ui.from.blocked, ui.what.blocked, ui.which.blocked, ui.to.blocked]
}

fn highlights(ui: &UiState) -> [Option<usize>; 4] {
    [ui.from.selected, ui.what.selected, ui.which.selected, ui.to.selected]
}

#[test]
fn one_second_at_double_speed() {
    let mut battle = battle_of(&["Foe"], &["Hero"]);
    battle.player_party[0].time_mod = 2 * TIME_MOD_ONE;
    battle.enemy_party[0].time_mod = TIME_MOD_ONE;
    update_chars_time(&mut battle, 1_000_000);
    assert_eq!(battle.player_party[0].time, 2 * READY_UNIT);
    assert_eq!(battle.enemy_party[0].time, READY_UNIT);
}

#[test]
fn readiness_saturates_at_sixty_seconds() {
    let mut c = named("Hero");
    c.time_mod = 1500;
    c.time = 59 * READY_UNIT;
    c.update(1_000_000);
    assert_eq!(c.time, READY_MAX);
    c.update(u64::MAX);
    assert_eq!(c.time, READY_MAX);
    c.update(0);
    assert_eq!(c.time, READY_MAX);
}

#[test]
fn readiness_adds_fractional_multiplier() {
    let mut c = named("Hero");
    c.time_mod = 1250;
    c.update(200_000);
    assert_eq!(c.time, 250_000_000);
    c.update(0);
    assert_eq!(c.time, 250_000_000);
}

#[test]
fn default_combatant() {
    let c = Character::default();
    assert_eq!(c.name, "Character");
    assert_eq!((c.health, c.max_health, c.mana, c.max_mana), (100, 100, 100, 100));
    assert_eq!(c.time, 0);
    assert!(c.time_mod >= TIME_MOD_ONE && c.time_mod < 2 * TIME_MOD_ONE);
    assert_eq!(c.cmd_available, vec![Commands::Attack, Commands::Defend, Commands::Ability]);
    let counts: Vec<usize> = c.act_available.iter().map(|v| v.len()).collect();
    assert_eq!(counts, vec![1, 1, 2, 2, 1]);
    assert_eq!(c.act_available[2][1].label(), "Action");
    assert!(c.is_wf());
}

#[test]
fn unlock_twice_is_unlock_once() {
    let mut once = named("A");
    once.add_action(&Commands::Magic).unwrap();
    let mut twice = named("B");
    twice.add_action(&Commands::Magic).unwrap();
    twice.add_action(&Commands::Magic).unwrap();
    assert_eq!(once.cmd_available, twice.cmd_available);
    assert_eq!(
        twice.cmd_available,
        vec![Commands::Attack, Commands::Defend, Commands::Magic, Commands::Ability]
    );
}

#[test]
fn unlock_present_command_is_noop() {
    let mut c = named("A");
    assert_eq!(c.add_action(&Commands::Defend), Ok(()));
    assert_eq!(c.cmd_available, vec![Commands::Attack, Commands::Defend, Commands::Ability]);
}

#[test]
fn unlock_order_does_not_matter() {
    let mut a = named("A");
    a.cmd_available = vec![];
    for cmd in [Commands::Manif, Commands::Ability, Commands::Attack, Commands::Magic] {
        a.add_action(&cmd).unwrap();
    }
    let mut b = named("B");
    b.cmd_available = vec![];
    for cmd in [Commands::Attack, Commands::Magic, Commands::Manif, Commands::Ability] {
        b.add_action(&cmd).unwrap();
    }
    let expected =
        vec![Commands::Attack, Commands::Magic, Commands::Ability, Commands::Manif];
    assert_eq!(a.cmd_available, expected);
    assert_eq!(b.cmd_available, expected);
    assert!(a.is_wf());
}

#[test]
fn unlock_sentinel_is_refused() {
    let mut c = named("A");
    assert_eq!(c.add_action(&Commands::Max), Err(CommandError::InvalidCommand));
    assert_eq!(c.cmd_available, vec![Commands::Attack, Commands::Defend, Commands::Ability]);
}

#[test]
fn command_ranks_and_labels() {
    assert_eq!(Commands::Attack.rank(), 0);
    assert_eq!(Commands::Manif.rank(), 4);
    assert_eq!(Commands::of_rank(2), Commands::Magic);
    assert_eq!(Commands::Ability.label(), "Ability");
    assert_eq!(Commands::Manif.label(), "Manif");
}

#[test]
fn unsorted_commands_are_not_well_formed() {
    let mut c = named("A");
    c.cmd_available = vec![Commands::Defend, Commands::Attack];
    assert!(!c.is_wf());
    c.cmd_available = vec![Commands::Attack, Commands::Attack];
    assert!(!c.is_wf());
    c.cmd_available = vec![Commands::Attack, Commands::Max];
    assert!(!c.is_wf());
    c.cmd_available = vec![Commands::Attack, Commands::Manif];
    assert!(c.is_wf());
}

#[test]
fn grant_progression_on_single_combatant() {
    let mut battle = battle_of(&["Foe"], &["Hero"]);
    battle.grant_next_command();
    assert_eq!(
        battle.player_party[0].cmd_available,
        vec![Commands::Attack, Commands::Defend, Commands::Magic, Commands::Ability]
    );
    battle.grant_next_command();
    let full = vec![
        Commands::Attack,
        Commands::Defend,
        Commands::Magic,
        Commands::Ability,
        Commands::Manif,
    ];
    assert_eq!(battle.player_party[0].cmd_available, full);
    battle.grant_next_command();
    assert_eq!(battle.player_party[0].cmd_available, full);
    assert_eq!(
        battle.enemy_party[0].cmd_available,
        vec![Commands::Attack, Commands::Defend, Commands::Ability]
    );
}

#[test]
fn grant_goes_to_first_eligible_only() {
    let mut battle = battle_of(&["Foe"], &["A", "B"]);
    battle.player_party[0].add_action(&Commands::Magic).unwrap();
    battle.player_party[0].add_action(&Commands::Manif).unwrap();
    battle.grant_next_command();
    assert_eq!(
        battle.player_party[1].cmd_available,
        vec![Commands::Attack, Commands::Defend, Commands::Magic, Commands::Ability]
    );
    battle.grant_next_command();
    battle.grant_next_command();
    assert_eq!(battle.player_party[1].cmd_available.len(), 5);
    assert_eq!(battle.player_party[0].cmd_available.len(), 5);
}

#[test]
fn list_moves_wrap() {
    let mut l = StatefulList::with_items(strings(&["a", "b", "c"]), "T");
    l.next();
    assert_eq!(l.selected, Some(0));
    l.prev();
    assert_eq!(l.selected, Some(2));
    l.next();
    assert_eq!(l.selected, Some(0));
    l.next();
    l.next();
    assert_eq!(l.selected, Some(2));
    l.next();
    assert_eq!(l.selected, Some(0));
}

#[test]
fn list_first_prev_highlights_first() {
    let mut l = StatefulList::with_items(strings(&["a", "b"]), "T");
    l.prev();
    assert_eq!(l.selected, Some(0));
}

#[test]
fn empty_list_moves_are_noops() {
    let mut l = StatefulList::with_items(vec![], "T");
    l.next();
    assert_eq!(l.selected, None);
    l.prev();
    assert_eq!(l.selected, None);
}

#[test]
fn changed_items_clear_highlight() {
    let mut l = StatefulList::with_items(strings(&["a", "b"]), "T");
    l.next();
    l.next();
    l.change_items(strings(&["a", "b"]));
    assert_eq!(l.selected, Some(1));
    l.change_items(strings(&["a"]));
    assert_eq!(l.selected, None);
    assert_eq!(l.items, strings(&["a"]));
    l.next();
    l.change_items(strings(&["z"]));
    assert_eq!(l.selected, None);
}

#[test]
fn list_lock_and_unlock() {
    let mut l = StatefulList::with_items(strings(&["a"]), "Title");
    assert_eq!(l.title, "Title");
    l.next();
    l.select();
    assert!(l.blocked);
    assert_eq!(l.selected, Some(0));
    l.unselect();
    assert!(!l.blocked);
    assert_eq!(l.selected, None);
}

#[test]
fn populate_fills_actors_and_targets() {
    let battle = battle_of(&["E1", "E2"], &["P1", "P2", "P3"]);
    let mut ui = fresh_ui();
    ui.populate(&battle);
    assert_eq!(ui.from.items, strings(&["P1", "P2", "P3"]));
    assert_eq!(ui.to.items, strings(&["E1", "E2", "P1", "P2", "P3"]));
    assert_eq!(ui.what.items, vec![String::new()]);
    assert_eq!(highlights(&ui), [None; 4]);
}

#[test]
fn locked_actor_lists_its_commands_in_rank_order() {
    let mut battle = battle_of(&["Foe"], &["Hero"]);
    battle.player_party[0].cmd_available = vec![];
    for cmd in [Commands::Ability, Commands::Defend, Commands::Attack] {
        battle.player_party[0].add_action(&cmd).unwrap();
    }
    let mut ui = fresh_ui();
    ui.populate(&battle);
    ui.next();
    ui.select();
    assert_eq!(locks(&ui), [true, false, false, false]);
    ui.populate(&battle);
    assert_eq!(ui.what.items, strings(&["Attack", "Defend", "Ability"]));
}

#[test]
fn highlighted_but_unlocked_actor_does_not_list_commands() {
    let battle = battle_of(&["Foe"], &["Hero"]);
    let mut ui = fresh_ui();
    ui.populate(&battle);
    ui.next();
    ui.populate(&battle);
    assert_eq!(ui.what.items, vec![String::new()]);
}

#[test]
fn locked_command_lists_its_variants() {
    let mut battle = battle_of(&["Foe"], &["Hero"]);
    battle.player_party[0].act_available[3][1].name = "Second".to_string();
    let mut ui = fresh_ui();
    ui.populate(&battle);
    ui.next();
    ui.select();
    ui.populate(&battle);
    ui.prev();
    assert_eq!(ui.what.selected, Some(0));
    ui.prev();
    assert_eq!(ui.what.selected, Some(2));
    ui.select();
    ui.populate(&battle);
    assert_eq!(ui.which.items, strings(&["Action", "Second"]));
    assert_eq!(locks(&ui), [true, true, false, false]);
}

#[test]
fn confirm_without_highlight_is_noop() {
    let battle = battle_of(&["Foe"], &["Hero"]);
    let mut ui = fresh_ui();
    ui.populate(&battle);
    ui.select();
    assert_eq!(locks(&ui), [false; 4]);
}

#[test]
fn confirm_skips_nothing_when_actor_has_no_highlight() {
    let battle = battle_of(&["Foe"], &["Hero"]);
    let mut ui = fresh_ui();
    ui.populate(&battle);
    ui.what.selected = Some(0);
    ui.select();
    assert_eq!(locks(&ui), [false; 4]);
}

#[test]
fn full_cascade_resets_on_target_confirm() {
    let battle = battle_of(&["Foe"], &["Hero"]);
    let mut ui = fresh_ui();
    ui.populate(&battle);
    for _ in 0..3 {
        ui.next();
        ui.select();
        ui.populate(&battle);
    }
    assert_eq!(locks(&ui), [true, true, true, false]);
    ui.next();
    assert_eq!(ui.to.selected, Some(0));
    ui.select();
    assert_eq!(locks(&ui), [false; 4]);
    assert_eq!(highlights(&ui), [None; 4]);
}

#[test]
fn cancel_past_actor_is_impossible() {
    let battle = battle_of(&["Foe"], &["Hero"]);
    let mut ui = fresh_ui();
    ui.populate(&battle);
    ui.next();
    ui.select();
    assert_eq!(locks(&ui), [true, false, false, false]);
    ui.unselect();
    assert_eq!(locks(&ui), [false; 4]);
    ui.unselect();
    assert_eq!(locks(&ui), [false; 4]);
}

#[test]
fn cancel_unlocks_nearest_locked_stage() {
    let battle = battle_of(&["Foe"], &["Hero"]);
    let mut ui = fresh_ui();
    ui.populate(&battle);
    for _ in 0..3 {
        ui.next();
        ui.select();
        ui.populate(&battle);
    }
    ui.unselect();
    assert_eq!(locks(&ui), [true, true, false, false]);
    assert_eq!(ui.which.selected, None);
    assert_eq!(ui.what.selected, Some(0));
    ui.unselect();
    assert_eq!(locks(&ui), [true, false, false, false]);
}

#[test]
fn keys_map_to_inputs() {
    assert_eq!(input_of_key(Key::Char('q')), Some(InputEvent::Quit));
    assert_eq!(input_of_key(Key::Char('e')), Some(InputEvent::GrantNextCommand));
    assert_eq!(input_of_key(Key::Up), Some(InputEvent::MovePrev));
    assert_eq!(input_of_key(Key::Char('w')), Some(InputEvent::MovePrev));
    assert_eq!(input_of_key(Key::Down), Some(InputEvent::MoveNext));
    assert_eq!(input_of_key(Key::Char('s')), Some(InputEvent::MoveNext));
    assert_eq!(input_of_key(Key::Left), Some(InputEvent::Cancel));
    assert_eq!(input_of_key(Key::Char('a')), Some(InputEvent::Cancel));
    assert_eq!(input_of_key(Key::Right), Some(InputEvent::Confirm));
    assert_eq!(input_of_key(Key::Char('d')), Some(InputEvent::Confirm));
    assert_eq!(input_of_key(Key::Enter), Some(InputEvent::Confirm));
    assert_eq!(input_of_key(Key::Char(' ')), Some(InputEvent::Confirm));
    assert_eq!(input_of_key(Key::Char('x')), None);
    assert_eq!(input_of_key(Key::Other), None);
}

#[test]
fn handle_events_dispatches() {
    let mut battle = battle_of(&["Foe"], &["Hero"]);
    let mut app = AppState { tittle: "T", should_quit: false };
    let mut ui = fresh_ui();
    ui.populate(&battle);
    ui.handle_events(&mut app, &mut battle, Key::Down);
    assert_eq!(ui.from.selected, Some(0));
    ui.handle_events(&mut app, &mut battle, Key::Enter);
    assert!(ui.from.blocked);
    ui.handle_events(&mut app, &mut battle, Key::Char('e'));
    assert_eq!(battle.player_party[0].cmd_available.len(), 4);
    ui.handle_events(&mut app, &mut battle, Key::Left);
    assert!(!ui.from.blocked);
    ui.handle_events(&mut app, &mut battle, Key::Char('x'));
    assert!(!app.should_quit);
    ui.handle_events(&mut app, &mut battle, Key::Char('q'));
    assert!(app.should_quit);
    assert_eq!(app.tittle, "T");
}

#[test]
fn gauge_percentages() {
    assert_eq!(gauge_percent(23, 100), 23);
    assert_eq!(gauge_percent(1, 3), 33);
    assert_eq!(gauge_percent(2, 3), 67);
    assert_eq!(gauge_percent(1, 200), 1);
    assert_eq!(gauge_percent(0, 0), 0);
    assert_eq!(gauge_percent(READY_MAX, READY_MAX), 100);
    assert_eq!(gauge_percent(30 * READY_UNIT, READY_MAX), 50);
}

#[test]
fn initial_parties() {
    let (enemies, players) = get_initial_parties();
    let names: Vec<&str> = enemies.iter().map(|c| c.name.as_str()).collect();
    assert_eq!(names, vec!["Enemigo", "Enemigo2", "Enemigo3", "Enemigo4"]);
    let names: Vec<&str> = players.iter().map(|c| c.name.as_str()).collect();
    assert_eq!(names, vec!["Personaje1", "Personaje2", "Personaje3", "Personaje4"]);
    assert_eq!((enemies[0].health, enemies[0].mana), (23, 82));
    assert_eq!((players[1].health, players[1].mana), (83, 56));
    assert_eq!(players[0].stats.attack, 5);
    for c in enemies.iter().chain(players.iter()) {
        let counts: Vec<usize> = c.act_available.iter().map(|v| v.len()).collect();
        assert_eq!(counts, vec![1, 1, 2, 2, 1]);
        assert!(c.act_available.iter().flatten().all(|a| a.label() == "Action"
            && a.damage == 0 && a.duration == 0 && a.time_cost == 0 && a.mana_cost == 0));
        assert_eq!(c.time, 0);
        assert!(c.is_wf());
    }
    assert_eq!(players[2].stats.hope, 5);
}

#[test]
fn new_game_and_frame() {
    let mut game = Game::new("Asies");
    assert_eq!(game.app_state.tittle, "Asies");
    assert!(!game.app_state.should_quit);
    assert_eq!(game.ui_state.from.title, "Quien?");
    assert_eq!(game.ui_state.to.title, "A quien?");
    assert!(game.is_wf());
    let before = game.battle_state.player_party[0].time_mod as u64;
    game.advance(1000);
    assert_eq!(game.battle_state.player_party[0].time, before * 1000);
    assert_eq!(game.ui_state.from.items.len(), 4);
    assert_eq!(game.ui_state.to.items.len(), 8);
    assert!(game.is_wf());
}

#[test]
fn party_size_is_checked() {
    let battle = battle_of(&[], &["Hero"]);
    assert!(!battle.is_wf());
    let battle = battle_of(&["a", "b", "c", "d", "e"], &["Hero"]);
    assert!(!battle.is_wf());
    let battle = battle_of(&["a"], &["Hero"]);
    assert!(battle.is_wf());
}

#[test]
fn multiplier_from_draw() {
    assert_eq!(time_mod_of_draw(0), 1000);
    assert_eq!(time_mod_of_draw(999), 1999);
    assert_eq!(time_mod_of_draw(1000), 1000);
    assert_eq!(time_mod_of_draw(123_456), 1456);
    assert_eq!(time_mod_of_draw(u32::MAX), 1295);
}

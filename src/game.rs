use crate::battle::{party_wf, BattleState};
use crate::characters::{
    default_variant_count, is_default_action, party_after_frame, update_chars_time, Character,
    Commands, Stats, COMMAND_COUNT,
};
use crate::ui::{labels, populated, StatefulList, UiState};
use vstd::prelude::*;

verus! {

/// Application-level state: the window title and whether to stop.
pub struct AppState<'a> {
    pub tittle: &'a str,
    pub should_quit: bool,
}

/// `c` is a fresh combatant of the default archetype with the given name,
/// stats and current resources (maxima 100, readiness 0), holding the
/// archetype's placeholder variants.
pub open spec fn is_fresh(c: Character, name: Seq<char>, stats: Stats, health: u16, mana: u16) -> bool {
    &&& c.wf()
    &&& c.name@ == name
    &&& c.stats == stats
    &&& c.health == health && c.max_health == 100
    &&& c.mana == mana && c.max_mana == 100
    &&& c.time == 0
    &&& c.cmd_available@ == seq![Commands::Attack, Commands::Defend, Commands::Ability]
    &&& forall|r: int|
        0 <= r < COMMAND_COUNT ==> #[trigger] c.act_available@[r]@.len() == default_variant_count(r)
    &&& forall|r: int, j: int|
        0 <= r < COMMAND_COUNT && 0 <= j < c.act_available@[r]@.len() ==> is_default_action(
            #[trigger] c.act_available@[r]@[j],
        )
}

/// The opening line-up of the enemy side.
pub open spec fn initial_enemies(p: Seq<Character>) -> bool {
    let s = Stats { attack: 5, defense: 5, hope: 2 };
    &&& p.len() == 4
    &&& is_fresh(p[0], "Enemigo"@, s, 23, 82)
    &&& is_fresh(p[1], "Enemigo2"@, s, 23, 82)
    &&& is_fresh(p[2], "Enemigo3"@, s, 23, 82)
    &&& is_fresh(p[3], "Enemigo4"@, s, 23, 82)
}

/// The opening line-up of the player side.
pub open spec fn initial_players(p: Seq<Character>) -> bool {
    &&& p.len() == 4
    &&& is_fresh(p[0], "Personaje1"@, Stats { attack: 5, defense: 4, hope: 3 }, 78, 45)
    &&& is_fresh(p[1], "Personaje2"@, Stats { attack: 3, defense: 5, hope: 4 }, 83, 56)
    &&& is_fresh(p[2], "Personaje3"@, Stats { attack: 3, defense: 4, hope: 5 }, 27, 38)
    &&& is_fresh(p[3], "Personaje4"@, Stats { attack: 3, defense: 4, hope: 5 }, 27, 38)
}

fn fresh(name: &str, stats: Stats, health: u16, mana: u16) -> (c: Character)
    requires
        health <= 100,
        mana <= 100,
    ensures
        is_fresh(c, name@, stats, health, mana),
{
    let mut c = Character::default();
    c.name = name.to_string();
    c.stats = stats;
    c.health = health;
    c.mana = mana;
    c
}

/// The opening parties: the enemy side, then the player side.
pub fn get_initial_parties() -> (r: (Vec<Character>, Vec<Character>))
    ensures
        initial_enemies(r.0@),
        initial_players(r.1@),
        party_wf(r.0@),
        party_wf(r.1@),
{
    let foe = Stats { attack: 5, defense: 5, hope: 2 };
    let enemy_party = vec![
        fresh("Enemigo", foe, 23, 82),
        fresh("Enemigo2", foe, 23, 82),
        fresh("Enemigo3", foe, 23, 82),
        fresh("Enemigo4", foe, 23, 82),
    ];
    let player_party = vec![
        fresh("Personaje1", Stats { attack: 5, defense: 4, hope: 3 }, 78, 45),
        fresh("Personaje2", Stats { attack: 3, defense: 5, hope: 4 }, 83, 56),
        fresh("Personaje3", Stats { attack: 3, defense: 4, hope: 5 }, 27, 38),
        fresh("Personaje4", Stats { attack: 3, defense: 4, hope: 5 }, 27, 38),
    ];
    (enemy_party, player_party)
}

/// Everything the battle screen runs on.
pub struct Game<'a> {
    pub app_state: AppState<'a>,
    pub battle_state: BattleState,
    pub ui_state: UiState,
}

/// `l` is an open, empty-handed stage titled `title` with a single blank
/// candidate.
pub open spec fn is_blank_stage(l: StatefulList, title: Seq<char>) -> bool {
    &&& !l.blocked
    &&& l.selected is None
    &&& l.title@ == title
    &&& labels(l.items@) == seq![Seq::<char>::empty()]
}

impl<'a> Game<'a> {
    /// All of the game's state well formed.
    pub open spec fn wf(&self) -> bool {
        self.battle_state.wf() && self.ui_state.wf()
    }

    /// Checks the well-formedness conditions.
    pub fn is_wf(&self) -> (r: bool)
        ensures
            r == self.wf(),
    {
        self.battle_state.is_wf() && self.ui_state.is_wf()
    }

    /// One frame's update before drawing: every combatant's readiness
    /// advances by `delta` microseconds, then every stage's candidates are
    /// refreshed from the advanced battle.
    pub fn advance(&mut self, delta: u64)
        requires
            old(self).wf(),
        ensures
            final(self).wf(),
            final(self).app_state == old(self).app_state,
            final(self).battle_state.player_party@ == party_after_frame(
                old(self).battle_state.player_party@,
                delta,
            ),
            final(self).battle_state.enemy_party@ == party_after_frame(
                old(self).battle_state.enemy_party@,
                delta,
            ),
            populated(old(self).ui_state, final(self).ui_state, final(self).battle_state),
    {
        update_chars_time(&mut self.battle_state, delta);
        self.ui_state.populate(&self.battle_state);
    }

    /// A new battle with the opening parties and a fresh cascade.
    pub fn new(title: &'a str) -> (g: Game<'a>)
        ensures
            g.wf(),
            g.app_state.tittle == title,
            !g.app_state.should_quit,
            initial_enemies(g.battle_state.enemy_party@),
            initial_players(g.battle_state.player_party@),
            is_blank_stage(g.ui_state.from, "Quien?"@),
            is_blank_stage(g.ui_state.what, "Qué?"@),
            is_blank_stage(g.ui_state.which, "Cual?"@),
            is_blank_stage(g.ui_state.to, "A quien?"@),
    {
        let (enemy_party, player_party) = get_initial_parties();
        Game {
            app_state: AppState { tittle: title, should_quit: false },
            battle_state: BattleState { enemy_party, player_party },
            ui_state: UiState {
                from: StatefulList::with_items(blank_candidates(), "Quien?"),
                what: StatefulList::with_items(blank_candidates(), "Qué?"),
                which: StatefulList::with_items(blank_candidates(), "Cual?"),
                to: StatefulList::with_items(blank_candidates(), "A quien?"),
            },
        }
    }
}

/// A single blank candidate, shown before the first refresh.
fn blank_candidates() -> (r: Vec<String>)
    ensures
        labels(r@) == seq![Seq::<char>::empty()],
{
    let r = vec![String::new()];
    assert(labels(r@) =~= seq![Seq::<char>::empty()]);
    r
}

} // verus!

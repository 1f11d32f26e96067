use crate::battle::{party_wf, BattleState};
use vstd::prelude::*;

verus! {

/// The top-level commands, in rank order. `Max` only marks the size of the
/// enumeration and never appears in a combatant's unlocked set.
#[derive(Debug, Clone, Copy, PartialEq, Eq, Structural)]
pub enum Commands {
    Attack,
    Defend,
    Magic,
    Ability,
    Manif,
    Max,
}

/// Number of real commands (every one but the sentinel).
pub const COMMAND_COUNT: usize = 5;

/// Failure of a catalog operation.
#[derive(Debug, Clone, Copy, PartialEq, Eq, Structural)]
pub enum CommandError {
    /// The sentinel was passed where a real command is needed.
    InvalidCommand,
}

/// Position of a command in the canonical order.
pub open spec fn command_rank(c: Commands) -> nat {
    match c {
        Commands::Attack => 0,
        Commands::Defend => 1,
        Commands::Magic => 2,
        Commands::Ability => 3,
        Commands::Manif => 4,
        Commands::Max => 5,
    }
}

/// The command of a given rank (the sentinel past the last one).
pub open spec fn command_at(r: nat) -> Commands {
    if r == 0 {
        Commands::Attack
    } else if r == 1 {
        Commands::Defend
    } else if r == 2 {
        Commands::Magic
    } else if r == 3 {
        Commands::Ability
    } else if r == 4 {
        Commands::Manif
    } else {
        Commands::Max
    }
}

/// The members of `s` whose rank is at least `r`, in rank order.
pub open spec fn rank_ordered_from(s: Set<Commands>, r: nat) -> Seq<Commands>
    decreases COMMAND_COUNT - r,
{
    if r >= COMMAND_COUNT {
        Seq::empty()
    } else if s.contains(command_at(r)) {
        seq![command_at(r)] + rank_ordered_from(s, r + 1)
    } else {
        rank_ordered_from(s, r + 1)
    }
}

/// The real commands of `s`, each once, in rank order.
pub open spec fn rank_ordered(s: Set<Commands>) -> Seq<Commands> {
    rank_ordered_from(s, 0)
}

/// The canonical storage of an unlocked set: sorted by rank, no duplicates,
/// no sentinel.
pub open spec fn is_canonical(cmds: Seq<Commands>) -> bool {
    cmds == rank_ordered(cmds.to_set())
}

/// Strictly increasing rank along the sequence.
pub open spec fn sorted_by_rank(cmds: Seq<Commands>) -> bool {
    forall|i: int, j: int|
        0 <= i < j < cmds.len() ==> command_rank(#[trigger] cmds[i]) < command_rank(
            #[trigger] cmds[j],
        )
}

/// The unlocked sequence after unlocking `c`.
pub open spec fn unlocked(cmds: Seq<Commands>, c: Commands) -> Seq<Commands> {
    rank_ordered(cmds.to_set().insert(c))
}

/// The unlocked sequence after unlocking each of `calls` in turn.
pub open spec fn unlocked_all(cmds: Seq<Commands>, calls: Seq<Commands>) -> Seq<Commands>
    decreases calls.len(),
{
    if calls.len() == 0 {
        cmds
    } else {
        unlocked(unlocked_all(cmds, calls.drop_last()), calls.last())
    }
}

proof fn lemma_command_at_rank(c: Commands)
    ensures
        command_rank(c) < COMMAND_COUNT ==> command_at(command_rank(c)) == c,
        c != Commands::Max <==> command_rank(c) < COMMAND_COUNT,
{
}

proof fn lemma_rank_ordered_from_members(s: Set<Commands>, r: nat, x: Commands)
    ensures
        rank_ordered_from(s, r).contains(x) <==> (s.contains(x) && r <= command_rank(x)
            < COMMAND_COUNT),
    decreases COMMAND_COUNT - r,
{
    lemma_command_at_rank(x);
    if r < COMMAND_COUNT {
        assert(command_rank(command_at(r)) == r);
        lemma_rank_ordered_from_members(s, r + 1, x);
        let rest = rank_ordered_from(s, r + 1);
        if s.contains(command_at(r)) {
            let whole = seq![command_at(r)] + rest;
            assert(whole[0] == command_at(r));
            if rest.contains(x) {
                let i = choose|i: int| 0 <= i < rest.len() && rest[i] == x;
                assert(whole[i + 1] == x);
            }
            if whole.contains(x) {
                let i = choose|i: int| 0 <= i < whole.len() && whole[i] == x;
                if i > 0 {
                    assert(rest[i - 1] == x);
                }
            }
        }
    }
}

proof fn lemma_rank_ordered_from_sorted(s: Set<Commands>, r: nat)
    ensures
        sorted_by_rank(rank_ordered_from(s, r)),
        forall|i: int|
            0 <= i < rank_ordered_from(s, r).len() ==> r <= command_rank(
                #[trigger] rank_ordered_from(s, r)[i],
            ),
    decreases COMMAND_COUNT - r,
{
    if r < COMMAND_COUNT {
        lemma_rank_ordered_from_sorted(s, r + 1);
        let rest = rank_ordered_from(s, r + 1);
        if s.contains(command_at(r)) {
            let whole = seq![command_at(r)] + rest;
            assert forall|i: int| 0 <= i < whole.len() implies r <= command_rank(
                #[trigger] whole[i],
            ) by {
                if i > 0 {
                    assert(whole[i] == rest[i - 1]);
                }
            }
            assert forall|i: int, j: int| 0 <= i < j < whole.len() implies command_rank(
                #[trigger] whole[i],
            ) < command_rank(#[trigger] whole[j]) by {
                assert(whole[j] == rest[j - 1]);
                if i > 0 {
                    assert(whole[i] == rest[i - 1]);
                }
            }
        }
    }
}

/// Two sets that agree on the real commands have the same rank order.
proof fn lemma_rank_ordered_from_agree(a: Set<Commands>, b: Set<Commands>, r: nat)
    requires
        forall|x: Commands| x != Commands::Max ==> (a.contains(x) <==> b.contains(x)),
    ensures
        rank_ordered_from(a, r) == rank_ordered_from(b, r),
    decreases COMMAND_COUNT - r,
{
    if r < COMMAND_COUNT {
        lemma_rank_ordered_from_agree(a, b, r + 1);
    }
}

/// What the rank order holds, as a set: the real commands of `s`.
proof fn lemma_rank_ordered_set(s: Set<Commands>)
    ensures
        forall|x: Commands| #[trigger]
            rank_ordered(s).to_set().contains(x) <==> (s.contains(x) && x != Commands::Max),
{
    assert forall|x: Commands| #[trigger]
        rank_ordered(s).to_set().contains(x) <==> (s.contains(x) && x != Commands::Max) by {
        lemma_rank_ordered_from_members(s, 0, x);
        lemma_command_at_rank(x);
    }
}

/// The rank order of a set is itself canonical.
proof fn lemma_rank_ordered_canonical(s: Set<Commands>)
    ensures
        is_canonical(rank_ordered(s)),
{
    lemma_rank_ordered_set(s);
    lemma_rank_ordered_from_agree(rank_ordered(s).to_set(), s, 0);
}

/// A canonical command sequence is sorted by strictly increasing rank, so it
/// holds no duplicates, and it never holds the sentinel.
pub proof fn lemma_canonical_sorted(cmds: Seq<Commands>)
    requires
        is_canonical(cmds),
    ensures
        sorted_by_rank(cmds),
        !cmds.contains(Commands::Max),
{
    lemma_rank_ordered_from_sorted(cmds.to_set(), 0);
    lemma_rank_ordered_from_members(cmds.to_set(), 0, Commands::Max);
}

/// Unlocking a command twice leaves the same contents, in the same order, as
/// unlocking it once.
pub proof fn lemma_unlock_idempotent(cmds: Seq<Commands>, c: Commands)
    ensures
        unlocked(unlocked(cmds, c), c) == unlocked(cmds, c),
{
    let once = unlocked(cmds, c);
    lemma_rank_ordered_set(cmds.to_set().insert(c));
    lemma_rank_ordered_from_agree(once.to_set().insert(c), cmds.to_set().insert(c), 0);
}

/// After any sequence of unlock calls, in any order, the unlocked sequence is
/// sorted by rank, and it is the rank order of the commands held at the start
/// together with those unlocked.
pub proof fn lemma_unlock_sequence_sorted(cmds: Seq<Commands>, calls: Seq<Commands>)
    requires
        is_canonical(cmds),
    ensures
        unlocked_all(cmds, calls) == rank_ordered(cmds.to_set().union(calls.to_set())),
        sorted_by_rank(unlocked_all(cmds, calls)),
    decreases calls.len(),
{
    let all = cmds.to_set().union(calls.to_set());
    if calls.len() == 0 {
        assert(calls.to_set() =~= Set::empty());
        assert(all =~= cmds.to_set());
    } else {
        let init = calls.drop_last();
        lemma_unlock_sequence_sorted(cmds, init);
        let before = unlocked_all(cmds, init);
        let b_all = cmds.to_set().union(init.to_set());
        lemma_rank_ordered_set(b_all);
        assert forall|x: Commands| x != Commands::Max implies (before.to_set().insert(
            calls.last(),
        ).contains(x) <==> all.contains(x)) by {
            if calls.to_set().contains(x) && x != calls.last() {
                let i = choose|i: int| 0 <= i < calls.len() && calls[i] == x;
                assert(init[i] == x);
            }
            if init.to_set().contains(x) {
                let i = choose|i: int| 0 <= i < init.len() && init[i] == x;
                assert(calls[i] == x);
            }
            assert(calls[calls.len() - 1] == calls.last());
        }
        lemma_rank_ordered_from_agree(before.to_set().insert(calls.last()), all, 0);
    }
    lemma_rank_ordered_from_sorted(all, 0);
}


/// Readiness units in one second of battle time (readiness is kept in
/// nanoseconds).
pub const READY_UNIT: u64 = 1_000_000_000;

/// Full readiness: sixty seconds.
pub const READY_MAX: u64 = 60_000_000_000;

/// A time multiplier of exactly one (multipliers are kept in thousandths).
pub const TIME_MOD_ONE: u32 = 1000;

/// Relies on rand::random: a value drawn from the thread-local generator.
/// Nothing is promised of the value. (It panics only if the operating
/// system's generator cannot seed the thread-local one.)
pub assume_specification<T>[ rand::random::<T> ]() -> (r: T)
    where
        rand::distributions::Standard: rand::distributions::Distribution<T>,
;

/// Combat statistics.
#[derive(Debug, Clone, Copy, PartialEq, Eq, Structural)]
pub struct Stats {
    pub attack: u16,
    pub defense: u16,
    pub hope: u16,
}

impl Default for Stats {
    fn default() -> (s: Self)
        ensures
            s == (Stats { attack: 0, defense: 0, hope: 0 }),
    {
        Stats { attack: 0, defense: 0, hope: 0 }
    }
}

/// One concrete sub-action (a variant) of a command. Durations are in
/// milliseconds.
#[derive(Debug, Clone)]
pub struct Action {
    pub name: String,
    pub damage: u16,
    pub duration: u32,
    pub time_cost: u32,
    pub mana_cost: u16,
}

/// The placeholder variant every archetype starts with.
pub open spec fn is_default_action(a: Action) -> bool {
    &&& a.name@ == "Action"@
    &&& a.damage == 0
    &&& a.duration == 0
    &&& a.time_cost == 0
    &&& a.mana_cost == 0
}

impl Default for Action {
    fn default() -> (a: Self)
        ensures
            is_default_action(a),
    {
        Action {
            name: "Action".to_string(),
            damage: 0,
            duration: 0,
            time_cost: 0,
            mana_cost: 0,
        }
    }
}

impl Action {
    /// The label under which the variant is listed.
    pub fn label(&self) -> (r: String)
        ensures
            r@ == self.name@,
    {
        self.name.clone()
    }
}

/// Readiness after `delta` microseconds at multiplier `time_mod` (in
/// thousandths): the sum, clamped to `[0, READY_MAX]`.
pub open spec fn advanced(time: int, delta: int, time_mod: int) -> int {
    let t = time + delta * time_mod;
    if t > READY_MAX {
        READY_MAX as int
    } else if t < 0 {
        0
    } else {
        t
    }
}

/// Readiness after each delta of `deltas` in turn.
pub open spec fn advanced_all(time: int, deltas: Seq<u64>, time_mod: int) -> int
    decreases deltas.len(),
{
    if deltas.len() == 0 {
        time
    } else {
        advanced(advanced_all(time, deltas.drop_last(), time_mod), deltas.last() as int, time_mod)
    }
}

/// However many frames pass, readiness stays within `[0, READY_MAX]`.
pub proof fn lemma_readiness_bounded(time: int, deltas: Seq<u64>, time_mod: u32)
    requires
        0 <= time <= READY_MAX,
    ensures
        0 <= advanced_all(time, deltas, time_mod as int) <= READY_MAX,
    decreases deltas.len(),
{
    if deltas.len() > 0 {
        lemma_readiness_bounded(time, deltas.drop_last(), time_mod);
    }
}

/// A combatant. Readiness `time` is in nanoseconds, `time_mod` in
/// thousandths; `act_available` holds one variant list per command, by rank.
#[derive(Debug, Clone)]
pub struct Character {
    pub name: String,
    pub stats: Stats,
    pub health: u16,
    pub max_health: u16,
    pub mana: u16,
    pub max_mana: u16,
    pub time: u64,
    pub time_mod: u32,
    pub cmd_available: Vec<Commands>,
    pub act_available: Vec<Vec<Action>>,
}

/// The time multiplier a random draw gives: one plus an offset below one,
/// in thousandths.
pub fn time_mod_of_draw(draw: u32) -> (m: u32)
    ensures
        m == TIME_MOD_ONE + draw % TIME_MOD_ONE,
        TIME_MOD_ONE <= m < 2 * TIME_MOD_ONE,
{
    TIME_MOD_ONE + draw % TIME_MOD_ONE
}

/// Variant counts of the default archetype, by command rank.
pub open spec fn default_variant_count(r: int) -> nat {
    if r == 2 || r == 3 {
        2
    } else {
        1
    }
}

impl Default for Character {
    /// A full-health combatant of the default archetype with a random time
    /// multiplier in `[1.0, 2.0)`, unlocked for Attack, Defend and Ability.
    fn default() -> (c: Self)
        ensures
            c.wf(),
            c.name@ == "Character"@,
            c.stats == (Stats { attack: 0, defense: 0, hope: 0 }),
            c.health == 100 && c.max_health == 100,
            c.mana == 100 && c.max_mana == 100,
            c.time == 0,
            TIME_MOD_ONE <= c.time_mod < 2 * TIME_MOD_ONE,
            c.cmd_available@ == seq![Commands::Attack, Commands::Defend, Commands::Ability],
            forall|r: int|
                0 <= r < COMMAND_COUNT ==> #[trigger] c.act_available@[r]@.len()
                    == default_variant_count(r),
            forall|r: int, j: int|
                0 <= r < COMMAND_COUNT && 0 <= j < c.act_available@[r]@.len()
                    ==> is_default_action(#[trigger] c.act_available@[r]@[j]),
    {
        let time_mod = time_mod_of_draw(rand::random::<u32>());
        let mut chara = Character {
            name: "Character".to_string(),
            stats: Stats::default(),
            health: 100,
            max_health: 100,
            mana: 100,
            max_mana: 100,
            time: 0,
            time_mod,
            cmd_available: vec![Commands::Attack, Commands::Defend, Commands::Ability],
            act_available: vec![
                vec![Action::default()],
                vec![Action::default()],
                vec![Action::default(), Action::default()],
                vec![Action::default(), Action::default()],
                vec![Action::default()],
            ],
        };
        chara.health = chara.max_health;
        chara.mana = chara.max_mana;
        proof {
            let cmds = chara.cmd_available@;
            let s = cmds.to_set();
            assert(cmds[0] == Commands::Attack && cmds[1] == Commands::Defend && cmds[2] == Commands::Ability);
            assert(s.contains(Commands::Attack) && s.contains(Commands::Defend) && s.contains(Commands::Ability));
            assert(!s.contains(Commands::Magic) && !s.contains(Commands::Manif));
            assert(rank_ordered_from(s, 5) =~= Seq::<Commands>::empty());
            assert(rank_ordered_from(s, 4) =~= Seq::<Commands>::empty());
            assert(rank_ordered_from(s, 3) =~= seq![Commands::Ability]);
            assert(rank_ordered_from(s, 2) =~= seq![Commands::Ability]);
            assert(rank_ordered_from(s, 1) =~= seq![Commands::Defend, Commands::Ability]);
            assert(rank_ordered(s) =~= cmds);
        }
        chara
    }
}

impl Character {
    /// Resources within their maxima, readiness within bounds, the unlocked
    /// set canonical, and a variant list for every command.
    pub open spec fn wf(&self) -> bool {
        &&& self.health <= self.max_health
        &&& self.mana <= self.max_mana
        &&& self.time <= READY_MAX
        &&& is_canonical(self.cmd_available@)
        &&& self.act_available@.len() == COMMAND_COUNT
    }

    /// Checks the well-formedness conditions.
    pub fn is_wf(&self) -> (r: bool)
        ensures
            r == self.wf(),
    {
        self.health <= self.max_health && self.mana <= self.max_mana && self.time <= READY_MAX
            && is_canonical_vec(&self.cmd_available) && self.act_available.len() == COMMAND_COUNT
    }

    /// Advances the readiness clock by `delta` microseconds.
    pub fn update(&mut self, delta: u64)
        requires
            old(self).wf(),
        ensures
            final(self).wf(),
            final(self).time == advanced(old(self).time as int, delta as int, old(self).time_mod as int),
            *final(self) == (Character { time: final(self).time, ..*old(self) }),
    {
        proof {
            let (d, m) = (delta as int, self.time_mod as int);
            assert(d * m <= 0xffff_ffff_ffff_ffff * 0xffff_ffff) by (nonlinear_arith)
                requires
                    0 <= d <= 0xffff_ffff_ffff_ffff,
                    0 <= m <= 0xffff_ffff,
            ;
        }
        let gain: u128 = (delta as u128) * (self.time_mod as u128);
        let time: u128 = self.time as u128 + gain;
        if time > READY_MAX as u128 {
            self.time = READY_MAX;
        } else {
            self.time = time as u64;
        }
    }

    /// Unlocks a command: nothing changes if it is already there; otherwise
    /// the unlocked set gains it and stays in rank order. The sentinel is
    /// refused.
    pub fn add_action(&mut self, act: &Commands) -> (r: Result<(), CommandError>)
        requires
            old(self).wf(),
        ensures
            final(self).wf(),
            *act == Commands::Max ==> r == Err::<(), CommandError>(CommandError::InvalidCommand)
                && *final(self) == *old(self),
            *act != Commands::Max ==> r == Ok::<(), CommandError>(())
                && final(self).cmd_available@ == unlocked(old(self).cmd_available@, *act),
            *final(self) == (Character { cmd_available: final(self).cmd_available, ..*old(self) }),
    {
        if *act == Commands::Max {
            return Err(CommandError::InvalidCommand);
        }
        if has_command(&self.cmd_available, *act) {
            proof {
                assert(self.cmd_available@.to_set().insert(*act) =~= self.cmd_available@.to_set());
            }
            return Ok(());
        }
        let cmds = rank_ordered_with(&self.cmd_available, *act);
        proof {
            lemma_rank_ordered_canonical(self.cmd_available@.to_set().insert(*act));
        }
        self.cmd_available = cmds;
        Ok(())
    }
}

impl Commands {
    /// The command of rank `r`.
    pub fn of_rank(r: usize) -> (c: Commands)
        requires
            r < COMMAND_COUNT,
        ensures
            c == command_at(r as nat),
            command_rank(c) == r,
    {
        if r == 0 {
            Commands::Attack
        } else if r == 1 {
            Commands::Defend
        } else if r == 2 {
            Commands::Magic
        } else if r == 3 {
            Commands::Ability
        } else {
            Commands::Manif
        }
    }

    /// The rank of the command.
    pub fn rank(&self) -> (r: usize)
        ensures
            r == command_rank(*self),
    {
        match self {
            Commands::Attack => 0,
            Commands::Defend => 1,
            Commands::Magic => 2,
            Commands::Ability => 3,
            Commands::Manif => 4,
            Commands::Max => 5,
        }
    }

    /// The label under which the command is listed: its name.
    pub fn label(&self) -> (r: String)
        ensures
            r@ == command_name(*self),
    {
        match self {
            Commands::Attack => "Attack".to_string(),
            Commands::Defend => "Defend".to_string(),
            Commands::Magic => "Magic".to_string(),
            Commands::Ability => "Ability".to_string(),
            Commands::Manif => "Manif".to_string(),
            Commands::Max => "Max".to_string(),
        }
    }
}

/// The name a command is listed under.
pub open spec fn command_name(c: Commands) -> Seq<char> {
    match c {
        Commands::Attack => "Attack"@,
        Commands::Defend => "Defend"@,
        Commands::Magic => "Magic"@,
        Commands::Ability => "Ability"@,
        Commands::Manif => "Manif"@,
        Commands::Max => "Max"@,
    }
}

/// The commands of `cmds` together with `extra`, each once, in rank order.
fn rank_ordered_with(cmds: &Vec<Commands>, extra: Commands) -> (r: Vec<Commands>)
    ensures
        r@ == rank_ordered(cmds@.to_set().insert(extra)),
{
    let ghost all = cmds@.to_set().insert(extra);
    let mut r: Vec<Commands> = Vec::new();
    let mut k: usize = 0;
    while k < COMMAND_COUNT
        invariant
            k <= COMMAND_COUNT,
            all == cmds@.to_set().insert(extra),
            r@ + rank_ordered_from(all, k as nat) == rank_ordered(all),
        decreases COMMAND_COUNT - k,
    {
        let c = Commands::of_rank(k);
        if c == extra || has_command(cmds, c) {
            assert(r@.push(c) + rank_ordered_from(all, (k + 1) as nat) =~= r@ + rank_ordered_from(all, k as nat));
            r.push(c);
        }
        k += 1;
    }
    assert(r@ =~= r@ + rank_ordered_from(all, k as nat));
    r
}

/// Whether `cmds` is in canonical form.
fn is_canonical_vec(cmds: &Vec<Commands>) -> (r: bool)
    ensures
        r == is_canonical(cmds@),
{
    let ordered = rank_ordered_with(cmds, Commands::Max);
    proof {
        lemma_rank_ordered_from_agree(cmds@.to_set().insert(Commands::Max), cmds@.to_set(), 0);
    }
    if ordered.len() != cmds.len() {
        return false;
    }
    let mut i: usize = 0;
    while i < cmds.len()
        invariant
            ordered@.len() == cmds@.len(),
            ordered@ == rank_ordered(cmds@.to_set()),
            i <= cmds@.len(),
            forall|j: int| 0 <= j < i ==> ordered@[j] == cmds@[j],
        decreases cmds@.len() - i,
    {
        if ordered[i] != cmds[i] {
            return false;
        }
        i += 1;
    }
    assert(ordered@ =~= cmds@);
    true
}

/// Whether `c` is in `cmds`.
pub fn has_command(cmds: &Vec<Commands>, c: Commands) -> (r: bool)
    ensures
        r == cmds@.contains(c),
{
    let mut i: usize = 0;
    while i < cmds.len()
        invariant
            i <= cmds@.len(),
            forall|j: int| 0 <= j < i ==> cmds@[j] != c,
        decreases cmds@.len() - i,
    {
        if cmds[i] == c {
            return true;
        }
        i += 1;
    }
    false
}

/// `c` after one frame of `delta` microseconds.
pub open spec fn after_frame(c: Character, delta: u64) -> Character {
    Character { time: advanced(c.time as int, delta as int, c.time_mod as int) as u64, ..c }
}

/// `party` after one frame of `delta` microseconds.
pub open spec fn party_after_frame(party: Seq<Character>, delta: u64) -> Seq<Character> {
    party.map_values(|c: Character| after_frame(c, delta))
}

fn update_party(party: &mut Vec<Character>, delta: u64)
    requires
        party_wf(old(party)@),
    ensures
        party_wf(final(party)@),
        final(party)@ == party_after_frame(old(party)@, delta),
{
    let ghost start = party@;
    let mut i: usize = 0;
    while i < party.len()
        invariant
            i <= party@.len() == start.len(),
            party_wf(party@),
            forall|j: int| 0 <= j < i ==> party@[j] == after_frame(start[j], delta),
            forall|j: int| i <= j < party@.len() ==> party@[j] == start[j],
        decreases party@.len() - i,
    {
        party[i].update(delta);
        i += 1;
    }
    assert(party@ =~= party_after_frame(start, delta));
}

/// Advances the readiness clock of every combatant of both parties by
/// `delta` microseconds.
pub fn update_chars_time(state: &mut BattleState, delta: u64)
    requires
        old(state).wf(),
    ensures
        final(state).wf(),
        final(state).player_party@ == party_after_frame(old(state).player_party@, delta),
        final(state).enemy_party@ == party_after_frame(old(state).enemy_party@, delta),
{
    update_party(&mut state.player_party, delta);
    update_party(&mut state.enemy_party, delta);
}

} // verus!

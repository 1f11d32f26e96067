use crate::battle::{grant_result, BattleState};
use crate::game::AppState;
use crate::characters::{
    command_name, command_rank, is_canonical, lemma_canonical_sorted, Action, Character, Commands,
};
use vstd::prelude::*;

verus! {

/// The views of a list of strings.
pub open spec fn labels(items: Seq<String>) -> Seq<Seq<char>> {
    items.map_values(|s: String| s@)
}

/// The names of a party, in order.
pub open spec fn party_names(party: Seq<Character>) -> Seq<Seq<char>> {
    party.map_values(|c: Character| c.name@)
}

/// The names of a sequence of commands, in order.
pub open spec fn command_labels(cmds: Seq<Commands>) -> Seq<Seq<char>> {
    cmds.map_values(|c: Commands| command_name(c))
}

/// The names of a sequence of variants, in order.
pub open spec fn action_labels(acts: Seq<Action>) -> Seq<Seq<char>> {
    acts.map_values(|a: Action| a.name@)
}

/// One stage of the selection cascade: its candidates, the highlighted one
/// if any, and whether the highlighted choice is locked in.
pub struct StatefulList {
    pub blocked: bool,
    pub title: String,
    pub selected: Option<usize>,
    pub items: Vec<String>,
}

/// The highlight after moving down a list of `len` candidates: wraps from
/// the last to the first; no move on an empty list.
pub open spec fn next_selection(sel: Option<usize>, len: nat) -> Option<usize> {
    if len == 0 {
        sel
    } else {
        match sel {
            Some(i) => if i + 1 >= len {
                Some(0usize)
            } else {
                Some((i + 1) as usize)
            },
            None => Some(0usize),
        }
    }
}

/// The highlight after moving up a list of `len` candidates: wraps from
/// the first to the last; no move on an empty list.
pub open spec fn prev_selection(sel: Option<usize>, len: nat) -> Option<usize> {
    if len == 0 {
        sel
    } else {
        match sel {
            Some(i) => if i == 0 {
                Some((len - 1) as usize)
            } else {
                Some((i - 1) as usize)
            },
            None => Some(0usize),
        }
    }
}

/// `l` with its highlight moved down.
pub open spec fn moved_next(l: StatefulList) -> StatefulList {
    StatefulList { selected: next_selection(l.selected, l.items@.len()), ..l }
}

/// `l` with its highlight moved up.
pub open spec fn moved_prev(l: StatefulList) -> StatefulList {
    StatefulList { selected: prev_selection(l.selected, l.items@.len()), ..l }
}

/// `l` with its highlighted choice locked in.
pub open spec fn locked(l: StatefulList) -> StatefulList {
    StatefulList { blocked: true, ..l }
}

/// `l` open for navigation again, with nothing highlighted.
pub open spec fn released(l: StatefulList) -> StatefulList {
    StatefulList { blocked: false, selected: None, ..l }
}

/// `after` shows the candidates `shown`, with `before`'s lock and title; the
/// highlight survives only where the candidates are the same as before.
pub open spec fn refreshed(before: StatefulList, after: StatefulList, shown: Seq<Seq<char>>) -> bool {
    &&& after.blocked == before.blocked
    &&& after.title == before.title
    &&& labels(after.items@) == shown
    &&& after.selected == if labels(before.items@) == shown {
        before.selected
    } else {
        None
    }
}

impl StatefulList {
    /// A highlight, if any, points at a candidate.
    pub open spec fn wf(&self) -> bool {
        match self.selected {
            Some(i) => i < self.items@.len(),
            None => true,
        }
    }

    /// Checks the well-formedness condition.
    pub fn is_wf(&self) -> (r: bool)
        ensures
            r == self.wf(),
    {
        match self.selected {
            Some(i) => i < self.items.len(),
            None => true,
        }
    }

    /// An open list of the given candidates with nothing highlighted.
    pub fn with_items(items: Vec<String>, title: &str) -> (l: StatefulList)
        ensures
            l.wf(),
            !l.blocked,
            l.title@ == title@,
            l.selected == None::<usize>,
            l.items@ == items@,
    {
        StatefulList { blocked: false, title: title.to_string(), selected: None, items }
    }

    /// Moves the highlight down, wrapping to the first candidate.
    pub fn next(&mut self)
        requires
            old(self).wf(),
        ensures
            final(self).wf(),
            *final(self) == moved_next(*old(self)),
    {
        let len = self.items.len();
        if len == 0 {
            return;
        }
        let i: usize = match self.selected {
            Some(i) => if i >= len - 1 {
                0
            } else {
                i + 1
            },
            None => 0,
        };
        self.selected = Some(i);
    }

    /// Moves the highlight up, wrapping to the last candidate.
    pub fn prev(&mut self)
        requires
            old(self).wf(),
        ensures
            final(self).wf(),
            *final(self) == moved_prev(*old(self)),
    {
        let len = self.items.len();
        if len == 0 {
            return;
        }
        let i: usize = match self.selected {
            Some(i) => if i == 0 {
                len - 1
            } else {
                i - 1
            },
            None => 0,
        };
        self.selected = Some(i);
    }

    /// Locks in the highlighted choice.
    pub fn select(&mut self)
        requires
            old(self).wf(),
        ensures
            final(self).wf(),
            *final(self) == locked(*old(self)),
    {
        self.blocked = true;
    }

    /// Opens the list for navigation again and clears the highlight.
    pub fn unselect(&mut self)
        ensures
            final(self).wf(),
            *final(self) == released(*old(self)),
    {
        self.blocked = false;
        self.selected = None;
    }

    /// Replaces the candidates; a highlight is kept only if they are the same
    /// as before, so it never points at a stale candidate.
    pub fn change_items(&mut self, items: Vec<String>)
        requires
            old(self).wf(),
        ensures
            final(self).wf(),
            refreshed(*old(self), *final(self), labels(items@)),
            final(self).items@ == items@,
    {
        if !same_labels(&self.items, &items) {
            self.selected = None;
        }
        assert(labels(self.items@).len() == self.items@.len());
        assert(labels(items@).len() == items@.len());
        self.items = items;
    }
}

/// Whether two lists of strings hold the same strings in the same order.
fn same_labels(a: &Vec<String>, b: &Vec<String>) -> (r: bool)
    ensures
        r == (labels(a@) == labels(b@)),
{
    if a.len() != b.len() {
        return false;
    }
    let mut i: usize = 0;
    while i < a.len()
        invariant
            a@.len() == b@.len(),
            i <= a@.len(),
            forall|j: int| 0 <= j < i ==> a@[j]@ == b@[j]@,
        decreases a@.len() - i,
    {
        if a[i] != b[i] {
            assert(labels(a@)[i as int] != labels(b@)[i as int]);
            return false;
        }
        i += 1;
    }
    assert(labels(a@) =~= labels(b@));
    true
}

/// The four stages of the cascade: who acts (`from`), with which command
/// (`what`), which variant of it (`which`), and against whom (`to`).
pub struct UiState {
    pub from: StatefulList,
    pub what: StatefulList,
    pub which: StatefulList,
    pub to: StatefulList,
}

/// The stage of rank `k` (0 for `from` up to 3 for `to`).
pub open spec fn stage(u: UiState, k: int) -> StatefulList {
    if k == 0 {
        u.from
    } else if k == 1 {
        u.what
    } else if k == 2 {
        u.which
    } else {
        u.to
    }
}

/// `u` with the stage of rank `k` replaced by `l`.
pub open spec fn with_stage(u: UiState, k: int, l: StatefulList) -> UiState {
    if k == 0 {
        UiState { from: l, ..u }
    } else if k == 1 {
        UiState { what: l, ..u }
    } else if k == 2 {
        UiState { which: l, ..u }
    } else {
        UiState { to: l, ..u }
    }
}

/// The first stage open for navigation, or 4 when all are locked.
pub open spec fn active_stage(u: UiState) -> int {
    if !u.from.blocked {
        0
    } else if !u.what.blocked {
        1
    } else if !u.which.blocked {
        2
    } else if !u.to.blocked {
        3
    } else {
        4
    }
}

/// The nearest locked stage scanning back from `to`, or -1 when none is.
pub open spec fn cancel_stage(u: UiState) -> int {
    if u.to.blocked {
        3
    } else if u.which.blocked {
        2
    } else if u.what.blocked {
        1
    } else if u.from.blocked {
        0
    } else {
        -1
    }
}

/// `u` after moving the highlight of the active stage down.
pub open spec fn ui_moved_next(u: UiState) -> UiState {
    let a = active_stage(u);
    if a < 4 {
        with_stage(u, a, moved_next(stage(u, a)))
    } else {
        u
    }
}

/// `u` after moving the highlight of the active stage up.
pub open spec fn ui_moved_prev(u: UiState) -> UiState {
    let a = active_stage(u);
    if a < 4 {
        with_stage(u, a, moved_prev(stage(u, a)))
    } else {
        u
    }
}

/// `u` with every stage open and nothing highlighted.
pub open spec fn all_released(u: UiState) -> UiState {
    UiState {
        from: released(u.from),
        what: released(u.what),
        which: released(u.which),
        to: released(u.to),
    }
}

/// `u` after a confirm: the active stage locks its highlighted choice;
/// confirming the target resets the whole cascade; nothing happens without a
/// highlight.
pub open spec fn ui_confirmed(u: UiState) -> UiState {
    let a = active_stage(u);
    if a >= 4 || stage(u, a).selected is None {
        u
    } else if a == 3 {
        all_released(u)
    } else {
        with_stage(u, a, locked(stage(u, a)))
    }
}

/// `u` after a cancel: the nearest locked stage behind the active one opens
/// again with nothing highlighted.
pub open spec fn ui_cancelled(u: UiState) -> UiState {
    let c = cancel_stage(u);
    if c >= 0 {
        with_stage(u, c, released(stage(u, c)))
    } else {
        u
    }
}

/// The cascade after one input; quitting and granting leave it as it is.
pub open spec fn ui_step(u: UiState, e: InputEvent) -> UiState {
    match e {
        InputEvent::MovePrev => ui_moved_prev(u),
        InputEvent::MoveNext => ui_moved_next(u),
        InputEvent::Cancel => ui_cancelled(u),
        InputEvent::Confirm => ui_confirmed(u),
        _ => u,
    }
}

/// The cascade after each input of `events` in turn.
pub open spec fn ui_run(u: UiState, events: Seq<InputEvent>) -> UiState
    decreases events.len(),
{
    if events.len() == 0 {
        u
    } else {
        ui_step(ui_run(u, events.drop_last()), events.last())
    }
}

/// The candidate lists of `after` are those of battle `b`: the player party
/// as actors; the chosen actor's commands once the actor is locked; the
/// chosen command's variants once the command is locked too; enemies then
/// players as targets. Locks and titles do not change.
pub open spec fn populated(before: UiState, after: UiState, b: BattleState) -> bool {
    let player = b.player_party@;
    &&& refreshed(before.from, after.from, party_names(player))
    &&& refreshed(before.to, after.to, party_names(b.enemy_party@) + party_names(player))
    &&& if after.from.blocked && after.from.selected is Some {
        let c = player[after.from.selected->Some_0 as int];
        &&& refreshed(before.what, after.what, command_labels(c.cmd_available@))
        &&& if after.what.blocked && after.what.selected is Some {
            let cmd = c.cmd_available@[after.what.selected->Some_0 as int];
            refreshed(
                before.which,
                after.which,
                action_labels(c.act_available@[command_rank(cmd) as int]@),
            )
        } else {
            after.which == before.which
        }
    } else {
        after.what == before.what && after.which == before.which
    }
}

/// The logical inputs.
#[derive(Debug, Clone, Copy, PartialEq, Eq, Structural)]
pub enum InputEvent {
    Quit,
    GrantNextCommand,
    MovePrev,
    MoveNext,
    Cancel,
    Confirm,
}

/// The keys the battle screen tells apart.
#[derive(Debug, Clone, Copy, PartialEq, Eq, Structural)]
pub enum Key {
    Char(char),
    Up,
    Down,
    Left,
    Right,
    Enter,
    Other,
}

/// The input a key stands for, if any.
pub open spec fn key_event(key: Key) -> Option<InputEvent> {
    match key {
        Key::Char('q') => Some(InputEvent::Quit),
        Key::Char('e') => Some(InputEvent::GrantNextCommand),
        Key::Up | Key::Char('w') => Some(InputEvent::MovePrev),
        Key::Down | Key::Char('s') => Some(InputEvent::MoveNext),
        Key::Left | Key::Char('a') => Some(InputEvent::Cancel),
        Key::Right | Key::Char('d') | Key::Enter | Key::Char(' ') => Some(InputEvent::Confirm),
        _ => None,
    }
}

/// The input a key stands for, if any.
pub fn input_of_key(key: Key) -> (e: Option<InputEvent>)
    ensures
        e == key_event(key),
{
    match key {
        Key::Char('q') => Some(InputEvent::Quit),
        Key::Char('e') => Some(InputEvent::GrantNextCommand),
        Key::Up | Key::Char('w') => Some(InputEvent::MovePrev),
        Key::Down | Key::Char('s') => Some(InputEvent::MoveNext),
        Key::Left | Key::Char('a') => Some(InputEvent::Cancel),
        Key::Right | Key::Char('d') | Key::Enter | Key::Char(' ') => Some(InputEvent::Confirm),
        _ => None,
    }
}

impl UiState {
    /// Stages lock from `from` outward: a stage is locked only if every
    /// stage before it is.
    pub open spec fn cascade_ok(&self) -> bool {
        &&& self.what.blocked ==> self.from.blocked
        &&& self.which.blocked ==> self.what.blocked
        &&& self.to.blocked ==> self.which.blocked
    }

    /// Every highlight in range, and the locks a prefix.
    pub open spec fn wf(&self) -> bool {
        &&& self.from.wf()
        &&& self.what.wf()
        &&& self.which.wf()
        &&& self.to.wf()
        &&& self.cascade_ok()
    }

    /// Checks the well-formedness conditions.
    pub fn is_wf(&self) -> (r: bool)
        ensures
            r == self.wf(),
    {
        self.from.is_wf() && self.what.is_wf() && self.which.is_wf() && self.to.is_wf()
            && (!self.what.blocked || self.from.blocked) && (!self.which.blocked
            || self.what.blocked) && (!self.to.blocked || self.which.blocked)
    }

    /// Applies one key: quit, grant the next command to the player party,
    /// move, cancel or confirm; any other key does nothing.
    pub fn handle_events(
        &mut self,
        app_state: &mut AppState,
        battle_state: &mut BattleState,
        event: Key,
    )
        requires
            old(self).wf(),
            old(battle_state).wf(),
        ensures
            final(self).wf(),
            final(battle_state).wf(),
            key_event(event) == Some(InputEvent::Quit) ==> final(app_state).should_quit,
            final(app_state).tittle == old(app_state).tittle,
            key_event(event) != Some(InputEvent::Quit) ==> *final(app_state) == *old(app_state),
            key_event(event) == Some(InputEvent::GrantNextCommand) ==> grant_result(
                *old(battle_state),
                *final(battle_state),
            ),
            key_event(event) != Some(InputEvent::GrantNextCommand) ==> *final(battle_state)
                == *old(battle_state),
            *final(self) == match key_event(event) {
                Some(e) => ui_step(*old(self), e),
                None => *old(self),
            },
    {
        match input_of_key(event) {
            Some(InputEvent::Quit) => {
                app_state.should_quit = true;
            },
            Some(InputEvent::GrantNextCommand) => {
                battle_state.grant_next_command();
            },
            Some(InputEvent::MovePrev) => {
                self.prev();
            },
            Some(InputEvent::MoveNext) => {
                self.next();
            },
            Some(InputEvent::Cancel) => {
                self.unselect();
            },
            Some(InputEvent::Confirm) => {
                self.select();
            },
            None => {},
        }
    }

    /// Refreshes every stage's candidates from the battle.
    pub fn populate(&mut self, b_state: &BattleState)
        requires
            old(self).wf(),
            b_state.wf(),
        ensures
            final(self).wf(),
            populated(*old(self), *final(self), *b_state),
    {
        let player_party = &b_state.player_party;
        let enemy_party = &b_state.enemy_party;
        self.from.change_items(party_labels(player_party));
        if self.from.blocked {
            if let Some(i) = self.from.selected {
                assert(labels(self.from.items@).len() == self.from.items@.len());
                let chara = &player_party[i];
                self.what.change_items(command_labels_of(&chara.cmd_available));
                if self.what.blocked {
                    if let Some(j) = self.what.selected {
                        assert(labels(self.what.items@).len() == self.what.items@.len());
                        let cmd = chara.cmd_available[j];
                        proof {
                            lemma_canonical_sorted(chara.cmd_available@);
                            assert(chara.cmd_available@[j as int] == cmd);
                        }
                        self.which.change_items(action_labels_of(&chara.act_available[cmd.rank()]));
                    }
                }
            }
        }
        let mut targets = party_labels(enemy_party);
        let mut mine = party_labels(player_party);
        targets.append(&mut mine);
        assert(labels(targets@) =~= party_names(enemy_party@) + party_names(player_party@));
        self.to.change_items(targets);
    }

    fn unselect_all(&mut self)
        ensures
            *final(self) == all_released(*old(self)),
            final(self).wf(),
    {
        self.from.unselect();
        self.what.unselect();
        self.which.unselect();
        self.to.unselect();
    }

    /// Moves the highlight of the first open stage up.
    pub fn prev(&mut self)
        requires
            old(self).wf(),
        ensures
            final(self).wf(),
            *final(self) == ui_moved_prev(*old(self)),
    {
        if !self.from.blocked {
            self.from.prev();
        } else if !self.what.blocked {
            self.what.prev();
        } else if !self.which.blocked {
            self.which.prev();
        } else if !self.to.blocked {
            self.to.prev();
        }
    }

    /// Moves the highlight of the first open stage down.
    pub fn next(&mut self)
        requires
            old(self).wf(),
        ensures
            final(self).wf(),
            *final(self) == ui_moved_next(*old(self)),
    {
        if !self.from.blocked {
            self.from.next();
        } else if !self.what.blocked {
            self.what.next();
        } else if !self.which.blocked {
            self.which.next();
        } else if !self.to.blocked {
            self.to.next();
        }
    }

    /// Confirms the first open stage: locks its highlighted choice, or, for
    /// the target, resets the cascade; nothing happens without a highlight.
    pub fn select(&mut self)
        requires
            old(self).wf(),
        ensures
            final(self).wf(),
            *final(self) == ui_confirmed(*old(self)),
    {
        if !self.from.blocked {
            if self.from.selected.is_some() {
                self.from.select();
            }
        } else if !self.what.blocked {
            if self.what.selected.is_some() {
                self.what.select();
            }
        } else if !self.which.blocked {
            if self.which.selected.is_some() {
                self.which.select();
            }
        } else if !self.to.blocked {
            if self.to.selected.is_some() {
                self.unselect_all();
            }
        }
    }

    /// Opens the nearest locked stage again, scanning back from the target;
    /// there is nothing before the actor stage to cancel to.
    pub fn unselect(&mut self)
        requires
            old(self).wf(),
        ensures
            final(self).wf(),
            *final(self) == ui_cancelled(*old(self)),
    {
        if self.to.blocked {
            self.to.unselect();
        } else if self.which.blocked {
            self.which.unselect();
        } else if self.what.blocked {
            self.what.unselect();
        } else if self.from.blocked {
            self.from.unselect();
        }
    }
}

/// The names of a party, as candidates.
fn party_labels(party: &Vec<Character>) -> (r: Vec<String>)
    ensures
        labels(r@) == party_names(party@),
{
    let mut r: Vec<String> = Vec::new();
    let mut i: usize = 0;
    while i < party.len()
        invariant
            i <= party@.len(),
            r@.len() == i,
            forall|j: int| 0 <= j < i ==> r@[j]@ == party@[j].name@,
        decreases party@.len() - i,
    {
        r.push(party[i].name.clone());
        i += 1;
    }
    assert(labels(r@) =~= party_names(party@));
    r
}

/// The names of a sequence of commands, as candidates.
fn command_labels_of(cmds: &Vec<Commands>) -> (r: Vec<String>)
    ensures
        labels(r@) == command_labels(cmds@),
{
    let mut r: Vec<String> = Vec::new();
    let mut i: usize = 0;
    while i < cmds.len()
        invariant
            i <= cmds@.len(),
            r@.len() == i,
            forall|j: int| 0 <= j < i ==> r@[j]@ == command_name(cmds@[j]),
        decreases cmds@.len() - i,
    {
        r.push(cmds[i].label());
        i += 1;
    }
    assert(labels(r@) =~= command_labels(cmds@));
    r
}

/// The names of a sequence of variants, as candidates.
fn action_labels_of(acts: &Vec<Action>) -> (r: Vec<String>)
    ensures
        labels(r@) == action_labels(acts@),
{
    let mut r: Vec<String> = Vec::new();
    let mut i: usize = 0;
    while i < acts.len()
        invariant
            i <= acts@.len(),
            r@.len() == i,
            forall|j: int| 0 <= j < i ==> r@[j]@ == acts@[j].name@,
        decreases acts@.len() - i,
    {
        r.push(acts[i].label());
        i += 1;
    }
    assert(labels(r@) =~= action_labels(acts@));
    r
}

/// Moving wraps around a non-empty list: down from the last candidate leads
/// to the first, up from the first leads to the last, and down then up
/// returns to the highlight one started from.
pub proof fn lemma_moves_wrap(l: StatefulList)
    requires
        l.wf(),
        0 < l.items@.len() <= usize::MAX,
    ensures
        l.selected is Some && l.selected->Some_0 + 1 == l.items@.len() ==> moved_next(l).selected
            == Some(0usize),
        l.selected == Some(0usize) ==> moved_prev(l).selected is Some && moved_prev(
            l,
        ).selected->Some_0 + 1 == l.items@.len(),
        l.selected is Some ==> moved_prev(moved_next(l)).selected == l.selected,
        moved_next(l).wf() && moved_prev(l).wf(),
{
    if l.selected is Some {
        let i = l.selected->Some_0;
        let n = moved_next(l);
        if i + 1 >= l.items@.len() {
            assert(n.selected == Some(0usize));
            assert(moved_prev(n).selected == Some((l.items@.len() - 1) as usize));
        } else {
            assert(n.selected == Some((i + 1) as usize));
        }
    }
}

/// Moving wraps within the active stage of the cascade: down from its last
/// candidate leads to the first, up from its first leads to the last, and
/// every other stage, every lock and every candidate list stay as they were.
pub proof fn lemma_cascade_moves_wrap(u: UiState)
    requires
        u.wf(),
        active_stage(u) < 4,
        0 < stage(u, active_stage(u)).items@.len() <= usize::MAX,
    ensures
        ({
            let (a, l) = (active_stage(u), stage(u, active_stage(u)));
            &&& l.selected is Some && l.selected->Some_0 + 1 == l.items@.len() ==> stage(
                ui_moved_next(u),
                a,
            ).selected == Some(0usize)
            &&& l.selected == Some(0usize) ==> stage(ui_moved_prev(u), a).selected is Some
                && stage(ui_moved_prev(u), a).selected->Some_0 + 1 == l.items@.len()
            &&& forall|k: int|
                0 <= k < 4 ==> (#[trigger] stage(ui_moved_next(u), k)).blocked == stage(u, k).blocked
                    && stage(ui_moved_next(u), k).items == stage(u, k).items
                    && stage(ui_moved_prev(u), k).blocked == stage(u, k).blocked
                    && stage(ui_moved_prev(u), k).items == stage(u, k).items
            &&& forall|k: int|
                0 <= k < 4 && k != a ==> #[trigger] stage(ui_moved_next(u), k) == stage(u, k)
                    && stage(ui_moved_prev(u), k) == stage(u, k)
        }),
{
    lemma_moves_wrap(stage(u, active_stage(u)));
}

/// Confirming the target stage while it has a highlight opens all four
/// stages again and clears every highlight.
pub proof fn lemma_confirm_target_resets(u: UiState)
    requires
        u.wf(),
        active_stage(u) == 3,
        u.to.selected is Some,
    ensures
        forall|k: int| 0 <= k < 4 ==> !(#[trigger] stage(ui_confirmed(u), k)).blocked
            && stage(ui_confirmed(u), k).selected is None,
{
}

/// Whatever inputs arrive, the locked stages stay a prefix of the cascade
/// starting at the actor stage: a stage is locked only if every earlier one
/// is, and highlights stay in range.
pub proof fn lemma_cascade_invariant(u: UiState, events: Seq<InputEvent>)
    requires
        u.wf(),
    ensures
        ui_run(u, events).wf(),
        forall|j: int, k: int|
            0 <= j < k < 4 && (#[trigger] stage(ui_run(u, events), k)).blocked ==> (#[trigger] stage(
                ui_run(u, events),
                j,
            )).blocked,
    decreases events.len(),
{
    if events.len() > 0 {
        lemma_cascade_invariant(u, events.drop_last());
        let v = ui_run(u, events.drop_last());
        lemma_stage_ops_wf(stage(v, active_stage(v)));
    }
}

proof fn lemma_stage_ops_wf(l: StatefulList)
    requires
        l.wf(),
    ensures
        moved_next(l).wf(),
        moved_prev(l).wf(),
        locked(l).wf(),
        released(l).wf(),
{
}

/// The share of `value` in `max` in percent, rounded half up; zero for an
/// empty maximum.
pub open spec fn percent_of(value: int, max: int) -> int {
    if max <= 0 {
        0
    } else {
        (200 * value + max) / (2 * max)
    }
}

/// The percentage a gauge shows for `value` out of `max`.
pub fn gauge_percent(value: u64, max: u64) -> (r: u16)
    requires
        value <= max,
    ensures
        r == percent_of(value as int, max as int),
        r <= 100,
{
    if max == 0 {
        return 0;
    }
    let num: u128 = 200 * (value as u128) + max as u128;
    let den: u128 = 2 * (max as u128);
    proof {
        let (v, m) = (value as int, max as int);
        assert((200 * v + m) / (2 * m) <= 100) by (nonlinear_arith)
            requires
                0 <= v <= m,
                0 < m,
        ;
    }
    (num / den) as u16
}

} // verus!

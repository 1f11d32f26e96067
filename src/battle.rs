use crate::characters::{has_command, unlocked, Character, Commands};
use vstd::prelude::*;

verus! {

/// Most combatants a side may field.
pub const PARTY_MAX: usize = 4;

/// A party: one to four well-formed combatants.
pub open spec fn party_wf(party: Seq<Character>) -> bool {
    &&& 1 <= party.len() <= PARTY_MAX
    &&& forall|i: int| 0 <= i < party.len() ==> (#[trigger] party[i]).wf()
}

/// The two sides of a battle.
pub struct BattleState {
    pub enemy_party: Vec<Character>,
    pub player_party: Vec<Character>,
}

/// Whether the grant input still has a command to give `c`.
pub open spec fn lacks_grant(c: Character) -> bool {
    !c.cmd_available@.contains(Commands::Magic) || !c.cmd_available@.contains(Commands::Manif)
}

/// The command the grant input gives `c`: Magic while it is missing, then
/// Manif.
pub open spec fn next_grant(c: Character) -> Commands {
    if !c.cmd_available@.contains(Commands::Magic) {
        Commands::Magic
    } else {
        Commands::Manif
    }
}

/// `j` is the first combatant of `party` that lacks a command of the grant
/// progression.
pub open spec fn first_lacking(party: Seq<Character>, j: int) -> bool {
    &&& 0 <= j < party.len()
    &&& lacks_grant(party[j])
    &&& forall|k: int| 0 <= k < j ==> !lacks_grant(#[trigger] party[k])
}

/// `after` is `before` given its next command of the progression.
pub open spec fn is_granted(before: Character, after: Character) -> bool {
    &&& after.cmd_available@ == unlocked(before.cmd_available@, next_grant(before))
    &&& after == (Character { cmd_available: after.cmd_available, ..before })
}

/// `after` is `before` after the grant input: the first player-side
/// combatant that lacks a command of the progression gets the next one; no
/// other combatant changes, and nothing changes when none lacks one.
pub open spec fn grant_result(before: BattleState, after: BattleState) -> bool {
    let (b, a) = (before.player_party@, after.player_party@);
    &&& after.enemy_party@ == before.enemy_party@
    &&& a.len() == b.len()
    &&& (forall|i: int| 0 <= i < b.len() ==> !lacks_grant(#[trigger] b[i])) ==> a == b
    &&& forall|j: int| #[trigger] first_lacking(b, j) ==> {
        &&& is_granted(b[j], a[j])
        &&& forall|i: int| 0 <= i < b.len() && i != j ==> a[i] == b[i]
    }
}

impl BattleState {
    /// Both parties well formed.
    pub open spec fn wf(&self) -> bool {
        party_wf(self.enemy_party@) && party_wf(self.player_party@)
    }

    /// Checks the well-formedness conditions.
    pub fn is_wf(&self) -> (r: bool)
        ensures
            r == self.wf(),
    {
        party_is_wf(&self.enemy_party) && party_is_wf(&self.player_party)
    }

    /// The grant input: the first player-side combatant that lacks Magic gets
    /// it, or else lacks Manif and gets that; no other combatant changes, and
    /// nothing changes when every one has both.
    pub fn grant_next_command(&mut self)
        requires
            old(self).wf(),
        ensures
            final(self).wf(),
            grant_result(*old(self), *final(self)),
    {
        let ghost start = self.player_party@;
        let mut i: usize = 0;
        while i < self.player_party.len()
            invariant
                self.wf(),
                self.player_party@ == start,
                start == old(self).player_party@,
                self.enemy_party@ == old(self).enemy_party@,
                i <= start.len(),
                forall|k: int| 0 <= k < i ==> !lacks_grant(#[trigger] start[k]),
            decreases start.len() - i,
        {
            let has_magic = has_command(&self.player_party[i].cmd_available, Commands::Magic);
            let has_manif = has_command(&self.player_party[i].cmd_available, Commands::Manif);
            if !has_magic || !has_manif {
                let cmd = if !has_magic { Commands::Magic } else { Commands::Manif };
                let r = self.player_party[i].add_action(&cmd);
                proof {
                    assert(lacks_grant(start[i as int]));
                    assert(self.player_party@ =~= start.update(i as int, self.player_party@[i as int]));
                    assert(first_lacking(start, i as int));
                    assert forall|j: int| #[trigger] first_lacking(start, j) implies j == i by {
                        if j < i {
                            assert(!lacks_grant(start[j]));
                        } else if j > i {
                            assert(!lacks_grant(start[i as int]));
                        }
                    }
                }
                return;
            }
            i += 1;
        }
    }
}

fn party_is_wf(party: &Vec<Character>) -> (r: bool)
    ensures
        r == party_wf(party@),
{
    if party.len() < 1 || party.len() > PARTY_MAX {
        return false;
    }
    let mut i: usize = 0;
    while i < party.len()
        invariant
            i <= party@.len(),
            forall|j: int| 0 <= j < i ==> (#[trigger] party@[j]).wf(),
        decreases party@.len() - i,
    {
        if !party[i].is_wf() {
            return false;
        }
        i += 1;
    }
    true
}

} // verus!

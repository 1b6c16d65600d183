//! Tournament session state: the roster, the selected formats, the phase,
//! the current round's matches, and the champion once decided.

use crate::tournament::{
    form_teams_seq, is_paired, team_size_of, winner_view, winners_of, MatchNode, MatchType,
    Participant, Team, TournamentType,
};
use vstd::prelude::*;
use vstd::string::StrSliceExecFns;

verus! {

/// Why a requested phase transition was refused.
#[derive(Clone, Copy, PartialEq, Eq, Structural, Debug)]
pub enum TournamentError {
    /// Starting was requested although the roster cannot form a bracket:
    /// fewer than two participants, or a count that is not a multiple of
    /// the selected format's team size.
    InvalidConfiguration,
    /// Advancing was requested although the current round has no matches,
    /// or some match is missing a team.
    IncompleteMatch,
    /// Advancing was requested although some match has equal scores; ties
    /// are rejected rather than silently resolved.
    TiedMatch,
    /// Starting was requested under a tournament type other than single
    /// elimination, for which no scheduling logic exists.
    UnsupportedType,
    /// Starting was requested although the session already left the
    /// pre-match phase; aborting a tournament means discarding the session
    /// and creating a new one, not restarting it.
    AlreadyStarted,
}

/// A character that counts as spacing when deciding whether a participant
/// name is blank: the Unicode white-space characters, the same set that
/// `str::trim` removes.
pub open spec fn is_space_char(c: char) -> bool {
    (0x09 <= c as u32 && c as u32 <= 0x0D) || c as u32 == 0x20 || c as u32 == 0x85 || c as u32
        == 0xA0 || c as u32 == 0x1680 || (0x2000 <= c as u32 && c as u32 <= 0x200A) || c as u32
        == 0x2028 || c as u32 == 0x2029 || c as u32 == 0x202F || c as u32 == 0x205F || c as u32
        == 0x3000
}

/// A name is blank when every character is spacing (an empty name included);
/// such names are ignored by [`TournamentUI::add_participant`].
pub open spec fn is_blank(s: Seq<char>) -> bool {
    forall|i: int| 0 <= i < s.len() ==> is_space_char(#[trigger] s[i])
}

/// The phase of a tournament session.
#[derive(Clone, Copy, PartialEq, Eq, Structural, Debug)]
pub enum TournamentUIState {
    PreMatch,
    Ongoing,
    Finished,
}

/// A running tournament: the participant roster, the selected match format
/// and tournament type, the current phase, the current round's matches, and
/// the champion once one is decided.  The presentation layer drives it
/// through the methods below and reads its fields back for display.
pub struct TournamentUI {
    pub participants: Vec<Participant>,
    pub match_type: MatchType,
    pub tournament_type: TournamentType,
    pub state: TournamentUIState,
    pub round_number: u8,
    pub matches: Vec<MatchNode>,
    pub winner: Option<Team>,
}

impl TournamentUI {
    /// A fresh session: empty roster, one-versus-one format, round-robin
    /// tournament type preselected, no matches, no champion.
    pub fn new() -> (s: Self)
        ensures
            s.participants@ == Seq::<Participant>::empty(),
            s.match_type == MatchType::OneVsOne,
            s.tournament_type == TournamentType::RoundRobin,
            s.state == TournamentUIState::PreMatch,
            s.round_number == 0,
            s.matches@ == Seq::<MatchNode>::empty(),
            s.winner is None,
            s.champion_decided(),
    {
        Self {
            participants: Vec::new(),
            match_type: MatchType::OneVsOne,
            tournament_type: TournamentType::RoundRobin,
            state: TournamentUIState::PreMatch,
            winner: None,
            round_number: 0,
            matches: Vec::new(),
        }
    }
}

/// The round has at least one match and every match has both teams present.
pub open spec fn round_ready(ms: Seq<MatchNode>) -> bool {
    &&& ms.len() >= 1
    &&& forall|i: int|
        0 <= i < ms.len() ==> (#[trigger] ms[i]).team1 is Some && ms[i].team2 is Some
}

/// Some match of the round has equal scores.
pub open spec fn has_tie(ms: Seq<MatchNode>) -> bool {
    exists|i: int| 0 <= i < ms.len() && (#[trigger] ms[i]).score1 == ms[i].score2
}

/// Whether every character of `name` is spacing, as [`is_blank`] states.
fn name_is_blank(name: &str) -> (r: bool)
    ensures
        r == is_blank(name@),
{
    let n = name.unicode_len();
    let mut i: usize = 0;
    while i < n
        invariant
            i <= n,
            n == name@.len(),
            forall|j: int| 0 <= j < i ==> is_space_char(#[trigger] name@[j]),
        decreases n - i,
    {
        let c = name.get_char(i);
        let u = c as u32;
        let spacing = (0x09 <= u && u <= 0x0D) || u == 0x20 || u == 0x85 || u == 0xA0 || u
            == 0x1680 || (0x2000 <= u && u <= 0x200A) || u == 0x2028 || u == 0x2029 || u == 0x202F
            || u == 0x205F || u == 0x3000;
        if !spacing {
            proof {
                assert(!is_space_char(name@[i as int]));
            }
            return false;
        }
        i = i + 1;
    }
    true
}

/// Whether every match of `ms` has both team slots filled.
fn all_matches_filled(ms: &Vec<MatchNode>) -> (r: bool)
    ensures
        r == (forall|i: int|
            0 <= i < ms@.len() ==> (#[trigger] ms@[i]).team1 is Some && ms@[i].team2 is Some),
{
    let mut i: usize = 0;
    while i < ms.len()
        invariant
            i <= ms@.len(),
            forall|j: int| 0 <= j < i ==> (#[trigger] ms@[j]).team1 is Some && ms@[j].team2 is Some,
        decreases ms@.len() - i,
    {
        if !(ms[i].team1.is_some() && ms[i].team2.is_some()) {
            return false;
        }
        i = i + 1;
    }
    true
}

/// Whether some match of `ms` has equal scores.
fn any_tied(ms: &Vec<MatchNode>) -> (r: bool)
    ensures
        r == has_tie(ms@),
{
    let mut i: usize = 0;
    while i < ms.len()
        invariant
            i <= ms@.len(),
            forall|j: int| 0 <= j < i ==> (#[trigger] ms@[j]).score1 != ms@[j].score2,
        decreases ms@.len() - i,
    {
        if ms[i].score1 == ms[i].score2 {
            return true;
        }
        i = i + 1;
    }
    false
}

impl TournamentUI {
    /// The roster can form a bracket: at least two participants, and a count
    /// that is a multiple of the selected format's team size.
    pub open spec fn bracket_ready(self) -> bool {
        self.participants@.len() >= 2 && self.participants@.len() % team_size_of(self.match_type)
            == 0
    }

    /// The champion is recorded exactly when the phase is finished.  This
    /// holds of a fresh session and every method preserves it, so it holds
    /// of every session driven through the methods alone.
    pub open spec fn champion_decided(self) -> bool {
        self.winner is Some <==> self.state is Finished
    }

    /// The sole gating check before a bracket may be generated: true iff the
    /// participant count is at least two and evenly divisible by the selected
    /// format's team size.
    pub fn can_generate_bracket(&self) -> (r: bool)
        ensures
            r == self.bracket_ready(),
    {
        let size = self.match_type.type_to_number();
        self.participants.len() % size == 0 && self.participants.len() >= 2
    }

    /// Appends a participant with the given name to the roster, unless the
    /// name is blank (empty or all spacing), in which case the roster is left
    /// as it is.  The name is stored as given, untrimmed.
    pub fn add_participant(&mut self, name: String)
        ensures
            is_blank(name@) ==> *final(self) == *old(self),
            !is_blank(name@) ==> final(self).participants@ == old(self).participants@.push(
                (Participant { name }),
            ),
            final(self).match_type == old(self).match_type,
            final(self).tournament_type == old(self).tournament_type,
            final(self).state == old(self).state,
            final(self).round_number == old(self).round_number,
            final(self).matches == old(self).matches,
            final(self).winner == old(self).winner,
            old(self).champion_decided() ==> final(self).champion_decided(),
    {
        if !name_is_blank(name.as_str()) {
            self.participants.push(Participant { name });
        }
    }

    /// Forms teams from the roster, pairs them into the first round's
    /// matches, and moves the session to the ongoing phase at round one.
    /// Refused with [`TournamentError::AlreadyStarted`] once the session has
    /// left the pre-match phase, with [`TournamentError::UnsupportedType`]
    /// unless the selected tournament type is single elimination, and with
    /// [`TournamentError::InvalidConfiguration`] when the roster cannot form
    /// a bracket, in that order of checks; on every refusal the session is
    /// unchanged.
    pub fn start_tournament(&mut self) -> (r: Result<(), TournamentError>)
        ensures
            !(old(self).state is PreMatch) ==> r == Err::<(), TournamentError>(
                TournamentError::AlreadyStarted,
            ) && *final(self) == *old(self),
            old(self).state is PreMatch && !(old(self).tournament_type is SingleElimination) ==> r
                == Err::<(), TournamentError>(TournamentError::UnsupportedType) && *final(self)
                == *old(self),
            old(self).state is PreMatch && old(self).tournament_type is SingleElimination
                && !old(self).bracket_ready() ==> r == Err::<(), TournamentError>(
                TournamentError::InvalidConfiguration,
            ) && *final(self) == *old(self),
            old(self).state is PreMatch && old(self).tournament_type is SingleElimination
                && old(self).bracket_ready() ==> {
                &&& r is Ok
                &&& is_paired(
                    form_teams_seq(old(self).participants@, team_size_of(old(self).match_type)),
                    final(self).matches@,
                )
                &&& final(self).state is Ongoing
                &&& final(self).round_number == 1
                &&& final(self).winner is None
                &&& final(self).participants == old(self).participants
                &&& final(self).match_type == old(self).match_type
                &&& final(self).tournament_type == old(self).tournament_type
            },
            r is Ok ==> final(self).champion_decided(),
            old(self).champion_decided() ==> final(self).champion_decided(),
    {
        if !(self.state == TournamentUIState::PreMatch) {
            return Err(TournamentError::AlreadyStarted);
        }
        if !(self.tournament_type == TournamentType::SingleElimination) {
            return Err(TournamentError::UnsupportedType);
        }
        if !self.can_generate_bracket() {
            return Err(TournamentError::InvalidConfiguration);
        }
        crate::tournament::generate_matches(self);
        self.state = TournamentUIState::Ongoing;
        self.round_number = 1;
        self.winner = None;
        Ok(())
    }

    /// Writes the two scores of the match at `match_index`, leaving its teams
    /// and every other match untouched.  Scores are non-negative and the
    /// index must name a current match; range policy beyond that is the
    /// presentation layer's concern.
    pub fn record_scores(&mut self, match_index: usize, score1: i32, score2: i32)
        requires
            match_index < old(self).matches@.len(),
            score1 >= 0,
            score2 >= 0,
        ensures
            final(self).matches@.len() == old(self).matches@.len(),
            final(self).matches@[match_index as int].score1 == score1,
            final(self).matches@[match_index as int].score2 == score2,
            final(self).matches@[match_index as int].team1 == old(self).matches@[match_index as int].team1,
            final(self).matches@[match_index as int].team2 == old(self).matches@[match_index as int].team2,
            forall|i: int|
                0 <= i < old(self).matches@.len() && i != match_index ==> final(self).matches@[i]
                    == old(self).matches@[i],
            final(self).participants == old(self).participants,
            final(self).match_type == old(self).match_type,
            final(self).tournament_type == old(self).tournament_type,
            final(self).state == old(self).state,
            final(self).round_number == old(self).round_number,
            final(self).winner == old(self).winner,
            old(self).champion_decided() ==> final(self).champion_decided(),
    {
        self.matches[match_index].score1 = score1;
        self.matches[match_index].score2 = score2;
    }

    /// Advances the bracket one round, as [`crate::tournament::next_round`]
    /// does, after validating the round: refused with
    /// [`TournamentError::IncompleteMatch`] when the round has no matches or
    /// a match is missing a team, and with [`TournamentError::TiedMatch`]
    /// when a match has equal scores; on either refusal the session is
    /// unchanged.  When the round was the final, the champion is recorded
    /// and the session moves to the finished phase; the round counter
    /// advances by one (saturating at its maximum).
    pub fn advance(&mut self) -> (r: Result<(), TournamentError>)
        ensures
            !round_ready(old(self).matches@) ==> r == Err::<(), TournamentError>(
                TournamentError::IncompleteMatch,
            ) && *final(self) == *old(self),
            round_ready(old(self).matches@) && has_tie(old(self).matches@) ==> r == Err::<
                (),
                TournamentError,
            >(TournamentError::TiedMatch) && *final(self) == *old(self),
            round_ready(old(self).matches@) && !has_tie(old(self).matches@) ==> {
                &&& r is Ok
                &&& is_paired(winners_of(old(self).matches@), final(self).matches@)
                &&& final(self).matches@.len() == old(self).matches@.len() / 2
                &&& (old(self).matches@.len() == 1 ==> final(self).winner is Some
                    && final(self).winner.unwrap()@ == winner_view(old(self).matches@[0]))
                &&& (old(self).matches@.len() != 1 ==> final(self).winner == old(self).winner)
                &&& final(self).state == (if final(self).winner is Some {
                    TournamentUIState::Finished
                } else {
                    old(self).state
                })
                &&& final(self).round_number == (if old(self).round_number < 255 {
                    old(self).round_number + 1
                } else {
                    old(self).round_number as int
                })
                &&& final(self).participants == old(self).participants
                &&& final(self).match_type == old(self).match_type
                &&& final(self).tournament_type == old(self).tournament_type
            },
            old(self).champion_decided() ==> final(self).champion_decided(),
    {
        if self.matches.len() == 0 {
            return Err(TournamentError::IncompleteMatch);
        }
        if !all_matches_filled(&self.matches) {
            return Err(TournamentError::IncompleteMatch);
        }
        if any_tied(&self.matches) {
            return Err(TournamentError::TiedMatch);
        }
        crate::tournament::next_round(self);
        if self.round_number < 255 {
            self.round_number = self.round_number + 1;
        }
        if self.winner.is_some() {
            self.state = TournamentUIState::Finished;
        }
        Ok(())
    }
}

} // verus!

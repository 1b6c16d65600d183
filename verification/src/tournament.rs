//! Core bracket data model: participants, teams, matches, and the pure
//! functions that form teams, pair them into matches, and advance a round.

use crate::session::TournamentUI;
use vstd::prelude::*;

verus! {

/// A registered competitor, identified by a display name.
pub struct Participant {
    pub name: String,
}

impl Clone for Participant {
    fn clone(&self) -> (r: Self)
        ensures
            r == *self,
    {
        Participant { name: self.name.clone() }
    }
}

/// The per-side team size selected once per tournament.
#[derive(Clone, Copy, PartialEq, Eq, Structural, Debug)]
pub enum MatchType {
    OneVsOne,
    TwoVsTwo,
    ThreeVsThree,
    FourVsFour,
}

/// How the bracket as a whole is scheduled.  Only single elimination is
/// implemented; selecting another mode is reported as unsupported.
#[derive(Clone, Copy, PartialEq, Eq, Structural, Debug)]
pub enum TournamentType {
    SingleElimination,
    DoubleElimination,
    RoundRobin,
}

/// A group of participants that competes as one side of a match.  Teams own
/// copies of their members, so later roster edits cannot alter a formed team.
pub struct Team {
    pub members: Vec<Participant>,
}

impl View for Team {
    type V = Seq<Participant>;

    open spec fn view(&self) -> Seq<Participant> {
        self.members@
    }
}

impl Clone for Team {
    fn clone(&self) -> (r: Self)
        ensures
            r@ == self@,
    {
        let members = self.members.clone();
        proof {
            assert(members@ =~= self.members@);
        }
        Team { members }
    }
}

/// The member names of a team, in roster order.
pub open spec fn member_names(t: Team) -> Seq<Seq<char>> {
    t@.map_values(|p: Participant| p.name@)
}

/// One piece of a team's display string: the first name stands alone, middle
/// names follow a comma, and the last name of a multi-member team follows
/// an ampersand.
pub open spec fn display_piece(names: Seq<Seq<char>>, i: int) -> Seq<char> {
    if i == 0 {
        names[0]
    } else if i < names.len() - 1 {
        ", "@ + names[i]
    } else {
        " & "@ + names[i]
    }
}

/// The concatenation of the first `k` display pieces.
pub open spec fn display_prefix(names: Seq<Seq<char>>, k: int) -> Seq<char>
    decreases k,
{
    if k <= 0 {
        Seq::empty()
    } else {
        display_prefix(names, k - 1) + display_piece(names, k - 1)
    }
}

/// The canonical display form of a list of names: all names joined with
/// commas, except that the final name of a multi-name list follows " & ".
pub open spec fn team_display(names: Seq<Seq<char>>) -> Seq<char> {
    display_prefix(names, names.len() as int)
}

impl Team {
    /// The team's display string: member names joined with commas, the final
    /// name joined with an ampersand (for example "Alice, Bob & Carol").
    pub fn team_to_string(&self) -> (r: String)
        ensures
            r@ == team_display(member_names(*self)),
    {
        let ghost names = member_names(*self);
        let mut out = String::new();
        let n = self.members.len();
        let mut i: usize = 0;
        while i < n
            invariant
                i <= n,
                n == self.members@.len(),
                names == member_names(*self),
                out@ == display_prefix(names, i as int),
            decreases n - i,
        {
            if i == 0 {
                out.append(self.members[i].name.as_str());
            } else if i < n - 1 {
                out.append(", ");
                out.append(self.members[i].name.as_str());
            } else {
                out.append(" & ");
                out.append(self.members[i].name.as_str());
            }
            proof {
                assert(names[i as int] == self.members@[i as int].name@);
                assert(out@ =~= display_prefix(names, i as int) + display_piece(names, i as int));
            }
            i = i + 1;
        }
        out
    }
}

/// One match of a round: two team slots and the scores recorded for them.
/// Scores are non-negative; the presentation layer writes them while the
/// match is active.
pub struct MatchNode {
    pub team1: Option<Team>,
    pub team2: Option<Team>,
    pub score1: i32,
    pub score2: i32,
}

impl Clone for MatchNode {
    fn clone(&self) -> (r: Self)
        ensures
            r.team1 is Some <==> self.team1 is Some,
            r.team1 is Some ==> r.team1.unwrap()@ == self.team1.unwrap()@,
            r.team2 is Some <==> self.team2 is Some,
            r.team2 is Some ==> r.team2.unwrap()@ == self.team2.unwrap()@,
            r.score1 == self.score1,
            r.score2 == self.score2,
    {
        MatchNode {
            team1: match &self.team1 {
                Some(t) => Some(t.clone()),
                None => None,
            },
            team2: match &self.team2 {
                Some(t) => Some(t.clone()),
                None => None,
            },
            score1: self.score1,
            score2: self.score2,
        }
    }
}

/// The members of the winning side of a filled-in match: the side with the
/// strictly higher score wins, and equal scores fall to the second side.
pub open spec fn winner_view(m: MatchNode) -> Seq<Participant> {
    if m.score1 > m.score2 {
        m.team1.unwrap()@
    } else {
        m.team2.unwrap()@
    }
}

impl MatchNode {
    /// A copy of the winning team of this match.  The side with the strictly
    /// higher score wins; on equal scores the second team is returned, so
    /// callers that do not want that outcome must reject ties beforehand
    /// (as [`crate::session::TournamentUI::advance`] does).
    pub fn is_winner(&self) -> (r: Team)
        requires
            self.team1 is Some,
            self.team2 is Some,
        ensures
            r@ == winner_view(*self),
    {
        if self.score1 > self.score2 {
            self.team1.as_ref().unwrap().clone()
        } else {
            self.team2.as_ref().unwrap().clone()
        }
    }
}

/// The team size that a match format stands for.
pub open spec fn team_size_of(mt: MatchType) -> nat {
    match mt {
        MatchType::OneVsOne => 1,
        MatchType::TwoVsTwo => 2,
        MatchType::ThreeVsThree => 3,
        MatchType::FourVsFour => 4,
    }
}

impl MatchType {
    /// The number of participants on each side of a match of this format.
    pub fn type_to_number(&self) -> (n: usize)
        ensures
            n == team_size_of(*self),
            1 <= n <= 4,
    {
        match self {
            MatchType::OneVsOne => 1,
            MatchType::TwoVsTwo => 2,
            MatchType::ThreeVsThree => 3,
            MatchType::FourVsFour => 4,
        }
    }
}

/// The roster split into consecutive chunks of `size` participants, in input
/// order.  A trailing remainder shorter than `size` still forms a (smaller)
/// final chunk.
pub open spec fn form_teams_seq(ps: Seq<Participant>, size: nat) -> Seq<Seq<Participant>>
    decreases ps.len(),
{
    if ps.len() == 0 || size == 0 {
        Seq::empty()
    } else if ps.len() <= size {
        seq![ps]
    } else {
        seq![ps.take(size as int)] + form_teams_seq(ps.skip(size as int), size)
    }
}

/// The member sequences of a list of teams, in order.
pub open spec fn teams_views(ts: Seq<Team>) -> Seq<Seq<Participant>> {
    ts.map_values(|t: Team| t@)
}

/// Groups the roster into consecutive teams of the format's size, in input
/// order.  If the roster count is not a multiple of the team size, the
/// trailing remainder still comes out as one undersized team; callers that
/// need uniform teams must validate the count first (see
/// [`crate::session::TournamentUI::can_generate_bracket`]).
pub fn create_teams(participants: &Vec<Participant>, match_type: MatchType) -> (teams: Vec<Team>)
    ensures
        teams_views(teams@) == form_teams_seq(participants@, team_size_of(match_type)),
{
    let team_size = match_type.type_to_number();
    let ghost size = team_size_of(match_type);
    let mut teams: Vec<Team> = Vec::new();
    let mut idx: usize = 0;
    proof {
        assert(participants@.skip(0) =~= participants@);
        assert(teams_views(teams@) + form_teams_seq(participants@, size) =~= form_teams_seq(
            participants@,
            size,
        ));
    }
    while idx < participants.len()
        invariant
            team_size == size,
            1 <= team_size <= 4,
            idx <= participants@.len(),
            teams_views(teams@) + form_teams_seq(participants@.skip(idx as int), size)
                =~= form_teams_seq(participants@, size),
        decreases participants@.len() - idx,
    {
        let remaining = participants.len() - idx;
        let k = if remaining < team_size {
            remaining
        } else {
            team_size
        };
        let mut members: Vec<Participant> = Vec::new();
        let mut j: usize = 0;
        while j < k
            invariant
                j <= k,
                idx + k <= participants.len(),
                members@ =~= participants@.subrange(idx as int, idx as int + j as int),
            decreases k - j,
        {
            members.push(participants[idx + j].clone());
            proof {
                assert(members@ =~= participants@.subrange(idx as int, idx as int + j as int + 1));
            }
            j = j + 1;
        }
        proof {
            let rest = participants@.skip(idx as int);
            assert(members@ =~= rest.take(k as int));
            if rest.len() <= size {
                assert(form_teams_seq(rest, size) =~= seq![rest]);
                assert(members@ =~= rest);
            } else {
                assert(rest.skip(size as int) =~= participants@.skip(idx as int + k as int));
            }
            assert(teams_views(teams@.push(Team { members })) =~= teams_views(teams@).push(
                members@,
            ));
            assert(teams_views(teams@.push(Team { members })) + form_teams_seq(
                participants@.skip(idx as int + k as int),
                size,
            ) =~= form_teams_seq(participants@, size));
        }
        teams.push(Team { members });
        idx = idx + k;
    }
    proof {
        assert(form_teams_seq(participants@.skip(idx as int), size) =~= Seq::<
            Seq<Participant>,
        >::empty());
        assert(teams_views(teams@) =~= form_teams_seq(participants@, size));
    }
    teams
}

/// `m` is a fresh match between the teams with members `a` and `b`: both
/// slots filled, both scores zero.
pub open spec fn match_pairs(m: MatchNode, a: Seq<Participant>, b: Seq<Participant>) -> bool {
    &&& m.team1 is Some
    &&& m.team1.unwrap()@ == a
    &&& m.team2 is Some
    &&& m.team2.unwrap()@ == b
    &&& m.score1 == 0
    &&& m.score2 == 0
}

/// `ms` is the pairing of the team list `ts`: teams are taken two at a time
/// in input order, each pair becomes one zero-score match, and a final
/// unpaired team of an odd-length list is dropped.
pub open spec fn is_paired(ts: Seq<Seq<Participant>>, ms: Seq<MatchNode>) -> bool {
    &&& ms.len() == ts.len() / 2
    &&& forall|i: int|
        0 <= i < ms.len() ==> match_pairs(#[trigger] ms[i], ts[2 * i], ts[2 * i + 1])
}

/// The winning sides of a round's matches, in match order.
pub open spec fn winners_of(ms: Seq<MatchNode>) -> Seq<Seq<Participant>> {
    ms.map_values(|m: MatchNode| winner_view(m))
}

/// Groups teams two at a time in input order into fresh zero-score matches:
/// (teams[0], teams[1]), (teams[2], teams[3]), and so on.  A final unpaired
/// team of an odd-length list is dropped and never becomes a match.
pub fn pair_teams(teams: &Vec<Team>) -> (ms: Vec<MatchNode>)
    ensures
        is_paired(teams_views(teams@), ms@),
{
    let mut ms: Vec<MatchNode> = Vec::new();
    let half = teams.len() / 2;
    let mut i: usize = 0;
    while i < half
        invariant
            half == teams@.len() / 2,
            2 * half <= teams.len(),
            i <= half,
            ms@.len() == i,
            forall|j: int|
                0 <= j < i ==> match_pairs(
                    #[trigger] ms@[j],
                    teams_views(teams@)[2 * j],
                    teams_views(teams@)[2 * j + 1],
                ),
        decreases half - i,
    {
        let t1 = teams[2 * i].clone();
        let t2 = teams[2 * i + 1].clone();
        proof {
            assert(teams_views(teams@)[2 * i as int] == teams@[2 * i as int]@);
            assert(teams_views(teams@)[2 * i as int + 1] == teams@[2 * i as int + 1]@);
        }
        ms.push(MatchNode { team1: Some(t1), team2: Some(t2), score1: 0, score2: 0 });
        i = i + 1;
    }
    ms
}

/// Replaces the session's matches with the first round of its bracket: the
/// roster is grouped into teams of the selected format's size and the teams
/// are paired into zero-score matches, in roster order.  All other session
/// fields are left as they were.
pub fn generate_matches(tournamentui: &mut TournamentUI)
    ensures
        is_paired(
            form_teams_seq(
                old(tournamentui).participants@,
                team_size_of(old(tournamentui).match_type),
            ),
            final(tournamentui).matches@,
        ),
        final(tournamentui).participants == old(tournamentui).participants,
        final(tournamentui).match_type == old(tournamentui).match_type,
        final(tournamentui).tournament_type == old(tournamentui).tournament_type,
        final(tournamentui).state == old(tournamentui).state,
        final(tournamentui).round_number == old(tournamentui).round_number,
        final(tournamentui).winner == old(tournamentui).winner,
{
    tournamentui.matches.clear();
    let teams = create_teams(&tournamentui.participants, tournamentui.match_type);
    tournamentui.matches = pair_teams(&teams);
}

/// Advances the bracket by one round: the winner of every current match, in
/// match order, is collected and the winners are re-paired into the next
/// round's matches.  When the current round is the final (exactly one
/// match), its winner is also recorded as the session's champion.
///
/// Every match must have both teams present and a decided (untied) score;
/// [`crate::session::TournamentUI::advance`] checks both and reports an
/// error instead of calling this on an unready round.
pub fn next_round(tournamentui: &mut TournamentUI)
    requires
        old(tournamentui).matches@.len() >= 1,
        forall|i: int|
            0 <= i < old(tournamentui).matches@.len()
                ==> (#[trigger] old(tournamentui).matches@[i]).team1 is Some
                && old(tournamentui).matches@[i].team2 is Some,
        forall|i: int|
            0 <= i < old(tournamentui).matches@.len()
                ==> (#[trigger] old(tournamentui).matches@[i]).score1
                != old(tournamentui).matches@[i].score2,
    ensures
        is_paired(winners_of(old(tournamentui).matches@), final(tournamentui).matches@),
        final(tournamentui).matches@.len() == old(tournamentui).matches@.len() / 2,
        old(tournamentui).matches@.len() == 1 ==> final(tournamentui).winner is Some
            && final(tournamentui).winner.unwrap()@ == winner_view(old(tournamentui).matches@[0]),
        old(tournamentui).matches@.len() != 1
            ==> final(tournamentui).winner == old(tournamentui).winner,
        final(tournamentui).participants == old(tournamentui).participants,
        final(tournamentui).match_type == old(tournamentui).match_type,
        final(tournamentui).tournament_type == old(tournamentui).tournament_type,
        final(tournamentui).state == old(tournamentui).state,
        final(tournamentui).round_number == old(tournamentui).round_number,
{
    if tournamentui.matches.len() == 1 {
        let w = tournamentui.matches[0].is_winner();
        tournamentui.winner = Some(w);
    }
    let mut winners: Vec<Team> = Vec::new();
    let mut i: usize = 0;
    while i < tournamentui.matches.len()
        invariant
            i <= tournamentui.matches@.len(),
            tournamentui.matches@ == old(tournamentui).matches@,
            tournamentui.participants == old(tournamentui).participants,
            tournamentui.match_type == old(tournamentui).match_type,
            tournamentui.tournament_type == old(tournamentui).tournament_type,
            tournamentui.state == old(tournamentui).state,
            tournamentui.round_number == old(tournamentui).round_number,
            old(tournamentui).matches@.len() == 1 ==> tournamentui.winner is Some
                && tournamentui.winner.unwrap()@ == winner_view(old(tournamentui).matches@[0]),
            old(tournamentui).matches@.len() != 1
                ==> tournamentui.winner == old(tournamentui).winner,
            forall|k: int|
                0 <= k < old(tournamentui).matches@.len()
                    ==> (#[trigger] old(tournamentui).matches@[k]).team1 is Some
                    && old(tournamentui).matches@[k].team2 is Some,
            winners@.len() == i,
            teams_views(winners@) =~~= winners_of(old(tournamentui).matches@).take(i as int),
        decreases tournamentui.matches@.len() - i,
    {
        let w = tournamentui.matches[i].is_winner();
        let ghost prev = winners@;
        winners.push(w);
        proof {
            assert(winners_of(old(tournamentui).matches@)[i as int] == winner_view(
                old(tournamentui).matches@[i as int],
            ));
            assert forall|j: int| 0 <= j < i implies teams_views(winners@)[j] == winners_of(
                old(tournamentui).matches@,
            )[j] by {
                assert(winners@[j] == prev[j]);
                assert(teams_views(prev)[j] == winners_of(old(tournamentui).matches@).take(
                    i as int,
                )[j]);
            }
            assert(teams_views(winners@) =~~= winners_of(old(tournamentui).matches@).take(
                i as int + 1,
            ));
        }
        i = i + 1;
    }
    proof {
        assert(teams_views(winners@) =~~= winners_of(old(tournamentui).matches@));
    }
    tournamentui.matches.clear();
    tournamentui.matches = pair_teams(&winners);
}

} // verus!

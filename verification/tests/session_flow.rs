use tournament_bracket::session::{TournamentError, TournamentUI, TournamentUIState};
use tournament_bracket::tournament::{generate_matches, next_round, MatchType, TournamentType};

fn session_with(names: &[&str], match_type: MatchType) -> TournamentUI {
    let mut s = TournamentUI::new();
    s.match_type = match_type;
    s.tournament_type = TournamentType::SingleElimination;
    for n in names {
        s.add_participant(String::from(*n));
    }
    s
}

#[test]
fn new_session_defaults() {
    let s = TournamentUI::new();
    assert_eq!(s.participants.len(), 0);
    assert_eq!(s.match_type, MatchType::OneVsOne);
    assert_eq!(s.tournament_type, TournamentType::RoundRobin);
    assert_eq!(s.state, TournamentUIState::PreMatch);
    assert_eq!(s.round_number, 0);
    assert_eq!(s.matches.len(), 0);
    assert!(s.winner.is_none());
}

#[test]
fn add_participant_ignores_blank_names() {
    let mut s = TournamentUI::new();
    s.add_participant(String::from(""));
    s.add_participant(String::from("   "));
    s.add_participant(String::from(" \t\n"));
    assert_eq!(s.participants.len(), 0);
}

#[test]
fn add_participant_ignores_unicode_whitespace_names() {
    let mut s = TournamentUI::new();
    s.add_participant(String::from("\u{000B}\u{000C}"));
    s.add_participant(String::from("\u{0085}\u{00A0}"));
    s.add_participant(String::from("\u{1680}\u{2003}\u{200A}"));
    s.add_participant(String::from("\u{2028}\u{2029}\u{202F}\u{205F}\u{3000}"));
    assert_eq!(s.participants.len(), 0);
    s.add_participant(String::from("\u{00A0}x\u{00A0}"));
    assert_eq!(s.participants.len(), 1);
}

#[test]
fn add_participant_keeps_the_name_as_given() {
    let mut s = TournamentUI::new();
    s.add_participant(String::from(" Dave "));
    assert_eq!(s.participants.len(), 1);
    assert_eq!(s.participants[0].name, " Dave ");
}

#[test]
fn gating_needs_at_least_two_participants() {
    let s = session_with(&[], MatchType::OneVsOne);
    assert!(!s.can_generate_bracket());
    let s = session_with(&["A"], MatchType::OneVsOne);
    assert!(!s.can_generate_bracket());
    let s = session_with(&["A", "B"], MatchType::OneVsOne);
    assert!(s.can_generate_bracket());
}

#[test]
fn gating_needs_a_multiple_of_the_team_size() {
    let five = session_with(&["A", "B", "C", "D", "E"], MatchType::TwoVsTwo);
    assert!(!five.can_generate_bracket());
    let six = session_with(&["A", "B", "C", "D", "E", "F"], MatchType::TwoVsTwo);
    assert!(six.can_generate_bracket());
}

#[test]
fn start_refuses_unsupported_tournament_types() {
    let mut s = session_with(&["A", "B"], MatchType::OneVsOne);
    s.tournament_type = TournamentType::RoundRobin;
    assert_eq!(s.start_tournament(), Err(TournamentError::UnsupportedType));
    s.tournament_type = TournamentType::DoubleElimination;
    assert_eq!(s.start_tournament(), Err(TournamentError::UnsupportedType));
    assert_eq!(s.state, TournamentUIState::PreMatch);
    assert_eq!(s.matches.len(), 0);
}

#[test]
fn start_refuses_an_invalid_roster() {
    let mut s = session_with(&["A", "B", "C"], MatchType::TwoVsTwo);
    assert_eq!(s.start_tournament(), Err(TournamentError::InvalidConfiguration));
    assert_eq!(s.state, TournamentUIState::PreMatch);
    assert_eq!(s.matches.len(), 0);
}

#[test]
fn start_refuses_a_session_that_already_started() {
    let mut s = session_with(&["A", "B"], MatchType::OneVsOne);
    assert_eq!(s.start_tournament(), Ok(()));
    assert_eq!(s.start_tournament(), Err(TournamentError::AlreadyStarted));
    assert_eq!(s.state, TournamentUIState::Ongoing);
    assert_eq!(s.matches.len(), 1);

    s.record_scores(0, 1, 0);
    s.advance().unwrap();
    assert_eq!(s.state, TournamentUIState::Finished);
    assert_eq!(s.start_tournament(), Err(TournamentError::AlreadyStarted));
    assert_eq!(s.state, TournamentUIState::Finished);
}

#[test]
fn start_pairs_the_first_round() {
    let mut s = session_with(&["A", "B", "C", "D"], MatchType::OneVsOne);
    assert_eq!(s.start_tournament(), Ok(()));
    assert_eq!(s.state, TournamentUIState::Ongoing);
    assert_eq!(s.round_number, 1);
    assert_eq!(s.matches.len(), 2);
    assert_eq!(s.matches[0].team1.as_ref().unwrap().team_to_string(), "A");
    assert_eq!(s.matches[0].team2.as_ref().unwrap().team_to_string(), "B");
    assert_eq!(s.matches[1].team1.as_ref().unwrap().team_to_string(), "C");
    assert_eq!(s.matches[1].team2.as_ref().unwrap().team_to_string(), "D");
}

#[test]
fn start_groups_teams_of_two() {
    let mut s = session_with(&["A", "B", "C", "D"], MatchType::TwoVsTwo);
    assert_eq!(s.start_tournament(), Ok(()));
    assert_eq!(s.matches.len(), 1);
    assert_eq!(s.matches[0].team1.as_ref().unwrap().team_to_string(), "A & B");
    assert_eq!(s.matches[0].team2.as_ref().unwrap().team_to_string(), "C & D");
}

#[test]
fn record_scores_touches_only_the_named_match() {
    let mut s = session_with(&["A", "B", "C", "D"], MatchType::OneVsOne);
    s.start_tournament().unwrap();
    s.record_scores(0, 2, 1);
    assert_eq!(s.matches[0].score1, 2);
    assert_eq!(s.matches[0].score2, 1);
    assert_eq!(s.matches[1].score1, 0);
    assert_eq!(s.matches[1].score2, 0);
    assert_eq!(s.matches[0].team1.as_ref().unwrap().team_to_string(), "A");
}

#[test]
fn advance_refuses_an_empty_round() {
    let mut s = TournamentUI::new();
    assert_eq!(s.advance(), Err(TournamentError::IncompleteMatch));
}

#[test]
fn advance_refuses_a_match_missing_a_team() {
    let mut s = session_with(&["A", "B"], MatchType::OneVsOne);
    s.start_tournament().unwrap();
    s.matches[0].team2 = None;
    assert_eq!(s.advance(), Err(TournamentError::IncompleteMatch));
}

#[test]
fn advance_refuses_tied_scores() {
    let mut s = session_with(&["A", "B"], MatchType::OneVsOne);
    s.start_tournament().unwrap();
    s.record_scores(0, 3, 3);
    assert_eq!(s.advance(), Err(TournamentError::TiedMatch));
    assert_eq!(s.state, TournamentUIState::Ongoing);
    assert_eq!(s.matches.len(), 1);
    assert!(s.winner.is_none());
}

#[test]
fn full_tournament_of_four_singles() {
    let mut s = session_with(&["A", "B", "C", "D"], MatchType::OneVsOne);
    assert_eq!(s.start_tournament(), Ok(()));
    assert_eq!(s.matches.len(), 2);
    assert_eq!(s.matches[0].team1.as_ref().unwrap().team_to_string(), "A");
    assert_eq!(s.matches[0].team2.as_ref().unwrap().team_to_string(), "B");
    assert_eq!(s.matches[1].team1.as_ref().unwrap().team_to_string(), "C");
    assert_eq!(s.matches[1].team2.as_ref().unwrap().team_to_string(), "D");

    s.record_scores(0, 2, 1);
    s.record_scores(1, 0, 3);
    assert_eq!(s.advance(), Ok(()));
    assert_eq!(s.round_number, 2);
    assert_eq!(s.matches.len(), 1);
    assert_eq!(s.matches[0].team1.as_ref().unwrap().team_to_string(), "A");
    assert_eq!(s.matches[0].team2.as_ref().unwrap().team_to_string(), "D");

    s.record_scores(0, 1, 4);
    assert_eq!(s.advance(), Ok(()));
    assert_eq!(s.state, TournamentUIState::Finished);
    assert_eq!(s.winner.as_ref().unwrap().team_to_string(), "D");
    assert_eq!(s.matches.len(), 0);
}

#[test]
fn eight_teams_take_exactly_three_advances() {
    let names = ["A", "B", "C", "D", "E", "F", "G", "H"];
    let mut s = session_with(&names, MatchType::OneVsOne);
    s.start_tournament().unwrap();
    assert_eq!(s.matches.len(), 4);

    for round in 0..3 {
        assert!(s.winner.is_none());
        for i in 0..s.matches.len() {
            s.record_scores(i, 1, 0);
        }
        assert_eq!(s.advance(), Ok(()), "advance {} failed", round);
    }
    assert!(s.winner.is_some());
    assert_eq!(s.winner.as_ref().unwrap().team_to_string(), "A");
    assert_eq!(s.state, TournamentUIState::Finished);
    assert_eq!(s.matches.len(), 0);
    assert_eq!(s.round_number, 4);
}

#[test]
fn generate_matches_repairs_the_current_roster() {
    let mut s = session_with(&["A", "B", "C", "D", "E", "F"], MatchType::OneVsOne);
    generate_matches(&mut s);
    assert_eq!(s.matches.len(), 3);
    s.add_participant(String::from("G"));
    s.add_participant(String::from("H"));
    generate_matches(&mut s);
    assert_eq!(s.matches.len(), 4);
    assert_eq!(s.matches[3].team1.as_ref().unwrap().team_to_string(), "G");
    assert_eq!(s.matches[3].team2.as_ref().unwrap().team_to_string(), "H");
}

#[test]
fn next_round_records_the_final_winner() {
    let mut s = session_with(&["A", "B"], MatchType::OneVsOne);
    generate_matches(&mut s);
    assert_eq!(s.matches.len(), 1);
    s.record_scores(0, 7, 2);
    next_round(&mut s);
    assert_eq!(s.winner.as_ref().unwrap().team_to_string(), "A");
    assert_eq!(s.matches.len(), 0);
}

#[test]
fn next_round_repairs_winners_in_match_order() {
    let mut s = session_with(&["A", "B", "C", "D"], MatchType::OneVsOne);
    generate_matches(&mut s);
    s.record_scores(0, 0, 5);
    s.record_scores(1, 5, 0);
    next_round(&mut s);
    assert_eq!(s.matches.len(), 1);
    assert_eq!(s.matches[0].team1.as_ref().unwrap().team_to_string(), "B");
    assert_eq!(s.matches[0].team2.as_ref().unwrap().team_to_string(), "C");
    assert!(s.winner.is_none());
}

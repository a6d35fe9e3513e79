use backend::id::Uid;
use backend::model::attempt::{rank, score_terms, ScoreRow, ScoreTerm, ScoreboardEntry};

fn row(team: u8, name: &str, points: i16, clue_count: Option<i32>, clues_used: i16) -> ScoreRow {
    ScoreRow { team: Uid { bytes: [team; 16] }, team_name: name.to_string(), points, clue_count, clues_used }
}

fn entry(name: &str, score: i64) -> ScoreboardEntry {
    ScoreboardEntry { name: name.to_string(), score }
}

#[test]
fn attempts_are_grouped_by_team() {
    let rows = vec![
        row(1, "alpha", 100, Some(3), 1),
        row(2, "beta", 50, Some(2), 0),
        row(1, "alpha-renamed", 200, Some(4), 2),
    ];
    let groups = score_terms(&rows);
    assert_eq!(groups.len(), 2);
    assert_eq!(groups[0].team.bytes, [1; 16]);
    assert_eq!(groups[0].name, "alpha");
    assert_eq!(
        groups[0].terms,
        vec![
            ScoreTerm { points: 100, clues: 3, used: 1 },
            ScoreTerm { points: 200, clues: 4, used: 2 },
        ]
    );
    assert_eq!(groups[1].name, "beta");
    assert_eq!(groups[1].terms, vec![ScoreTerm { points: 50, clues: 2, used: 0 }]);
}

#[test]
fn puzzles_without_clues_do_not_count() {
    let rows = vec![row(1, "alpha", 100, Some(0), 0), row(2, "beta", 50, None, 0)];
    assert!(score_terms(&rows).is_empty());
}

#[test]
fn using_every_clue_costs_one_more() {
    let rows = vec![row(1, "alpha", 100, Some(2), 2)];
    let groups = score_terms(&rows);
    assert_eq!(groups[0].terms[0], ScoreTerm { points: 100, clues: 2, used: 3 });
}

#[test]
fn the_scoreboard_lists_best_first() {
    let ranked = rank(vec![entry("a", 10), entry("b", 30), entry("c", 20)]);
    let names: Vec<&str> = ranked.iter().map(|e| e.name.as_str()).collect();
    assert_eq!(names, vec!["b", "c", "a"]);
}

#[test]
fn ties_list_the_later_entry_first() {
    let ranked = rank(vec![entry("a", 5), entry("b", 7), entry("c", 5), entry("d", 7)]);
    let names: Vec<&str> = ranked.iter().map(|e| e.name.as_str()).collect();
    // Sorting by score and then reversing, as a stable sort does.
    let mut expected = vec![entry("a", 5), entry("b", 7), entry("c", 5), entry("d", 7)];
    expected.sort_by_key(|e| e.score);
    expected.reverse();
    let expected_names: Vec<&str> = expected.iter().map(|e| e.name.as_str()).collect();
    assert_eq!(names, expected_names);
    assert_eq!(names, vec!["d", "b", "c", "a"]);
}

#[test]
fn an_empty_scoreboard_stays_empty() {
    assert!(rank(Vec::new()).is_empty());
}

#[test]
fn one_team_scores_as_in_the_whole_scoreboard() {
    let rows = vec![
        row(1, "alpha", 100, Some(3), 1),
        row(2, "beta", 50, Some(2), 0),
        row(1, "alpha", 200, Some(4), 4),
        row(2, "beta", 70, None, 0),
    ];
    let all = score_terms(&rows);
    let only_beta: Vec<ScoreRow> = rows.iter().filter(|r| r.team.bytes == [2; 16]).map(|r| row(2, &r.team_name, r.points, r.clue_count, r.clues_used)).collect();
    let beta = score_terms(&only_beta);
    assert_eq!(beta.len(), 1);
    assert_eq!(beta[0].name, all[1].name);
    assert_eq!(beta[0].terms, all[1].terms);
    let only_gamma: Vec<ScoreRow> = vec![row(3, "gamma", 10, Some(0), 0)];
    assert!(score_terms(&only_gamma).is_empty());
}

use vstd::prelude::*;

use crate::id::Uid;

verus! {

/// A solved attempt as the scoreboard reads it: the team, its name, the
/// puzzle's points, the number of clues the puzzle has (`None` where it has
/// none recorded) and the number of clues the team used.
pub struct ScoreRow {
    pub team: Uid,
    pub team_name: String,
    pub points: i16,
    pub clue_count: Option<i32>,
    pub clues_used: i16,
}

/// What one solved puzzle contributes to a team's score: the puzzle's
/// points, its number of clues and the number of clues charged. The score
/// is `points - points * (used / (clues + 1)) * 0.4`.
#[derive(Clone, Copy, Debug, PartialEq, Eq, Structural)]
pub struct ScoreTerm {
    pub points: i16,
    pub clues: i32,
    pub used: i32,
}

/// The terms of one team's score.
pub struct TeamTerms {
    pub team: Uid,
    pub name: String,
    pub terms: Vec<ScoreTerm>,
}

/// The terms of one team's score, as values.
pub struct TeamTermsView {
    pub team: Seq<u8>,
    pub name: Seq<char>,
    pub terms: Seq<ScoreTerm>,
}

impl View for TeamTerms {
    type V = TeamTermsView;

    open spec fn view(&self) -> TeamTermsView {
        TeamTermsView { team: self.team.bytes@, name: self.name@, terms: self.terms@ }
    }
}

/// A line of the scoreboard.
pub struct ScoreboardEntry {
    pub name: String,
    pub score: i64,
}

/// Whether a solved attempt counts: only puzzles with clues are scored.
pub open spec fn counts(row: ScoreRow) -> bool {
    row.clue_count matches Some(n) && n != 0
}

/// What a counted attempt contributes; using every clue is charged as one
/// clue more.
pub open spec fn term_of(row: ScoreRow) -> ScoreTerm {
    let clues = row.clue_count.unwrap();
    ScoreTerm {
        points: row.points,
        clues,
        used: if row.clues_used as int == clues as int {
            (row.clues_used + 1) as i32
        } else {
            row.clues_used as i32
        },
    }
}

/// The last position of a team among the groups, or -1.
pub open spec fn find_team(groups: Seq<TeamTermsView>, team: Seq<u8>) -> int
    decreases groups.len(),
{
    if groups.len() == 0 {
        -1
    } else if groups.last().team == team {
        groups.len() - 1
    } else {
        find_team(groups.drop_last(), team)
    }
}

/// The counted attempts grouped by team, teams in the order they first
/// appear and each team's terms in the order of its attempts; a team is
/// named as in its first counted attempt.
pub open spec fn grouped(rows: Seq<ScoreRow>) -> Seq<TeamTermsView>
    decreases rows.len(),
{
    if rows.len() == 0 {
        seq![]
    } else {
        let groups = grouped(rows.drop_last());
        let row = rows.last();
        if !counts(row) {
            groups
        } else {
            let at = find_team(groups, row.team.bytes@);
            if at >= 0 {
                groups.update(
                    at,
                    TeamTermsView {
                        team: groups[at].team,
                        name: groups[at].name,
                        terms: groups[at].terms.push(term_of(row)),
                    },
                )
            } else {
                groups.push(
                    TeamTermsView {
                        team: row.team.bytes@,
                        name: row.team_name@,
                        terms: seq![term_of(row)],
                    },
                )
            }
        }
    }
}

proof fn find_team_is(groups: Seq<TeamTermsView>, team: Seq<u8>, at: int)
    requires
        -1 <= at < groups.len(),
        at >= 0 ==> groups[at].team == team,
        forall|m: int| at < m < groups.len() ==> #[trigger] groups[m].team != team,
    ensures
        find_team(groups, team) == at,
    decreases groups.len(),
{
    if groups.len() > 0 && at < groups.len() - 1 {
        find_team_is(groups.drop_last(), team, at);
    }
}

/// The terms of every team's score: the counted attempts grouped by team.
/// The groups are kept in a vector, in the order teams first appear, and
/// not in a hash map: the order in which a map is walked changes from one
/// run to the next, so the scoreboard built from it would not be a function
/// of the attempts, and the grouping could not be stated exactly.
pub fn score_terms(rows: &Vec<ScoreRow>) -> (res: Vec<TeamTerms>)
    ensures
        res@.map_values(|g: TeamTerms| g@) == grouped(rows@),
        forall|k: int|
            0 <= k < rows@.len() && (#[trigger] rows@[k]).clue_count is Some
                && rows@[k].clue_count.unwrap() != 0 ==> exists|i: int|
                0 <= i < res@.len() && res@[i].team.bytes@ == rows@[k].team.bytes@
                    && (#[trigger] res@[i]).terms@.contains(
                    ScoreTerm {
                        points: rows@[k].points,
                        clues: rows@[k].clue_count.unwrap(),
                        used: if rows@[k].clues_used as int == rows@[k].clue_count.unwrap() as int {
                            (rows@[k].clues_used + 1) as i32
                        } else {
                            rows@[k].clues_used as i32
                        },
                    },
                ),
{
    let mut groups: Vec<TeamTerms> = Vec::new();
    let n = rows.len();
    for k in 0..n
        invariant
            n == rows@.len(),
            groups@.map_values(|g: TeamTerms| g@) == grouped(rows@.take(k as int)),
    {
        let row = &rows[k];
        let ghost before = groups@.map_values(|g: TeamTerms| g@);
        assert(rows@.take(k as int + 1).drop_last() =~= rows@.take(k as int));
        assert(rows@.take(k as int + 1).last() == rows@[k as int]);
        match row.clue_count {
            Some(clues) if clues != 0 => {
                let used: i32 = if row.clues_used as i32 == clues {
                    row.clues_used as i32 + 1
                } else {
                    row.clues_used as i32
                };
                let term = ScoreTerm { points: row.points, clues, used };
                let mut j = groups.len();
                while j > 0
                    invariant
                        j <= groups@.len(),
                        groups@.map_values(|g: TeamTerms| g@) == before,
                        forall|m: int|
                            j <= m < before.len() ==> #[trigger] before[m].team != row.team.bytes@,
                    ensures
                        j <= groups@.len(),
                        groups@.map_values(|g: TeamTerms| g@) == before,
                        forall|m: int|
                            j <= m < before.len() ==> #[trigger] before[m].team != row.team.bytes@,
                        j > 0 ==> before[j - 1].team == row.team.bytes@,
                    decreases j,
                {
                    if groups[j - 1].team.equals(&row.team) {
                        assert(before[j - 1] == groups@[j - 1]@);
                        break;
                    }
                    j = j - 1;
                }
                if j > 0 && groups[j - 1].team.equals(&row.team) {
                    proof {
                        find_team_is(before, row.team.bytes@, j - 1);
                    }
                    let mut group = groups.remove(j - 1);
                    group.terms.push(term);
                    groups.insert(j - 1, group);
                    assert(groups@.map_values(|g: TeamTerms| g@) =~= grouped(
                        rows@.take(k as int + 1),
                    ));
                } else {
                    proof {
                        find_team_is(before, row.team.bytes@, -1);
                    }
                    let mut terms = Vec::new();
                    terms.push(term);
                    groups.push(TeamTerms { team: row.team, name: row.team_name.clone(), terms });
                    assert(groups@.map_values(|g: TeamTerms| g@) =~= grouped(
                        rows@.take(k as int + 1),
                    ));
                }
            },
            _ => {},
        }
    }
    assert(rows@.take(n as int) =~= rows@);
    proof {
        every_clued_attempt_counts(rows@);
        let g = grouped(rows@);
        assert forall|k: int|
            0 <= k < rows@.len() && (#[trigger] rows@[k]).clue_count is Some
                && rows@[k].clue_count.unwrap() != 0 implies exists|i: int|
                0 <= i < groups@.len() && groups@[i].team.bytes@ == rows@[k].team.bytes@
                    && (#[trigger] groups@[i]).terms@.contains(term_of(rows@[k])) by {
            assert(counts(rows@[k]));
            let (i, m) = choose|i: int, m: int|
                0 <= i < g.len() && g[i].team == rows@[k].team.bytes@ && 0 <= m < g[i].terms.len()
                    && #[trigger] g[i].terms[m] == term_of(rows@[k]);
            assert(groups@.map_values(|g: TeamTerms| g@)[i] == groups@[i]@);
            assert(groups@[i].terms@[m] == term_of(rows@[k]));
        }
    }
    groups
}

/// The terms of a team's score: what each of its counted attempts
/// contributes, in order.
pub open spec fn terms_of_team(rows: Seq<ScoreRow>, team: Seq<u8>) -> Seq<ScoreTerm>
    decreases rows.len(),
{
    if rows.len() == 0 {
        seq![]
    } else {
        let before = terms_of_team(rows.drop_last(), team);
        if counts(rows.last()) && rows.last().team.bytes@ == team {
            before.push(term_of(rows.last()))
        } else {
            before
        }
    }
}

proof fn find_team_none(groups: Seq<TeamTermsView>, team: Seq<u8>)
    requires
        find_team(groups, team) < 0,
    ensures
        forall|m: int| 0 <= m < groups.len() ==> #[trigger] groups[m].team != team,
    decreases groups.len(),
{
    if groups.len() > 0 {
        find_team_none(groups.drop_last(), team);
        assert forall|m: int| 0 <= m < groups.len() implies #[trigger] groups[m].team != team by {
            if m < groups.len() - 1 {
                assert(groups[m] == groups.drop_last()[m]);
            }
        }
    }
}

proof fn find_team_found(groups: Seq<TeamTermsView>, team: Seq<u8>)
    requires
        find_team(groups, team) >= 0,
    ensures
        find_team(groups, team) < groups.len(),
        groups[find_team(groups, team)].team == team,
    decreases groups.len(),
{
    if groups.len() > 0 && groups.last().team != team {
        find_team_found(groups.drop_last(), team);
    }
}

proof fn no_terms_without_rows(rows: Seq<ScoreRow>, team: Seq<u8>)
    requires
        forall|k: int| 0 <= k < rows.len() && counts(#[trigger] rows[k]) ==> rows[k].team.bytes@ != team,
    ensures
        terms_of_team(rows, team) == Seq::<ScoreTerm>::empty(),
    decreases rows.len(),
{
    if rows.len() > 0 {
        assert forall|k: int| 0 <= k < rows.drop_last().len() && counts(#[trigger] rows.drop_last()[k])
            implies rows.drop_last()[k].team.bytes@ != team by {
            assert(rows.drop_last()[k] == rows[k]);
        }
        no_terms_without_rows(rows.drop_last(), team);
    }
}

proof fn terms_hold_counted_rows(rows: Seq<ScoreRow>, team: Seq<u8>, k: int)
    requires
        0 <= k < rows.len(),
        counts(rows[k]),
        rows[k].team.bytes@ == team,
    ensures
        terms_of_team(rows, team).contains(term_of(rows[k])),
    decreases rows.len(),
{
    if k == rows.len() - 1 {
        assert(terms_of_team(rows, team).last() == term_of(rows[k]));
    } else {
        assert(rows.drop_last()[k] == rows[k]);
        terms_hold_counted_rows(rows.drop_last(), team, k);
        let before = terms_of_team(rows.drop_last(), team);
        let m = choose|m: int| 0 <= m < before.len() && before[m] == term_of(rows[k]);
        assert(terms_of_team(rows, team)[m] == before[m]);
    }
}

proof fn terms_come_from_counted_rows(rows: Seq<ScoreRow>, team: Seq<u8>, m: int)
    requires
        0 <= m < terms_of_team(rows, team).len(),
    ensures
        exists|k: int|
            0 <= k < rows.len() && counts(#[trigger] rows[k]) && rows[k].team.bytes@ == team
                && terms_of_team(rows, team)[m] == term_of(rows[k]),
    decreases rows.len(),
{
    let before = terms_of_team(rows.drop_last(), team);
    if m < before.len() {
        assert(terms_of_team(rows, team)[m] == before[m]);
        terms_come_from_counted_rows(rows.drop_last(), team, m);
        let k = choose|k: int|
            0 <= k < rows.drop_last().len() && counts(#[trigger] rows.drop_last()[k])
                && rows.drop_last()[k].team.bytes@ == team && before[m] == term_of(
                rows.drop_last()[k],
            );
        assert(rows.drop_last()[k] == rows[k]);
    } else {
        let k = rows.len() - 1;
        assert(counts(rows[k]));
    }
}

/// Every solved attempt on a puzzle with a nonzero number of clues counts
/// for its team: the team has a group holding a term with the puzzle's
/// points and number of clues, charged the clues the team used (one more
/// where it used them all). And every term of a group comes from such an
/// attempt of that team, so attempts on puzzles without clues (`None` or
/// `Some(0)`) earn nothing.
pub proof fn every_clued_attempt_counts(rows: Seq<ScoreRow>)
    ensures
        forall|k: int|
            0 <= k < rows.len() && (#[trigger] rows[k]).clue_count is Some
                && rows[k].clue_count.unwrap() != 0 ==> exists|i: int, m: int|
                0 <= i < grouped(rows).len() && grouped(rows)[i].team == rows[k].team.bytes@
                    && 0 <= m < grouped(rows)[i].terms.len() && #[trigger] grouped(rows)[i].terms[m]
                    == (ScoreTerm {
                    points: rows[k].points,
                    clues: rows[k].clue_count.unwrap(),
                    used: if rows[k].clues_used as int == rows[k].clue_count.unwrap() as int {
                        (rows[k].clues_used + 1) as i32
                    } else {
                        rows[k].clues_used as i32
                    },
                }),
        forall|i: int, t: ScoreTerm|
            0 <= i < grouped(rows).len() && #[trigger] grouped(rows)[i].terms.contains(t) ==> exists|
                k: int,
            |
                0 <= k < rows.len() && (#[trigger] rows[k]).team.bytes@ == grouped(rows)[i].team
                    && rows[k].clue_count == Some(t.clues) && t.clues != 0 && t.points
                    == rows[k].points,
{
    grouping_is_by_team(rows);
    let g = grouped(rows);
    assert forall|k: int|
        0 <= k < rows.len() && (#[trigger] rows[k]).clue_count is Some && rows[k].clue_count.unwrap()
            != 0 implies exists|
        i: int,
        m: int,
    |
        0 <= i < g.len() && g[i].team == rows[k].team.bytes@ && 0 <= m < g[i].terms.len()
            && #[trigger] g[i].terms[m] == term_of(rows[k]) by {
        assert(counts(rows[k]));
        let i = choose|i: int| 0 <= i < g.len() && (#[trigger] g[i]).team == rows[k].team.bytes@;
        terms_hold_counted_rows(rows, rows[k].team.bytes@, k);
        let t = terms_of_team(rows, rows[k].team.bytes@);
        let m = choose|m: int| 0 <= m < t.len() && t[m] == term_of(rows[k]);
        assert(g[i].terms[m] == term_of(rows[k]));
    }
    assert forall|i: int, t: ScoreTerm|
        0 <= i < grouped(rows).len() && #[trigger] grouped(rows)[i].terms.contains(t) implies exists|
        k: int,
    |
        0 <= k < rows.len() && (#[trigger] rows[k]).team.bytes@ == grouped(rows)[i].team
            && rows[k].clue_count == Some(t.clues) && t.clues != 0 && t.points == rows[k].points by {
        assert(g[i].terms == terms_of_team(rows, g[i].team));
        let m = choose|m: int| 0 <= m < g[i].terms.len() && g[i].terms[m] == t;
        terms_come_from_counted_rows(rows, g[i].team, m);
        let k = choose|k: int|
            0 <= k < rows.len() && counts(#[trigger] rows[k]) && rows[k].team.bytes@ == g[i].team
                && terms_of_team(rows, g[i].team)[m] == term_of(rows[k]);
        assert(rows[k].clue_count == Some(t.clues));
    }
}

/// The attempts that count, in order.
pub open spec fn counted_rows(rows: Seq<ScoreRow>) -> Seq<ScoreRow> {
    rows.filter(|row: ScoreRow| counts(row))
}

/// Attempts that do not count (on puzzles with no clues recorded) change
/// nothing: the grouping depends on the counted attempts alone, so two
/// lists of attempts with the same counted ones, in the same order, give
/// the same scoreboard; and every group holds at least one term, so a team
/// with no counted attempt gets no entry.
pub proof fn uncounted_attempts_change_nothing(rows: Seq<ScoreRow>)
    ensures
        grouped(rows) == grouped(counted_rows(rows)),
        forall|i: int| 0 <= i < grouped(rows).len() ==> (#[trigger] grouped(rows)[i]).terms.len() > 0,
    decreases rows.len(),
{
    reveal(Seq::filter);
    if rows.len() > 0 {
        uncounted_attempts_change_nothing(rows.drop_last());
        let g = grouped(rows.drop_last());
        if counts(rows.last()) {
            let at = find_team(g, rows.last().team.bytes@);
            if at >= 0 {
                find_team_found(g, rows.last().team.bytes@);
            }
            assert(grouped(rows) == if at >= 0 {
                g.update(
                    at,
                    TeamTermsView {
                        team: g[at].team,
                        name: g[at].name,
                        terms: g[at].terms.push(term_of(rows.last())),
                    },
                )
            } else {
                g.push(
                    TeamTermsView {
                        team: rows.last().team.bytes@,
                        name: rows.last().team_name@,
                        terms: seq![term_of(rows.last())],
                    },
                )
            });
            assert forall|i: int| 0 <= i < grouped(rows).len() implies (
            #[trigger] grouped(rows)[i]).terms.len() > 0 by {
                if i < g.len() && i != at {
                    assert(grouped(rows)[i] == g[i]);
                }
            }
        }
        let sub = counted_rows(rows.drop_last());
        let all = counted_rows(rows);
        if counts(rows.last()) {
            assert(all == sub.push(rows.last()));
            assert(all.drop_last() =~= sub);
            assert(all.last() == rows.last());
        } else {
            assert(all == sub);
        }
    }
}

/// The attempts of one team, in order.
pub open spec fn rows_of_team(rows: Seq<ScoreRow>, team: Seq<u8>) -> Seq<ScoreRow> {
    rows.filter(|row: ScoreRow| row.team.bytes@ == team)
}

proof fn find_team_same_teams(g1: Seq<TeamTermsView>, g2: Seq<TeamTermsView>, team: Seq<u8>)
    requires
        g1.len() == g2.len(),
        forall|i: int| 0 <= i < g1.len() ==> #[trigger] g1[i].team == g2[i].team,
    ensures
        find_team(g1, team) == find_team(g2, team),
    decreases g1.len(),
{
    if g1.len() > 0 {
        assert(g1.last().team == g2.last().team);
        assert forall|i: int| 0 <= i < g1.drop_last().len() implies #[trigger] g1.drop_last()[i].team
            == g2.drop_last()[i].team by {
            assert(g1.drop_last()[i] == g1[i]);
            assert(g2.drop_last()[i] == g2[i]);
        }
        find_team_same_teams(g1.drop_last(), g2.drop_last(), team);
    }
}

/// The scoreboard of one team is that team's line of the whole scoreboard:
/// grouping only the team's attempts gives one group at most, there is one
/// exactly when the team has a group among all attempts, and it is that
/// group, with the same name and the same terms.
pub proof fn one_team_is_its_line(rows: Seq<ScoreRow>, team: Seq<u8>)
    ensures
        grouped(rows_of_team(rows, team)).len() <= 1,
        (grouped(rows_of_team(rows, team)).len() == 1) == (find_team(grouped(rows), team) >= 0),
        grouped(rows_of_team(rows, team)).len() == 1 ==> grouped(rows_of_team(rows, team))[0]
            == grouped(rows)[find_team(grouped(rows), team)],
    decreases rows.len(),
{
    reveal(Seq::filter);
    if rows.len() > 0 {
        let prev = rows.drop_last();
        let r = rows.last();
        one_team_is_its_line(prev, team);
        let g0 = grouped(prev);
        let f0 = rows_of_team(prev, team);
        let h0 = grouped(f0);
        let g = grouped(rows);
        let f = rows_of_team(rows, team);
        let h = grouped(f);
        let idx0 = find_team(g0, team);
        if idx0 >= 0 {
            find_team_found(g0, team);
        }
        if r.team.bytes@ != team {
            assert(f == f0);
            if counts(r) {
                let at = find_team(g0, r.team.bytes@);
                if at >= 0 {
                    find_team_found(g0, r.team.bytes@);
                    find_team_same_teams(g, g0, team);
                    if idx0 >= 0 {
                        assert(g[idx0] == g0[idx0]);
                    }
                } else {
                    assert(g.drop_last() =~= g0);
                    assert(g.last().team == r.team.bytes@);
                    if idx0 >= 0 {
                        assert(g[idx0] == g0[idx0]);
                    }
                }
            }
        } else {
            assert(f == f0.push(r));
            assert(f.drop_last() =~= f0);
            assert(f.last() == r);
            if counts(r) {
                if idx0 >= 0 {
                    assert(h0.last().team == team);
                    assert(find_team(h0, team) == 0);
                    find_team_same_teams(g, g0, team);
                    assert(h[0] == g[idx0]);
                } else {
                    assert(h0.len() == 0);
                    assert(find_team(h0, team) == -1);
                    assert(g.last().team == team);
                    assert(find_team(g, team) == g.len() - 1);
                    assert(h[0] == g[g.len() - 1]);
                }
            }
        }
    }
}

/// Grouping puts every counted attempt with its team and nowhere else:
/// each team appears once, each team's terms are exactly what its counted
/// attempts contribute, in order, and every team with a counted attempt
/// has a group.
pub proof fn grouping_is_by_team(rows: Seq<ScoreRow>)
    ensures
        forall|i: int, j: int|
            0 <= i < j < grouped(rows).len() ==> #[trigger] grouped(rows)[i].team
                != #[trigger] grouped(rows)[j].team,
        forall|i: int|
            0 <= i < grouped(rows).len() ==> (#[trigger] grouped(rows)[i]).terms == terms_of_team(
                rows,
                grouped(rows)[i].team,
            ),
        forall|k: int|
            0 <= k < rows.len() && counts(#[trigger] rows[k]) ==> exists|i: int|
                0 <= i < grouped(rows).len() && (#[trigger] grouped(rows)[i]).team
                    == rows[k].team.bytes@,
    decreases rows.len(),
{
    if rows.len() > 0 {
        let prev = rows.drop_last();
        let row = rows.last();
        let g = grouped(prev);
        grouping_is_by_team(prev);
        let out = grouped(rows);
        assert forall|t: Seq<u8>| t != row.team.bytes@ || !counts(row) implies terms_of_team(rows, t)
            == terms_of_team(prev, t) by {}
        if !counts(row) {
            assert(out == g);
            assert forall|k: int| 0 <= k < rows.len() && counts(#[trigger] rows[k]) implies exists|i: int|
                0 <= i < out.len() && (#[trigger] out[i]).team == rows[k].team.bytes@ by {
                assert(rows[k] == prev[k]);
            }
        } else {
            let at = find_team(g, row.team.bytes@);
            if at >= 0 {
                find_team_found(g, row.team.bytes@);
                assert forall|i: int| 0 <= i < out.len() implies (#[trigger] out[i]).terms
                    == terms_of_team(rows, out[i].team) by {
                    if i != at {
                        assert(g[i].team != g[at].team);
                    }
                }
                assert forall|k: int| 0 <= k < rows.len() && counts(#[trigger] rows[k]) implies exists|i: int|
                    0 <= i < out.len() && (#[trigger] out[i]).team == rows[k].team.bytes@ by {
                    if k < prev.len() {
                        assert(rows[k] == prev[k]);
                        let i = choose|i: int| 0 <= i < g.len() && (#[trigger] g[i]).team == prev[k].team.bytes@;
                        assert(out[i].team == g[i].team);
                    } else {
                        assert(out[at].team == row.team.bytes@);
                    }
                }
            } else {
                find_team_none(g, row.team.bytes@);
                assert forall|k: int| 0 <= k < prev.len() && counts(#[trigger] prev[k]) implies prev[k].team.bytes@
                    != row.team.bytes@ by {
                    let i = choose|i: int| 0 <= i < g.len() && (#[trigger] g[i]).team == prev[k].team.bytes@;
                }
                no_terms_without_rows(prev, row.team.bytes@);
                assert(terms_of_team(rows, row.team.bytes@) =~= seq![term_of(row)]);
                assert forall|i: int| 0 <= i < out.len() implies (#[trigger] out[i]).terms
                    == terms_of_team(rows, out[i].team) by {
                    if i < g.len() {
                        assert(out[i] == g[i]);
                    }
                }
                assert forall|i: int, j: int| 0 <= i < j < out.len() implies #[trigger] out[i].team
                    != #[trigger] out[j].team by {
                    if j < g.len() {
                        assert(out[i] == g[i] && out[j] == g[j]);
                    } else {
                        assert(out[i] == g[i]);
                    }
                }
                assert forall|k: int| 0 <= k < rows.len() && counts(#[trigger] rows[k]) implies exists|i: int|
                    0 <= i < out.len() && (#[trigger] out[i]).team == rows[k].team.bytes@ by {
                    if k < prev.len() {
                        assert(rows[k] == prev[k]);
                        let i = choose|i: int| 0 <= i < g.len() && (#[trigger] g[i]).team == prev[k].team.bytes@;
                        assert(out[i] == g[i]);
                    } else {
                        assert(out[g.len() as int].team == row.team.bytes@);
                    }
                }
            }
        }
    }
}

/// Where an entry of the given score goes among ranked entries: before the
/// first one that does not beat it.
pub open spec fn insertion_point(ranked: Seq<ScoreboardEntry>, score: i64) -> int
    decreases ranked.len(),
{
    if ranked.len() == 0 {
        0
    } else if ranked[0].score <= score {
        0
    } else {
        1 + insertion_point(ranked.drop_first(), score)
    }
}

/// The scoreboard order of the entries: best score first; among equal
/// scores, entries that came later come first.
pub open spec fn ranked(entries: Seq<ScoreboardEntry>) -> Seq<ScoreboardEntry>
    decreases entries.len(),
{
    if entries.len() == 0 {
        seq![]
    } else {
        let rest = ranked(entries.drop_last());
        rest.insert(insertion_point(rest, entries.last().score), entries.last())
    }
}

proof fn insertion_point_is(ranked: Seq<ScoreboardEntry>, score: i64, at: int)
    requires
        0 <= at <= ranked.len(),
        forall|q: int| 0 <= q < at ==> #[trigger] ranked[q].score > score,
        at < ranked.len() ==> ranked[at].score <= score,
    ensures
        insertion_point(ranked, score) == at,
    decreases at,
{
    if at > 0 {
        assert(ranked[0].score > score);
        assert forall|q: int| 0 <= q < at - 1 implies #[trigger] ranked.drop_first()[q].score
            > score by {
            assert(ranked.drop_first()[q] == ranked[q + 1]);
        }
        insertion_point_is(ranked.drop_first(), score, at - 1);
    }
}

proof fn insertion_point_bounds(ranked: Seq<ScoreboardEntry>, score: i64)
    ensures
        0 <= insertion_point(ranked, score) <= ranked.len(),
        forall|q: int|
            0 <= q < insertion_point(ranked, score) ==> #[trigger] ranked[q].score > score,
        insertion_point(ranked, score) < ranked.len() ==> ranked[insertion_point(
            ranked,
            score,
        )].score <= score,
    decreases ranked.len(),
{
    if ranked.len() > 0 && ranked[0].score > score {
        insertion_point_bounds(ranked.drop_first(), score);
        assert forall|q: int| 0 <= q < insertion_point(ranked, score) implies #[trigger] ranked[q].score
            > score by {
            if q > 0 {
                assert(ranked[q] == ranked.drop_first()[q - 1]);
            }
        }
    }
}

/// Orders the scoreboard: best score first; among equal scores, entries
/// that came later come first.
pub fn rank(entries: Vec<ScoreboardEntry>) -> (res: Vec<ScoreboardEntry>)
    ensures
        res@ == ranked(entries@),
{
    let ghost given = entries@;
    let mut pending = entries;
    let mut out: Vec<ScoreboardEntry> = Vec::new();
    let n = pending.len();
    let mut k: usize = 0;
    while k < n
        invariant
            k <= n,
            n == given.len(),
            pending@ == given.skip(k as int),
            out@ == ranked(given.take(k as int)),
        decreases n - k,
    {
        let entry = pending.remove(0);
        assert(entry == given[k as int]);
        let mut p: usize = 0;
        while p < out.len() && out[p].score > entry.score
            invariant
                p <= out@.len(),
                forall|q: int| 0 <= q < p ==> #[trigger] out@[q].score > entry.score,
            decreases out@.len() - p,
        {
            p = p + 1;
        }
        proof {
            insertion_point_is(out@, entry.score, p as int);
            assert(given.take(k as int + 1).drop_last() =~= given.take(k as int));
        }
        out.insert(p, entry);
        k = k + 1;
        assert(pending@ =~= given.skip(k as int));
    }
    assert(given.take(n as int) =~= given);
    out
}

/// Whether entries are ordered from the best score down.
pub open spec fn best_first(entries: Seq<ScoreboardEntry>) -> bool {
    forall|i: int, j: int| 0 <= i < j < entries.len() ==> entries[i].score >= entries[j].score
}

/// The scoreboard lists the entries it was given, each exactly once, from
/// the best score down.
pub proof fn ranking_orders_and_keeps_entries(entries: Seq<ScoreboardEntry>)
    ensures
        best_first(ranked(entries)),
        ranked(entries).to_multiset() == entries.to_multiset(),
        ranked(entries).len() == entries.len(),
    decreases entries.len(),
{
    broadcast use vstd::seq_lib::to_multiset_insert, vstd::seq_lib::to_multiset_build;

    if entries.len() > 0 {
        let rest = ranked(entries.drop_last());
        let x = entries.last();
        ranking_orders_and_keeps_entries(entries.drop_last());
        insertion_point_bounds(rest, x.score);
        let p = insertion_point(rest, x.score);
        let r = rest.insert(p, x);
        assert(r == ranked(entries));
        assert forall|i: int, j: int| 0 <= i < j < r.len() implies r[i].score >= r[j].score by {
            if j < p {
                assert(r[i] == rest[i] && r[j] == rest[j]);
            } else if j == p {
                assert(r[i] == rest[i]);
            } else if i < p {
                assert(r[i] == rest[i] && r[j] == rest[j - 1]);
                assert(rest[p].score <= x.score);
            } else if i == p {
                assert(r[j] == rest[j - 1]);
                assert(rest[p].score <= x.score);
            } else {
                assert(r[i] == rest[i - 1] && r[j] == rest[j - 1]);
            }
        }
        assert(entries.drop_last().push(x) =~= entries);
    } else {
        assert(entries =~= ranked(entries));
    }
}

} // verus!

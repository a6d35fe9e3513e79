use vstd::prelude::*;

use crate::error::{single_error, Error, ErrorResponse, PuzzleError, Source};
use crate::id::Uid;
use crate::text::{decimal, write_decimal};

verus! {

/// How hard a puzzle is.
#[derive(Clone, Copy, Debug, PartialEq, Eq, Structural)]
pub enum Difficulty {
    VeryHard,
    Hard,
    Moderate,
    Easy,
    VeryEasy,
}

/// The field a puzzle belongs to.
#[derive(Clone, Copy, Debug, PartialEq, Eq, Structural)]
pub enum Category {
    Cryptography,
    ReverseEngineering,
    BinaryExploitation,
    NetworkSecurity,
    WebSecurity,
    Forensics,
    Steganography,
    OSINT,
    Miscellaneous,
}

/// The fields a puzzle belongs to.
pub struct Categories(pub Vec<Category>);

/// The clues of a puzzle, in the order they are handed out.
pub struct Clues(pub Vec<String>);

/// A puzzle as it is shown to a team; `start` and `end` are instants in
/// microseconds since the Unix epoch, and `ommit` tells whether the team has
/// solved it.
pub struct Puzzle {
    pub id: Uid,
    pub difficulty: Difficulty,
    pub categories: Categories,
    pub points: i16,
    pub name: String,
    pub prompt: String,
    pub clues: Option<Clues>,
    pub start: Option<i64>,
    pub end: Option<i64>,
    pub ommit: bool,
}

/// Whether the clue at position `i` is shown to a team that used `used`
/// clues; a negative count, which cannot be skipped past, hides nothing.
pub open spec fn shown(i: int, used: i16) -> bool {
    used < 0 || i < used
}

/// The clues as a team that used `used` of them sees them: the others are
/// blanked.
pub open spec fn hidden(clues: Seq<Seq<char>>, used: i16) -> Seq<Seq<char>> {
    Seq::new(clues.len(), |i: int| if shown(i, used) { clues[i] } else { Seq::<char>::empty() })
}

/// The texts of the clues.
pub open spec fn clue_texts(clues: Seq<String>) -> Seq<Seq<char>> {
    clues.map_values(|c: String| c@)
}

impl Clues {
    /// Blanks the clues that a team that used `used` clues has not been
    /// given yet.
    pub fn hide_unused(&mut self, used: i16)
        ensures
            clue_texts(final(self).0@) == hidden(clue_texts(old(self).0@), used),
            final(self).0@.len() == old(self).0@.len(),
            forall|i: int|
                0 <= i < old(self).0@.len() ==> (#[trigger] final(self).0@[i])@ == if 0 <= used
                    <= i {
                    Seq::<char>::empty()
                } else {
                    old(self).0@[i]@
                },
    {
        proof {
            blank_from_used_on(clue_texts(self.0@), used);
        }
        if used < 0 {
            assert(clue_texts(self.0@) =~= hidden(clue_texts(self.0@), used));
            return;
        }
        let ghost before = clue_texts(self.0@);
        let mut i: usize = used as usize;
        let n = self.0.len();
        if i > n {
            assert(clue_texts(self.0@) =~= hidden(before, used));
            return;
        }
        while i < n
            invariant
                used >= 0,
                used as int <= i <= n,
                n == self.0@.len(),
                before.len() == n,
                forall|k: int|
                    0 <= k < n ==> #[trigger] self.0@[k]@ == if k < used as int || k >= i {
                        before[k]
                    } else {
                        Seq::<char>::empty()
                    },
            decreases n - i,
        {
            self.0.set(i, String::new());
            i = i + 1;
        }
        assert(clue_texts(self.0@) =~= hidden(before, used));
    }
}

impl Puzzle {
    /// Blanks the clues that the asking team, having used `used_count`
    /// clues, has not been given yet.
    pub fn hide_unused_clues(&mut self, used_count: i16)
        ensures
            match (old(self).clues, final(self).clues) {
                (Some(before), Some(after)) => clue_texts(after.0@) == hidden(
                    clue_texts(before.0@),
                    used_count,
                ),
                (None, None) => true,
                _ => false,
            },
            final(self).id == old(self).id,
            final(self).points == old(self).points,
            final(self).name == old(self).name,
            final(self).prompt == old(self).prompt,
            final(self).ommit == old(self).ommit,
            final(self).difficulty == old(self).difficulty,
            final(self).categories == old(self).categories,
            final(self).start == old(self).start,
            final(self).end == old(self).end,
    {
        match &mut self.clues {
            Some(clues) => clues.hide_unused(used_count),
            None => {},
        }
    }
}

/// What a team that used `used` clues sees: the clues before position
/// `used` as they are, and every clue from `used` on blanked, however many
/// clues there are; a negative count blanks nothing.
pub proof fn blank_from_used_on(clues: Seq<Seq<char>>, used: i16)
    ensures
        hidden(clues, used).len() == clues.len(),
        forall|i: int|
            0 <= i < clues.len() ==> #[trigger] hidden(clues, used)[i] == if 0 <= used <= i {
                Seq::<char>::empty()
            } else {
                clues[i]
            },
{
}

/// Hiding is settled by the number of clues used: hiding again with the
/// same count changes nothing, and a team that used fewer clues never sees
/// more than one that used more.
pub proof fn hiding_laws(clues: Seq<Seq<char>>, fewer: i16, more: i16)
    requires
        0 <= fewer <= more,
    ensures
        hidden(hidden(clues, more), more) == hidden(clues, more),
        hidden(hidden(clues, more), fewer) == hidden(clues, fewer),
        hidden(clues, more).len() == clues.len(),
        more as int >= clues.len() ==> hidden(clues, more) == clues,
{
    assert(hidden(hidden(clues, more), more) =~= hidden(clues, more));
    assert(hidden(hidden(clues, more), fewer) =~= hidden(clues, fewer));
    if more as int >= clues.len() {
        assert(hidden(clues, more) =~= clues);
    }
}

/// The number that sixteen bytes spell, least significant byte first.
pub open spec fn le_value(bytes: Seq<u8>) -> nat
    decreases bytes.len(),
{
    if bytes.len() == 0 {
        0
    } else {
        bytes[0] as nat + 256 * le_value(bytes.drop_first())
    }
}

/// 256 to the power `k`.
pub open spec fn pow256(k: nat) -> nat
    decreases k,
{
    if k == 0 { 1 } else { 256 * pow256((k - 1) as nat) }
}

proof fn le_value_bound(bytes: Seq<u8>)
    ensures
        le_value(bytes) < pow256(bytes.len()),
    decreases bytes.len(),
{
    if bytes.len() > 0 {
        le_value_bound(bytes.drop_first());
        let rest = le_value(bytes.drop_first());
        let p = pow256(bytes.drop_first().len());
        assert(bytes[0] as nat + 256 * rest < 256 * p) by (nonlinear_arith)
            requires
                rest < p,
                bytes[0] < 256,
        ;
    }
}

/// The identifier read as a number with its first byte least significant,
/// as `uuid::Uuid::to_u128_le` reads it.
pub open spec fn le_number(id: Uid) -> u128 {
    le_value(id.bytes@) as u128
}

/// The identifier read as a number with its first byte least significant.
pub fn to_u128_le(id: &Uid) -> (res: u128)
    ensures
        res == le_number(*id),
        res as nat == le_value(id.bytes@),
{
    let mut value: u128 = 0;
    let mut k: usize = 16;
    proof {
        reveal_with_fuel(pow256, 17);
        assert(id.bytes@.skip(16) =~= Seq::<u8>::empty());
    }
    while k > 0
        invariant
            k <= 16,
            value as nat == le_value(id.bytes@.skip(k as int)),
            id.bytes@.len() == 16,
        decreases k,
    {
        let ghost tail = id.bytes@.skip(k as int);
        let ghost longer = id.bytes@.skip(k - 1);
        proof {
            assert(longer.drop_first() =~= tail);
            assert(longer[0] == id.bytes@[k - 1]);
            le_value_bound(tail);
            reveal_with_fuel(pow256, 17);
            assert(tail.len() <= 15);
            pow256_monotone(tail.len(), 15);
            assert(pow256(15) * 256 == 0x1_0000_0000_0000_0000_0000_0000_0000_0000);
            assert(value * 256 + 255 < 0x1_0000_0000_0000_0000_0000_0000_0000_0000) by (
            nonlinear_arith)
                requires
                    value < pow256(15),
                    pow256(15) * 256 == 0x1_0000_0000_0000_0000_0000_0000_0000_0000,
            ;
        }
        value = value * 256 + id.bytes[k - 1] as u128;
        k = k - 1;
    }
    assert(id.bytes@.skip(0) =~= id.bytes@);
    value
}

proof fn pow256_monotone(a: nat, b: nat)
    requires
        a <= b,
    ensures
        pow256(a) <= pow256(b),
    decreases b,
{
    if a < b {
        pow256_monotone(a, (b - 1) as nat);
    }
}

/// The flag of the puzzle whose flag is made from the identifiers: `vf[`,
/// the decimal numeral of the exclusive or of the team and the puzzle read
/// least-significant-byte first, and `]`.
pub open spec fn cake_flag_text(puzzle: Uid, team: Uid) -> Seq<char> {
    "vf["@ + decimal((le_number(team) ^ le_number(puzzle)) as nat) + "]"@
}

/// The flag a team must submit for the puzzle whose flag is made from the
/// identifiers.
pub fn cake_flag(puzzle: &Uid, team: &Uid) -> (res: String)
    ensures
        res@ == cake_flag_text(*puzzle, *team),
{
    let contents = to_u128_le(team) ^ to_u128_le(puzzle);
    let mut flag = String::from_str("vf[");
    write_decimal(contents, &mut flag);
    flag.append("]");
    flag
}

/// Whether a submitted flag is the flag of the puzzle whose flag is made
/// from the identifiers.
pub fn is_cake_flag(puzzle: &Uid, team: &Uid, flag: &String) -> (res: bool)
    ensures
        res == (flag@ == cake_flag_text(*puzzle, *team)),
{
    let expected = cake_flag(puzzle, team);
    *flag == expected
}

/// Whether a puzzle is the one whose flag is made from the identifiers of
/// puzzle and team (the cake), rather than judged by its script.
pub fn is_cake_puzzle(puzzle: &Uid, cake: &Uid) -> (res: bool)
    ensures
        res == (puzzle.bytes@ == cake.bytes@),
{
    puzzle.equals(cake)
}

/// The answer to a submission, given whether its flag is correct and how
/// recording the attempt went: no verdict is given for a submission that
/// could not be recorded, whose failure is the answer instead.
pub fn submission_answer(correct: bool, recorded: Result<usize, ErrorResponse>) -> (res: Result<
    (),
    ErrorResponse,
>)
    ensures
        match recorded {
            Err(failure) => res == Err::<(), ErrorResponse>(failure),
            Ok(_) => if correct {
                res is Ok
            } else {
                res matches Err(r) && single_error(
                    r,
                    Source::Puzzle(PuzzleError::IncorrectFlag),
                    "Flag is incorrect"@,
                )
            },
        },
{
    match recorded {
        Err(failure) => Err(failure),
        Ok(_) => submission_outcome(correct),
    }
}

/// The outcome of a submission, once it has been recorded: an incorrect
/// flag is an error.
pub fn submission_outcome(correct: bool) -> (res: Result<(), ErrorResponse>)
    ensures
        correct ==> res is Ok,
        !correct ==> (res matches Err(r) && r.wf() && r.chain().len() == 1
            && r.root().error_type == Source::Puzzle(PuzzleError::IncorrectFlag)
            && r.root().message@ == "Flag is incorrect"@),
{
    if correct {
        Ok(())
    } else {
        Err(ErrorResponse::new(Error::puzzle(PuzzleError::IncorrectFlag, String::from_str("Flag is incorrect"))))
    }
}

/// The first gzip archive among the entries of a directory listing, if
/// there is one: `None` for a missing or unreadable directory and for one
/// without an archive.
pub open spec fn archive_listed(listing: Listing) -> Option<Seq<char>> {
    match listing {
        Listing::Entries(entries) => if exists|i: int|
            0 <= i < entries@.len() && is_archive(#[trigger] entries@[i]) {
            let i = choose|i: int|
                0 <= i < entries@.len() && is_archive(#[trigger] entries@[i]) && forall|k: int|
                    0 <= k < i ==> !is_archive(#[trigger] entries@[k]);
            Some(entries@[i].path@)
        } else {
            None
        },
        _ => None,
    }
}

/// The outcome of a puzzle's generator for a team, given whether it ran
/// (`None` where its output directory already existed, so it did not run;
/// `Err` with the reason where it could not be run; `Ok` with whether it
/// exited successfully) and the listing of its output directory afterwards.
/// A generator that failed is an error; otherwise the outcome is the path
/// of the archive it left, or `None` where no archive is found yet, in
/// which case the archive is looked for again by the next request.
pub fn generator_outcome(run: Option<Result<bool, String>>, listing: Listing) -> (res: Result<
    Option<String>,
    ErrorResponse,
>)
    ensures
        match run {
            Some(Ok(false)) => res matches Err(r) && single_error(
                r,
                Source::Puzzle(PuzzleError::Generator),
                "Generator exited with an error code"@,
            ),
            Some(Err(reason)) => res matches Err(r) && single_error(
                r,
                Source::Puzzle(PuzzleError::Generator),
                "Could not run generator: "@ + reason@,
            ),
            _ => match archive_listed(listing) {
                Some(path) => res matches Ok(Some(p)) && p@ == path,
                None => res matches Ok(None),
            },
        },
{
    match run {
        Some(Ok(false)) => {
            return Err(ErrorResponse::new(Error::puzzle(
                PuzzleError::Generator,
                String::from_str("Generator exited with an error code"),
            )));
        },
        Some(Err(reason)) => {
            let mut message = String::from_str("Could not run generator: ");
            message.append(reason.as_str());
            return Err(ErrorResponse::new(Error::puzzle(PuzzleError::Generator, message)));
        },
        _ => {},
    }
    match listing {
        Listing::Entries(entries) => {
            let gz = String::from_str("gz");
            let n = entries.len();
            for i in 0..n
                invariant
                    n == entries@.len(),
                    gz@ == "gz"@,
                    listing == Listing::Entries(entries),
                    run is None || run == Some(Ok::<bool, String>(true)),
                    forall|k: int| 0 <= k < i ==> !is_archive(#[trigger] entries@[k]),
            {
                let entry = &entries[i];
                if entry.is_file {
                    match &entry.extension {
                        Some(e) => if *e == gz {
                            proof {
                                let j = choose|j: int|
                                    0 <= j < entries@.len() && is_archive(#[trigger] entries@[j])
                                        && forall|k: int| 0 <= k < j ==> !is_archive(
                                        #[trigger] entries@[k],
                                    );
                                assert(is_archive(entries@[i as int]));
                                if j < i {
                                    assert(!is_archive(entries@[j]));
                                } else if j > i {
                                    assert(!is_archive(entries@[i as int]));
                                }
                            }
                            return Ok(Some(entry.path.clone()));
                        },
                        None => {},
                    }
                }
            }
            Ok(None)
        },
        _ => Ok(None),
    }
}

/// Whether a flag is accepted, given the outcome of running the puzzle's
/// script that judges flags: `Err` with the reason where it could not be
/// run, `Ok` with whether it exited successfully otherwise.
pub fn flag_verdict(run: Result<bool, String>) -> (res: Result<bool, ErrorResponse>)
    ensures
        match run {
            Ok(passed) => res == Ok::<bool, ErrorResponse>(passed),
            Err(reason) => res matches Err(r) && single_error(
                r,
                Source::Puzzle(PuzzleError::Generator),
                "Could not run check: "@ + reason@,
            ),
        },
{
    match run {
        Ok(passed) => Ok(passed),
        Err(reason) => {
            let mut message = String::from_str("Could not run check: ");
            message.append(reason.as_str());
            Err(ErrorResponse::new(Error::puzzle(PuzzleError::Generator, message)))
        },
    }
}

/// The categories of each puzzle, paired with the puzzle's position.
pub open spec fn puzzle_pairs(categories: Seq<Category>, at: usize) -> Seq<(Category, usize)> {
    categories.map_values(|c: Category| (c, at))
}

/// Every (category, puzzle position) pair, puzzle by puzzle and, within a
/// puzzle, in the order of its categories.
pub open spec fn category_pairs(categories: Seq<Seq<Category>>) -> Seq<(Category, usize)>
    decreases categories.len(),
{
    if categories.len() == 0 {
        seq![]
    } else {
        category_pairs(categories.drop_last()) + puzzle_pairs(
            categories.last(),
            (categories.len() - 1) as usize,
        )
    }
}

/// The last position of a category among the buckets, or -1.
pub open spec fn find_category(buckets: Seq<(Category, Seq<usize>)>, category: Category) -> int
    decreases buckets.len(),
{
    if buckets.len() == 0 {
        -1
    } else if buckets.last().0 == category {
        buckets.len() - 1
    } else {
        find_category(buckets.drop_last(), category)
    }
}

/// The pairs put in one bucket per category: categories in the order they
/// first appear, each bucket holding the puzzle positions in order (a
/// puzzle that lists a category twice appears twice in its bucket).
pub open spec fn bucketed(pairs: Seq<(Category, usize)>) -> Seq<(Category, Seq<usize>)>
    decreases pairs.len(),
{
    if pairs.len() == 0 {
        seq![]
    } else {
        let buckets = bucketed(pairs.drop_last());
        let (category, at) = pairs.last();
        let found = find_category(buckets, category);
        if found >= 0 {
            buckets.update(found, (category, buckets[found].1.push(at)))
        } else {
            buckets.push((category, seq![at]))
        }
    }
}

proof fn find_category_is(buckets: Seq<(Category, Seq<usize>)>, category: Category, at: int)
    requires
        -1 <= at < buckets.len(),
        at >= 0 ==> buckets[at].0 == category,
        forall|m: int| at < m < buckets.len() ==> #[trigger] buckets[m].0 != category,
    ensures
        find_category(buckets, category) == at,
    decreases buckets.len(),
{
    if buckets.len() > 0 && at < buckets.len() - 1 {
        find_category_is(buckets.drop_last(), category, at);
    }
}

/// The positions, in order, paired with a category.
pub open spec fn positions_of(pairs: Seq<(Category, usize)>, category: Category) -> Seq<usize>
    decreases pairs.len(),
{
    if pairs.len() == 0 {
        seq![]
    } else {
        let before = positions_of(pairs.drop_last(), category);
        if pairs.last().0 == category {
            before.push(pairs.last().1)
        } else {
            before
        }
    }
}

proof fn find_category_none(buckets: Seq<(Category, Seq<usize>)>, category: Category)
    requires
        find_category(buckets, category) < 0,
    ensures
        forall|m: int| 0 <= m < buckets.len() ==> #[trigger] buckets[m].0 != category,
    decreases buckets.len(),
{
    if buckets.len() > 0 {
        find_category_none(buckets.drop_last(), category);
        assert forall|m: int| 0 <= m < buckets.len() implies #[trigger] buckets[m].0 != category by {
            if m < buckets.len() - 1 {
                assert(buckets[m] == buckets.drop_last()[m]);
            }
        }
    }
}

proof fn find_category_found(buckets: Seq<(Category, Seq<usize>)>, category: Category)
    requires
        find_category(buckets, category) >= 0,
    ensures
        find_category(buckets, category) < buckets.len(),
        buckets[find_category(buckets, category)].0 == category,
    decreases buckets.len(),
{
    if buckets.len() > 0 && buckets.last().0 != category {
        find_category_found(buckets.drop_last(), category);
    }
}

proof fn no_positions_without_pairs(pairs: Seq<(Category, usize)>, category: Category)
    requires
        forall|k: int| 0 <= k < pairs.len() ==> (#[trigger] pairs[k]).0 != category,
    ensures
        positions_of(pairs, category) == Seq::<usize>::empty(),
    decreases pairs.len(),
{
    if pairs.len() > 0 {
        assert forall|k: int| 0 <= k < pairs.drop_last().len() implies (
        #[trigger] pairs.drop_last()[k]).0 != category by {
            assert(pairs.drop_last()[k] == pairs[k]);
        }
        no_positions_without_pairs(pairs.drop_last(), category);
    }
}

/// Sorting by category puts every puzzle under each category it lists
/// and nowhere else: each category appears once, and its bucket holds
/// exactly the puzzles that list it, in order; every listed category has a
/// bucket.
pub proof fn buckets_are_by_category(pairs: Seq<(Category, usize)>)
    ensures
        forall|i: int, j: int|
            0 <= i < j < bucketed(pairs).len() ==> #[trigger] bucketed(pairs)[i].0
                != #[trigger] bucketed(pairs)[j].0,
        forall|i: int|
            0 <= i < bucketed(pairs).len() ==> (#[trigger] bucketed(pairs)[i]).1 == positions_of(
                pairs,
                bucketed(pairs)[i].0,
            ),
        forall|k: int|
            0 <= k < pairs.len() ==> exists|i: int|
                0 <= i < bucketed(pairs).len() && (#[trigger] bucketed(pairs)[i]).0 == (
                #[trigger] pairs[k]).0,
    decreases pairs.len(),
{
    if pairs.len() > 0 {
        let prev = pairs.drop_last();
        let (category, at) = pairs.last();
        let b = bucketed(prev);
        buckets_are_by_category(prev);
        let out = bucketed(pairs);
        let found = find_category(b, category);
        if found >= 0 {
            find_category_found(b, category);
            assert forall|i: int| 0 <= i < out.len() implies (#[trigger] out[i]).1 == positions_of(
                pairs,
                out[i].0,
            ) by {
                if i != found {
                    assert(b[i].0 != b[found].0);
                }
            }
            assert forall|k: int| 0 <= k < pairs.len() implies exists|i: int|
                0 <= i < out.len() && (#[trigger] out[i]).0 == (#[trigger] pairs[k]).0 by {
                if k < prev.len() {
                    assert(pairs[k] == prev[k]);
                    let i = choose|i: int| 0 <= i < b.len() && (#[trigger] b[i]).0 == prev[k].0;
                    assert(out[i].0 == b[i].0);
                } else {
                    assert(out[found].0 == category);
                }
            }
        } else {
            find_category_none(b, category);
            assert forall|k: int| 0 <= k < prev.len() implies (#[trigger] prev[k]).0 != category by {
                let i = choose|i: int| 0 <= i < b.len() && (#[trigger] b[i]).0 == prev[k].0;
            }
            no_positions_without_pairs(prev, category);
            assert(positions_of(pairs, category) =~= seq![at]);
            assert forall|i: int| 0 <= i < out.len() implies (#[trigger] out[i]).1 == positions_of(
                pairs,
                out[i].0,
            ) by {
                if i < b.len() {
                    assert(out[i] == b[i]);
                }
            }
            assert forall|i: int, j: int| 0 <= i < j < out.len() implies #[trigger] out[i].0
                != #[trigger] out[j].0 by {
                if j < b.len() {
                    assert(out[i] == b[i] && out[j] == b[j]);
                } else {
                    assert(out[i] == b[i]);
                }
            }
            assert forall|k: int| 0 <= k < pairs.len() implies exists|i: int|
                0 <= i < out.len() && (#[trigger] out[i]).0 == (#[trigger] pairs[k]).0 by {
                if k < prev.len() {
                    assert(pairs[k] == prev[k]);
                    let i = choose|i: int| 0 <= i < b.len() && (#[trigger] b[i]).0 == prev[k].0;
                    assert(out[i] == b[i]);
                } else {
                    assert(out[b.len() as int].0 == category);
                }
            }
        }
    }
}

proof fn positions_hold_their_pairs(pairs: Seq<(Category, usize)>, k: int)
    requires
        0 <= k < pairs.len(),
    ensures
        positions_of(pairs, pairs[k].0).contains(pairs[k].1),
    decreases pairs.len(),
{
    let last = pairs.len() - 1;
    if k == last {
        assert(positions_of(pairs, pairs[k].0).last() == pairs[k].1);
    } else {
        assert(pairs.drop_last()[k] == pairs[k]);
        positions_hold_their_pairs(pairs.drop_last(), k);
        let before = positions_of(pairs.drop_last(), pairs[k].0);
        let i = choose|i: int| 0 <= i < before.len() && before[i] == pairs[k].1;
        if pairs.last().0 == pairs[k].0 {
            assert(positions_of(pairs, pairs[k].0)[i] == before[i]);
        }
    }
}

proof fn pairs_hold_their_puzzles(cats: Seq<Seq<Category>>, p: int, j: int)
    requires
        cats.len() <= usize::MAX,
        0 <= p < cats.len(),
        0 <= j < cats[p].len(),
    ensures
        exists|k: int|
            0 <= k < category_pairs(cats).len() && #[trigger] category_pairs(cats)[k] == (
                cats[p][j],
                p as usize,
            ),
    decreases cats.len(),
{
    let prev = category_pairs(cats.drop_last());
    let tail = puzzle_pairs(cats.last(), (cats.len() - 1) as usize);
    assert(category_pairs(cats) == prev + tail);
    if p == cats.len() - 1 {
        let k = prev.len() + j;
        assert(category_pairs(cats)[k] == tail[j]);
    } else {
        assert(cats.drop_last()[p] == cats[p]);
        pairs_hold_their_puzzles(cats.drop_last(), p, j);
        let k = choose|k: int|
            0 <= k < prev.len() && #[trigger] prev[k] == (cats[p][j], p as usize);
        assert(category_pairs(cats)[k] == prev[k]);
    }
}

/// Every puzzle is listed under each category it names: for every puzzle
/// position `p` and every category `c` of puzzle `p`, the bucket of `c`
/// holds `p`.
pub proof fn each_puzzle_is_under_its_categories(cats: Seq<Seq<Category>>)
    requires
        cats.len() <= usize::MAX,
    ensures
        forall|p: int, j: int|
            0 <= p < cats.len() && 0 <= j < cats[p].len() ==> exists|i: int|
                0 <= i < bucketed(category_pairs(cats)).len() && (#[trigger] bucketed(
                    category_pairs(cats),
                )[i]).0 == #[trigger] cats[p][j] && bucketed(category_pairs(cats))[i].1.contains(
                    p as usize,
                ),
{
    let pairs = category_pairs(cats);
    buckets_are_by_category(pairs);
    assert forall|p: int, j: int| 0 <= p < cats.len() && 0 <= j < cats[p].len() implies exists|i: int|
        0 <= i < bucketed(pairs).len() && (#[trigger] bucketed(pairs)[i]).0 == #[trigger] cats[p][j]
            && bucketed(pairs)[i].1.contains(p as usize) by {
        pairs_hold_their_puzzles(cats, p, j);
        let k = choose|k: int| 0 <= k < pairs.len() && #[trigger] pairs[k] == (cats[p][j], p as usize);
        positions_hold_their_pairs(pairs, k);
        let i = choose|i: int| 0 <= i < bucketed(pairs).len() && (#[trigger] bucketed(pairs)[i]).0 == pairs[k].0;
        assert(bucketed(pairs)[i].1 == positions_of(pairs, bucketed(pairs)[i].0));
    }
}

/// The buckets as values.
pub open spec fn bucket_values(buckets: Seq<(Category, Vec<usize>)>) -> Seq<(Category, Seq<usize>)> {
    buckets.map_values(|b: (Category, Vec<usize>)| (b.0, b.1@))
}

/// The categories of every puzzle.
pub open spec fn puzzle_categories(puzzles: Seq<Puzzle>) -> Seq<Seq<Category>> {
    puzzles.map_values(|p: Puzzle| p.categories.0@)
}

/// Sorts the puzzles by category: for each category, the positions of the
/// puzzles that list it. The buckets are kept in a vector, in the order the
/// categories first appear, and not in a hash map, whose walking order
/// changes from one run to the next and could not be stated.
pub fn by_category(puzzles: &Vec<Puzzle>) -> (res: Vec<(Category, Vec<usize>)>)
    ensures
        bucket_values(res@) == bucketed(category_pairs(puzzle_categories(puzzles@))),
        forall|p: int, j: int|
            0 <= p < puzzles@.len() && 0 <= j < puzzles@[p].categories.0@.len() ==> exists|i: int|
                0 <= i < res@.len() && (#[trigger] res@[i]).0 == #[trigger] puzzles@[p].categories.0@[j]
                    && res@[i].1@.contains(p as usize),
{
    let ghost cats = puzzle_categories(puzzles@);
    let mut buckets: Vec<(Category, Vec<usize>)> = Vec::new();
    let n = puzzles.len();
    for p in 0..n
        invariant
            n == puzzles@.len(),
            cats == puzzle_categories(puzzles@),
            bucket_values(buckets@) == bucketed(category_pairs(cats.take(p as int))),
    {
        let categories = &puzzles[p].categories.0;
        let m = categories.len();
        assert(cats[p as int] == categories@);
        for j in 0..m
            invariant
                n == puzzles@.len(),
                p < n,
                cats == puzzle_categories(puzzles@),
                m == categories@.len(),
                cats[p as int] == categories@,
                bucket_values(buckets@) == bucketed(
                    category_pairs(cats.take(p as int)) + puzzle_pairs(categories@, p).take(
                        j as int,
                    ),
                ),
        {
            let category = categories[j];
            let ghost before = bucket_values(buckets@);
            let ghost pairs = category_pairs(cats.take(p as int)) + puzzle_pairs(
                categories@,
                p,
            ).take(j as int);
            let ghost next = category_pairs(cats.take(p as int)) + puzzle_pairs(
                categories@,
                p,
            ).take(j as int + 1);
            assert(next.drop_last() =~= pairs);
            assert(next.last() == (category, p));
            let mut k = buckets.len();
            while k > 0
                invariant
                    k <= buckets@.len(),
                    bucket_values(buckets@) == before,
                    forall|q: int| k <= q < before.len() ==> #[trigger] before[q].0 != category,
                ensures
                    k <= buckets@.len(),
                    bucket_values(buckets@) == before,
                    forall|q: int| k <= q < before.len() ==> #[trigger] before[q].0 != category,
                    k > 0 ==> before[k - 1].0 == category,
                decreases k,
            {
                if buckets[k - 1].0 == category {
                    assert(before[k - 1].0 == buckets@[k - 1].0);
                    break;
                }
                k = k - 1;
            }
            if k > 0 && buckets[k - 1].0 == category {
                proof {
                    find_category_is(before, category, k - 1);
                }
                let (c, mut positions) = buckets.remove(k - 1);
                positions.push(p);
                buckets.insert(k - 1, (c, positions));
                assert(bucket_values(buckets@) =~= bucketed(next));
            } else {
                proof {
                    find_category_is(before, category, -1);
                }
                let mut positions: Vec<usize> = Vec::new();
                positions.push(p);
                buckets.push((category, positions));
                assert(bucket_values(buckets@) =~= bucketed(next));
            }
        }
        assert(puzzle_pairs(categories@, p).take(m as int) =~= puzzle_pairs(categories@, p));
        assert(cats.take(p as int + 1).drop_last() =~= cats.take(p as int));
        assert(cats.take(p as int + 1).last() == categories@);
    }
    assert(cats.take(n as int) =~= cats);
    proof {
        each_puzzle_is_under_its_categories(cats);
        assert forall|p: int, j: int|
            0 <= p < puzzles@.len() && 0 <= j < puzzles@[p].categories.0@.len() implies exists|i: int|
                0 <= i < buckets@.len() && (#[trigger] buckets@[i]).0
                    == #[trigger] puzzles@[p].categories.0@[j] && buckets@[i].1@.contains(
                    p as usize,
                ) by {
            assert(cats[p] == puzzles@[p].categories.0@);
            assert(cats[p][j] == puzzles@[p].categories.0@[j]);
            let i = choose|i: int|
                0 <= i < bucketed(category_pairs(cats)).len() && (#[trigger] bucketed(
                    category_pairs(cats),
                )[i]).0 == cats[p][j] && bucketed(category_pairs(cats))[i].1.contains(p as usize);
            assert(bucket_values(buckets@)[i] == (buckets@[i].0, buckets@[i].1@));
        }
    }
    buckets
}

/// An entry of a directory, as far as the search for an archive reads it.
pub struct DirEntryInfo {
    pub is_file: bool,
    pub extension: Option<String>,
    pub path: String,
}

/// The listing of a directory.
pub enum Listing {
    /// The directory does not exist.
    Missing,
    /// The directory could not be read, for the given reason.
    Unreadable(String),
    /// The readable entries of the directory.
    Entries(Vec<DirEntryInfo>),
}

/// Whether an entry is a gzip archive: a file whose extension is `gz`.
pub open spec fn is_archive(entry: DirEntryInfo) -> bool {
    &&& entry.is_file
    &&& entry.extension matches Some(e) && e@ == "gz"@
}

/// Finds the archive a generator left in its output directory: none if the
/// directory does not exist yet, the first gzip archive of it otherwise;
/// an unreadable directory or one without an archive is an error.
pub fn find_output(listing: Listing) -> (res: Result<Option<String>, ErrorResponse>)
    ensures
        match listing {
            Listing::Missing => res matches Ok(None),
            Listing::Unreadable(reason) => res matches Err(r) && single_error(
                r,
                Source::Puzzle(PuzzleError::Io),
                reason@,
            ),
            Listing::Entries(entries) => if exists|i: int|
                0 <= i < entries@.len() && is_archive(#[trigger] entries@[i]) {
                res matches Ok(Some(path)) && exists|i: int|
                    0 <= i < entries@.len() && is_archive(#[trigger] entries@[i]) && path
                        == entries@[i].path && forall|k: int| 0 <= k < i ==> !is_archive(
                        #[trigger] entries@[k],
                    )
            } else {
                res matches Err(r) && single_error(
                    r,
                    Source::Puzzle(PuzzleError::FilesMissing),
                    "Could not find an output .tar.gz"@,
                )
            },
        },
{
    match listing {
        Listing::Missing => Ok(None),
        Listing::Unreadable(reason) => Err(ErrorResponse::new(Error::puzzle(PuzzleError::Io, reason))),
        Listing::Entries(entries) => {
            let gz = String::from_str("gz");
            let n = entries.len();
            for i in 0..n
                invariant
                    n == entries@.len(),
                    gz@ == "gz"@,
                    listing == Listing::Entries(entries),
                    forall|k: int| 0 <= k < i ==> !is_archive(#[trigger] entries@[k]),
            {
                let entry = &entries[i];
                if entry.is_file {
                    match &entry.extension {
                        Some(e) => if *e == gz {
                            return Ok(Some(entry.path.clone()));
                        },
                        None => {},
                    }
                }
            }
            Err(ErrorResponse::new(Error::puzzle(
                PuzzleError::FilesMissing,
                String::from_str("Could not find an output .tar.gz"),
            )))
        },
    }
}

/// Where the generation of a team's files for a puzzle stands.
pub enum Generation {
    /// No generation was started.
    Idle,
    /// A generation is running.
    Running,
    /// The last generation finished well.
    Succeeded,
    /// The last generation failed with the given response.
    Failed(ErrorResponse),
    /// The last generation stopped without an outcome.
    Crashed,
}

/// Whether a request for a puzzle's files may look for the archive, given
/// where its generation stands: not while a generation runs, nor after one
/// that failed.
pub fn generation_gate(state: Generation) -> (res: Result<(), ErrorResponse>)
    ensures
        match state {
            Generation::Idle | Generation::Succeeded => res is Ok,
            Generation::Running => res matches Err(r) && single_error(
                r,
                Source::Internal,
                "The files are still being generated. Try again later"@,
            ),
            Generation::Failed(failure) => res == Err::<(), ErrorResponse>(failure),
            Generation::Crashed => res matches Err(r) && single_error(
                r,
                Source::Internal,
                "Generator crashed"@,
            ),
        },
{
    match state {
        Generation::Idle | Generation::Succeeded => Ok(()),
        Generation::Running => Err(ErrorResponse::busy()),
        Generation::Failed(failure) => Err(failure),
        Generation::Crashed => Err(ErrorResponse::internal(String::from_str("Generator crashed"))),
    }
}

/// What a request for a puzzle's files does first.
pub enum FilesStep {
    /// Answer at once with this response.
    Answer(ErrorResponse),
    /// Hand out the archive at this path.
    Serve(String),
    /// Look for the archive on disk.
    LookUp,
}

/// Whether a request for a puzzle's files goes on to look for the archive
/// (and so may start a generation): only where no generation runs, none
/// failed or crashed, and none just handed out its archive.
pub open spec fn looks_up(state: Generation, generated: Option<String>) -> bool {
    state is Idle || (state is Succeeded && generated is None)
}

/// The first step of a request for a puzzle's files, given where the
/// generation of the team's archive stands and the archive that a
/// generation that just finished left (if any): answer busy while one
/// runs, answer with the failure of one that failed, hand out the archive
/// one left, or else look for the archive on disk.
pub fn files_step(state: Generation, generated: Option<String>) -> (res: FilesStep)
    ensures
        res is LookUp <==> looks_up(state, generated),
        match state {
            Generation::Succeeded => match generated {
                Some(path) => res == FilesStep::Serve(path),
                None => res is LookUp,
            },
            Generation::Idle => res is LookUp,
            Generation::Running => res matches FilesStep::Answer(r) && single_error(
                r,
                Source::Internal,
                "The files are still being generated. Try again later"@,
            ),
            Generation::Failed(failure) => res == FilesStep::Answer(failure),
            Generation::Crashed => res matches FilesStep::Answer(r) && single_error(
                r,
                Source::Internal,
                "Generator crashed"@,
            ),
        },
{
    match state {
        Generation::Succeeded => match generated {
            Some(path) => FilesStep::Serve(path),
            None => FilesStep::LookUp,
        },
        _ => match generation_gate(state) {
            Ok(()) => FilesStep::LookUp,
            Err(r) => FilesStep::Answer(r),
        },
    }
}

/// A generator never starts while another runs for the same puzzle and
/// team: a request made meanwhile does not look for the archive, so it
/// neither serves one nor starts a generation.
pub proof fn one_generator_at_a_time(generated: Option<String>)
    ensures
        !looks_up(Generation::Running, generated),
{
}

/// Whether the generator of a puzzle must be run for a team: only where its
/// output directory does not exist yet, so a finished generation is never
/// run again.
pub fn runs_generator(output_exists: bool) -> (res: bool)
    ensures
        res == !output_exists,
{
    !output_exists
}

/// What a request for a puzzle's files does once its generation allows it.
pub enum FilesAction {
    /// Hand out the archive at this path.
    Serve(String),
    /// Start generating the archive, and answer with `reply` meanwhile.
    Generate { reply: ErrorResponse },
}

/// The step of a request for a puzzle's files after the generation gate,
/// given the archive known for the team (the one a finished generation
/// left, else the one found on disk): serve it, or, where there is none,
/// start the generator and answer that the files are being generated.
pub fn files_action(archive: Option<String>) -> (res: FilesAction)
    ensures
        match archive {
            Some(path) => res == FilesAction::Serve(path),
            None => res matches FilesAction::Generate { reply } && single_error(
                reply,
                Source::Internal,
                "The files are still being generated. Try again later"@,
            ),
        },
{
    match archive {
        Some(path) => FilesAction::Serve(path),
        None => FilesAction::Generate { reply: ErrorResponse::busy() },
    }
}

} // verus!

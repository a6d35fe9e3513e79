use backend::error::{ErrorResponse, PuzzleError, Source};
use backend::id::Uid;
use backend::model::jsonb::{frame, unframe, JsonbError};
use backend::model::puzzle::{
    by_category, cake_flag, files_action, files_step, is_cake_puzzle, runs_generator, submission_answer, flag_verdict, find_output, generator_outcome, generation_gate, is_cake_flag, submission_outcome,
    to_u128_le, Categories, Category, Clues, DirEntryInfo, Difficulty, FilesAction, FilesStep, Generation, Listing, Puzzle,
};
use backend::text::write_decimal;

fn clues(texts: &[&str]) -> Clues {
    Clues(texts.iter().map(|t| t.to_string()).collect())
}

fn puzzle(categories: Vec<Category>) -> Puzzle {
    Puzzle {
        id: Uid { bytes: [9; 16] },
        difficulty: Difficulty::Easy,
        categories: Categories(categories),
        points: 100,
        name: "p".to_string(),
        prompt: "q".to_string(),
        clues: Some(clues(&["one", "two", "three"])),
        start: None,
        end: None,
        ommit: false,
    }
}

#[test]
fn unused_clues_are_blanked() {
    let mut c = clues(&["one", "two", "three"]);
    c.hide_unused(1);
    assert_eq!(c.0, vec!["one".to_string(), String::new(), String::new()]);
    let mut c = clues(&["one", "two"]);
    c.hide_unused(0);
    assert_eq!(c.0, vec![String::new(), String::new()]);
    let mut c = clues(&["one", "two"]);
    c.hide_unused(5);
    assert_eq!(c.0, vec!["one".to_string(), "two".to_string()]);
}

#[test]
fn a_negative_count_hides_nothing() {
    let mut c = clues(&["one", "two"]);
    c.hide_unused(-1);
    assert_eq!(c.0, vec!["one".to_string(), "two".to_string()]);
}

#[test]
fn hiding_twice_changes_nothing() {
    let mut p = puzzle(vec![Category::Forensics]);
    p.hide_unused_clues(2);
    p.hide_unused_clues(2);
    assert_eq!(p.clues.unwrap().0, vec!["one".to_string(), "two".to_string(), String::new()]);
}

#[test]
fn decimal_numerals() {
    let mut s = String::new();
    write_decimal(0, &mut s);
    assert_eq!(s, "0");
    let mut s = "n=".to_string();
    write_decimal(1234567890, &mut s);
    assert_eq!(s, "n=1234567890");
    let mut s = String::new();
    write_decimal(u128::MAX, &mut s);
    assert_eq!(s, u128::MAX.to_string());
}

#[test]
fn identifiers_read_little_endian() {
    let id = uuid::Uuid::parse_str("550e8400-e29b-41d4-a716-446655440000").unwrap();
    assert_eq!(to_u128_le(&Uid { bytes: *id.as_bytes() }), id.to_u128_le());
}

#[test]
fn the_identifier_flag() {
    let puzzle = uuid::Uuid::parse_str("550e8400-e29b-41d4-a716-446655440000").unwrap();
    let team = uuid::Uuid::parse_str("6ba7b810-9dad-11d1-80b4-00c04fd430c8").unwrap();
    let expected = format!("vf[{}]", team.to_u128_le() ^ puzzle.to_u128_le());
    let p = Uid { bytes: *puzzle.as_bytes() };
    let t = Uid { bytes: *team.as_bytes() };
    assert_eq!(cake_flag(&p, &t), expected);
    assert!(is_cake_flag(&p, &t, &expected));
    assert!(!is_cake_flag(&p, &t, &"vf[0]".to_string()));
    // The same identifiers for puzzle and team give zero.
    assert_eq!(cake_flag(&p, &p), "vf[0]");
}

#[test]
fn incorrect_flags_are_errors() {
    assert!(submission_outcome(true).is_ok());
    let r = submission_outcome(false).err().unwrap();
    assert_eq!(r.root_cause().error_type, Source::Puzzle(PuzzleError::IncorrectFlag));
    assert_eq!(r.root_cause().message, "Flag is incorrect");
}

#[test]
fn puzzles_are_sorted_by_category() {
    let puzzles = vec![
        puzzle(vec![Category::Cryptography, Category::OSINT]),
        puzzle(vec![Category::OSINT]),
        puzzle(vec![Category::WebSecurity, Category::Cryptography]),
    ];
    let buckets = by_category(&puzzles);
    assert_eq!(
        buckets,
        vec![
            (Category::Cryptography, vec![0, 2]),
            (Category::OSINT, vec![0, 1]),
            (Category::WebSecurity, vec![2]),
        ]
    );
}

#[test]
fn stored_json_is_framed_with_its_version() {
    let payload = br#"["a","b"]"#;
    let stored = frame(payload);
    assert_eq!(stored[0], 1);
    assert_eq!(&stored[1..], payload);
    assert_eq!(unframe(&stored).unwrap(), payload.to_vec());
    assert_eq!(unframe(&[2, b'[', b']']), Err(JsonbError::UnsupportedVersion));
    assert_eq!(JsonbError::UnsupportedVersion.message(), "Unsupported JSONB encoding version");
    assert_eq!(unframe(&[1]).unwrap(), Vec::<u8>::new());
}

fn entry(is_file: bool, extension: Option<&str>, path: &str) -> DirEntryInfo {
    DirEntryInfo { is_file, extension: extension.map(|e| e.to_string()), path: path.to_string() }
}

#[test]
fn the_first_archive_is_found() {
    assert_eq!(find_output(Listing::Missing).ok(), Some(None));
    let listing = Listing::Entries(vec![
        entry(false, Some("gz"), "dir.gz"),
        entry(true, Some("txt"), "notes.txt"),
        entry(true, Some("gz"), "out.tar.gz"),
        entry(true, Some("gz"), "other.gz"),
    ]);
    assert_eq!(find_output(listing).ok(), Some(Some("out.tar.gz".to_string())));
    let r = find_output(Listing::Entries(vec![entry(true, None, "README")])).err().unwrap();
    assert_eq!(r.root_cause().error_type, Source::Puzzle(PuzzleError::FilesMissing));
    assert_eq!(r.root_cause().message, "Could not find an output .tar.gz");
    let r = find_output(Listing::Unreadable("denied".to_string())).err().unwrap();
    assert_eq!(r.root_cause().error_type, Source::Puzzle(PuzzleError::Io));
    assert_eq!(r.root_cause().message, "denied");
}

#[test]
fn files_wait_for_their_generation() {
    assert!(generation_gate(Generation::Idle).is_ok());
    assert!(generation_gate(Generation::Succeeded).is_ok());
    let r = generation_gate(Generation::Running).err().unwrap();
    assert_eq!(r.root_cause().error_type, Source::Internal);
    let r = generation_gate(Generation::Crashed).err().unwrap();
    assert_eq!(r.root_cause().message, "Generator crashed");
    let failure = ErrorResponse::internal("bad generator".to_string());
    let r = generation_gate(Generation::Failed(failure)).err().unwrap();
    assert_eq!(r.root_cause().message, "bad generator");
}

#[test]
fn generator_failures_are_reported() {
    let archive = || Listing::Entries(vec![entry(true, Some("gz"), "/out/a.tar.gz")]);
    assert_eq!(
        generator_outcome(Some(Ok(true)), archive()).ok(),
        Some(Some("/out/a.tar.gz".to_string()))
    );
    assert_eq!(generator_outcome(None, archive()).ok(), Some(Some("/out/a.tar.gz".to_string())));
    let (code, root) = generator_outcome(Some(Ok(false)), archive()).unwrap_err().into_response();
    assert_eq!(code, 500);
    assert_eq!(root.error_type, Source::Puzzle(PuzzleError::Generator));
    assert_eq!(root.message, "Generator exited with an error code");
    let (_, root) = generator_outcome(Some(Err("NotFound".to_string())), archive())
        .unwrap_err()
        .into_response();
    assert_eq!(root.message, "Could not run generator: NotFound");
}

#[test]
fn an_archive_not_found_yet_is_looked_for_again() {
    assert_eq!(generator_outcome(Some(Ok(true)), Listing::Missing).ok(), Some(None));
    let listing = Listing::Entries(vec![entry(true, Some("txt"), "/out/notes.txt")]);
    assert_eq!(generator_outcome(None, listing).ok(), Some(None));
    let listing = Listing::Unreadable("denied".to_string());
    assert_eq!(generator_outcome(Some(Ok(true)), listing).ok(), Some(None));
}

#[test]
fn files_are_served_or_generated() {
    match files_action(Some("/out/a.tar.gz".to_string())) {
        FilesAction::Serve(path) => assert_eq!(path, "/out/a.tar.gz"),
        FilesAction::Generate { .. } => panic!("an archive that exists is served"),
    }
    match files_action(None) {
        FilesAction::Generate { reply } => {
            assert_eq!(reply.root_cause().message, "The files are still being generated. Try again later")
        }
        FilesAction::Serve(_) => panic!("nothing to serve"),
    }
}

#[test]
fn flag_verdicts() {
    assert!(flag_verdict(Ok(true)).unwrap());
    assert!(!flag_verdict(Ok(false)).unwrap());
    let (_, root) = flag_verdict(Err("denied".to_string())).unwrap_err().into_response();
    assert_eq!(root.error_type, Source::Puzzle(PuzzleError::Generator));
    assert_eq!(root.message, "Could not run check: denied");
}

#[test]
fn a_running_generation_is_not_started_again() {
    match files_step(Generation::Running, None) {
        FilesStep::Answer(r) => {
            assert_eq!(r.root_cause().message, "The files are still being generated. Try again later")
        }
        _ => panic!("a request made while a generation runs is answered at once"),
    }
    assert!(matches!(files_step(Generation::Idle, None), FilesStep::LookUp));
    assert!(matches!(files_step(Generation::Succeeded, None), FilesStep::LookUp));
    match files_step(Generation::Succeeded, Some("/out/a.tar.gz".to_string())) {
        FilesStep::Serve(path) => assert_eq!(path, "/out/a.tar.gz"),
        _ => panic!("the archive a generation left is served"),
    }
    match files_step(Generation::Crashed, None) {
        FilesStep::Answer(r) => assert_eq!(r.root_cause().message, "Generator crashed"),
        _ => panic!("a crashed generation is reported"),
    }
    assert!(runs_generator(false));
    assert!(!runs_generator(true));
}

#[test]
fn a_submission_is_answered_once_recorded() {
    assert!(submission_answer(true, Ok(1)).is_ok());
    let r = submission_answer(false, Ok(1)).err().unwrap();
    assert_eq!(r.root_cause().message, "Flag is incorrect");
    let failure = ErrorResponse::internal("no database".to_string());
    let r = submission_answer(true, Err(failure)).err().unwrap();
    assert_eq!(r.root_cause().message, "no database");
    let cake = Uid { bytes: [3; 16] };
    assert!(is_cake_puzzle(&cake, &Uid { bytes: [3; 16] }));
    assert!(!is_cake_puzzle(&Uid { bytes: [4; 16] }, &cake));
}

use pytest_affected::paths::{is_user_file, starts_with};
use pytest_affected::tracer::Tracer;
use std::cell::RefCell;

fn sorted(mut paths: Vec<String>) -> Vec<String> {
    paths.sort();
    paths
}

fn strings(paths: &[&str]) -> Vec<String> {
    paths.iter().map(|path| String::from(*path)).collect()
}

fn tracer_excluding(prefixes: &[&str]) -> Tracer<u32> {
    let found = prefixes
        .iter()
        .map(|prefix| Some(String::from(*prefix)))
        .collect();
    Tracer::from_lookups(7, found)
}

// --- the scenario of one excluded library root ---

#[test]
fn user_files_drops_runtime_empty_and_synthetic_paths() {
    let mut tracer = tracer_excluding(&["/usr/lib/rt"]);
    tracer.start();
    tracer.add_filepath(String::from("/usr/lib/rt/json.ext"));
    tracer.add_filepath(String::from("/home/user/app.ext"));
    tracer.add_filepath(String::new());
    tracer.add_filepath(String::from("<string>"));
    tracer.stop();
    assert_eq!(tracer.user_files(), strings(&["/home/user/app.ext"]));
}

// --- construction ---

#[test]
fn new_asks_for_the_four_library_roots_in_order() {
    let asked = RefCell::new(Vec::new());
    let tracer = Tracer::new(0u8, |name: &str| {
        asked.borrow_mut().push(String::from(name));
        Some(format!("/opt/rt/{}", name))
    });
    assert_eq!(
        asked.into_inner(),
        strings(&["stdlib", "purelib", "platstdlib", "platlib"])
    );
    assert_eq!(
        tracer.excluded_paths(),
        &strings(&[
            "/opt/rt/stdlib",
            "/opt/rt/purelib",
            "/opt/rt/platstdlib",
            "/opt/rt/platlib"
        ])
    );
}

#[test]
fn new_leaves_out_the_roots_that_were_not_found() {
    let tracer = Tracer::new(0u8, |name: &str| {
        if name == "purelib" || name == "platlib" {
            Some(format!("/site/{}", name))
        } else {
            None
        }
    });
    assert_eq!(
        tracer.excluded_paths(),
        &strings(&["/site/purelib", "/site/platlib"])
    );
}

#[test]
fn new_tracer_is_idle_and_has_recorded_nothing() {
    let tracer = Tracer::new(0u8, |_name: &str| None);
    assert!(!tracer.is_tracing());
    assert!(tracer.recorded_files().is_empty());
    assert!(tracer.user_files().is_empty());
    assert!(tracer.excluded_paths().is_empty());
}

#[test]
fn from_lookups_keeps_the_found_paths_in_order() {
    let tracer = Tracer::from_lookups(
        1u8,
        vec![
            None,
            Some(String::from("/b")),
            None,
            Some(String::from("/a")),
            Some(String::from("/b")),
        ],
    );
    assert_eq!(tracer.excluded_paths(), &strings(&["/b", "/a", "/b"]));
}

#[test]
fn from_lookups_of_nothing_excludes_nothing() {
    let mut tracer = Tracer::from_lookups(1u8, Vec::new());
    assert!(tracer.excluded_paths().is_empty());
    tracer.add_filepath(String::from("/usr/lib/rt/json.ext"));
    assert_eq!(tracer.user_files(), strings(&["/usr/lib/rt/json.ext"]));
}

// --- recording ---

#[test]
fn add_filepath_tells_whether_the_path_is_new() {
    let mut tracer = tracer_excluding(&[]);
    assert!(tracer.add_filepath(String::from("/src/a.ext")));
    assert!(!tracer.add_filepath(String::from("/src/a.ext")));
    assert!(tracer.add_filepath(String::from("/src/b.ext")));
    assert!(!tracer.add_filepath(String::from("/src/a.ext")));
}

#[test]
fn a_path_recorded_many_times_comes_once() {
    let mut tracer = tracer_excluding(&[]);
    for _ in 0..50 {
        tracer.add_filepath(String::from("/src/a.ext"));
    }
    assert_eq!(tracer.recorded_files(), strings(&["/src/a.ext"]));
    assert_eq!(tracer.user_files(), strings(&["/src/a.ext"]));
}

#[test]
fn recorded_files_holds_also_what_is_no_user_file() {
    let mut tracer = tracer_excluding(&["/usr/lib/rt"]);
    tracer.add_filepath(String::from("/usr/lib/rt/json.ext"));
    tracer.add_filepath(String::from("/home/user/app.ext"));
    tracer.add_filepath(String::new());
    tracer.add_filepath(String::from("<string>"));
    assert_eq!(
        sorted(tracer.recorded_files()),
        strings(&["", "/home/user/app.ext", "/usr/lib/rt/json.ext", "<string>"])
    );
}

#[test]
fn footprint_grows_past_its_initial_capacity() {
    let mut tracer = tracer_excluding(&[]);
    let mut expected = Vec::new();
    for i in 0..1000 {
        let path = format!("/src/m{:04}.ext", i);
        assert!(tracer.add_filepath(path.clone()));
        expected.push(path);
    }
    assert_eq!(sorted(tracer.user_files()), expected);
}

// --- a traced run ---

#[test]
fn traced_run_yields_the_user_files_among_the_calls() {
    let calls = strings(&[
        "/home/user/app.ext",
        "/usr/lib/rt/os.ext",
        "/home/user/pkg/util.ext",
        "<frozen importlib._bootstrap>",
        "/home/user/app.ext",
        "",
        "/usr/lib/rt-site/dep.ext",
        "/home/user/pkg/util.ext",
    ]);
    let mut tracer = tracer_excluding(&["/usr/lib/rt", "/opt/never"]);
    tracer.start();
    for call in &calls {
        tracer.add_filepath(call.clone());
    }
    tracer.stop();
    let mut expected: Vec<String> = calls
        .iter()
        .filter(|path| is_user_file(path.as_str(), tracer.excluded_paths()))
        .cloned()
        .collect();
    expected.sort();
    expected.dedup();
    assert_eq!(
        expected,
        strings(&["/home/user/app.ext", "/home/user/pkg/util.ext"])
    );
    assert_eq!(sorted(tracer.user_files()), expected);
}

#[test]
fn a_second_run_adds_to_a_footprint_that_was_not_cleared() {
    let mut tracer = tracer_excluding(&[]);
    tracer.start();
    tracer.add_filepath(String::from("/src/first.ext"));
    tracer.stop();
    tracer.start();
    tracer.add_filepath(String::from("/src/second.ext"));
    tracer.stop();
    assert_eq!(
        sorted(tracer.user_files()),
        strings(&["/src/first.ext", "/src/second.ext"])
    );
}

#[test]
fn clearing_between_runs_gives_each_run_its_own_footprint() {
    let mut tracer = tracer_excluding(&[]);
    tracer.start();
    tracer.add_filepath(String::from("/src/first.ext"));
    tracer.stop();
    assert_eq!(tracer.user_files(), strings(&["/src/first.ext"]));
    tracer.clear_files();
    tracer.start();
    tracer.add_filepath(String::from("/src/second.ext"));
    tracer.stop();
    assert_eq!(tracer.user_files(), strings(&["/src/second.ext"]));
}

// --- start and stop ---

#[test]
fn start_and_stop_switch_interception() {
    let mut tracer = tracer_excluding(&[]);
    assert!(!tracer.is_tracing());
    tracer.start();
    assert!(tracer.is_tracing());
    tracer.stop();
    assert!(!tracer.is_tracing());
}

#[test]
fn stop_hands_back_the_original_dispatch_function() {
    let mut tracer = Tracer::from_lookups(0xfeed_u64, Vec::new());
    tracer.start();
    assert_eq!(tracer.stop(), 0xfeed);
}

#[test]
fn starting_twice_is_starting_once() {
    let mut tracer = Tracer::from_lookups(41u32, Vec::new());
    tracer.start();
    tracer.add_filepath(String::from("/src/a.ext"));
    tracer.start();
    assert!(tracer.is_tracing());
    assert_eq!(tracer.user_files(), strings(&["/src/a.ext"]));
    assert_eq!(tracer.stop(), 41);
    assert!(!tracer.is_tracing());
}

#[test]
fn stopping_an_idle_tracer_hands_back_the_original_too() {
    let mut tracer = Tracer::from_lookups(41u32, Vec::new());
    assert_eq!(tracer.stop(), 41);
    assert!(!tracer.is_tracing());
    tracer.start();
    assert_eq!(tracer.stop(), 41);
    assert_eq!(tracer.stop(), 41);
}

#[test]
fn start_and_stop_leave_footprint_and_exclusions_alone() {
    let mut tracer = tracer_excluding(&["/usr/lib/rt"]);
    tracer.add_filepath(String::from("/src/a.ext"));
    tracer.start();
    assert_eq!(tracer.recorded_files(), strings(&["/src/a.ext"]));
    assert_eq!(tracer.excluded_paths(), &strings(&["/usr/lib/rt"]));
    tracer.stop();
    assert_eq!(tracer.recorded_files(), strings(&["/src/a.ext"]));
    assert_eq!(tracer.excluded_paths(), &strings(&["/usr/lib/rt"]));
}

// --- clearing ---

#[test]
fn clear_empties_the_footprint_of_an_idle_tracer() {
    let mut tracer = tracer_excluding(&["/usr/lib/rt"]);
    tracer.add_filepath(String::from("/src/a.ext"));
    tracer.add_filepath(String::from("/usr/lib/rt/os.ext"));
    tracer.add_filepath(String::from("<string>"));
    tracer.clear_files();
    assert!(tracer.recorded_files().is_empty());
    assert!(tracer.user_files().is_empty());
    assert!(!tracer.is_tracing());
    assert_eq!(tracer.excluded_paths(), &strings(&["/usr/lib/rt"]));
}

#[test]
fn clear_empties_the_footprint_while_tracing() {
    let mut tracer = tracer_excluding(&["/usr/lib/rt"]);
    tracer.start();
    tracer.add_filepath(String::from("/src/a.ext"));
    tracer.clear_files();
    assert!(tracer.recorded_files().is_empty());
    assert!(tracer.is_tracing());
    assert_eq!(tracer.excluded_paths(), &strings(&["/usr/lib/rt"]));
    assert!(tracer.add_filepath(String::from("/src/a.ext")));
    assert_eq!(tracer.stop(), 7);
    assert_eq!(tracer.user_files(), strings(&["/src/a.ext"]));
}

#[test]
fn clearing_an_empty_footprint_changes_nothing() {
    let mut tracer = tracer_excluding(&[]);
    tracer.clear_files();
    tracer.clear_files();
    assert!(tracer.recorded_files().is_empty());
}

// --- reports from several threads, in the orders a lock may let them through ---

#[test]
fn interleaved_reports_give_the_union_of_the_reports() {
    let first = strings(&["/t1/a.ext", "/t1/b.ext", "/t1/c.ext"]);
    let second = strings(&["/t2/a.ext", "/t2/b.ext"]);
    let third = strings(&["/t3/a.ext"]);
    let mut union = Vec::new();
    union.extend(first.iter().cloned());
    union.extend(second.iter().cloned());
    union.extend(third.iter().cloned());
    union.sort();

    // one thread after the other
    let mut in_turn = tracer_excluding(&[]);
    for path in first.iter().chain(second.iter()).chain(third.iter()) {
        assert!(in_turn.add_filepath(path.clone()));
    }
    assert_eq!(sorted(in_turn.recorded_files()), union);

    // the other way round
    let mut reversed = tracer_excluding(&[]);
    for path in third.iter().chain(second.iter()).chain(first.iter()) {
        assert!(reversed.add_filepath(path.clone()));
    }
    assert_eq!(sorted(reversed.recorded_files()), union);

    // round robin
    let mut round_robin = tracer_excluding(&[]);
    for i in 0..3 {
        for report in [&first, &second, &third] {
            if let Some(path) = report.get(i) {
                assert!(round_robin.add_filepath(path.clone()));
            }
        }
    }
    assert_eq!(sorted(round_robin.recorded_files()), union);
}

#[test]
fn overlapping_reports_lose_nothing_either() {
    let mut tracer = tracer_excluding(&[]);
    for path in ["/shared.ext", "/t1.ext", "/shared.ext", "/t2.ext", "/shared.ext"] {
        tracer.add_filepath(String::from(path));
    }
    assert_eq!(
        sorted(tracer.recorded_files()),
        strings(&["/shared.ext", "/t1.ext", "/t2.ext"])
    );
}

// --- which paths are user files ---

#[test]
fn an_exclusion_is_a_prefix_of_characters_not_of_path_segments() {
    let mut tracer = tracer_excluding(&["/usr/lib/rt"]);
    tracer.add_filepath(String::from("/usr/lib/rt"));
    tracer.add_filepath(String::from("/usr/lib/rtx/mod.ext"));
    tracer.add_filepath(String::from("/usr/lib/r"));
    tracer.add_filepath(String::from("/usr/lib/other/mod.ext"));
    tracer.add_filepath(String::from("/home/usr/lib/rt/mod.ext"));
    assert_eq!(
        sorted(tracer.user_files()),
        strings(&[
            "/home/usr/lib/rt/mod.ext",
            "/usr/lib/other/mod.ext",
            "/usr/lib/r"
        ])
    );
}

#[test]
fn any_of_several_exclusions_drops_a_path() {
    let mut tracer = tracer_excluding(&["/a", "/b/c", "/d"]);
    for path in ["/a/x", "/b/x", "/b/c/x", "/c/x", "/d", "/e/d"] {
        tracer.add_filepath(String::from(path));
    }
    assert_eq!(sorted(tracer.user_files()), strings(&["/b/x", "/c/x", "/e/d"]));
}

#[test]
fn an_empty_exclusion_drops_every_path() {
    let mut tracer = tracer_excluding(&[""]);
    tracer.add_filepath(String::from("/src/a.ext"));
    tracer.add_filepath(String::from("b.ext"));
    assert!(tracer.user_files().is_empty());
    assert_eq!(tracer.recorded_files().len(), 2);
}

#[test]
fn only_a_leading_marker_makes_a_path_synthetic() {
    let mut tracer = tracer_excluding(&[]);
    for path in ["<stdin>", "<", "<<", "a<b>.ext", "/src/<gen>.ext", " <string>"] {
        tracer.add_filepath(String::from(path));
    }
    assert_eq!(
        sorted(tracer.user_files()),
        strings(&[" <string>", "/src/<gen>.ext", "a<b>.ext"])
    );
}

#[test]
fn is_user_file_says_what_user_files_keeps() {
    let excluded = strings(&["/usr/lib/rt", "/opt/site"]);
    assert!(is_user_file("/home/user/app.ext", &excluded));
    assert!(is_user_file("relative/app.ext", &excluded));
    assert!(!is_user_file("", &excluded));
    assert!(!is_user_file("<string>", &excluded));
    assert!(!is_user_file("/usr/lib/rt/json.ext", &excluded));
    assert!(!is_user_file("/opt/site/dep/mod.ext", &excluded));
    assert!(is_user_file("/opt/sit", &excluded));
    assert!(is_user_file("/usr/lib/rt/json.ext", &Vec::new()));
    assert!(!is_user_file("", &Vec::new()));
}

#[test]
fn starts_with_compares_character_by_character() {
    assert!(starts_with("/usr/lib/rt/json.ext", "/usr/lib/rt"));
    assert!(starts_with("/usr/lib/rt", "/usr/lib/rt"));
    assert!(starts_with("/usr/lib/rt", ""));
    assert!(starts_with("", ""));
    assert!(!starts_with("", "/"));
    assert!(!starts_with("/usr/lib", "/usr/lib/rt"));
    assert!(!starts_with("/usr/lib/rt", "/usr/lib/rx"));
    assert!(!starts_with("/Usr/lib", "/usr"));
}

#[test]
fn starts_with_handles_characters_of_several_bytes() {
    assert!(starts_with("/données/été/mod.ext", "/données/été"));
    assert!(starts_with("/数据/模块.ext", "/数据"));
    assert!(!starts_with("/数据/模块.ext", "/数椐"));
    assert!(!starts_with("/donnees", "/données"));
    // "é" as one character against "e" followed by a combining accent
    assert!(!starts_with("/\u{e9}t\u{e9}", "/e\u{301}"));
}

#[test]
fn starts_with_agrees_with_the_standard_library() {
    let samples = ["", "/", "/a", "/a/b", "/a/bc", "/ab", "<a>", "é", "éa", "a\u{301}"];
    for path in samples {
        for prefix in samples {
            assert_eq!(starts_with(path, prefix), path.starts_with(prefix));
        }
    }
}

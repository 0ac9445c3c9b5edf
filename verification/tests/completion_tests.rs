use halo::completion::{
    path_request, path_request_at_home, CompletionKind, CompletionRequest, CompletionState, DirEntryInfo, Listing,
    PathFilter, PathRequest,
};

fn file(name: &str, mode: u32) -> DirEntryInfo {
    DirEntryInfo { name: name.to_string(), is_dir: false, is_file: true, mode }
}

fn dir(name: &str) -> DirEntryInfo {
    DirEntryInfo { name: name.to_string(), is_dir: true, is_file: false, mode: 0o755 }
}

fn listing(partial_name: &str, base: &str, entries: Vec<DirEntryInfo>) -> Listing {
    Listing { partial_name: partial_name.to_string(), base: base.to_string(), entries }
}

fn request(kind: CompletionKind, token: &str) -> CompletionRequest {
    CompletionRequest { kind, token: token.to_string() }
}

fn menu(suggestions: &[&str], selected_index: usize) -> CompletionState {
    CompletionState {
        active: true,
        suggestions: suggestions.iter().map(|s| s.to_string()).collect(),
        selected_index,
    }
}

#[test]
fn a_new_menu_is_closed_and_empty() {
    let state = CompletionState::new();
    assert!(!state.active);
    assert!(state.suggestions.is_empty());
    assert_eq!(state.selected_index, 0);
    let state = CompletionState::default();
    assert!(!state.active);
    assert!(state.suggestions.is_empty());
    assert_eq!(state.selected_index, 0);
}

#[test]
fn the_first_word_is_a_command() {
    assert_eq!(CompletionState::request(""), request(CompletionKind::Command, ""));
    assert_eq!(CompletionState::request("   "), request(CompletionKind::Command, ""));
    assert_eq!(CompletionState::request("gi"), request(CompletionKind::Command, "gi"));
    assert_eq!(CompletionState::request("  gi"), request(CompletionKind::Command, "gi"));
}

#[test]
fn later_words_are_paths() {
    let all = CompletionKind::Path(PathFilter::All);
    let dirs = CompletionKind::Path(PathFilter::DirectoriesOnly);
    assert_eq!(CompletionState::request("git "), request(all, ""));
    assert_eq!(CompletionState::request("ls sr"), request(all, "sr"));
    assert_eq!(CompletionState::request("ls a b"), request(all, "b"));
    assert_eq!(CompletionState::request("cd "), request(dirs, ""));
    assert_eq!(CompletionState::request("cd sr"), request(dirs, "sr"));
    assert_eq!(CompletionState::request("cd a b "), request(dirs, ""));
    assert_eq!(CompletionState::request("cdx sr"), request(all, "sr"));
    // A tab ends a word as any white space does, but only a space opens a new one.
    assert_eq!(CompletionState::request("ls\t"), request(CompletionKind::Command, "ls"));
}

#[test]
fn executables_are_sorted_and_listed_once() {
    let entries = vec![
        file("cat", 0o755),
        file("cargo", 0o700),
        file("cat", 0o755),
        file("config.txt", 0o644),
        dir("cdir"),
        file("ls", 0o755),
        file("cp", 0o001),
        DirEntryInfo { name: "clink".to_string(), is_dir: false, is_file: false, mode: 0o777 },
    ];
    assert_eq!(
        CompletionState::suggest_executables("c", &entries),
        vec!["cargo", "cat", "cd", "cp"]
    );
    assert_eq!(
        CompletionState::suggest_executables("", &entries),
        vec!["cargo", "cat", "cd", "cp", "exit", "ls", "pwd"]
    );
    assert_eq!(CompletionState::suggest_executables("p", &[]), vec!["pwd"]);
    assert_eq!(CompletionState::suggest_executables("ex", &entries), vec!["exit"]);
    assert_eq!(CompletionState::suggest_executables("zz", &entries), Vec::<String>::new());
}

#[test]
fn paths_are_spelled_behind_their_base() {
    let entries = vec![file("main.rs", 0o644), dir("macros"), file("lib.rs", 0o644), dir("tests")];
    assert_eq!(
        CompletionState::suggest_paths("ma", "src", &entries, PathFilter::All),
        vec!["src/macros/", "src/main.rs"]
    );
    assert_eq!(
        CompletionState::suggest_paths("", "", &entries, PathFilter::All),
        vec!["lib.rs", "macros/", "main.rs", "tests/"]
    );
    assert_eq!(
        CompletionState::suggest_paths("", "", &entries, PathFilter::DirectoriesOnly),
        vec!["macros/", "tests/"]
    );
    assert_eq!(
        CompletionState::suggest_paths("t", "/", &entries, PathFilter::DirectoriesOnly),
        vec!["/tests/"]
    );
    assert_eq!(
        CompletionState::suggest_paths("x", "src", &entries, PathFilter::All),
        Vec::<String>::new()
    );
}

#[test]
fn suggestions_follow_the_request() {
    let state = CompletionState::new();
    let entries = vec![file("git", 0o755), dir("gallery"), file("grep", 0o755)];
    let read = listing("g", "", entries);
    assert_eq!(state.generate_suggestions("g", &read), vec!["git", "grep"]);
    assert_eq!(state.generate_suggestions("ls g", &read), vec!["gallery/", "git", "grep"]);
    assert_eq!(state.generate_suggestions("cd g", &read), vec!["gallery/"]);
}

#[test]
fn starting_opens_the_menu_on_the_first_suggestion() {
    let mut state = menu(&["old"], 5);
    state.active = false;
    let read = listing("", "", vec![file("b", 0o755), file("a", 0o755)]);
    state.start_completion("", &read);
    assert!(state.active);
    assert_eq!(state.suggestions, vec!["a", "b", "cd", "exit", "pwd"]);
    assert_eq!(state.selected_index, 0);
}

#[test]
fn starting_without_suggestions_keeps_the_menu_closed() {
    let mut state = CompletionState::new();
    state.start_completion("zzz", &listing("", "", vec![]));
    assert!(!state.active);
    assert!(state.suggestions.is_empty());
    assert_eq!(state.selected_index, 0);
}

#[test]
fn stopping_closes_the_menu() {
    let mut state = menu(&["a", "b"], 1);
    state.stop_completion();
    assert!(!state.active);
    assert!(state.suggestions.is_empty());
    assert_eq!(state.selected_index, 1);
}

#[test]
fn selection_wraps_around() {
    let mut state = menu(&["a", "b", "c"], 0);
    state.next_suggestion();
    assert_eq!(state.selected_index, 1);
    state.next_suggestion();
    assert_eq!(state.selected_index, 2);
    state.next_suggestion();
    assert_eq!(state.selected_index, 0);
    state.previous_suggestion();
    assert_eq!(state.selected_index, 2);
    state.previous_suggestion();
    assert_eq!(state.selected_index, 1);
    assert_eq!(state.suggestions, vec!["a", "b", "c"]);
    assert!(state.active);
}

#[test]
fn selection_of_an_empty_menu_stays() {
    let mut state = menu(&[], 4);
    state.next_suggestion();
    assert_eq!(state.selected_index, 4);
    state.previous_suggestion();
    assert_eq!(state.selected_index, 4);
}

#[test]
fn selection_from_a_stale_index() {
    let mut state = menu(&["a", "b", "c"], 7);
    state.next_suggestion();
    assert_eq!(state.selected_index, (7 + 1) % 3);
    let mut state = menu(&["a", "b", "c"], 7);
    state.previous_suggestion();
    assert_eq!(state.selected_index, (7 + 3 - 1) % 3);
    let mut state = menu(&["a"], usize::MAX);
    state.next_suggestion();
    assert_eq!(state.selected_index, 0);
}

#[test]
fn applying_replaces_the_last_word() {
    let state = menu(&["src/", "main.rs"], 0);
    assert_eq!(state.apply_completion("cd sr"), Some(("cd src/".to_string(), 7)));
    let state = menu(&["src/", "main.rs"], 1);
    assert_eq!(state.apply_completion("cat ma"), Some(("cat main.rs ".to_string(), 12)));
    assert_eq!(state.apply_completion("ma"), Some(("main.rs ".to_string(), 8)));
    assert_eq!(state.apply_completion(""), Some(("main.rs ".to_string(), 8)));
    assert_eq!(state.apply_completion("cat "), Some(("cat main.rs ".to_string(), 12)));
    assert_eq!(state.apply_completion("a b\tc"), Some(("a b\tmain.rs ".to_string(), 12)));
}

#[test]
fn the_cursor_counts_bytes() {
    let state = menu(&["gr\u{fc}n/"], 0);
    assert_eq!(state.apply_completion("cd g"), Some(("cd gr\u{fc}n/".to_string(), 9)));
    let state = menu(&["\u{20ac}"], 0);
    assert_eq!(state.apply_completion("\u{e9} x"), Some(("\u{e9} \u{20ac} ".to_string(), 7)));
}

#[test]
fn applying_without_a_selected_suggestion_gives_nothing() {
    assert_eq!(menu(&[], 0).apply_completion("cd sr"), None);
    assert_eq!(menu(&["a"], 1).apply_completion("cd sr"), None);
}

fn asked(partial: &str, cwd: &str, home: Option<&str>) -> (String, String, String) {
    let PathRequest { search_dir, partial_name, base } = path_request(partial, cwd, home);
    (search_dir, partial_name, base)
}

fn owned(search_dir: &str, partial_name: &str, base: &str) -> (String, String, String) {
    (search_dir.to_string(), partial_name.to_string(), base.to_string())
}

#[test]
fn a_word_asks_for_the_directory_above_it() {
    assert_eq!(asked("sr", "/work", None), owned("/work", "sr", ""));
    assert_eq!(asked("src/ma", "/work", None), owned("/work/src", "ma", "src"));
    assert_eq!(asked("/usr/bi", "/work", None), owned("/usr", "bi", "/usr"));
    assert_eq!(asked("/us", "/work", None), owned("/", "us", "/"));
    assert_eq!(asked("a/b/c", "/work/", None), owned("/work/a/b", "c", "a/b"));
}

#[test]
fn a_word_that_names_a_directory_asks_for_all_of_it() {
    // A name with a `/` behind it is still the last component of the word.
    assert_eq!(asked("src/", "/work", None), owned("/work/src/", "", ""));
    assert_eq!(asked("/", "/work", None), owned("/", "", "/"));
    assert_eq!(asked("/usr/", "/work", None), owned("/usr/", "", "/"));
}

#[test]
fn an_empty_word_asks_for_the_names_beside_the_directory() {
    assert_eq!(asked("", "/work", None), owned("/", "", ""));
    assert_eq!(asked("", "/", None), owned("/", "", ""));
}

#[test]
fn a_word_that_ends_in_two_dots_keeps_its_base() {
    assert_eq!(asked("..", "/work", None), owned("/work", "", ".."));
    assert_eq!(asked("a/..", "/work", None), owned("/work/a", "", "a/.."));
}

#[test]
fn a_tilde_stands_for_the_home_directory() {
    assert_eq!(asked("~", "/work", Some("/home/ada")), owned("/home/ada/", "", ""));
    assert_eq!(asked("~do", "/work", Some("/home/ada")), owned("/home/ada", "do", ""));
    assert_eq!(asked("~", "/work", None), owned("/work/", "", ""));
    assert_eq!(asked("~do", "/work", None), owned("/", "", ""));
}

#[test]
fn what_follows_a_tilde_keeps_its_slash() {
    assert_eq!(asked("~/do", "/work", Some("/home/ada")), owned("/", "do", "~"));
    assert_eq!(asked("~/", "/work", Some("/home/ada")), owned("/", "", ""));
}

#[test]
fn the_cursor_is_the_byte_length_of_the_new_line() {
    let state = menu(&["\u{e9}"], 0);
    assert_eq!(state.apply_completion(""), Some(("\u{e9} ".to_string(), 3)));
}

#[test]
fn a_word_without_a_tilde_asks_the_same_whatever_the_home_directory_is() {
    for word in ["sr", "src/ma", "/usr/bi", "", "a/.."] {
        let here = path_request_at_home(word, "/work");
        assert_eq!(here, path_request(word, "/work", None));
        assert_eq!(here, path_request(word, "/work", Some("/home/ada")));
    }
}

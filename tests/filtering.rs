use practical_runner::candidates::sort_candidates;
use practical_runner::filter::{filter_executables, starts_with};

fn strings(items: &[&str]) -> Vec<String> {
    items.iter().map(|s| s.to_string()).collect()
}

#[test]
fn empty_query_keeps_every_candidate_in_order() {
    let c = strings(&["git", "htop", "vi", "vim"]);
    assert_eq!(filter_executables(&String::new(), &c), c);
}

#[test]
fn typing_vi_keeps_vi_and_vim_in_candidate_order() {
    let c = sort_candidates(&strings(&["htop", "vim", "vi", "git"]));
    assert_eq!(c, strings(&["git", "htop", "vi", "vim"]));
    assert_eq!(filter_executables(&"vi".to_string(), &c), strings(&["vi", "vim"]));
}

#[test]
fn prefix_matches_come_before_other_matches() {
    let c = strings(&["avim", "nvim", "vim", "vimdiff"]);
    assert_eq!(
        filter_executables(&"vim".to_string(), &c),
        strings(&["vim", "vimdiff", "avim", "nvim"])
    );
}

#[test]
fn matching_is_a_subsequence_test() {
    let c = strings(&["git", "grep", "tig", "gzip"]);
    assert_eq!(filter_executables(&"gt".to_string(), &c), strings(&["git"]));
    assert_eq!(filter_executables(&"gp".to_string(), &c), strings(&["grep", "gzip"]));
    assert_eq!(filter_executables(&"xyz".to_string(), &c), Vec::<String>::new());
}

#[test]
fn matching_ignores_ascii_case_but_prefix_does_not() {
    let c = strings(&["Vim", "vim", "xterm"]);
    assert_eq!(filter_executables(&"VI".to_string(), &c), strings(&["Vim", "vim"]));
    assert_eq!(filter_executables(&"vi".to_string(), &c), strings(&["vim", "Vim"]));
}

#[test]
fn filtering_twice_changes_nothing() {
    let c = strings(&["abc", "bac", "cab", "acb", "xyz"]);
    for q in ["", "a", "ab", "b", "zz"] {
        let q = q.to_string();
        let once = filter_executables(&q, &c);
        assert_eq!(filter_executables(&q, &once), once);
    }
}

#[test]
fn every_result_matches_and_no_match_is_lost() {
    let c = strings(&["alpha", "beta", "gamma", "delta"]);
    let r = filter_executables(&"ta".to_string(), &c);
    assert_eq!(r, strings(&["beta", "delta"]));
}

#[test]
fn starts_with_is_case_sensitive() {
    assert!(starts_with("vimdiff", "vim"));
    assert!(starts_with("vim", ""));
    assert!(!starts_with("Vim", "vim"));
    assert!(!starts_with("vi", "vim"));
}

#[test]
fn candidates_are_deduplicated_and_sorted_ignoring_case() {
    assert_eq!(sort_candidates(&strings(&["b", "A", "a", "B", "b"])), strings(&["A", "a", "b", "B"]));
}

#[test]
fn sorting_folds_case_before_comparing() {
    assert_eq!(sort_candidates(&strings(&["B", "a"])), strings(&["a", "B"]));
    assert_eq!(sort_candidates(&strings(&["Zsh", "bash", "Awk"])), strings(&["Awk", "bash", "Zsh"]));
}

#[test]
fn sorting_an_empty_list_gives_an_empty_list() {
    assert_eq!(sort_candidates(&Vec::new()), Vec::<String>::new());
}

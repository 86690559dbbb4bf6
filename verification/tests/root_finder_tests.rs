use diff_gitignore_filter::root_finder::{PathAnalysis, PathContext, RootCandidate, RootDecision};
use diff_gitignore_filter::suffix::PathPair;
use diff_gitignore_filter::RootFinder;

fn chars(s: &str) -> Vec<char> {
    s.chars().collect()
}

fn components(path: &str) -> Vec<Vec<char>> {
    path.split('/').filter(|c| !c.is_empty()).map(chars).collect()
}

fn pair(left: &str, right: &str) -> PathPair {
    PathPair { left: components(left), right: components(right) }
}

fn analyses(paths: &[&str], exists: bool) -> Vec<PathAnalysis> {
    paths.iter().map(|p| RootFinder::create_path_analysis(p, !p.starts_with('/'), exists)).collect()
}

fn candidates(d: RootDecision) -> Vec<String> {
    match d {
        RootDecision::Candidates(list) => list,
        RootDecision::Resolved(root) => panic!("candidates expected, got root {root}"),
    }
}

fn resolved(d: RootDecision) -> String {
    match d {
        RootDecision::Resolved(root) => root,
        RootDecision::Candidates(list) => panic!("root expected, got candidates {list:?}"),
    }
}

#[test]
fn test_find_root_from_repo_root() {
    let root = RootFinder::find_root(Some("/tmp/repo"), &Vec::new());

    assert_eq!(resolved(root), "/tmp/repo");
}

#[test]
fn test_find_root_from_nested_directory() {
    let repo_root = RootFinder::get_worktree_aware_root(
        Some("/tmp/repo".to_string()),
        "/tmp/repo/.git".to_string(),
    );
    let root = RootFinder::find_root(Some(&repo_root), &Vec::new());

    assert_eq!(resolved(root), "/tmp/repo");
}

#[test]
fn test_find_root_no_git_repo() {
    let decision = RootFinder::find_root(None, &Vec::new());
    let list = candidates(decision);
    assert_eq!(list, vec![".".to_string()]);

    let scored: Vec<RootCandidate> =
        list.into_iter().map(|p| RootCandidate::new(p, false, false, false)).collect();
    let returned_path = RootFinder::apply_root_selection(scored);
    assert_eq!(returned_path, ".");
}

#[test]
fn test_root_candidate_priority_scoring() {
    let candidate = RootCandidate::new("/tmp/plain".to_string(), false, false, false);

    assert_eq!(candidate.priority_score(), 1);

    let git_candidate = RootCandidate::new("/tmp/repo".to_string(), true, false, false);

    assert_eq!(git_candidate.priority_score(), 5);
}

#[test]
fn test_root_candidate_with_gitignore() {
    let candidate = RootCandidate::new("/tmp/plain".to_string(), false, false, true);
    assert_eq!(candidate.priority_score(), 2);

    let git_candidate = RootCandidate::new("/tmp/repo".to_string(), true, false, true);
    assert_eq!(git_candidate.priority_score(), 6);
}

#[test]
fn test_path_analysis_creation() {
    let existing_analysis = RootFinder::create_path_analysis("/tmp", false, true);
    let non_existing_analysis = RootFinder::create_path_analysis("/non/existing/path", false, false);

    assert!(existing_analysis.path_exists());
    assert!(!existing_analysis.is_relative());
    assert!(!non_existing_analysis.path_exists());
    assert!(!non_existing_analysis.is_relative());
}

#[test]
fn test_path_context_variants() {
    let _in_repo = PathContext::InRepo;
    let _outside_repo = PathContext::OutsideRepo;
    let _virtual = PathContext::Virtual;

    assert!(format!("{:?}", PathContext::InRepo).contains("InRepo"));
    assert!(format!("{:?}", PathContext::OutsideRepo).contains("OutsideRepo"));
    assert!(format!("{:?}", PathContext::Virtual).contains("Virtual"));
}

#[test]
fn test_parse_diff_header_line() {
    let line = "diff --git a/src/main.rs b/src/main.rs";
    let result = RootFinder::parse_diff_header_line(line);
    assert_eq!(result, Some(("src/main.rs".to_string(), "src/main.rs".to_string())));

    let line2 = "diff --git a/old/file.txt b/new/file.txt";
    let result2 = RootFinder::parse_diff_header_line(line2);
    assert_eq!(result2, Some(("old/file.txt".to_string(), "new/file.txt".to_string())));

    let invalid_line = "not a diff line";
    let result3 = RootFinder::parse_diff_header_line(invalid_line);
    assert_eq!(result3, None);

    let incomplete_line = "diff --git a/file.txt";
    let result4 = RootFinder::parse_diff_header_line(incomplete_line);
    assert_eq!(result4, None);
}

#[test]
fn test_extract_and_analyze_diff_paths() {
    let diff_content = r#"diff --git a/src/main.rs b/src/main.rs
index 1234567..abcdefg 100644
--- a/src/main.rs
+++ b/src/main.rs
@@ -1,3 +1,4 @@
 fn main() {
+    println!("Hello, world!");
 }
diff --git a/README.md b/README.md
new file mode 100644
index 0000000..fedcba9
--- /dev/null
+++ b/README.md
@@ -0,0 +1 @@
+# Test Project
"#;

    let result = RootFinder::extract_diff_paths(diff_content.as_bytes());
    assert!(result.is_some());

    let path_analyses: Vec<PathAnalysis> = result
        .unwrap()
        .iter()
        .map(|p| RootFinder::create_path_analysis(p, true, false))
        .collect();
    assert_eq!(path_analyses.len(), 4);

    let paths: Vec<String> = path_analyses.iter().map(|analysis| analysis.path()).collect();

    assert!(paths.contains(&"src/main.rs".to_string()));
    assert!(paths.contains(&"README.md".to_string()));
}

#[test]
fn test_classify_context_in_repo() {
    let path_analyses = vec![];

    let context = RootFinder::classify_context(true, &path_analyses);

    match context {
        PathContext::InRepo => {}
        _ => panic!("Expected InRepo context for git repository"),
    }
}

#[test]
fn test_classify_context_outside_repo() {
    let path_analyses = vec![RootFinder::create_path_analysis("test.txt", true, true)];

    let context = RootFinder::classify_context(false, &path_analyses);

    match context {
        PathContext::OutsideRepo => {}
        _ => panic!("Expected OutsideRepo context for non-git directory with existing paths"),
    }
}

#[test]
fn test_classify_context_virtual() {
    let path_analyses = vec![RootFinder::create_path_analysis("non/existing/file.txt", true, false)];

    let context = RootFinder::classify_context(false, &path_analyses);

    match context {
        PathContext::Virtual => {}
        _ => panic!("Expected Virtual context for non-git directory with non-existing paths"),
    }
}

#[test]
fn test_find_common_suffix_between_strings_basic() {
    let path_pairs = vec![
        ("project/src/main.rs".to_string(), "other/src/main.rs".to_string()),
        ("app/src/main.rs".to_string(), "test/src/main.rs".to_string()),
    ];

    let result = RootFinder::find_common_suffix_between_strings(&path_pairs);
    assert_eq!(result, Some("src/main.rs".to_string()));
}

#[test]
fn test_find_common_suffix_between_strings_no_common() {
    let path_pairs = vec![
        ("src/main.rs".to_string(), "lib/utils.rs".to_string()),
        ("app/config.rs".to_string(), "test/helper.rs".to_string()),
    ];

    let result = RootFinder::find_common_suffix_between_strings(&path_pairs);
    assert_eq!(result, None);
}

#[test]
fn test_find_common_suffix_between_strings_empty() {
    let path_pairs: Vec<(String, String)> = vec![];
    let result = RootFinder::find_common_suffix_between_strings(&path_pairs);
    assert_eq!(result, None);
}

#[test]
fn test_find_common_suffix_between_strings_single_pair() {
    let path_pairs = vec![("project/src/main.rs".to_string(), "other/src/main.rs".to_string())];

    let result = RootFinder::find_common_suffix_between_strings(&path_pairs);
    assert_eq!(result, Some("src/main.rs".to_string()));
}

#[test]
fn test_find_common_suffix_between_relative_paths() {
    let result = RootFinder::find_common_suffix_between_paths("project/src/main", "other/src/main");
    assert_eq!(result, Some("src/main".to_string()));

    let result2 = RootFinder::find_common_suffix_between_paths("app/main", "lib/utils");
    assert_eq!(result2, None);
}

#[test]
fn priority_table() {
    let score = |repo, tree, ignore| RootCandidate::new("d".to_string(), repo, tree, ignore).priority_score();
    assert_eq!(score(true, false, true), 6);
    assert_eq!(score(true, false, false), 5);
    assert_eq!(score(true, true, true), 4);
    assert_eq!(score(true, true, false), 3);
    assert_eq!(score(false, false, true), 2);
    assert_eq!(score(false, true, true), 2);
    assert_eq!(score(false, false, false), 1);
    assert_eq!(score(false, true, false), 1);
    assert_eq!(RootCandidate::new("d".to_string(), true, false, true).path(), "d");
    assert!(RootCandidate::is_worktree_directory(Some(true)));
    assert!(!RootCandidate::is_worktree_directory(Some(false)));
    assert!(!RootCandidate::is_worktree_directory(None));
}

#[test]
fn paths_are_normalized() {
    let path = |p: &str| RootFinder::create_path_analysis(p, true, false).path();
    assert_eq!(path("./src/../lib/./a.rs"), "lib/a.rs");
    assert_eq!(path("../foo/./bar/../baz.txt"), "../foo/baz.txt");
    assert_eq!(path("a//b///c/"), "a/b/c");
    assert_eq!(path("/abs/path"), "abs/path");
    assert_eq!(path("."), "");
    assert_eq!(path(""), "");
    assert_eq!(path("a/../../b"), "../b");
    assert_eq!(path("../../x"), "../../x");
    assert_eq!(path("a/b/../.."), "");
}

#[test]
fn suffix_is_found_across_normalized_paths() {
    let pairs = vec![
        ("./project//src/x/../main.rs".to_string(), "other/src/main.rs".to_string()),
        ("app/lib/src/main.rs".to_string(), "test/lib/src/./main.rs".to_string()),
    ];
    assert_eq!(
        RootFinder::find_common_suffix_between_strings(&pairs),
        Some("src/main.rs".to_string())
    );
    let pairs = vec![
        ("a/src/main.rs".to_string(), "b/src/main.rs".to_string()),
        ("a/lib/main.rs".to_string(), "b/lib/main.rs".to_string()),
    ];
    assert_eq!(RootFinder::find_common_suffix_between_strings(&pairs), Some("main.rs".to_string()));
    let pairs = vec![
        ("a/src/main.rs".to_string(), "b/src/main.rs".to_string()),
        ("a/x.rs".to_string(), "b/y.rs".to_string()),
        ("a/src/main.rs".to_string(), "b/src/main.rs".to_string()),
    ];
    assert_eq!(RootFinder::find_common_suffix_between_strings(&pairs), None);
    assert_eq!(RootFinder::find_common_suffix_between_paths("a", "a"), Some("a".to_string()));
    assert_eq!(RootFinder::find_common_suffix_between_paths("", ""), None);
}

#[test]
fn roots_stand_before_the_suffix() {
    let pairs = vec![pair("project/src/main.rs", "other/dir/src/main.rs"), pair("x/src/main.rs", "y/src/main.rs")];
    assert_eq!(
        RootFinder::calculate_roots_by_suffix(&pairs),
        Some(("project".to_string(), "other/dir".to_string()))
    );
    assert_eq!(
        RootFinder::calculate_virtual_roots_by_suffix(&pairs),
        Some(("project".to_string(), "other/dir".to_string()))
    );
    let whole = vec![pair("src/main.rs", "src/main.rs")];
    assert_eq!(RootFinder::calculate_roots_by_suffix(&whole), Some(("".to_string(), "".to_string())));
    assert_eq!(RootFinder::calculate_roots_by_suffix(&Vec::new()), None);
    assert_eq!(RootFinder::calculate_roots_by_suffix(&vec![pair("a/x", "b/y")]), None);

    assert_eq!(
        RootFinder::extract_root_by_suffix_removal(&components("a/b/c/d"), &components("c/d")),
        Some("a/b".to_string())
    );
    assert_eq!(
        RootFinder::extract_root_by_suffix_removal(&components("c/d"), &components("c/d")),
        Some("".to_string())
    );
    assert_eq!(RootFinder::extract_root_by_suffix_removal(&components("a/b"), &components("c/b")), None);
    assert_eq!(RootFinder::extract_root_by_suffix_removal(&components("b"), &components("a/b")), None);
    assert_eq!(
        RootFinder::find_common_suffix_for_pair(&components("a/b/c"), &components("x/b/c")),
        Some(components("b/c"))
    );
    assert_eq!(RootFinder::find_common_suffix_for_pair(&components("a"), &components("b")), None);
}

#[test]
fn fallback_candidates_are_sorted_and_unique() {
    let pairs = vec![
        pair("zeta/x.rs", "alpha/y.rs"),
        pair("alpha/z.rs", "mid/dir/w.rs"),
        pair("../up/f", "alpha-b/g"),
        pair("top.rs", "alpha/b/h"),
    ];
    assert_eq!(
        RootFinder::hierarchical_fallback_search(&pairs),
        vec!["", "../up", "alpha", "alpha/b", "alpha-b", "mid/dir", "zeta"]
    );
    assert_eq!(RootFinder::hierarchical_fallback_search(&Vec::new()), vec!["."]);
    assert_eq!(RootFinder::hierarchical_fallback_search(&vec![pair("", "")]), vec!["."]);
}

#[test]
fn selection_takes_the_highest_priority_and_the_last_among_equals() {
    let make = |p: &str, repo, tree, ignore| RootCandidate::new(p.to_string(), repo, tree, ignore);
    assert_eq!(RootFinder::apply_root_selection(Vec::new()), ".");
    assert_eq!(
        RootFinder::apply_root_selection(vec![
            make("a", false, false, true),
            make("b", true, false, false),
            make("c", true, true, true),
        ]),
        "b"
    );
    assert_eq!(
        RootFinder::apply_root_selection(vec![
            make("a", true, false, true),
            make("b", false, false, false),
            make("c", true, false, true),
            make("d", true, true, true),
        ]),
        "c"
    );
    assert_eq!(
        RootFinder::apply_root_selection(vec![make("left", false, false, false), make("right", false, false, false)]),
        "right"
    );
}

#[test]
fn outside_a_repository_the_suffix_roots_are_candidates() {
    let list = analyses(&["project/src/main.rs", "copy/src/main.rs"], true);
    assert_eq!(candidates(RootFinder::find_root(None, &list)), vec!["project", "copy"]);
    assert_eq!(RootFinder::process_outside_repo_context(&list), vec!["project", "copy"]);

    let list = analyses(&["a/x.rs", "b/y.rs", "a/z.rs"], true);
    assert_eq!(candidates(RootFinder::find_root(None, &list)), vec!["a", "b"]);
}

#[test]
fn virtual_paths_take_the_left_root() {
    let list = analyses(&["old/src/main.rs", "new/src/main.rs"], false);
    assert_eq!(resolved(RootFinder::find_root(None, &list)), "old");
    assert_eq!(RootFinder::process_virtual_context(&list), "old");

    let list = analyses(&["old/dir/a.rs", "new/dir/b.rs"], false);
    assert_eq!(resolved(RootFinder::find_root(None, &list)), "old/dir");

    let list = analyses(&["a.rs", "b.rs"], false);
    assert_eq!(resolved(RootFinder::find_root(None, &list)), "");

    let list = analyses(&["only"], false);
    assert_eq!(resolved(RootFinder::find_root(None, &list)), ".");

    assert_eq!(RootFinder::virtual_heuristic_fallback(&Vec::new()), ".");
    assert_eq!(RootFinder::virtual_heuristic_fallback(&vec![pair("", "x")]), ".");
    assert_eq!(RootFinder::virtual_heuristic_fallback(&vec![pair("a/b/c", "x")]), "a/b");
}

#[test]
fn inside_a_repository_the_repository_root_stands() {
    let list = analyses(&["src/main.rs", "src/main.rs", "/tmp/repo/docs/a.md", "/tmp/repo/docs/a.md"], false);
    assert_eq!(resolved(RootFinder::find_root(Some("/tmp/repo"), &list)), "/tmp/repo");
    assert!(!RootFinder::check_for_external_paths(&list, "/tmp/repo"));

    let list = analyses(&["/elsewhere/src/main.rs", "/other/src/main.rs"], false);
    assert!(RootFinder::check_for_external_paths(&list, "/tmp/repo"));
    assert_eq!(candidates(RootFinder::find_root(Some("/tmp/repo"), &list)), vec!["elsewhere", "other"]);
    assert_eq!(
        candidates(RootFinder::process_in_repo_context("/tmp/repo", &list)),
        vec!["elsewhere", "other"]
    );

    assert_eq!(
        RootFinder::get_worktree_aware_root(None, "/srv/bare.git".to_string()),
        "/srv/bare.git"
    );
    assert_eq!(
        RootFinder::get_worktree_aware_root(Some("/wt".to_string()), "/main/.git/worktrees/wt".to_string()),
        "/wt"
    );
}

#[test]
fn pairs_are_taken_two_at_a_time() {
    let list = analyses(&["a/x", "b/x", "c/y", "d/y", "e/z"], true);
    let pairs = RootFinder::extract_path_pairs_from_analyses(&list);
    assert_eq!(pairs.len(), 2);
    assert_eq!(pairs[0].left, components("a/x"));
    assert_eq!(pairs[0].right, components("b/x"));
    assert_eq!(pairs[1].left, components("c/y"));
    assert_eq!(pairs[1].right, components("d/y"));
}

#[test]
fn header_lines_are_parsed_by_words() {
    assert_eq!(
        RootFinder::parse_diff_header_line("diff --git x/src/a.rs y/src/a.rs"),
        Some(("x/src/a.rs".to_string(), "y/src/a.rs".to_string()))
    );
    assert_eq!(
        RootFinder::parse_diff_header_line("  diff \t --git  a/one\u{a0}b/two  trailing"),
        Some(("one".to_string(), "two".to_string()))
    );
    assert_eq!(RootFinder::parse_diff_header_line("diff --cc a/x b/x"), None);
    assert_eq!(RootFinder::parse_diff_header_line(""), None);
    assert_eq!(
        RootFinder::parse_diff_header_line("diff --git b/x a/x"),
        Some(("b/x".to_string(), "a/x".to_string()))
    );
}

#[test]
fn diff_paths_come_from_header_lines_only() {
    let diff = "diff --git a/one b/one\r\n--- a/one\n+diff --git a/no b/no\ndiff --git broken\n diff --git a/x b/x\ndiff --git a/two b/three";
    assert_eq!(
        RootFinder::extract_diff_paths(diff.as_bytes()),
        Some(vec!["one".to_string(), "one".to_string(), "two".to_string(), "three".to_string()])
    );
    assert_eq!(RootFinder::extract_diff_paths(b""), Some(Vec::new()));
    assert_eq!(RootFinder::extract_diff_paths(b"diff --git a/x b/x\n\xff\n"), None);
}

fn diff_analyses(diff: &str, exists: bool) -> Vec<PathAnalysis> {
    RootFinder::extract_diff_paths(diff.as_bytes())
        .unwrap()
        .iter()
        .map(|p| RootFinder::create_path_analysis(p, !p.starts_with('/'), exists))
        .collect()
}

#[test]
fn test_worktree_root_detection() {
    let worktree_path = "/tmp/w/feature-branch";
    let main_repo = "/tmp/main";
    let repo_root = RootFinder::get_worktree_aware_root(
        Some(worktree_path.to_string()),
        "/tmp/main/.git/worktrees/feature-branch".to_string(),
    );

    let diff_content = "diff --git a/feature.rs b/feature.rs\n\
         new file mode 100644\n\
         index 0000000..1234567\n\
         --- /dev/null\n\
         +++ b/feature.rs\n\
         @@ -0,0 +1,1 @@\n\
         +// Feature code\n"
        .to_string();

    let found_root =
        resolved(RootFinder::find_root(Some(&repo_root), &diff_analyses(&diff_content, false)));

    assert_eq!(found_root, worktree_path);
    assert_ne!(found_root, main_repo);
}

#[test]
fn test_worktree_priority_scoring() {
    let worktree_path = "/tmp/w/worktree";

    let diff_content = "diff --git a/shared.rs b/shared.rs\n\
                       new file mode 100644\n\
                       index 0000000..1234567\n\
                       --- /dev/null\n\
                       +++ b/shared.rs\n\
                       @@ -0,0 +1,1 @@\n\
                       +// Shared code\n";

    let found_root =
        resolved(RootFinder::find_root(Some(worktree_path), &diff_analyses(diff_content, false)));

    assert_eq!(found_root, worktree_path);

    let tree = RootCandidate::new(worktree_path.to_string(), true, true, true);
    let main = RootCandidate::new("/tmp/main".to_string(), true, false, true);
    assert_eq!(tree.priority_score(), 4);
    assert_eq!(main.priority_score(), 6);
    assert!(RootCandidate::is_worktree_directory(Some(true)));
}

#[test]
fn test_worktree_without_gitignore() {
    let worktree_path = "/tmp/w/worktree";

    let diff_content = "diff --git a/worktree_file.rs b/worktree_file.rs\n\
                       new file mode 100644\n\
                       index 0000000..1234567\n\
                       --- /dev/null\n\
                       +++ b/worktree_file.rs\n\
                       @@ -0,0 +1,1 @@\n\
                       +// Worktree file\n";

    let found_root =
        resolved(RootFinder::find_root(Some(worktree_path), &diff_analyses(diff_content, false)));

    assert_eq!(found_root, worktree_path);
    assert_eq!(RootCandidate::new(worktree_path.to_string(), true, true, false).priority_score(), 3);
}

#[test]
fn test_bare_repository_root() {
    let bare_repo_path = "/tmp/b/bare.git";
    let repo_root = RootFinder::get_worktree_aware_root(None, bare_repo_path.to_string());

    let diff_content = "diff --git a/test.rs b/test.rs\n\
                       new file mode 100644\n\
                       index 0000000..1234567\n\
                       --- /dev/null\n\
                       +++ b/test.rs\n\
                       @@ -0,0 +1,1 @@\n\
                       +// Test file\n";

    let found_root =
        resolved(RootFinder::find_root(Some(&repo_root), &diff_analyses(diff_content, false)));

    assert_eq!(found_root, bare_repo_path);
}

#[test]
fn test_worktree_with_external_paths() {
    let worktree_path = "/tmp/w/worktree";
    let external_file = "/tmp/ext/external.rs";

    let diff_content = format!(
        "diff --git a/worktree_file.rs b/worktree_file.rs\n\
         new file mode 100644\n\
         --- /dev/null\n\
         +++ b/worktree_file.rs\n\
         @@ -0,0 +1,1 @@\n\
         +// Worktree file\n\
         diff --git a/{} b/{}\n\
         new file mode 100644\n\
         --- /dev/null\n\
         +++ b/{}\n\
         @@ -0,0 +1,1 @@\n\
         +// External file\n",
        external_file, external_file, external_file
    );

    let list = diff_analyses(&diff_content, true);
    assert!(RootFinder::check_for_external_paths(&list, worktree_path));
    let found = candidates(RootFinder::find_root(Some(worktree_path), &list));
    assert_eq!(found, vec!["", "tmp/ext"]);
    let scored: Vec<RootCandidate> =
        found.into_iter().map(|p| RootCandidate::new(p, false, false, false)).collect();
    let found_root = RootFinder::apply_root_selection(scored);

    assert!(found_root == "." || !found_root.starts_with('/'));
}

#[test]
fn paths_are_read_from_text() {
    assert_eq!(
        RootFinder::extract_paths_from_text("x\ndiff --git a/p/q b/r/q\n+y\n"),
        vec!["p/q".to_string(), "r/q".to_string()]
    );
    assert_eq!(RootFinder::extract_paths_from_text(""), Vec::<String>::new());
}

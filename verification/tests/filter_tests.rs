use diff_gitignore_filter::filter::{DiffInput, SectionState, WriteStage};
use diff_gitignore_filter::matcher::Verdict;
use diff_gitignore_filter::rules;
use diff_gitignore_filter::error::IoFailure;
use diff_gitignore_filter::{Error, Filter};

fn create_test_filter() -> Filter {
    Filter::new("/repo", Some(&b"*.log\n"[..])).unwrap()
}

fn filtered(filter: &Filter, diff: &str) -> String {
    String::from_utf8(filter.process_diff(diff.as_bytes())).unwrap()
}

#[test]
fn test_filter_creation() {
    let filter = create_test_filter();

    assert!(filter.has_ignore_rules());
    assert!(filter.vcs_patterns().is_empty());
    assert!(!filter.vcs_filtering_enabled());
    assert!(filter.downstream_command().is_none());
}

#[test]
fn test_filter_with_vcs_patterns() {
    let patterns = vec![".git/".to_string(), ".svn/".to_string()];
    let filter = create_test_filter().with_vcs_patterns(patterns.clone());

    assert_eq!(filter.vcs_patterns(), &patterns);
    assert!(filter.vcs_filtering_enabled());
}

#[test]
fn test_filter_with_downstream() {
    let command = "cat".to_string();
    let filter = create_test_filter().with_downstream(command.clone());

    assert_eq!(filter.downstream_command(), Some(&command));
}

#[test]
fn test_extract_file_path() {
    let filter = create_test_filter();

    let line = "diff --git a/src/main.rs b/src/main.rs";
    let path = filter.extract_file_path(line);
    assert_eq!(path, Some("src/main.rs".to_string()));

    let line = "diff --git a/test file.txt b/test file.txt";
    let path = filter.extract_file_path(line);
    assert_eq!(path, Some("test file.txt".to_string()));

    let invalid_line = "not a diff line";
    let path = filter.extract_file_path(invalid_line);
    assert_eq!(path, None);
}

#[test]
fn test_is_vcs_file() {
    let patterns = vec![".git/".to_string(), ".svn/".to_string()];
    let filter = create_test_filter().with_vcs_patterns(patterns);

    assert!(filter.is_vcs_file(".git/config"));
    assert!(filter.is_vcs_file(".svn/entries"));
    assert!(!filter.is_vcs_file("src/main.rs"));
    assert!(!filter.is_vcs_file("README.md"));
}

#[test]
fn test_should_include_file_vcs_enabled() {
    let patterns = vec![".git/".to_string()];
    let filter = create_test_filter().with_vcs_patterns(patterns);

    assert!(!filter.should_include_file(".git/config"));
    assert!(filter.should_include_file("src/main.rs"));
}

#[test]
fn test_should_include_file_vcs_disabled() {
    let filter = create_test_filter();

    assert!(filter.should_include_file(".git/config"));
    assert!(filter.should_include_file("src/main.rs"));
}

#[test]
fn test_process_diff_basic() {
    let filter = create_test_filter();

    let diff_content = r"diff --git a/test.txt b/test.txt
index 1234567..abcdefg 100644
--- a/test.txt
+++ b/test.txt
@@ -1 +1,2 @@
 hello
+world
";

    let output_str = filtered(&filter, diff_content);
    assert!(output_str.contains("diff --git a/test.txt b/test.txt"));
    assert!(output_str.contains("+world"));
}

#[test]
fn test_process_diff_with_vcs_filtering_enabled() {
    let patterns = vec![".git/".to_string()];
    let filter = create_test_filter().with_vcs_patterns(patterns);

    let diff_content = r"diff --git a/.git/config b/.git/config
index 1234567..abcdefg 100644
--- a/.git/config
+++ b/.git/config
@@ -1 +1,2 @@
 [core]
+    bare = false
diff --git a/test.txt b/test.txt
index 1234567..abcdefg 100644
--- a/test.txt
+++ b/test.txt
@@ -1 +1,2 @@
 hello
+world
";

    let output_str = filtered(&filter, diff_content);
    assert!(!output_str.contains(".git/config"));
    assert!(output_str.contains("test.txt"));
    assert!(output_str.contains("+world"));
}

#[test]
fn test_process_diff_with_vcs_filtering_disabled() {
    let filter = create_test_filter();

    let diff_content = r"diff --git a/.git/config b/.git/config
index 1234567..abcdefg 100644
--- a/.git/config
+++ b/.git/config
@@ -1 +1,2 @@
 [core]
+    bare = false
diff --git a/test.txt b/test.txt
index 1234567..abcdefg 100644
--- a/test.txt
+++ b/test.txt
@@ -1 +1,2 @@
 hello
+world
";

    let output_str = filtered(&filter, diff_content);
    assert!(output_str.contains(".git/config"));
    assert!(output_str.contains("test.txt"));
    assert!(output_str.contains("+world"));
}

#[test]
fn test_process_diff_empty() {
    let filter = create_test_filter();

    let output = filter.process_diff(b"");

    assert!(output.is_empty());
}

#[test]
fn lib_test_basic_functionality() {
    let filter = create_test_filter();
    let input = "diff --git a/test.txt b/test.txt\n";

    let output = filter.process_diff(input.as_bytes());

    assert!(!output.is_empty());
}

#[test]
fn vcs_pattern_is_anchored_to_components() {
    let filter = create_test_filter().with_vcs_patterns(vec![".git/".to_string()]);

    assert!(filter.should_include_file("my.git.backup"));
    assert!(filter.should_include_file(".github/workflows/ci.yml"));
    assert!(!filter.should_include_file("project/.git/config"));
    assert!(filter.should_include_file(".gitignore"));
    assert!(filter.should_include_file("my.git/config"));
}

#[test]
fn vcs_pattern_forms() {
    let filter = create_test_filter();

    assert!(filter.matches_vcs_pattern("target/debug/main", "target/*"));
    assert!(filter.matches_vcs_pattern("sub/target/debug/main", "target/*"));
    assert!(!filter.matches_vcs_pattern("mytarget/debug/main", "target/*"));
    assert!(!filter.matches_vcs_pattern("targets/debug/main", "target/*"));
    assert!(filter.matches_vcs_pattern("CVS", "CVS"));
    assert!(filter.matches_vcs_pattern("CVS/Entries", "CVS"));
    assert!(filter.matches_vcs_pattern("a/CVS/Entries", "CVS"));
    assert!(!filter.matches_vcs_pattern("a/CVSROOT/Entries", "CVS"));
    assert!(!filter.matches_vcs_pattern("a/xCVS/Entries", "CVS"));
    assert!(filter.matches_vcs_pattern(".git/", ".git/"));
    assert!(!filter.matches_vcs_pattern(".git", ".git/"));
}

#[test]
fn ignore_rules_reach_into_directories() {
    let filter = Filter::new("/repo", Some(&b"target/\n"[..])).unwrap();

    assert!(!filter.should_include_file("target/debug/main"));
    assert!(!filter.should_include_file("target/debug/deps/x.d"));
    assert!(filter.should_include_file("src/target.rs"));

    let diff = "diff --git a/target/debug/main b/target/debug/main\n+x\ndiff --git a/src/lib.rs b/src/lib.rs\n+y\n";
    let out = filtered(&filter, diff);
    assert_eq!(out, "diff --git a/src/lib.rs b/src/lib.rs\n+y\n");
}

#[test]
fn negated_rule_wins() {
    let filter = Filter::new("/repo", Some(&b"*.log\n!important.log\n"[..])).unwrap();

    assert!(!filter.should_include_file("debug.log"));
    assert!(filter.should_include_file("important.log"));

    let diff = "diff --git a/debug.log b/debug.log\n+a\ndiff --git a/important.log b/important.log\n+b\n";
    let out = filtered(&filter, diff);
    assert_eq!(out, "diff --git a/important.log b/important.log\n+b\n");
}

#[test]
fn no_ignore_file_keeps_everything() {
    let filter = Filter::new("/repo", None).unwrap();

    assert!(filter.should_include_file("debug.log"));
    assert!(filter.should_include_file("target/debug/main"));
}

#[test]
fn ignore_file_lines_are_read_as_the_matcher_reads_them() {
    let filter = Filter::new("/repo", Some(&b"\xef\xbb\xbf*.log\r\n# comment\r\n\r\nbuild/\r\n"[..])).unwrap();
    assert!(!filter.should_include_file("a.log"));
    assert!(!filter.should_include_file("build/out.o"));
    assert!(filter.should_include_file("src/a.rs"));

    let cut = Filter::new("/repo", Some(&b"*.log\n\xff\xfe\n*.tmp\n"[..])).unwrap();
    assert!(!cut.should_include_file("a.log"));
    assert!(cut.should_include_file("a.tmp"));
}

#[test]
fn binary_diff_passes_through_unchanged() {
    let mut input: Vec<u8> = Vec::new();
    input.extend_from_slice(b"diff --git a/image.png b/image.png\nindex 1234567..abcdefg 100644\nGIT binary patch\nliteral 5\n");
    input.extend_from_slice(&[0x00, 0xff, 0xfe, 0x89, 0x50, 0x0a]);
    input.extend_from_slice(b"diff --git a/debug.log b/debug.log\n+x");

    let plain = create_test_filter();
    assert_eq!(plain.process_diff(&input), input);
    assert!(matches!(plain.prepare(&input), DiffInput::Binary));

    let with_vcs = create_test_filter().with_vcs_patterns(vec![".git/".to_string()]);
    assert_eq!(with_vcs.process_diff(&input), input);

    let none = Filter::new("/repo", None).unwrap().with_downstream("cat".to_string());
    assert_eq!(none.process_diff(&input), input);
}

#[test]
fn binary_diff_with_vcs_path_is_filtered_by_lines() {
    let mut input: Vec<u8> = Vec::new();
    input.extend_from_slice(b"diff --git a/.git/index b/.git/index\nGIT binary patch\n");
    input.extend_from_slice(&[0x00, 0x01, 0x0a]);
    input.extend_from_slice(b"diff --git a/src/a.rs b/src/a.rs\n+x\n");

    let filter = create_test_filter().with_vcs_patterns(vec![".git/".to_string()]);
    let out = filter.process_diff(&input);
    assert_eq!(out, b"diff --git a/src/a.rs b/src/a.rs\n+x\n".to_vec());
}

#[test]
fn invalid_utf8_is_replaced_when_lines_are_filtered() {
    let mut input: Vec<u8> = Vec::new();
    input.extend_from_slice(b"diff --git a/.git/x b/.git/x\n+a\n");
    input.extend_from_slice(b"diff --git a/src/a.rs b/src/a.rs\n+");
    input.push(0xff);
    input.extend_from_slice(b"\n");

    let filter = create_test_filter().with_vcs_patterns(vec![".git/".to_string()]);
    let out = filter.process_diff(&input);
    assert_eq!(out, "diff --git a/src/a.rs b/src/a.rs\n+\u{fffd}\n".as_bytes().to_vec());
}

#[test]
fn lines_before_the_first_header_are_kept() {
    let filter = create_test_filter();
    let diff = "commit abc\nAuthor: x\n\ndiff --git a/debug.log b/debug.log\n+secret\ndiff --git a/a.txt b/a.txt\n+kept\n";
    assert_eq!(
        filtered(&filter, diff),
        "commit abc\nAuthor: x\n\ndiff --git a/a.txt b/a.txt\n+kept\n"
    );
}

#[test]
fn header_without_path_is_dropped() {
    let filter = Filter::new("/repo", None).unwrap();
    let diff = "diff --git broken\n+x\ndiff --git a/a.txt b/a.txt\n+y\n";
    assert_eq!(filtered(&filter, diff), "diff --git a/a.txt b/a.txt\n+y\n");
    assert_eq!(filter.extract_file_path("diff --git a/ b/"), None);
    assert_eq!(filter.extract_file_path("diff --gitx a/a b/a"), None);
}

#[test]
fn line_endings_are_normalized() {
    let filter = Filter::new("/repo", None).unwrap();
    assert_eq!(filtered(&filter, "diff --git a/a b/a\r\n+x\r\n+y"), "diff --git a/a b/a\n+x\n+y\n");
    assert_eq!(filtered(&filter, "a\n\nb\r"), "a\n\nb\r\n");
}

#[test]
fn filtering_twice_gives_the_same_output() {
    let filter = create_test_filter().with_vcs_patterns(vec![".git/".to_string()]);
    let diff = "diff --git a/a.log b/a.log\n+1\ndiff --git a/.git/c b/.git/c\n+2\ndiff --git a/a.rs b/a.rs\n+3\n";
    let first = filter.process_diff(diff.as_bytes());
    let second = filter.process_diff(diff.as_bytes());
    assert_eq!(first, second);
    assert_eq!(first, b"diff --git a/a.rs b/a.rs\n+3\n".to_vec());

    let again = create_test_filter().with_vcs_patterns(vec![".git/".to_string()]);
    assert_eq!(again.process_diff(diff.as_bytes()), first);
}

#[test]
fn large_section_is_flushed_at_the_threshold() {
    let filter = Filter::new("/repo", None).unwrap();
    let mut state = SectionState::new();
    let mut written: Vec<String> = Vec::new();
    let mut chunks: Vec<usize> = Vec::new();

    let first = filter.feed_line(&mut state, "diff --git a/big.txt b/big.txt");
    assert!(first.is_empty());
    for i in 0..100_000u32 {
        let out = filter.feed_line(&mut state, &format!("+line {}", i));
        if !out.is_empty() {
            chunks.push(out.len());
            written.extend(out);
        }
    }
    assert_eq!(chunks[0], 1024);
    assert!(chunks.iter().all(|n| *n == 1024));
    assert_eq!(chunks.len(), 100_001 / 1024);
    let rest = state.finish();
    assert_eq!(rest.len(), 100_001 % 1024);
    written.extend(rest);
    assert_eq!(written.len(), 100_001);
    assert_eq!(written[0], "diff --git a/big.txt b/big.txt");
    assert_eq!(written[100_000], "+line 99999");
}

#[test]
fn excluded_section_is_never_written() {
    let filter = create_test_filter();
    let mut state = SectionState::new();
    assert!(filter.feed_line(&mut state, "diff --git a/x.log b/x.log").is_empty());
    for _ in 0..5000 {
        assert!(filter.feed_line(&mut state, "+secret").is_empty());
    }
    assert!(state.finish().is_empty());
}

#[test]
fn streaming_gives_what_process_diff_gives() {
    let filter = create_test_filter();
    let diff = "head\ndiff --git a/a.txt b/a.txt\n+1\ndiff --git a/b.log b/b.log\n+2\ndiff --git a/c.txt b/c.txt\n+3\n";
    let lines = match filter.prepare(diff.as_bytes()) {
        DiffInput::Text(lines) => lines,
        DiffInput::Binary => panic!("text expected"),
    };
    let mut state = SectionState::new();
    let mut out = String::new();
    for line in &lines {
        for written in filter.feed_line(&mut state, line) {
            out.push_str(&written);
            out.push('\n');
        }
    }
    for written in state.finish() {
        out.push_str(&written);
        out.push('\n');
    }
    assert_eq!(out.as_bytes(), &filter.process_diff(diff.as_bytes())[..]);
    assert_eq!(out, "head\ndiff --git a/a.txt b/a.txt\n+1\ndiff --git a/c.txt b/c.txt\n+3\n");
}

#[test]
fn broken_pipe_is_no_error() {
    let broken = IoFailure { broken_pipe: true, message: "Broken pipe (os error 32)".to_string() };
    assert!(Filter::write_outcome(WriteStage::Line, &broken).is_ok());
    assert!(Filter::write_outcome(WriteStage::Header, &broken).is_ok());
    assert!(Filter::write_outcome(WriteStage::Binary, &broken).is_ok());

    let full = IoFailure { broken_pipe: false, message: "disk full".to_string() };
    match Filter::write_outcome(WriteStage::Line, &full) {
        Err(Error::Processing(msg)) => assert_eq!(msg, "Failed to write line: disk full"),
        _ => panic!("processing error expected"),
    }
    match Filter::write_outcome(WriteStage::Header, &full) {
        Err(Error::Processing(msg)) => assert_eq!(msg, "Failed to write header line: disk full"),
        _ => panic!("processing error expected"),
    }
    match Filter::write_outcome(WriteStage::Binary, &full) {
        Err(Error::Processing(msg)) => assert_eq!(msg, "Failed to write binary data: disk full"),
        _ => panic!("processing error expected"),
    }
}

#[test]
fn downstream_failures_are_told_apart() {
    match Filter::spawn_failure("nope", "not found") {
        Error::DownstreamSpawnFailed(msg) => {
            assert_eq!(msg, "Failed to spawn downstream command 'nope': not found")
        }
        _ => panic!("spawn failure expected"),
    }
    match Filter::downstream_outcome("false", false, Some(1), Ok(())) {
        Err(Error::DownstreamProcessFailed(msg)) => {
            assert_eq!(msg, "Downstream command 'false' failed with exit code: Some(1)")
        }
        _ => panic!("process failure expected"),
    }
    match Filter::downstream_outcome("x", false, Some(-15), Ok(())) {
        Err(Error::DownstreamProcessFailed(msg)) => {
            assert_eq!(msg, "Downstream command 'x' failed with exit code: Some(-15)")
        }
        _ => panic!("process failure expected"),
    }
    match Filter::downstream_outcome("x", false, None, Ok(())) {
        Err(Error::DownstreamProcessFailed(msg)) => {
            assert_eq!(msg, "Downstream command 'x' failed with exit code: None")
        }
        _ => panic!("process failure expected"),
    }
    assert!(Filter::downstream_outcome("cat", true, Some(0), Ok(())).is_ok());
    assert!(matches!(
        Filter::downstream_outcome("cat", true, Some(0), Err(Error::processing_error("x".to_string()))),
        Err(Error::Processing(_))
    ));
    match Filter::wait_failure("gone") {
        Error::Processing(msg) => assert_eq!(msg, "Failed to wait for downstream command: gone"),
        _ => panic!("processing error expected"),
    }
    match Filter::read_failure("eof") {
        Error::Processing(msg) => assert_eq!(msg, "Failed to read input data: eof"),
        _ => panic!("processing error expected"),
    }
}

#[test]
fn end_to_end_ignored_log_leaves() {
    let filter = Filter::new("/repo", Some(&b"*.log"[..])).unwrap();
    let section = "diff --git a/src/main.rs b/src/main.rs\nindex 1111111..2222222 100644\n--- a/src/main.rs\n+++ b/src/main.rs\n@@ -1 +1,2 @@\n fn main() {}\n+// added\n";
    let diff = format!("{}diff --git a/debug.log b/debug.log\nindex 3333333..4444444 100644\n--- a/debug.log\n+++ b/debug.log\n@@ -1 +1,2 @@\n old\n+new\n", section);
    let out = filtered(&filter, &diff);
    assert_eq!(out, section);
    assert!(!out.contains("debug.log"));
}

#[test]
fn end_to_end_vcs_and_ignored_leave() {
    let filter = Filter::new("/repo", Some(&b"*.log"[..]))
        .unwrap()
        .with_vcs_patterns(vec![".git/".to_string(), ".svn/".to_string()]);
    let section = "diff --git a/src/main.rs b/src/main.rs\n--- a/src/main.rs\n+++ b/src/main.rs\n@@ -1 +1,2 @@\n fn main() {}\n+// added\n";
    let diff = format!("diff --git a/.git/config b/.git/config\n+[core]\n{}diff --git a/debug.log b/debug.log\n+new\n", section);
    let out = filtered(&filter, &diff);
    assert_eq!(out, section);
    assert!(!out.contains(".git/config"));
    assert!(!out.contains("debug.log"));
    assert!(out.contains("src/main.rs"));
}

#[test]
fn end_to_end_empty_input() {
    let filter = Filter::new("/repo", Some(&b"*.log"[..])).unwrap();
    assert!(filter.process_diff(b"").is_empty());
    let with_vcs = create_test_filter().with_vcs_patterns(vec![".git/".to_string()]);
    assert!(with_vcs.process_diff(b"").is_empty());
}

#[test]
fn fully_kept_diff_comes_out_unchanged() {
    let filter = create_test_filter().with_vcs_patterns(vec![".git/".to_string()]);
    let diff = "From 1234 Mon Sep 17 00:00:00 2001\n\ndiff --git a/src/caf\u{e9}.rs b/src/caf\u{e9}.rs\nindex 1..2 100644\n--- a/src/caf\u{e9}.rs\n+++ b/src/caf\u{e9}.rs\n@@ -1 +1,2 @@\n old\n+new \u{1f600}\ndiff --git a/img.bin b/img.bin\nGIT binary patch\nliteral 5\nMc$`<S#6LB0eKN>v\n\n";
    assert_eq!(filter.process_diff(diff.as_bytes()), diff.as_bytes().to_vec());
}

#[test]
fn text_is_filtered_like_bytes() {
    let filter = create_test_filter();
    let diff = "diff --git a/a.log b/a.log\n+1\ndiff --git a/a.rs b/a.rs\r\n+2";
    assert_eq!(filter.filter_text(diff), "diff --git a/a.rs b/a.rs\n+2\n");
    assert_eq!(filter.filter_text(diff).into_bytes(), filter.process_diff(diff.as_bytes()));
    assert_eq!(filter.filter_text(""), "");
}

#[test]
fn verdicts_decide_nearest_first() {
    assert!(!rules::keeps(Verdict::Ignore, &vec![]));
    assert!(!rules::keeps(Verdict::Ignore, &vec![Verdict::Whitelist]));
    assert!(rules::keeps(Verdict::Whitelist, &vec![Verdict::Ignore, Verdict::Ignore]));
    assert!(rules::keeps(Verdict::NoMatch, &vec![]));
    assert!(rules::keeps(Verdict::NoMatch, &vec![Verdict::NoMatch, Verdict::NoMatch]));
    assert!(!rules::keeps(Verdict::NoMatch, &vec![Verdict::NoMatch, Verdict::Ignore, Verdict::Whitelist]));
    assert!(rules::keeps(Verdict::NoMatch, &vec![Verdict::Whitelist, Verdict::Ignore]));
    assert!(!rules::keeps(Verdict::NoMatch, &vec![Verdict::Ignore]));
}

#[test]
fn directories_are_listed_nearest_first() {
    let dirs = |p: &str| -> Vec<String> {
        let chars: Vec<char> = p.chars().collect();
        rules::directories(&chars).into_iter().map(|d| d.into_iter().collect()).collect()
    };
    assert_eq!(dirs("target/debug/main"), vec!["target/debug", "target"]);
    assert_eq!(dirs("main.rs"), Vec::<String>::new());
    assert_eq!(dirs(""), Vec::<String>::new());
    assert_eq!(dirs("a//b///c"), vec!["a//b", "a"]);
    assert_eq!(dirs("a/b/"), vec!["a"]);
    assert_eq!(dirs("./src/x"), vec!["./src", "."]);
    assert_eq!(dirs("/abs/x"), vec!["/abs", "/"]);
    assert_eq!(dirs("/x"), vec!["/"]);
    assert_eq!(dirs("//x/y/"), vec!["//x", "/"]);
    assert_eq!(dirs("/"), Vec::<String>::new());
}

#[test]
fn rules_without_lines_are_there_and_keep_everything() {
    let none = Filter::new("/repo", None).unwrap();
    assert!(none.has_ignore_rules());
    assert!(none.should_include_file("debug.log"));
    assert!(none.should_include_file("target/debug/main"));

    let empty = Filter::new("/other", Some(&b""[..])).unwrap();
    assert!(empty.has_ignore_rules());
    assert!(empty.should_include_file("a/b.log"));

    let refused = Filter::new("/repo", Some(&b"a[z-a]\n"[..])).unwrap();
    assert!(refused.has_ignore_rules());
    assert!(refused.should_include_file("ab"));
    assert!(refused.should_include_file("a[z-a]"));

    let mixed = Filter::new("/repo", Some(&b"a[z-a]\n*.log\n"[..])).unwrap();
    assert!(mixed.has_ignore_rules());
    assert!(!mixed.should_include_file("x.log"));
    assert!(mixed.should_include_file("ab"));
}

#[test]
fn directories_are_those_of_the_standard_library() {
    for p in [
        "target/debug/main", "main.rs", "", "a//b///c", "a/b/", "./src/x", "/abs/x", "/", "/x",
        "//x/y/", "a/b/c/d/e", "../x/y", "x/", "/a/b/c",
    ] {
        let expected: Vec<String> = std::path::Path::new(p)
            .ancestors()
            .skip(1)
            .take_while(|d| *d != std::path::Path::new(""))
            .map(|d| d.to_string_lossy().into_owned())
            .collect();
        let chars: Vec<char> = p.chars().collect();
        let found: Vec<String> =
            rules::directories(&chars).into_iter().map(|d| d.into_iter().collect()).collect();
        assert_eq!(found, expected, "for {p:?}");
    }
}

#[test]
fn file_without_rules_keeps_everything() {
    let comments = Filter::new("/repo", Some(&b"# only a comment\n\n   \n#*.log\n"[..])).unwrap();
    assert!(comments.has_ignore_rules());
    assert!(comments.should_include_file("a.txt"));
    assert!(comments.should_include_file("debug.log"));
    assert!(comments.should_include_file("#*.log"));
}

#[test]
fn closing_white_space_is_no_part_of_a_rule() {
    let filter = Filter::new("/repo", Some(&b"*.log  \t\nname\\ \n"[..])).unwrap();
    assert!(!filter.should_include_file("debug.log"));
    assert!(filter.should_include_file("debug.log  \t"));
    assert!(!filter.should_include_file("name "));
    assert!(filter.should_include_file("name"));
}

#[test]
fn root_is_kept_without_its_leading_dot_slash() {
    let dotted = Filter::new("./x", Some(&b"/a.log\n"[..])).unwrap();
    let plain = Filter::new("x", Some(&b"/a.log\n"[..])).unwrap();
    for path in ["x/a.log", "a.log", "x/b/a.log", "b/a.log", "./x/a.log", "y/x/a.log"] {
        assert_eq!(dotted.should_include_file(path), plain.should_include_file(path), "for {path}");
    }
    assert!(!plain.should_include_file("x/a.log"));
    assert!(!plain.should_include_file("a.log"));
    assert!(plain.should_include_file("x/b/a.log"));
}

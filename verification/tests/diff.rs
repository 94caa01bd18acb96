//! Unified diffs: what is read from them, and the rows of a split view.
use rode::diff::{parse_hunk_header, split_rows, DiffDocument, DiffLineKind};

const SAMPLE: &str = r#"diff --git a/src/lib.rs b/src/lib.rs
index 1111111..2222222 100644
--- a/src/lib.rs
+++ b/src/lib.rs
@@ -10,4 +10,5 @@ fn example() {
 unchanged
-old one
-old two
+new one
+new two
+new three
 tail
"#;

#[test]
fn parses_files_hunks_stats_and_line_numbers() {
    let document = DiffDocument::parse(SAMPLE);
    assert_eq!(document.files.len(), 1);
    let file = &document.files[0];
    assert_eq!(file.display_path(), "src/lib.rs");
    assert_eq!((file.additions, file.deletions), (3, 2));
    assert_eq!(file.hunks.len(), 1);
    let lines = &file.hunks[0].lines;
    assert_eq!(lines[0].kind, DiffLineKind::Context);
    assert_eq!((lines[0].old_line, lines[0].new_line), (Some(10), Some(10)));
    assert_eq!((lines[1].old_line, lines[1].new_line), (Some(11), None));
    assert_eq!((lines[3].old_line, lines[3].new_line), (None, Some(11)));
    assert_eq!((lines[6].old_line, lines[6].new_line), (Some(13), Some(14)));
}

#[test]
fn aligns_changed_blocks_for_split_view() {
    let document = DiffDocument::parse(SAMPLE);
    let rows = split_rows(&document.files[0].hunks[0]);
    assert_eq!(rows.len(), 5);
    assert_eq!(rows[0].left.as_ref().unwrap().text, "unchanged");
    assert_eq!(rows[1].left.as_ref().unwrap().text, "old one");
    assert_eq!(rows[1].right.as_ref().unwrap().text, "new one");
    assert!(rows[3].left.is_none());
    assert_eq!(rows[3].right.as_ref().unwrap().text, "new three");
    assert_eq!(rows[4].left.as_ref().unwrap().text, "tail");
}

#[test]
fn recognizes_added_deleted_and_binary_files() {
    let document = DiffDocument::parse(
        "diff --git a/new.png b/new.png\nnew file mode 100644\nBinary files /dev/null and b/new.png differ\n\
         diff --git a/old.txt b/old.txt\ndeleted file mode 100644\n--- a/old.txt\n+++ /dev/null\n",
    );
    assert_eq!(document.files.len(), 2);
    assert!(document.files[0].binary);
    assert_eq!(document.files[0].status.as_deref(), Some("Added"));
    assert_eq!(document.files[1].status.as_deref(), Some("Deleted"));
    assert_eq!(document.files[1].display_path(), "old.txt");
}

#[test]
fn parses_single_line_hunk_ranges() {
    let document =
        DiffDocument::parse("diff --git a/a b/a\n--- a/a\n+++ b/a\n@@ -2 +2 @@\n-old\n+new\n");
    let hunk = &document.files[0].hunks[0];
    assert_eq!((hunk.old_start, hunk.old_count), (2, 1));
    assert_eq!((hunk.new_start, hunk.new_count), (2, 1));
}

#[test]
fn diffs_are_parsed_one_after_the_other() {
    let first = "noise\n@@ -1 +1 @@\ndiff --git a/a b/a\n--- a/a\n+++ b/a\n@@ -1 +1 @@\n-x\n+y\n";
    let second = "diff --git a/b b/b\nnew file mode 100644\n--- /dev/null\n+++ b/b\n@@ -0,0 +1 @@\n+z";
    let both = DiffDocument::parse(&format!("{first}{second}")).files;
    let mut files = DiffDocument::parse(first).files;
    assert_eq!(files.len(), 1);
    files.extend(DiffDocument::parse(second).files);
    assert_eq!(both, files);
    assert!(DiffDocument::parse("noise\n@@ -1 +1 @@\n+x\n").files.is_empty());
}

#[test]
fn hunk_headers_are_read_back() {
    for (a, b, c, d) in [(0, 0, 1, 5000), (u32::MAX, 1, 7, u32::MAX)] {
        assert_eq!(
            parse_hunk_header(&format!("@@ -{a},{b} +{c},{d} @@ fn x() @@ y")),
            Some((a, b, c, d))
        );
        assert_eq!(parse_hunk_header(&format!("@@ -{a} +{c} @@")), Some((a, 1, c, 1)));
    }
    assert_eq!(parse_hunk_header("@@ -4294967296 +1 @@"), None);
}

#[test]
fn hunks_keep_their_lines() {
    let body = ["+a", "-b", " c", "", "\\ No newline at end of file", "+++ d"];
    let text = format!("diff --git a/f b/f\n@@ -1,2 +1,3 @@\n{}\n", body.join("\n"));
    let document = DiffDocument::parse(&text);
    let written: Vec<String> = document.files[0].hunks[0]
        .lines
        .iter()
        .map(|line| match line.kind {
            DiffLineKind::Addition => format!("+{}", line.text),
            DiffLineKind::Deletion => format!("-{}", line.text),
            DiffLineKind::Context => format!(" {}", line.text),
            DiffLineKind::Meta => line.text.clone(),
        })
        .collect();
    assert_eq!(written, body);
}

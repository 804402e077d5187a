use lister::listing::{entry_shown, list_level, long_line, Entry, Meta, Step};
use lister::options::Options;

fn opts(long_list: bool, all: bool, directory: bool, recursive: bool) -> Options {
    Options { long_list, all, directory, recursive }
}

fn entry(dir: &str, name: &str, is_dir: bool) -> Entry {
    Entry {
        name: name.to_string(),
        path: format!("{}/{}", dir, name),
        is_dir,
        meta: None,
    }
}

/// A small tree: `./a/b/c.txt`, with a hidden file and a hidden directory.
fn tree(path: &str) -> Vec<Entry> {
    match path {
        "." => vec![entry(".", "a", true), entry(".", ".hidden", false)],
        "./a" => vec![entry("./a", "b", true), entry("./a", ".git", true)],
        "./a/b" => vec![entry("./a/b", "c.txt", false)],
        "./a/.git" => vec![entry("./a/.git", "HEAD", false)],
        _ => Vec::new(),
    }
}

/// Runs a whole listing over `tree`, descending where a step says so.
fn walk(dir: &str, o: &Options, indent: &str, out: &mut Vec<String>) {
    for step in list_level(dir, &tree(dir), o, indent) {
        match step {
            Step::Line(l) => out.push(l),
            Step::Descend(p, i) => walk(&p, o, &i, out),
        }
    }
}

fn listing(o: &Options) -> Vec<String> {
    let mut out = Vec::new();
    walk(".", o, "", &mut out);
    out
}

#[test]
fn hidden_entries_are_left_out_without_all() {
    for recursive in [false, true] {
        let out = listing(&opts(false, false, false, recursive));
        assert!(out.iter().all(|l| !l.trim_start().starts_with('.')));
        assert!(!out.iter().any(|l| l.contains("HEAD") || l.contains(".git")));
    }
}

#[test]
fn all_shows_hidden_entries() {
    let out = listing(&opts(false, true, false, false));
    assert_eq!(out, vec!["a".to_string(), ".hidden".to_string()]);
}

#[test]
fn without_recursion_no_subdirectory_is_listed() {
    let out = listing(&opts(false, true, false, false));
    assert!(!out.iter().any(|l| l.contains('b') || l.contains("c.txt")));
    let steps = list_level(".", &tree("."), &opts(false, true, false, false), "");
    assert!(steps.iter().all(|s| matches!(s, Step::Line(_))));
}

#[test]
fn recursion_lists_nested_tree_in_order() {
    let out = listing(&opts(false, false, false, true));
    let expected: Vec<String> = vec![
        "a",
        "",
        "\"./a\" :",
        "\tb",
        "",
        "\t\"./a/b\" :",
        "\t\tc.txt",
    ]
    .into_iter()
    .map(String::from)
    .collect();
    assert_eq!(out, expected);
}

#[test]
fn recursion_descends_with_one_more_tab() {
    let steps = list_level("x", &vec![entry("x", "d", true)], &opts(false, false, false, true), "\t");
    assert_eq!(
        steps,
        vec![
            Step::Line("\td".to_string()),
            Step::Line(String::new()),
            Step::Line("\t\"x/d\" :".to_string()),
            Step::Descend("x/d".to_string(), "\t\t".to_string()),
        ]
    );
}

#[test]
fn header_quotes_and_escapes_the_path() {
    let steps = list_level("q", &vec![entry("q", "say \"hi\"", true)], &opts(false, false, false, true), "");
    assert_eq!(steps[2], Step::Line("\"q/say \\\"hi\\\"\" :".to_string()));
}

#[test]
fn empty_directory_gives_no_lines() {
    for bits in 0u8..16 {
        let o = opts(bits & 1 != 0, bits & 2 != 0, bits & 4 != 0, bits & 8 != 0);
        assert!(list_level("empty", &Vec::new(), &o, "").is_empty());
        assert!(list_level("empty", &Vec::new(), &o, "\t").is_empty());
    }
}

#[test]
fn directory_flag_keeps_only_names_equal_to_the_listed_path() {
    assert!(entry_shown("a", "a", &opts(false, false, true, false)));
    assert!(!entry_shown("b", "a", &opts(false, false, true, false)));
    let steps = list_level(".", &tree("."), &opts(false, true, true, false), "");
    assert!(steps.is_empty());
}

#[test]
fn entry_filter_on_hidden_names() {
    assert!(!entry_shown(".x", ".", &opts(false, false, false, false)));
    assert!(entry_shown(".x", ".", &opts(false, true, false, false)));
    assert!(entry_shown("x.", ".", &opts(false, false, false, false)));
    assert!(entry_shown("", ".", &opts(false, false, false, false)));
}

fn meta() -> Meta {
    Meta { age: 90061, nlink: 2, uid: 1000, gid: 100, size: 4096, mode: 0o40755 }
}

#[test]
fn long_line_of_a_directory() {
    assert_eq!(
        long_line(&meta(), true, "src"),
        "last mod 0y 0m 1d 1h 1m 1s 2 1000 100 4096 rwxr-xr-x \x1b[94m \x1b[0m src"
    );
}

#[test]
fn long_line_of_a_file() {
    let m = Meta { age: 5, nlink: 1, uid: 0, gid: 0, size: 12, mode: 0o644 };
    assert_eq!(
        long_line(&m, false, "f.txt"),
        "last mod 0y 0m 0d 0h 0m 5s 1 0 0 12 rw-r--r-- \x1b[90m \x1b[0m f.txt"
    );
}

#[test]
fn long_listing_indents_each_line() {
    let mut e = entry("d", "f", false);
    e.meta = Some(meta());
    let steps = list_level("d", &vec![e], &opts(true, false, false, false), "\t");
    assert_eq!(
        steps,
        vec![Step::Line(
            "\tlast mod 0y 0m 1d 1h 1m 1s 2 1000 100 4096 rwxr-xr-x \x1b[90m \x1b[0m f".to_string()
        )]
    );
}

#[test]
fn long_listing_needs_no_metadata_for_hidden_entries() {
    let mut shown = entry("d", "f", false);
    shown.meta = Some(Meta { age: 0, nlink: 1, uid: 7, gid: 8, size: 0, mode: 0o700 });
    let hidden = entry("d", ".h", false);
    let steps = list_level("d", &vec![hidden, shown], &opts(true, false, false, false), "");
    assert_eq!(
        steps,
        vec![Step::Line("last mod 0y 0m 0d 0h 0m 0s 1 7 8 0 rwx------ \x1b[90m \x1b[0m f".to_string())]
    );
}

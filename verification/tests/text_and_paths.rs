use dano::paths::{compare_paths, extension_of, file_name_of, path_debug, path_key_of, paths_equal};
use dano::split::{split_file_lines, split_stdin_paths};
use dano::text::{contains_str, format_radix, str_equal, string_from, trim_chars};

fn strings(v: &[&str]) -> Vec<String> {
    v.iter().map(|s| s.to_string()).collect()
}

#[test]
fn format_radix_writes_digits() {
    assert_eq!(format_radix(255, 16, false), "ff");
    assert_eq!(format_radix(255, 16, true), "FF");
    assert_eq!(format_radix(0, 16, false), "0");
    assert_eq!(format_radix(10, 10, false), "10");
    assert_eq!(format_radix(5, 2, false), "101");
    assert_eq!(format_radix(u128::MAX, 16, false), "ffffffffffffffffffffffffffffffff");
}

#[test]
fn trim_removes_unicode_whitespace() {
    let chars: Vec<char> = " \t\u{3000}abc d\n\u{85}".chars().collect();
    assert_eq!(string_from(&trim_chars(&chars)), "abc d");
    let empty: Vec<char> = "   ".chars().collect();
    assert_eq!(string_from(&trim_chars(&empty)), "");
}

#[test]
fn substring_search() {
    assert!(contains_str("the No data available here", "No data available"));
    assert!(!contains_str("No data", "No data available"));
    assert!(contains_str("abc", ""));
    assert!(str_equal("flac", "flac"));
    assert!(!str_equal("flac", "FLAC"));
}

#[test]
fn paths_compare_by_components() {
    assert_eq!(compare_paths("a/b", "a/c"), -1);
    assert_eq!(compare_paths("a/c", "a/b"), 1);
    assert_eq!(compare_paths("a//b", "a/./b"), 0);
    assert!(paths_equal("a/b/", "a/b"));
    assert!(!paths_equal("./a", "a"));
    // a shorter component orders before a longer one that extends it
    assert_eq!(compare_paths("a/b", "a.b"), -1);
    assert_eq!(compare_paths("ab", "a/b"), 1);
    // the root orders before anything else
    assert_eq!(compare_paths("/z", "a"), -1);
    assert!(path_key_of("").is_empty());
    assert!(!path_key_of("x").is_empty());
}

#[test]
fn file_names_and_extensions() {
    assert_eq!(file_name_of("foo.txt/."), Some("foo.txt".to_string()));
    assert_eq!(file_name_of("/"), None);
    assert_eq!(file_name_of("a/.."), None);
    assert_eq!(file_name_of("dir/song.flac"), Some("song.flac".to_string()));
    assert_eq!(extension_of("x/song.FLAC"), Some("FLAC".to_string()));
    assert_eq!(extension_of(".bashrc"), None);
    assert_eq!(extension_of("foo."), Some("".to_string()));
    assert_eq!(extension_of("archive.tar.gz"), Some("gz".to_string()));
    assert_eq!(extension_of("noext"), None);
}

#[test]
fn path_debug_matches_std() {
    assert_eq!(path_debug("a b/\"c\""), format!("{:?}", std::path::Path::new("a b/\"c\"")));
    assert_eq!(path_debug("x"), "\"x\"");
}

#[test]
fn stdin_split_on_newlines_and_nul() {
    assert_eq!(split_stdin_paths("a\nb\n\nc"), strings(&["a", "b", "c"]));
    assert_eq!(split_stdin_paths("a b\0c d\0"), strings(&["a b", "c d"]));
}

#[test]
fn stdin_split_on_quotes() {
    assert_eq!(split_stdin_paths("\"a b\" \"c\""), strings(&["a b", "c"]));
}

#[test]
fn stdin_split_on_whitespace() {
    assert_eq!(split_stdin_paths("  a  b\tc\r"), strings(&["a", "b", "c"]));
    assert_eq!(split_stdin_paths(""), Vec::<String>::new());
    // no path read is ever empty
    for p in split_stdin_paths(" \" \" \"x\" ") {
        assert!(!p.is_empty());
    }
}

#[test]
fn hash_file_lines() {
    assert_eq!(split_file_lines("x\r\ny\n"), strings(&["x", "y"]));
    assert_eq!(split_file_lines("a\n\nb"), strings(&["a", "", "b"]));
    assert_eq!(split_file_lines(""), Vec::<String>::new());
    assert_eq!(split_file_lines("\n"), strings(&[""]));
    assert_eq!(split_file_lines("last\r"), strings(&["last"]));
}

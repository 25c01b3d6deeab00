use website::order::{chars_of, same_text, text_precedes};
use website::source::{identifier_of, is_plain, project_path, CONTENT_EXTENSION, PATH_SEPARATOR};

#[test]
fn extension_and_separator() {
    assert_eq!(CONTENT_EXTENSION, ".mdx");
    assert_eq!(PATH_SEPARATOR, "/");
}

#[test]
fn identifier_is_the_name_without_the_ending() {
    assert_eq!(identifier_of("a.mdx"), Some("a".to_string()));
    assert_eq!(identifier_of("my-project.mdx"), Some("my-project".to_string()));
    assert_eq!(identifier_of("My Project (2).mdx"), Some("My Project (2)".to_string()));
    assert_eq!(identifier_of("a.b.mdx"), Some("a.b".to_string()));
    assert_eq!(identifier_of("a.mdx.mdx"), Some("a.mdx".to_string()));
    assert_eq!(identifier_of("åäö.mdx"), Some("åäö".to_string()));
    assert_eq!(identifier_of(".mdx"), Some(String::new()));
}

#[test]
fn identifier_needs_the_ending() {
    assert_eq!(identifier_of("a.md"), None);
    assert_eq!(identifier_of("a.mdx "), None);
    assert_eq!(identifier_of("a.MDX"), None);
    assert_eq!(identifier_of("amdx"), None);
    assert_eq!(identifier_of("mdx"), None);
    assert_eq!(identifier_of(""), None);
    assert_eq!(identifier_of("a.txt"), None);
}

#[test]
fn identifier_agrees_with_strip_suffix() {
    for name in ["a.mdx", "b", ".mdx", "x.mdxx", "ü.mdx", "a.mdx.bak", "dir.mdx/"] {
        assert_eq!(identifier_of(name), name.strip_suffix(".mdx").map(|s| s.to_string()));
    }
}

#[test]
fn path_joins_directory_identifier_and_ending() {
    assert_eq!(project_path("./projects", "b"), Some("./projects/b.mdx".to_string()));
    assert_eq!(project_path("content", "my-project"), Some("content/my-project.mdx".to_string()));
    assert_eq!(project_path("./projects", "a.b"), Some("./projects/a.b.mdx".to_string()));
    assert_eq!(project_path("./projects", ""), Some("./projects/.mdx".to_string()));
}

#[test]
fn path_gives_back_the_identifier() {
    for identifier in ["a", "my-project", "a.b", "", "..", "åäö"] {
        let path = project_path("dir", identifier).unwrap();
        let name = path.strip_prefix("dir/").unwrap();
        assert_eq!(identifier_of(name), Some(identifier.to_string()));
    }
}

#[test]
fn path_refuses_identifiers_that_leave_the_directory() {
    assert_eq!(project_path("./projects", "../secret"), None);
    assert_eq!(project_path("./projects", "a/b"), None);
    assert_eq!(project_path("./projects", "/etc/passwd"), None);
    assert_eq!(project_path("./projects", "..\\secret"), None);
    assert_eq!(project_path("./projects", "a/"), None);
}

#[test]
fn plain_identifiers_hold_no_separator() {
    assert!(is_plain("a"));
    assert!(is_plain(""));
    assert!(is_plain(".."));
    assert!(is_plain("a b.c-d_e"));
    assert!(!is_plain("/"));
    assert!(!is_plain("\\"));
    assert!(!is_plain("a/b"));
    assert!(!is_plain("ab\\"));
}

#[test]
fn chars_are_those_of_the_text() {
    assert_eq!(chars_of("aé𝄞"), vec!['a', 'é', '𝄞']);
    assert_eq!(chars_of(""), Vec::<char>::new());
}

#[test]
fn same_text_compares_the_characters() {
    assert!(same_text("", ""));
    assert!(same_text("abc", "abc"));
    assert!(!same_text("abc", "abd"));
    assert!(!same_text("abc", "ab"));
    assert!(!same_text("ab", "abc"));
    assert!(!same_text("", "a"));
}

#[test]
fn text_order_is_that_of_a_dictionary() {
    assert!(text_precedes("a", "b"));
    assert!(!text_precedes("b", "a"));
    assert!(text_precedes("", "a"));
    assert!(!text_precedes("a", ""));
    assert!(!text_precedes("", ""));
    assert!(text_precedes("ab", "abc"));
    assert!(!text_precedes("abc", "ab"));
    assert!(text_precedes("abc", "abd"));
    assert!(!text_precedes("abc", "abc"));
    assert!(text_precedes("B", "a"));
    assert!(text_precedes("a10", "a9"));
}

#[test]
fn text_order_agrees_with_the_order_of_strings() {
    let words = ["", "a", "ab", "b", "B", "é", "z", "zz", "𝄞", "a𝄞", "\u{ffff}", "~"];
    for left in words {
        for right in words {
            assert_eq!(text_precedes(left, right), left < right);
            assert_eq!(same_text(left, right), left == right);
        }
    }
}

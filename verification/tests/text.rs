use configurafox::attributes::any_value_starts_with;
use configurafox::processor::output_file;
use configurafox::resource_manager::Resource;
use configurafox::resource_manager::ResourceManager;
use configurafox::text::char_is_whitespace;
use configurafox::text::chars_of;
use configurafox::text::followed_by;
use configurafox::text::join;
use configurafox::text::starts_with_char;
use configurafox::text::str_eq;
use configurafox::text::str_is_blank;
use configurafox::text::without_first_char;
use configurafox::treewalker::Context;
use configurafox::ConfigurafoxError;

#[derive(Debug, Clone, PartialEq, Eq, Hash)]
struct Page;

impl Resource for Page {
    fn spec_identifier(&self) -> vstd::seq::Seq<char> {
        unreachable!()
    }

    fn spec_output_path(&self) -> vstd::seq::Seq<char> {
        unreachable!()
    }

    fn identifier(&self) -> String {
        "page".to_string()
    }

    fn output_path(&self) -> String {
        "blog/page/index.html".to_string()
    }
}

#[test]
fn strings_are_equal_if_their_characters_are() {
    assert!(str_eq("", ""));
    assert!(str_eq("katex", "katex"));
    assert!(str_eq("é→✓", "é→✓"));
    assert!(!str_eq("katex", "katex-prelude"));
    assert!(!str_eq("katex", "Katex"));
    assert!(!str_eq("a", ""));
    assert!(!str_eq("é", "e"));
}

#[test]
fn the_first_character_is_told_and_taken_off() {
    assert!(starts_with_char("$name", '$'));
    assert!(starts_with_char("$", '$'));
    assert!(!starts_with_char("", '$'));
    assert!(!starts_with_char("n$", '$'));
    assert!(starts_with_char("→x", '→'));
    assert_eq!(without_first_char("$name"), "name");
    assert_eq!(without_first_char("→x"), "x");
    assert_eq!(without_first_char("$"), "");
    assert_eq!(without_first_char(""), "");
}

#[test]
fn texts_are_put_together() {
    assert_eq!(followed_by("Unknown variable ", "$x"), "Unknown variable $x");
    assert_eq!(followed_by("", ""), "");
    assert_eq!(join(&Vec::new(), ", "), "");
    assert_eq!(join(&vec!["a".to_string()], ", "), "a");
    assert_eq!(join(&vec!["a".to_string(), "".to_string(), "c".to_string()], ", "), "a, , c");
    assert_eq!(chars_of("é→✓"), vec!['é', '→', '✓']);
}

#[test]
fn whitespace_is_what_the_standard_library_takes_for_it() {
    for code in 0..=0x11_0000u32 {
        if let Some(c) = char::from_u32(code) {
            assert_eq!(char_is_whitespace(c), c.is_whitespace(), "{code:x}");
        }
    }
    assert!(str_is_blank(""));
    assert!(str_is_blank(" \t\r\n\u{a0}\u{2028}"));
    assert!(!str_is_blank(" \u{200b} "));
    assert!(!str_is_blank(" a "));
}

#[test]
fn a_sigil_is_looked_for_in_the_values_only() {
    let attrs = |pairs: Vec<(&str, &str)>| -> Vec<(String, String)> {
        pairs.into_iter().map(|(k, v)| (k.to_string(), v.to_string())).collect()
    };
    assert!(any_value_starts_with(&attrs(vec![("a", "b"), ("c", "@d")]), '@'));
    assert!(!any_value_starts_with(&attrs(vec![("@a", "b"), ("c", "d@")]), '@'));
    assert!(!any_value_starts_with(&attrs(vec![("a", "")]), '@'));
    assert!(!any_value_starts_with(&[], '@'));
}

#[test]
fn the_output_of_a_resource_lies_below_the_output_root() {
    assert_eq!(output_file("out", &Page), "out/blog/page/index.html");
    assert_eq!(output_file("/srv/www/", &Page), "/srv/www/blog/page/index.html");
}

#[test]
fn engine_and_disk_errors_become_errors_of_the_library() {
    let disk = std::io::Error::new(std::io::ErrorKind::NotFound, "gone");
    assert!(matches!(ConfigurafoxError::from(disk), ConfigurafoxError::IO(inner) if inner.kind() == std::io::ErrorKind::NotFound));
    let engine = syntect::Error::Fmt(std::fmt::Error);
    assert!(matches!(ConfigurafoxError::from(engine), ConfigurafoxError::SyntectError(syntect::Error::Fmt(_))));
}

#[test]
fn a_context_is_copied_freely() {
    let manager: ResourceManager<Page> = ResourceManager::new("/project".to_string());
    let ctx = Context { resource: &Page, source_path: "a/b.html", resources: &manager, data: &7u8 };
    let copy = ctx;
    let clone = ctx.clone();
    assert_eq!(copy.source_path, "a/b.html");
    assert_eq!(*clone.data, 7);
    assert_eq!(ctx.resource, &Page);
}

use configurafox::markup::Element;
use configurafox::markup::TreeNode;
use configurafox::resource_manager::Resource;
use configurafox::resource_manager::ResourceManager;
use configurafox::treewalker::Context;
use configurafox::treewalker::SyntaxHighlighter;
use configurafox::treewalker::TreeWalker;
use configurafox::ConfigurafoxError;

#[derive(Debug, Clone, PartialEq, Eq, Hash)]
struct Page;

impl Resource for Page {
    fn spec_identifier(&self) -> vstd::seq::Seq<char> {
        unreachable!()
    }

    fn spec_output_path(&self) -> vstd::seq::Seq<char> {
        unreachable!()
    }

    fn identifier(&self) -> String {
        "page".to_string()
    }

    fn output_path(&self) -> String {
        "index.html".to_string()
    }
}

fn element(name: &str, attrs: Vec<(&str, &str)>, children: Vec<TreeNode>) -> TreeNode {
    TreeNode::Element(Element {
        name: name.to_string(),
        attrs: attrs.into_iter().map(|(k, v)| (k.to_string(), v.to_string())).collect(),
        children,
    })
}

fn text(content: &str) -> TreeNode {
    TreeNode::Text(content.to_string())
}

fn replace(
    highlighter: &SyntaxHighlighter,
    tag_name: &str,
    attrs: Vec<(&str, &str)>,
    children: Vec<TreeNode>,
) -> Result<Vec<TreeNode>, ConfigurafoxError> {
    let manager: ResourceManager<Page> = ResourceManager::new("/project".to_string());
    let ctx = Context { resource: &Page, source_path: "index.html", resources: &manager, data: &() };
    let attrs: Vec<(String, String)> = attrs.into_iter().map(|(k, v)| (k.to_string(), v.to_string())).collect();
    assert!(TreeWalker::<Page, ()>::matches(highlighter, tag_name, &attrs, ctx));
    TreeWalker::<Page, ()>::replace(highlighter, tag_name, attrs, children, ctx)
}

fn says(result: Result<Vec<TreeNode>, ConfigurafoxError>, expected: &str) -> bool {
    matches!(result, Err(ConfigurafoxError::Other(message)) if message == expected)
}

/// The text of a tree, tags left out.
fn content(nodes: &[TreeNode]) -> String {
    let mut all = String::new();
    for node in nodes {
        match node {
            TreeNode::Element(inner) => all.push_str(&content(&inner.children)),
            TreeNode::Text(part) => all.push_str(part),
            other => panic!("unexpected node: {other:?}"),
        }
    }
    all
}

#[test]
fn inline_code_becomes_a_code_element() {
    let highlighter = SyntaxHighlighter::default("base16-ocean.dark");
    let replaced = replace(&highlighter, "code-hl", vec![("lang", "rs"), ("class", "x")], vec![text("1")]).unwrap();
    assert_eq!(
        replaced,
        vec![element(
            "code",
            vec![("style", "background-color:#2b303b;"), ("style", "background: #2b303b;")],
            vec![text("\n"), element("span", vec![("style", "color:#d08770;")], vec![text("1")])],
        )]
    );
}

#[test]
fn a_code_block_becomes_a_pre_element_with_the_deindented_code() {
    let highlighter = SyntaxHighlighter::default("base16-ocean.dark");
    let source = "\n    fn main() {\n        let s = \"<a> & 'b'\";\n    }\n";
    let replaced = replace(&highlighter, "pre-hl", vec![("lang", "rs")], vec![text(source)]).unwrap();
    assert_eq!(replaced.len(), 1);
    match &replaced[0] {
        TreeNode::Element(pre) => {
            assert_eq!(pre.name, "pre");
            assert_eq!(
                pre.attrs,
                vec![
                    ("style".to_string(), "background-color:#2b303b;".to_string()),
                    ("style".to_string(), "background: #2b303b;".to_string()),
                ]
            );
            assert_eq!(
                content(&pre.children),
                "\nfn main() {\n    let s = &quot;&lt;a&gt; &amp; &#39;b&#39;&quot;;\n}"
            );
            assert!(pre.children.len() > 3);
        },
        other => panic!("no element: {other:?}"),
    }
}

#[test]
fn the_background_of_the_theme_is_written_in_two_hex_digits_each() {
    assert_eq!(SyntaxHighlighter::style_for((0x2b, 0x30, 0x3b)), "background: #2b303b;");
    assert_eq!(SyntaxHighlighter::style_for((0, 9, 10)), "background: #00090a;");
    assert_eq!(SyntaxHighlighter::style_for((15, 16, 255)), "background: #0f10ff;");
    assert_eq!(SyntaxHighlighter::style_for((0xab, 0xcd, 0xef)), "background: #abcdef;");
    let light = SyntaxHighlighter::default("InspiredGitHub");
    let replaced = replace(&light, "code-hl", vec![("lang", "txt")], vec![text("")]).unwrap();
    assert_eq!(
        replaced,
        vec![element(
            "code",
            vec![("style", "background-color:#ffffff;"), ("style", "background: #ffffff;")],
            vec![text("\n")],
        )]
    );
}

#[test]
fn the_language_is_found_by_file_extension() {
    let highlighter = SyntaxHighlighter::default("base16-ocean.dark");
    assert!(replace(&highlighter, "code-hl", vec![("lang", "py")], vec![text("x = 1")]).is_ok());
    assert!(replace(&highlighter, "code-hl", vec![("lang", "RS")], vec![text("1")]).is_ok());
    assert!(says(
        replace(&highlighter, "code-hl", vec![("lang", "Rust")], vec![text("1")]),
        "Unknown language Rust"
    ));
    assert!(says(replace(&highlighter, "code-hl", vec![("lang", "")], vec![text("1")]), "Unknown language "));
}

#[test]
fn a_code_element_must_hold_exactly_one_text() {
    let highlighter = SyntaxHighlighter::default("base16-ocean.dark");
    assert!(says(
        replace(&highlighter, "pre-hl", vec![("lang", "rs")], vec![]),
        "pre-hl must contain only text children"
    ));
    assert!(says(
        replace(&highlighter, "code-hl", vec![("lang", "rs")], vec![text("a"), text("b")]),
        "code-hl must contain only text children"
    ));
    assert!(says(
        replace(&highlighter, "code-hl", vec![], vec![element("b", vec![], vec![])]),
        "code-hl must contain only text children"
    ));
    assert!(says(
        replace(&highlighter, "code-hl", vec![("lang", "rs")], vec![TreeNode::RawHTML("x".to_string())]),
        "code-hl must contain only text children"
    ));
}

#[test]
fn a_code_element_needs_a_language() {
    let highlighter = SyntaxHighlighter::default("base16-ocean.dark");
    assert!(says(replace(&highlighter, "pre-hl", vec![], vec![text("x")]), "Missing lang= attribute"));
    assert!(says(
        replace(&highlighter, "pre-hl", vec![("language", "rs"), ("Lang", "rs")], vec![text("x")]),
        "Missing lang= attribute"
    ));
}

#[test]
fn the_theme_in_use_must_be_known() {
    let highlighter = SyntaxHighlighter::default("no-such-theme");
    assert_eq!(highlighter.theme, "no-such-theme");
    assert!(says(
        replace(&highlighter, "pre-hl", vec![("lang", "rs")], vec![text("x")]),
        "No such theme no-such-theme"
    ));
    assert!(says(
        replace(&highlighter, "pre-hl", vec![("lang", "unknown")], vec![text("x")]),
        "No such theme no-such-theme"
    ));
    assert!(says(replace(&highlighter, "pre-hl", vec![], vec![text("x")]), "Missing lang= attribute"));
}

#[test]
fn finish_takes_the_first_node_and_retags_it() {
    let parsed = || {
        vec![
            element("pre", vec![("style", "background-color:#000000;")], vec![text("\n"), element("span", vec![], vec![])]),
            text("\n"),
        ]
    };
    assert_eq!(
        SyntaxHighlighter::finish("pre-hl", "<pre>", parsed(), Some((1, 2, 3))).unwrap(),
        vec![element(
            "pre",
            vec![("style", "background-color:#000000;"), ("style", "background: #010203;")],
            vec![text("\n"), element("span", vec![], vec![])],
        )]
    );
    assert_eq!(
        SyntaxHighlighter::finish("code-hl", "<pre>", parsed(), None).unwrap(),
        vec![element(
            "code",
            vec![("style", "background-color:#000000;")],
            vec![text("\n"), element("span", vec![], vec![])],
        )]
    );
}

#[test]
fn finish_refuses_markup_that_is_no_pre_element() {
    let invalid = "Invalid html generated by syntect: \"<div>\\n\\\"x\\\"</div>\"";
    let html = "<div>\n\"x\"</div>";
    assert!(says(SyntaxHighlighter::finish("pre-hl", html, vec![], None), invalid));
    assert!(says(SyntaxHighlighter::finish("pre-hl", html, vec![text("pre")], None), invalid));
    assert!(says(
        SyntaxHighlighter::finish("pre-hl", html, vec![element("div", vec![], vec![])], Some((0, 0, 0))),
        invalid
    ));
    assert!(says(
        SyntaxHighlighter::finish("pre-hl", html, vec![text(" "), element("pre", vec![], vec![])], None),
        invalid
    ));
    assert!(says(SyntaxHighlighter::finish("pre-hl", html, vec![element("PRE", vec![], vec![])], None), invalid));
}

#[test]
fn the_highlighter_claims_its_two_tags() {
    let highlighter = SyntaxHighlighter::default("base16-ocean.dark");
    let manager: ResourceManager<Page> = ResourceManager::new("/project".to_string());
    let ctx = Context { resource: &Page, source_path: "index.html", resources: &manager, data: &() };
    for tag_name in ["code-hl", "pre-hl"] {
        assert!(TreeWalker::<Page, ()>::matches(&highlighter, tag_name, &[], ctx));
    }
    for tag_name in ["", "pre", "code", "pre-hl ", "Code-hl", "hl"] {
        assert!(!TreeWalker::<Page, ()>::matches(&highlighter, tag_name, &[], ctx));
    }
    assert_eq!(TreeWalker::<Page, ()>::describe(&highlighter), "SyntaxHighlighter");
}

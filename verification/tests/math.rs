use configurafox::markup::Element;
use configurafox::markup::TreeNode;
use configurafox::resource_manager::Resource;
use configurafox::resource_manager::ResourceManager;
use configurafox::treewalker::walk;
use configurafox::treewalker::Context;
use configurafox::treewalker::KatexReplacer;
use configurafox::treewalker::TreeWalker;
use configurafox::ConfigurafoxError;

#[derive(Debug, Clone, PartialEq, Eq, Hash)]
struct Page;

impl Resource for Page {
    fn spec_identifier(&self) -> vstd::seq::Seq<char> {
        unreachable!()
    }

    fn spec_output_path(&self) -> vstd::seq::Seq<char> {
        unreachable!()
    }

    fn identifier(&self) -> String {
        "page".to_string()
    }

    fn output_path(&self) -> String {
        "index.html".to_string()
    }
}

fn element(name: &str, attrs: Vec<(&str, &str)>, children: Vec<TreeNode>) -> TreeNode {
    TreeNode::Element(Element {
        name: name.to_string(),
        attrs: attrs.into_iter().map(|(k, v)| (k.to_string(), v.to_string())).collect(),
        children,
    })
}

fn replace(tag_name: &str, children: Vec<TreeNode>) -> Result<Vec<TreeNode>, ConfigurafoxError> {
    let manager: ResourceManager<Page> = ResourceManager::new("/project".to_string());
    let ctx = Context { resource: &Page, source_path: "index.html", resources: &manager, data: &() };
    assert!(TreeWalker::<Page, ()>::matches(&KatexReplacer, tag_name, &[], ctx));
    TreeWalker::<Page, ()>::replace(
        &KatexReplacer,
        tag_name,
        vec![("ignored".to_string(), "$x".to_string())],
        children,
        ctx,
    )
}

fn raw(nodes: Vec<TreeNode>) -> String {
    assert_eq!(nodes.len(), 1);
    match nodes.into_iter().next() {
        Some(TreeNode::RawHTML(html)) => html,
        other => panic!("no raw markup: {other:?}"),
    }
}

#[test]
fn the_prelude_becomes_the_link_to_the_stylesheet() {
    let link = element(
        "link",
        vec![("rel", "stylesheet"), ("href", "https://cdn.jsdelivr.net/npm/katex@0.16.4/dist/katex.min.css")],
        vec![],
    );
    assert_eq!(replace("katex-prelude", vec![]).unwrap(), vec![link]);
    let with_children = replace("katex-prelude", vec![TreeNode::Text("x".to_string()), element("p", vec![], vec![])]);
    assert_eq!(with_children.unwrap().len(), 1);
    assert_eq!(KatexReplacer::stylesheet("1.2.3"), element(
        "link",
        vec![("rel", "stylesheet"), ("href", "https://cdn.jsdelivr.net/npm/katex@1.2.3/dist/katex.min.css")],
        vec![],
    ));
}

#[test]
fn inline_math_is_rendered_to_raw_markup() {
    let html = raw(replace("$", vec![TreeNode::Text("x".to_string())]).unwrap());
    assert_eq!(
        html,
        "<span class=\"katex\"><span class=\"katex-html\" aria-hidden=\"true\"><span class=\"base\">\
         <span class=\"strut\" style=\"height:0.4306em;\"></span><span class=\"mord mathnormal\">x</span>\
         </span></span></span>"
    );
}

#[test]
fn display_math_is_rendered_in_display_mode() {
    let html = raw(replace("katex", vec![TreeNode::Text("x^2".to_string())]).unwrap());
    assert!(html.starts_with("<span class=\"katex-display\"><span class=\"katex\">"));
    assert!(!html.contains("<math"));
    let inline = raw(replace("$", vec![TreeNode::Text("x^2".to_string())]).unwrap());
    assert!(inline.starts_with("<span class=\"katex\">"));
    assert!(!inline.contains("katex-display"));
}

#[test]
fn a_math_element_must_hold_exactly_one_text() {
    let malformed = |children: Vec<TreeNode>| {
        matches!(replace("katex", children), Err(ConfigurafoxError::Other(message)) if message == "Katex: malformed body")
    };
    assert!(malformed(vec![]));
    assert!(malformed(vec![TreeNode::Text("a".to_string()), TreeNode::Text("b".to_string())]));
    assert!(malformed(vec![element("b", vec![], vec![TreeNode::Text("x".to_string())])]));
    assert!(malformed(vec![TreeNode::RawHTML("x".to_string())]));
    assert!(malformed(vec![TreeNode::Comment("x".to_string())]));
    assert!(matches!(replace("$", vec![]), Err(ConfigurafoxError::Other(_))));
}

#[test]
fn math_that_the_engine_refuses_is_an_error() {
    let failed = replace("$", vec![TreeNode::Text("\\frac{".to_string())]);
    assert!(matches!(failed, Err(ConfigurafoxError::KatexError(_))));
}

#[test]
fn rendered_wraps_the_markup_of_the_engine_as_it_is() {
    let nodes = KatexReplacer::rendered(Ok("<span>&amp;</span>".to_string())).unwrap();
    assert_eq!(nodes, vec![TreeNode::RawHTML("<span>&amp;</span>".to_string())]);
    let failed = KatexReplacer::rendered(Err(katex::Error::JsExecError("boom".to_string())));
    assert!(matches!(failed, Err(ConfigurafoxError::KatexError(katex::Error::JsExecError(detail))) if detail == "boom"));
}

#[test]
fn the_math_replacer_claims_its_three_tags() {
    let manager: ResourceManager<Page> = ResourceManager::new("/project".to_string());
    let ctx = Context { resource: &Page, source_path: "index.html", resources: &manager, data: &() };
    for tag_name in ["$", "katex", "katex-prelude"] {
        assert!(TreeWalker::<Page, ()>::matches(&KatexReplacer, tag_name, &[], ctx));
    }
    for tag_name in ["", "$x", "Katex", "katex-", "katex-prelude ", "math", "$$"] {
        assert!(!TreeWalker::<Page, ()>::matches(&KatexReplacer, tag_name, &[], ctx));
    }
    assert_eq!(TreeWalker::<Page, ()>::describe(&KatexReplacer), "KatexReplacer");
}

#[test]
fn rendered_math_is_not_walked() {
    let manager: ResourceManager<Page> = ResourceManager::new("/project".to_string());
    let ctx = Context { resource: &Page, source_path: "index.html", resources: &manager, data: &() };
    let walkers: Vec<Box<dyn TreeWalker<Page, ()>>> = vec![Box::new(KatexReplacer)];
    let mut dom = vec![element("p", vec![], vec![element("$", vec![], vec![TreeNode::Text("x".to_string())])])];
    assert!(walk(&mut dom, &walkers, ctx).is_ok());
    match &dom[0] {
        TreeNode::Element(p) => {
            assert_eq!(p.children.len(), 1);
            assert!(matches!(&p.children[0], TreeNode::RawHTML(html) if html.starts_with("<span class=\"katex\">")));
        },
        other => panic!("no element: {other:?}"),
    }
}

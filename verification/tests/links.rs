use configurafox::markup::Element;
use configurafox::markup::TreeNode;
use configurafox::resource_manager::DirectoryEntry;
use configurafox::resource_manager::Resource;
use configurafox::resource_manager::ResourceManager;
use configurafox::treewalker::walk;
use configurafox::treewalker::Context;
use configurafox::treewalker::LinkReplacer;
use configurafox::treewalker::TreeWalker;
use configurafox::ConfigurafoxError;

#[derive(Debug, Clone, PartialEq, Eq, Hash)]
struct Page {
    name: String,
    output: String,
}

impl Resource for Page {
    fn spec_identifier(&self) -> vstd::seq::Seq<char> {
        unreachable!()
    }

    fn spec_output_path(&self) -> vstd::seq::Seq<char> {
        unreachable!()
    }

    fn identifier(&self) -> String {
        self.name.clone()
    }

    fn output_path(&self) -> String {
        self.output.clone()
    }
}

fn page(name: &str, output: &str) -> Page {
    Page { name: name.to_string(), output: output.to_string() }
}

fn site() -> ResourceManager<Page> {
    let mut manager: ResourceManager<Page> = ResourceManager::new("/project".to_string());
    manager.register_all_files_in_directory(
        ".".to_string(),
        vec![
            DirectoryEntry::File { name: "about.html".to_string(), resource: Some(page("about", "about/index.html")) },
            DirectoryEntry::File { name: "index.html".to_string(), resource: Some(page("home", "index.html")) },
            DirectoryEntry::File { name: "root.css".to_string(), resource: Some(page("style", "/static/root.css")) },
            DirectoryEntry::Directory {
                name: "blog".to_string(),
                entries: vec![
                    DirectoryEntry::File {
                        name: "post1.html".to_string(),
                        resource: Some(page("post1", "blog/post1.html")),
                    },
                    DirectoryEntry::File {
                        name: "post2.html".to_string(),
                        resource: Some(page("post2", "blog/2024/post2.html")),
                    },
                ],
            },
        ],
        true,
    );
    manager
}

fn resolve_from(source_path: &str, reference: &str) -> Result<String, ConfigurafoxError> {
    let manager = site();
    let current = page("current", "unused");
    let ctx = Context { resource: &current, source_path, resources: &manager, data: &() };
    LinkReplacer::resolve(reference.to_string(), ctx)
}

fn element(name: &str, attrs: Vec<(&str, &str)>, children: Vec<TreeNode>) -> TreeNode {
    TreeNode::Element(Element {
        name: name.to_string(),
        attrs: attrs.into_iter().map(|(k, v)| (k.to_string(), v.to_string())).collect(),
        children,
    })
}

#[test]
fn a_reference_resolves_to_the_path_from_the_directory_of_the_source() {
    assert_eq!(resolve_from("blog/post1.html", "@about").unwrap(), "../about/index.html");
}

#[test]
fn references_resolve_relative_to_where_the_source_lies() {
    assert_eq!(resolve_from("blog/post1.html", "@post2").unwrap(), "2024/post2.html");
    assert_eq!(resolve_from("blog/post1.html", "@post1").unwrap(), "post1.html");
    assert_eq!(resolve_from("blog/post1.html", "@home").unwrap(), "../index.html");
    assert_eq!(resolve_from("a/b/c/deep.html", "@about").unwrap(), "../../../about/index.html");
    assert_eq!(resolve_from("index.html", "@about").unwrap(), "about/index.html");
    assert_eq!(resolve_from("index.html", "@post2").unwrap(), "blog/2024/post2.html");
}

#[test]
fn a_source_without_a_directory_gets_the_output_path_itself() {
    assert_eq!(resolve_from("", "@about").unwrap(), "about/index.html");
    assert_eq!(resolve_from("/", "@about").unwrap(), "about/index.html");
}

#[test]
fn an_absolute_output_path_is_kept_for_a_relative_source() {
    assert_eq!(resolve_from("blog/post1.html", "@style").unwrap(), "/static/root.css");
}

#[test]
fn a_path_that_cannot_be_made_relative_is_an_error() {
    let failed = resolve_from("/srv/site/index.html", "@about");
    assert!(matches!(
        failed,
        Err(ConfigurafoxError::Other(message))
            if message == "Resource referenced (about/index.html) could not be relativized from /srv/site/index.html"
    ));
    let upward = resolve_from("../other/index.html", "@about");
    assert!(matches!(upward, Err(ConfigurafoxError::Other(_))));
}

#[test]
fn a_value_without_the_sigil_is_no_reference() {
    assert_eq!(resolve_from("blog/post1.html", "about").unwrap(), "about");
    assert_eq!(resolve_from("blog/post1.html", "mail@about").unwrap(), "mail@about");
    assert_eq!(resolve_from("blog/post1.html", "").unwrap(), "");
}

#[test]
fn an_unknown_identifier_is_an_error_that_names_it() {
    let failed = resolve_from("blog/post1.html", "@missing");
    assert!(matches!(failed, Err(ConfigurafoxError::Other(message)) if message == "Unknown identifier: @missing"));
    let empty = resolve_from("blog/post1.html", "@");
    assert!(matches!(empty, Err(ConfigurafoxError::Other(message)) if message == "Unknown identifier: @"));
}

#[test]
fn relativized_passes_the_path_on_or_fails() {
    assert_eq!(
        LinkReplacer::relativized("a/b.html", "c/d.html", Some("../a/b.html".to_string())).unwrap(),
        "../a/b.html"
    );
    let failed = LinkReplacer::relativized("a/b.html", "/c/d.html", None);
    assert!(matches!(
        failed,
        Err(ConfigurafoxError::Other(message))
            if message == "Resource referenced (a/b.html) could not be relativized from /c/d.html"
    ));
}

#[test]
fn links_in_a_document_are_resolved_in_every_attribute() {
    let manager = site();
    let current = page("post1", "blog/post1.html");
    let ctx = Context { resource: &current, source_path: "blog/post1.html", resources: &manager, data: &() };
    let walkers: Vec<Box<dyn TreeWalker<Page, ()>>> = vec![Box::new(LinkReplacer)];
    let mut dom = vec![element(
        "nav",
        vec![],
        vec![
            element("a", vec![("class", "top"), ("href", "@about")], vec![TreeNode::Text("@about".to_string())]),
            element("img", vec![("src", "@home"), ("alt", "home"), ("longdesc", "@post2")], vec![]),
        ],
    )];
    assert!(walk(&mut dom, &walkers, ctx).is_ok());
    assert_eq!(
        dom,
        vec![element(
            "nav",
            vec![],
            vec![
                element(
                    "a",
                    vec![("class", "top"), ("href", "../about/index.html")],
                    vec![TreeNode::Text("@about".to_string())]
                ),
                element("img", vec![("src", "../index.html"), ("alt", "home"), ("longdesc", "2024/post2.html")], vec![]),
            ],
        )]
    );
}

#[test]
fn the_link_replacer_claims_sigil_values_only() {
    let manager = site();
    let current = page("current", "unused");
    let ctx = Context { resource: &current, source_path: "index.html", resources: &manager, data: &() };
    let attrs = |pairs: Vec<(&str, &str)>| -> Vec<(String, String)> {
        pairs.into_iter().map(|(k, v)| (k.to_string(), v.to_string())).collect()
    };
    assert!(TreeWalker::<Page, ()>::matches(&LinkReplacer, "a", &attrs(vec![("href", "@about")]), ctx));
    assert!(!TreeWalker::<Page, ()>::matches(&LinkReplacer, "@about", &attrs(vec![("@href", "about")]), ctx));
    assert!(!TreeWalker::<Page, ()>::matches(&LinkReplacer, "a", &[], ctx));
    assert_eq!(TreeWalker::<Page, ()>::describe(&LinkReplacer), "LinkReplacer");
}

use configurafox::markup::Element;
use configurafox::markup::TreeNode;
use configurafox::resource_manager::Resource;
use configurafox::resource_manager::ResourceManager;
use configurafox::treewalker::walk;
use configurafox::treewalker::Context;
use configurafox::treewalker::TreeWalker;
use configurafox::treewalker::VariableReplacer;
use configurafox::ConfigurafoxError;

#[derive(Debug, Clone, PartialEq, Eq, Hash)]
struct Page;

impl Resource for Page {
    fn spec_identifier(&self) -> vstd::seq::Seq<char> {
        unreachable!()
    }

    fn spec_output_path(&self) -> vstd::seq::Seq<char> {
        unreachable!()
    }

    fn identifier(&self) -> String {
        "page".to_string()
    }

    fn output_path(&self) -> String {
        "index.html".to_string()
    }
}

fn element(name: &str, attrs: Vec<(&str, &str)>, children: Vec<TreeNode>) -> TreeNode {
    TreeNode::Element(Element {
        name: name.to_string(),
        attrs: attrs.into_iter().map(|(k, v)| (k.to_string(), v.to_string())).collect(),
        children,
    })
}

fn owned(attrs: Vec<(&str, &str)>) -> Vec<(String, String)> {
    attrs.into_iter().map(|(k, v)| (k.to_string(), v.to_string())).collect()
}

fn alice() -> VariableReplacer {
    VariableReplacer(owned(vec![("name", "Alice")]))
}

fn with_context<T>(run: impl FnOnce(Context<'_, '_, Page, ()>) -> T) -> T {
    let manager: ResourceManager<Page> = ResourceManager::new("/project".to_string());
    run(Context { resource: &Page, source_path: "index.html", resources: &manager, data: &() })
}

fn walked(mut dom: Vec<TreeNode>, replacer: VariableReplacer) -> Result<Vec<TreeNode>, ConfigurafoxError> {
    let walkers: Vec<Box<dyn TreeWalker<Page, ()>>> = vec![Box::new(replacer)];
    with_context(|ctx| walk(&mut dom, &walkers, ctx))?;
    Ok(dom)
}

#[test]
fn a_variable_tag_becomes_the_text_of_its_value() {
    let dom = walked(vec![element("$name", vec![], vec![])], alice()).unwrap();
    assert_eq!(dom, vec![TreeNode::Text("Alice".to_string())]);
}

#[test]
fn a_variable_tag_loses_its_attributes_and_children() {
    let dom = walked(
        vec![element("$name", vec![("class", "$unknown")], vec![element("$unknown", vec![], vec![])])],
        alice(),
    )
    .unwrap();
    assert_eq!(dom, vec![TreeNode::Text("Alice".to_string())]);
}

#[test]
fn a_variable_in_an_attribute_value_is_substituted() {
    let dom = walked(vec![element("div", vec![("class", "$name")], vec![])], alice()).unwrap();
    assert_eq!(dom, vec![element("div", vec![("class", "Alice")], vec![])]);
}

#[test]
fn other_attribute_values_and_the_children_pass_through() {
    let dom = walked(
        vec![element(
            "div",
            vec![("id", "x"), ("class", "$name"), ("$name", "key"), ("title", "a $name"), ("alt", "")],
            vec![TreeNode::Text("$name".to_string()), TreeNode::Comment("$name".to_string())],
        )],
        alice(),
    )
    .unwrap();
    assert_eq!(
        dom,
        vec![element(
            "div",
            vec![("id", "x"), ("class", "Alice"), ("$name", "key"), ("title", "a $name"), ("alt", "")],
            vec![TreeNode::Text("$name".to_string()), TreeNode::Comment("$name".to_string())],
        )]
    );
}

#[test]
fn an_unknown_variable_is_an_error_that_names_it() {
    let in_tag = walked(vec![element("$unknown", vec![], vec![])], alice());
    assert!(matches!(in_tag, Err(ConfigurafoxError::Other(message)) if message == "Unknown variable $unknown"));
    let in_value = walked(vec![element("a", vec![("x", "$name"), ("y", "$unknown"), ("z", "$other")], vec![])], alice());
    assert!(matches!(in_value, Err(ConfigurafoxError::Other(message)) if message == "Unknown variable $unknown"));
}

#[test]
fn variable_names_are_matched_exactly() {
    let replacer = || VariableReplacer(owned(vec![("name", "Alice"), ("Name", "Bob"), ("näme", "Zoë")]));
    assert_eq!(replacer().substitute("$Name".to_string()).unwrap(), "Bob");
    assert_eq!(replacer().substitute("$näme".to_string()).unwrap(), "Zoë");
    assert_eq!(replacer().substitute("plain".to_string()).unwrap(), "plain");
    assert_eq!(replacer().substitute("".to_string()).unwrap(), "");
    assert!(replacer().substitute("$nam".to_string()).is_err());
    assert!(replacer().substitute("$name ".to_string()).is_err());
    assert!(replacer().substitute("$".to_string()).is_err());
    assert!(replacer().substitute("$$name".to_string()).is_err());
}

#[test]
fn the_first_of_two_values_of_a_name_counts() {
    let replacer = VariableReplacer(owned(vec![("name", "Alice"), ("name", "Bob")]));
    assert_eq!(replacer.substitute("$name".to_string()).unwrap(), "Alice");
}

#[test]
fn the_variable_replacer_claims_sigil_tags_and_sigil_values() {
    let replacer = alice();
    with_context(|ctx| {
        assert!(TreeWalker::<Page, ()>::matches(&replacer, "$name", &[], ctx));
        assert!(TreeWalker::<Page, ()>::matches(&replacer, "$", &[], ctx));
        assert!(TreeWalker::<Page, ()>::matches(&replacer, "a", &owned(vec![("x", "y"), ("href", "$name")]), ctx));
        assert!(!TreeWalker::<Page, ()>::matches(&replacer, "a", &owned(vec![("$x", "y"), ("href", "a$name")]), ctx));
        assert!(!TreeWalker::<Page, ()>::matches(&replacer, "name$", &[], ctx));
        assert!(!TreeWalker::<Page, ()>::matches(&replacer, "", &[], ctx));
    });
}

#[test]
fn the_variable_replacer_describes_its_variables() {
    let replacer = VariableReplacer(owned(vec![("name", "Alice"), ("quote", "say \"hi\"\n")]));
    assert_eq!(
        TreeWalker::<Page, ()>::describe(&replacer),
        "VariableReplacer(\"name\" = \"Alice\", \"quote\" = \"say \\\"hi\\\"\\n\")"
    );
    assert_eq!(TreeWalker::<Page, ()>::describe(&VariableReplacer(Vec::new())), "VariableReplacer()");
}

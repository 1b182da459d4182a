//! The transformer that renders math.

use vstd::prelude::*;
use vstd::string::StringExecFns;

use crate::bindings::bundled_katex_version;
use crate::bindings::katex_version;
use crate::bindings::render_math;
use crate::bindings::rendered_math;
use crate::error::ConfigurafoxError;
use crate::error::Failure;
use crate::markup::lemma_element_view;
use crate::markup::markup_of;
use crate::markup::Element;
use crate::markup::Markup;
use crate::markup::TreeNode;
use crate::resource_manager::Resource;
use crate::text::followed_by;
use crate::text::str_eq;
use crate::treewalker::Context;
use crate::treewalker::TreeWalker;

verus! {

/// Renders the math in `<katex>` elements (display mode) and `<$>` elements
/// (inline), and turns `<katex-prelude>` into the link to the stylesheet
/// that the rendered math needs.
pub struct KatexReplacer;

/// The address of the stylesheet for a version of KaTeX.
pub open spec fn stylesheet_address(version: Seq<char>) -> Seq<char> {
    "https://cdn.jsdelivr.net/npm/katex@"@ + version + "/dist/katex.min.css"@
}

/// The element that links to the stylesheet for a version of KaTeX.
pub open spec fn stylesheet_link(version: Seq<char>) -> Markup {
    Markup::Element {
        name: "link"@,
        attrs: seq![("rel"@, "stylesheet"@), ("href"@, stylesheet_address(version))],
        children: Seq::empty(),
    }
}

/// The failure for a math element that does not hold exactly one text.
pub open spec fn malformed_body() -> Failure {
    Failure::Other("Katex: malformed body"@)
}

impl KatexReplacer {
    /// The element that links to the stylesheet for `version` of KaTeX.
    pub fn stylesheet(version: &str) -> (link: TreeNode)
        ensures
            link@ == stylesheet_link(version@),
    {
        let mut address = followed_by("https://cdn.jsdelivr.net/npm/katex@", version);
        address.append("/dist/katex.min.css");
        let attrs = vec![
            (String::from_str("rel"), String::from_str("stylesheet")),
            (String::from_str("href"), address),
        ];
        let element = Element { name: String::from_str("link"), attrs, children: Vec::new() };
        proof {
            lemma_element_view(element);
            assert(element.attrs.deep_view() == seq![
                ("rel"@, "stylesheet"@),
                ("href"@, stylesheet_address(version@)),
            ]);
            assert(markup_of(element.children@) == Seq::<Markup>::empty());
        }
        TreeNode::Element(element)
    }

    /// What stands in the place of a math element, given what the engine
    /// made of its text: the rendered markup as it is, or the engine's
    /// failure.
    pub fn rendered(engine: Result<String, katex::Error>) -> (replaced: Result<
        Vec<TreeNode>,
        ConfigurafoxError,
    >)
        ensures
            match engine {
                Ok(html) => replaced matches Ok(nodes) && markup_of(nodes@) == seq![
                    Markup::Raw(html@),
                ],
                Err(_) => replaced matches Err(error) && error@ == Failure::KatexError,
            },
    {
        match engine {
            Ok(html) => {
                let nodes = vec![TreeNode::RawHTML(html)];
                assert(markup_of(nodes@) == seq![Markup::Raw(html@)]);
                Ok(nodes)
            },
            Err(error) => Err(ConfigurafoxError::KatexError(error)),
        }
    }
}

impl<R: Resource, D> TreeWalker<R, D> for KatexReplacer {
    open spec fn spec_matches(
        &self,
        tag_name: Seq<char>,
        attrs: Seq<(Seq<char>, Seq<char>)>,
        ctx: Context<R, D>,
    ) -> bool {
        tag_name == "$"@ || tag_name == "katex"@ || tag_name == "katex-prelude"@
    }

    /// The prelude becomes the link to the stylesheet. A math element must
    /// hold exactly one text, and becomes the raw markup that the engine
    /// renders that text to, in display mode for `<katex>`.
    open spec fn spec_replace(
        &self,
        tag_name: Seq<char>,
        attrs: Seq<(Seq<char>, Seq<char>)>,
        children: Seq<Markup>,
        ctx: Context<R, D>,
    ) -> Result<Seq<Markup>, Failure> {
        if tag_name == "katex-prelude"@ {
            Ok(seq![stylesheet_link(bundled_katex_version())])
        } else if children.len() == 1 && children[0] is Text {
            match rendered_math(children[0]->Text_0, tag_name == "katex"@) {
                Some(html) => Ok(seq![Markup::Raw(html)]),
                None => Err(Failure::KatexError),
            }
        } else {
            Err(malformed_body())
        }
    }

    open spec fn spec_describe(&self) -> Seq<char> {
        "KatexReplacer"@
    }

    fn describe(&self) -> (text: String) {
        String::from_str("KatexReplacer")
    }

    fn matches(&self, tag_name: &str, attrs: &[(String, String)], ctx: Context<'_, '_, R, D>) -> (claimed:
        bool) {
        str_eq(tag_name, "$") || str_eq(tag_name, "katex") || str_eq(tag_name, "katex-prelude")
    }

    fn replace(
        &self,
        tag_name: &str,
        attrs: Vec<(String, String)>,
        children: Vec<TreeNode>,
        ctx: Context<'_, '_, R, D>,
    ) -> (replaced: Result<Vec<TreeNode>, ConfigurafoxError>) {
        if str_eq(tag_name, "katex-prelude") {
            let link = Self::stylesheet(katex_version());
            let replaced = vec![link];
            assert(markup_of(replaced@) == seq![link@]);
            return Ok(replaced);
        }
        let display = str_eq(tag_name, "katex");
        if children.len() == 1 {
            assert(markup_of(children@)[0] == children@[0]@);
            match &children[0] {
                TreeNode::Text(tex) => {
                    return Self::rendered(render_math(tex.as_str(), display));
                },
                _ => {},
            }
        }
        Err(ConfigurafoxError::Other(String::from_str("Katex: malformed body")))
    }
}

} // verus!

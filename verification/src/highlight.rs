//! The transformer that highlights code.

use vstd::prelude::*;
use vstd::string::StrSliceExecFns;
use vstd::string::StringExecFns;

use syntect::highlighting::ThemeSet;
use syntect::parsing::SyntaxSet;

use crate::bindings::debug_quoted;
use crate::bindings::debug_text;
use crate::bindings::default_syntaxes;
use crate::bindings::default_themes;
use crate::bindings::has_syntax;
use crate::bindings::highlight;
use crate::bindings::highlighted;
use crate::bindings::parse_fragment;
use crate::bindings::parsed_markup;
use crate::bindings::syntax_extensions;
use crate::bindings::theme_background;
use crate::bindings::theme_backgrounds;
use crate::deindent::deindent;
use crate::deindent::deindented;
use crate::error::ConfigurafoxError;
use crate::error::Failure;
use crate::fragment::is_plain_fragment;
use crate::fragment::plain_fragment;
use crate::markup::lemma_element_view;
use crate::markup::markup_of;
use crate::markup::Element;
use crate::markup::Markup;
use crate::markup::TreeNode;
use crate::resource_manager::Resource;
use crate::text::followed_by;
use crate::text::str_eq;
use crate::treewalker::attr_value;
use crate::treewalker::get_attr;
use crate::treewalker::Context;
use crate::treewalker::TreeWalker;

verus! {

/// Highlights the code in `<pre-hl>` and `<code-hl>` elements, which become
/// `<pre>` and `<code>` elements.
pub struct SyntaxHighlighter {
    pub syntax_set: SyntaxSet,
    pub theme_set: ThemeSet,
    /// The name of the theme in use.
    pub theme: String,
}

/// The two hexadecimal digits of a byte, in lower case.
pub open spec fn hex(byte: u8) -> Seq<char> {
    "0123456789abcdef"@.subrange(byte as int / 16, byte as int / 16 + 1)
        + "0123456789abcdef"@.subrange(byte as int % 16, byte as int % 16 + 1)
}

/// The inline style that sets a background colour.
pub open spec fn background_style(colour: (u8, u8, u8)) -> Seq<char> {
    "background: #"@ + hex(colour.0) + hex(colour.1) + hex(colour.2) + ";"@
}

/// The failure for markup of the engine that is no single `<pre>` element.
pub open spec fn invalid_markup(html: Seq<char>) -> Failure {
    Failure::Other("Invalid html generated by syntect: "@ + debug_quoted(html))
}

/// What stands in the place of a code element, given the nodes that the
/// engine's markup `html` was read as: the first node, which must be a
/// `<pre>` element, re-tagged as `<pre>` for `<pre-hl>` and as `<code>`
/// otherwise, with the theme's background, if it has one, as a further
/// `style` attribute.
pub open spec fn finished(
    tag_name: Seq<char>,
    html: Seq<char>,
    nodes: Seq<Markup>,
    background: Option<(u8, u8, u8)>,
) -> Result<Seq<Markup>, Failure> {
    if nodes.len() > 0 && nodes[0] is Element && nodes[0]->Element_name == "pre"@ {
        Ok(
            seq![
                Markup::Element {
                    name: if tag_name == "pre-hl"@ {
                        "pre"@
                    } else {
                        "code"@
                    },
                    attrs: match background {
                        Some(colour) => nodes[0]->Element_attrs.push(
                            ("style"@, background_style(colour)),
                        ),
                        None => nodes[0]->Element_attrs,
                    },
                    children: nodes[0]->Element_children,
                },
            ],
        )
    } else {
        Err(invalid_markup(html))
    }
}

/// The two hexadecimal digits of `byte`.
fn hex_pair(byte: u8) -> (digits: String)
    ensures
        digits@ == hex(byte),
{
    let all = "0123456789abcdef";
    proof {
        reveal_strlit("0123456789abcdef");
    }
    let high: usize = (byte / 16) as usize;
    let low: usize = (byte % 16) as usize;
    followed_by(all.substring_char(high, high + 1), all.substring_char(low, low + 1))
}

impl SyntaxHighlighter {
    /// A highlighter with the syntax definitions and themes that the engine
    /// ships, using the theme named `theme`.
    pub fn default(theme: &str) -> (highlighter: SyntaxHighlighter)
        ensures
            highlighter.theme@ == theme@,
    {
        SyntaxHighlighter {
            syntax_set: default_syntaxes(),
            theme_set: default_themes(),
            theme: String::from_str(theme),
        }
    }

    /// The inline style that sets the background colour `colour`.
    pub fn style_for(colour: (u8, u8, u8)) -> (style: String)
        ensures
            style@ == background_style(colour),
    {
        let mut style = followed_by("background: #", hex_pair(colour.0).as_str());
        style.append(hex_pair(colour.1).as_str());
        style.append(hex_pair(colour.2).as_str());
        style.append(";");
        style
    }

    /// What stands in the place of a code element, given the nodes that the
    /// engine's markup `html` was read as, and the background of the theme.
    pub fn finish(
        tag_name: &str,
        html: &str,
        nodes: Vec<TreeNode>,
        background: Option<(u8, u8, u8)>,
    ) -> (replaced: Result<Vec<TreeNode>, ConfigurafoxError>)
        ensures
            match finished(tag_name@, html@, markup_of(nodes@), background) {
                Ok(tree) => replaced matches Ok(found) && markup_of(found@) == tree,
                Err(failure) => replaced matches Err(error) && error@ == failure,
            },
    {
        let mut nodes = nodes;
        let ghost model = markup_of(nodes@);
        if nodes.len() == 0 {
            return Err(Self::invalid(html));
        }
        assert(model[0] == nodes@[0]@);
        let first = nodes.remove(0);
        match first {
            TreeNode::Element(element) => {
                proof {
                    lemma_element_view(element);
                }
                if !str_eq(element.name.as_str(), "pre") {
                    return Err(Self::invalid(html));
                }
                let Element { name, attrs, children } = element;
                let mut attrs = attrs;
                let ghost before = attrs.deep_view();
                match background {
                    Some(colour) => {
                        let style = Self::style_for(colour);
                        attrs.push((String::from_str("style"), style));
                        assert(attrs.deep_view() == before.push(
                            ("style"@, background_style(colour)),
                        ));
                    },
                    None => {},
                }
                let name = if str_eq(tag_name, "pre-hl") {
                    String::from_str("pre")
                } else {
                    String::from_str("code")
                };
                let produced = Element { name, attrs, children };
                proof {
                    lemma_element_view(produced);
                }
                let replaced = vec![TreeNode::Element(produced)];
                assert(markup_of(replaced@) == seq![TreeNode::Element(produced)@]);
                Ok(replaced)
            },
            _ => Err(Self::invalid(html)),
        }
    }

    /// The error for markup of the engine that is no single `<pre>` element.
    fn invalid(html: &str) -> (error: ConfigurafoxError)
        ensures
            error@ == invalid_markup(html@),
    {
        ConfigurafoxError::Other(
            followed_by("Invalid html generated by syntect: ", debug_text(html).as_str()),
        )
    }
}

impl<R: Resource, D> TreeWalker<R, D> for SyntaxHighlighter {
    open spec fn spec_matches(
        &self,
        tag_name: Seq<char>,
        attrs: Seq<(Seq<char>, Seq<char>)>,
        ctx: Context<R, D>,
    ) -> bool {
        tag_name == "code-hl"@ || tag_name == "pre-hl"@
    }

    /// The element must hold exactly one text and have a `lang` attribute;
    /// the theme in use must be known, and so must the language, as a file
    /// extension. Then the de-indented text is highlighted. What the engine
    /// returns must have the plain shape of its markup; it is read as
    /// markup and finished.
    open spec fn spec_replace(
        &self,
        tag_name: Seq<char>,
        attrs: Seq<(Seq<char>, Seq<char>)>,
        children: Seq<Markup>,
        ctx: Context<R, D>,
    ) -> Result<Seq<Markup>, Failure> {
        if !(children.len() == 1 && children[0] is Text) {
            Err(Failure::Other(tag_name + " must contain only text children"@))
        } else {
            match attr_value(attrs, "lang"@) {
                None => Err(Failure::Other("Missing lang= attribute"@)),
                Some(lang) => if !theme_backgrounds(self.theme_set).dom().contains(self.theme@) {
                    Err(Failure::Other("No such theme "@ + self.theme@))
                } else if !syntax_extensions(self.syntax_set).contains(lang) {
                    Err(Failure::Other("Unknown language "@ + lang))
                } else {
                    match highlighted(
                        deindented(children[0]->Text_0),
                        self.syntax_set,
                        lang,
                        self.theme_set,
                        self.theme@,
                    ) {
                        None => Err(Failure::SyntectError),
                        Some(html) => if !plain_fragment(html) {
                            Err(invalid_markup(html))
                        } else {
                            match parsed_markup(html) {
                                Err(message) => Err(
                                    Failure::ParseHTMLError {
                                        path: "<generated-syntect>"@,
                                        error: message,
                                    },
                                ),
                                Ok(nodes) => finished(
                                    tag_name,
                                    html,
                                    nodes,
                                    theme_backgrounds(self.theme_set)[self.theme@],
                                ),
                            }
                        },
                    }
                },
            }
        }
    }

    open spec fn spec_describe(&self) -> Seq<char> {
        "SyntaxHighlighter"@
    }

    fn describe(&self) -> (text: String) {
        String::from_str("SyntaxHighlighter")
    }

    fn matches(&self, tag_name: &str, attrs: &[(String, String)], ctx: Context<'_, '_, R, D>) -> (claimed:
        bool) {
        str_eq(tag_name, "code-hl") || str_eq(tag_name, "pre-hl")
    }

    fn replace(
        &self,
        tag_name: &str,
        attrs: Vec<(String, String)>,
        children: Vec<TreeNode>,
        ctx: Context<'_, '_, R, D>,
    ) -> (replaced: Result<Vec<TreeNode>, ConfigurafoxError>) {
        if children.len() != 1 {
            return Err(
                ConfigurafoxError::Other(followed_by(tag_name, " must contain only text children")),
            );
        }
        assert(markup_of(children@)[0] == children@[0]@);
        let code = match &children[0] {
            TreeNode::Text(text) => deindent(text.as_str()),
            _ => {
                return Err(
                    ConfigurafoxError::Other(followed_by(tag_name, " must contain only text children")),
                );
            },
        };
        let lang = match get_attr(attrs.as_slice(), "lang") {
            Some(lang) => lang,
            None => {
                return Err(ConfigurafoxError::Other(String::from_str("Missing lang= attribute")));
            },
        };
        let background = match theme_background(&self.theme_set, self.theme.as_str()) {
            Some(background) => background,
            None => {
                return Err(
                    ConfigurafoxError::Other(followed_by("No such theme ", self.theme.as_str())),
                );
            },
        };
        if !has_syntax(&self.syntax_set, lang) {
            return Err(ConfigurafoxError::Other(followed_by("Unknown language ", lang)));
        }
        let html = match highlight(
            code.as_str(),
            &self.syntax_set,
            lang,
            &self.theme_set,
            self.theme.as_str(),
        ) {
            Ok(html) => html,
            Err(error) => {
                return Err(ConfigurafoxError::SyntectError(error));
            },
        };
        if !is_plain_fragment(html.as_str()) {
            return Err(Self::invalid(html.as_str()));
        }
        match parse_fragment(html.as_str()) {
            Ok(nodes) => Self::finish(tag_name, html.as_str(), nodes, background),
            Err(message) => Err(
                ConfigurafoxError::ParseHTMLError {
                    path: String::from_str("<generated-syntect>"),
                    error: message,
                },
            ),
        }
    }
}

} // verus!

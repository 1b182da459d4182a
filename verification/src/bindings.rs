//! The calls that leave the library. Nothing in this file is proved: each
//! contract states what the called function is taken to do.

use vstd::prelude::*;

use html_editor::operation::Htmlifiable;
use syntect::highlighting::ThemeSet;
use syntect::parsing::SyntaxSet;

use crate::fragment::plain_fragment;
use crate::markup::markup_of;
use crate::markup::nesting;
use crate::markup::Doctype;
use crate::markup::Element;
use crate::markup::Markup;
use crate::markup::TreeNode;
use crate::treewalker::MAX_DEPTH;

verus! {

/// The path that `PathBuf::push` leaves when `fragment` is pushed onto `base`.
pub uninterp spec fn joined_path(base: Seq<char>, fragment: Seq<char>) -> Seq<char>;

/// Whether `Path`'s equality holds of the two texts read as paths.
pub uninterp spec fn same_path(a: Seq<char>, b: Seq<char>) -> bool;

/// `PathBuf::push`. Takes `base` as a path and extends it with `fragment`
/// (which replaces `base` if it is absolute); the result is the text of the
/// path that this leaves.
#[verifier::external_body]
pub(crate) fn path_join(base: &str, fragment: &str) -> (joined: String)
    ensures
        joined@ == joined_path(base@, fragment@),
{
    let mut path = std::path::PathBuf::from(base);
    path.push(fragment);
    path.to_string_lossy().into_owned()
}

/// `Path`'s `==`, which compares two paths component by component.
#[verifier::external_body]
pub(crate) fn path_eq(a: &str, b: &str) -> (same: bool)
    ensures
        same == same_path(a@, b@),
{
    std::path::Path::new(a) == std::path::Path::new(b)
}

/// The text of the directory that `Path::parent` gives for `path`, if it
/// gives one.
pub uninterp spec fn parent_path(path: Seq<char>) -> Option<Seq<char>>;

/// The text of the path that `pathdiff::diff_paths` gives from `base` to
/// `path`, if it gives one.
pub uninterp spec fn relative_path(path: Seq<char>, base: Seq<char>) -> Option<Seq<char>>;

/// `Path::parent`: the path without its last component, or nothing where the
/// path ends in a root or is empty.
#[verifier::external_body]
pub(crate) fn path_parent(path: &str) -> (parent: Option<String>)
    ensures
        match parent {
            Some(directory) => parent_path(path@) == Some(directory@),
            None => parent_path(path@) is None,
        },
{
    std::path::Path::new(path).parent().map(|p| p.to_string_lossy().into_owned())
}

/// `pathdiff::diff_paths`: the relative path that leads from the directory
/// `base` to `path`, or nothing where there is none.
#[verifier::external_body]
pub(crate) fn path_diff(path: &str, base: &str) -> (relative: Option<String>)
    ensures
        match relative {
            Some(found) => relative_path(path@, base@) == Some(found@),
            None => relative_path(path@, base@) is None,
        },
{
    pathdiff::diff_paths(path, base).map(|p| p.to_string_lossy().into_owned())
}

/// The text that the `Debug` formatting of a string slice gives: the text in
/// double quotes, with its special characters escaped.
pub uninterp spec fn debug_quoted(text: Seq<char>) -> Seq<char>;

/// `Debug` formatting of a string slice, through `format!`.
#[verifier::external_body]
pub(crate) fn debug_text(text: &str) -> (quoted: String)
    ensures
        quoted@ == debug_quoted(text@),
{
    format!("{:?}", text)
}

/// What `katex::render_with_opts` renders `tex` to, with HTML output,
/// trust switched on and the display mode as given, or nothing where it
/// fails.
pub uninterp spec fn rendered_math(tex: Seq<char>, display: bool) -> Option<Seq<char>>;

/// `katex::render_with_opts`, with options that ask for HTML output, switch
/// trust on and set the display mode to `display`.
#[verifier::external_body]
pub(crate) fn render_math(tex: &str, display: bool) -> (rendered: Result<String, katex::Error>)
    ensures
        match rendered {
            Ok(html) => rendered_math(tex@, display) == Some(html@),
            Err(_) => rendered_math(tex@, display) is None,
        },
{
    let opts = katex::Opts::builder()
        .output_type(katex::OutputType::Html)
        .trust(true)
        .display_mode(display)
        .build()
        .unwrap();
    katex::render_with_opts(tex, &opts)
}

/// The version of the KaTeX distribution that the math engine carries.
pub open spec fn bundled_katex_version() -> Seq<char> {
    "0.16.4"@
}

/// The constant `katex::KATEX_VERSION`: the version of the KaTeX
/// distribution that the math engine carries.
#[verifier::external_body]
pub(crate) fn katex_version() -> (version: &'static str)
    ensures
        version@ == bundled_katex_version(),
{
    katex::KATEX_VERSION
}

/// `syntect::parsing::SyntaxSet`, a set of syntax definitions.
#[verifier::external_type_specification]
#[verifier::external_body]
pub struct ExSyntaxSet(SyntaxSet);

/// `syntect::highlighting::ThemeSet`, a set of themes by name.
#[verifier::external_type_specification]
#[verifier::external_body]
pub struct ExThemeSet(ThemeSet);

/// The file extensions for which `syntaxes` holds a syntax definition, as
/// `SyntaxSet::find_syntax_by_extension` finds them.
pub uninterp spec fn syntax_extensions(syntaxes: SyntaxSet) -> Set<Seq<char>>;

/// The themes that `themes` holds: each name with the red, green and blue
/// of the theme's background colour, where the theme has one.
pub uninterp spec fn theme_backgrounds(themes: ThemeSet) -> Map<Seq<char>, Option<(u8, u8, u8)>>;

/// The markup that `syntect::html::highlighted_html_for_string` gives for
/// `text`, with the syntax that `syntaxes` holds for `extension` and the
/// theme `theme` of `themes`, or nothing where it fails.
pub uninterp spec fn highlighted(
    text: Seq<char>,
    syntaxes: SyntaxSet,
    extension: Seq<char>,
    themes: ThemeSet,
    theme: Seq<char>,
) -> Option<Seq<char>>;

/// `SyntaxSet::load_defaults_newlines`: the syntax definitions that syntect
/// ships.
#[verifier::external_body]
pub(crate) fn default_syntaxes() -> SyntaxSet {
    SyntaxSet::load_defaults_newlines()
}

/// `ThemeSet::load_defaults`: the themes that syntect ships.
#[verifier::external_body]
pub(crate) fn default_themes() -> ThemeSet {
    ThemeSet::load_defaults()
}

/// `SyntaxSet::find_syntax_by_extension`: whether a syntax definition of
/// the set lists `extension` among its file extensions.
#[verifier::external_body]
pub(crate) fn has_syntax(syntaxes: &SyntaxSet, extension: &str) -> (known: bool)
    ensures
        known == syntax_extensions(*syntaxes).contains(extension@),
{
    syntaxes.find_syntax_by_extension(extension).is_some()
}

/// The field `themes` of a `ThemeSet`, read by name: whether the set holds
/// the theme, and if so the theme's background colour.
#[verifier::external_body]
pub(crate) fn theme_background(themes: &ThemeSet, name: &str) -> (found: Option<
    Option<(u8, u8, u8)>,
>)
    ensures
        found == if theme_backgrounds(*themes).dom().contains(name@) {
            Some(theme_backgrounds(*themes)[name@])
        } else {
            None
        },
{
    themes.themes.get(name).map(|theme| theme.settings.background.map(|c| (c.r, c.g, c.b)))
}

/// `syntect::html::highlighted_html_for_string`, on the syntax found for
/// `extension` and the theme named `theme`. Both must be there.
#[verifier::external_body]
pub(crate) fn highlight(
    text: &str,
    syntaxes: &SyntaxSet,
    extension: &str,
    themes: &ThemeSet,
    theme: &str,
) -> (html: Result<String, syntect::Error>)
    requires
        syntax_extensions(*syntaxes).contains(extension@),
        theme_backgrounds(*themes).dom().contains(theme@),
    ensures
        match html {
            Ok(markup) => highlighted(text@, *syntaxes, extension@, *themes, theme@) == Some(
                markup@,
            ),
            Err(_) => highlighted(text@, *syntaxes, extension@, *themes, theme@) is None,
        },
{
    let syntax = syntaxes.find_syntax_by_extension(extension).unwrap();
    syntect::html::highlighted_html_for_string(text, syntaxes, syntax, &themes.themes[theme])
}

/// `html_editor::Node`, a node as the markup library holds it.
#[verifier::external_type_specification]
#[verifier::external_body]
pub struct ExMarkupNode(html_editor::Node);

/// The nodes that `html_editor::parse` reads from `html`, or the message
/// with which it refuses `html`.
pub uninterp spec fn parsed_markup(html: Seq<char>) -> Result<Seq<Markup>, Seq<char>>;

/// The text that `Htmlifiable::html` writes for `nodes`.
pub uninterp spec fn serialized_markup(nodes: Seq<Markup>) -> Seq<char>;

/// Turns a node of the markup library into one of this library, part by part.
#[verifier::external_body]
fn node_from(node: html_editor::Node) -> TreeNode {
    match node {
        html_editor::Node::Element(e) => {
            let children = e.children.into_iter().map(node_from).collect();
            TreeNode::Element(Element { name: e.name, attrs: e.attrs, children })
        },
        html_editor::Node::Text(text) => TreeNode::Text(text),
        html_editor::Node::Comment(text) => TreeNode::Comment(text),
        html_editor::Node::Doctype(html_editor::Doctype::Html) => TreeNode::Doctype(Doctype::Html),
        html_editor::Node::Doctype(html_editor::Doctype::Xml { version, encoding }) => {
            TreeNode::Doctype(Doctype::Xml { version, encoding })
        },
    }
}

/// Turns a node of this library into one of the markup library, part by
/// part. Raw markup becomes a text node, which is written out as it is.
#[verifier::external_body]
fn node_to(node: &TreeNode) -> html_editor::Node {
    match node {
        TreeNode::Element(e) => {
            let children = e.children.iter().map(node_to).collect();
            html_editor::Element { name: e.name.clone(), attrs: e.attrs.clone(), children }.into_node()
        },
        TreeNode::Text(text) | TreeNode::RawHTML(text) => html_editor::Node::Text(text.clone()),
        TreeNode::Comment(text) => html_editor::Node::Comment(text.clone()),
        TreeNode::Doctype(Doctype::Html) => html_editor::Node::Doctype(html_editor::Doctype::Html),
        TreeNode::Doctype(Doctype::Xml { version, encoding }) => html_editor::Node::Doctype(
            html_editor::Doctype::Xml { version: version.clone(), encoding: encoding.clone() },
        ),
    }
}

/// `html_editor::parse`, on markup of the plain shape only: text without
/// angle brackets, and the tags `</pre>`, `</span>`, `<pre style="..">` and
/// `<span style="..">` with nothing in the style but lower-case letters,
/// digits, `#`, `-`, `:` and `;`, no more than two elements deep. On such
/// markup the parser meets none of the tag and attribute forms on which it
/// gives up, and returns the nodes or the message of its refusal.
#[verifier::external_body]
pub(crate) fn parse_fragment(html: &str) -> (parsed: Result<Vec<TreeNode>, String>)
    requires
        plain_fragment(html@),
    ensures
        match parsed {
            Ok(nodes) => parsed_markup(html@) == Ok::<Seq<Markup>, Seq<char>>(markup_of(nodes@)),
            Err(message) => parsed_markup(html@) == Err::<Seq<Markup>, Seq<char>>(message@),
        },
{
    html_editor::parse(html).map(|nodes| nodes.into_iter().map(node_from).collect())
}

/// `Htmlifiable::html` for a sequence of nodes: the markup text of each
/// node, one after the other. It descends once for every level of
/// elements, so the tree may have no more levels than a walk leaves.
#[verifier::external_body]
pub(crate) fn serialize(nodes: &Vec<TreeNode>) -> (html: String)
    requires
        nesting(markup_of(nodes@)) <= MAX_DEPTH,
    ensures
        html@ == serialized_markup(markup_of(nodes@)),
{
    let outside: Vec<html_editor::Node> = nodes.iter().map(node_to).collect();
    outside.html()
}

} // verus!

//! The transformer that puts relative paths in the place of references to
//! resources.

use vstd::prelude::*;
use vstd::string::StringExecFns;

use crate::attributes::any_value_starts_with;
use crate::attributes::has_sigil;
use crate::attributes::lemma_rewritten_fails;
use crate::attributes::rewritten;
use crate::attributes::Attributes;
use crate::bindings::parent_path;
use crate::bindings::path_diff;
use crate::bindings::path_parent;
use crate::bindings::relative_path;
use crate::error::ConfigurafoxError;
use crate::error::Failure;
use crate::markup::lemma_element_view;
use crate::markup::markup_of;
use crate::markup::Element;
use crate::markup::Markup;
use crate::markup::TreeNode;
use crate::resource_manager::position_by_identifier;
use crate::resource_manager::Resource;
use crate::text::after;
use crate::text::begins_with;
use crate::text::followed_by;
use crate::text::starts_with_char;
use crate::text::without_first_char;
use crate::treewalker::Context;
use crate::treewalker::TreeWalker;

verus! {

/// The character that marks a reference to a resource.
pub const LINK_SIGIL: char = '@';

/// Resolves references to resources, by identifier, to the path that leads
/// from the directory of the current source to the resource's output.
pub struct LinkReplacer;

/// The failure for an output path to which no relative path leads.
pub open spec fn not_relativized(path: Seq<char>, source_path: Seq<char>) -> Failure {
    Failure::Other(
        "Resource referenced ("@ + path + ") could not be relativized from "@ + source_path,
    )
}

/// What `reference` stands for: itself where it does not begin with the
/// sigil. Else the rest of it names a resource, and it stands for the path
/// from the directory of the source to the resource's output path, or for
/// that output path itself where the source path has no directory.
pub open spec fn resolved<R: Resource, D>(ctx: Context<R, D>, reference: Seq<char>) -> Result<
    Seq<char>,
    Failure,
> {
    if !begins_with(reference, LINK_SIGIL) {
        Ok(reference)
    } else {
        match position_by_identifier(ctx.resources.entries(), after(reference, 1)) {
            None => Err(Failure::Other("Unknown identifier: "@ + reference)),
            Some(i) => {
                let path = ctx.resources.entries()[i].1.spec_output_path();
                match parent_path(ctx.source_path@) {
                    None => Ok(path),
                    Some(directory) => match relative_path(path, directory) {
                        Some(relative) => Ok(relative),
                        None => Err(not_relativized(path, ctx.source_path@)),
                    },
                }
            },
        }
    }
}

/// `resolved`, as a function of the reference.
pub open spec fn resolution<R: Resource, D>(ctx: Context<R, D>) -> spec_fn(Seq<char>) -> Result<
    Seq<char>,
    Failure,
> {
    |reference: Seq<char>| resolved(ctx, reference)
}

impl LinkReplacer {
    /// The value for a link to the output at `path`, given the relative
    /// path that was found from the directory of the source, if one was.
    pub fn relativized(path: &str, source_path: &str, relative: Option<String>) -> (value: Result<
        String,
        ConfigurafoxError,
    >)
        ensures
            match relative {
                Some(found) => value matches Ok(text) && text@ == found@,
                None => value matches Err(error) && error@ == not_relativized(
                    path@,
                    source_path@,
                ),
            },
    {
        match relative {
            Some(found) => Ok(found),
            None => {
                let mut message = followed_by("Resource referenced (", path);
                message.append(") could not be relativized from ");
                message.append(source_path);
                Err(ConfigurafoxError::Other(message))
            },
        }
    }

    /// What `reference` stands for in the document of `ctx`.
    pub fn resolve<R: Resource, D>(reference: String, ctx: Context<'_, '_, R, D>) -> (value:
        Result<String, ConfigurafoxError>)
        ensures
            match resolved(ctx, reference@) {
                Ok(text) => value matches Ok(found) && found@ == text,
                Err(failure) => value matches Err(error) && error@ == failure,
            },
    {
        if !starts_with_char(reference.as_str(), LINK_SIGIL) {
            return Ok(reference);
        }
        let identifier = without_first_char(reference.as_str());
        match ctx.resources.resource_by_identifier(identifier) {
            None => Err(
                ConfigurafoxError::Other(followed_by("Unknown identifier: ", reference.as_str())),
            ),
            Some(resource) => {
                let path = resource.output_path();
                match path_parent(ctx.source_path) {
                    None => Ok(path),
                    Some(directory) => {
                        let relative = path_diff(path.as_str(), directory.as_str());
                        Self::relativized(path.as_str(), ctx.source_path, relative)
                    },
                }
            },
        }
    }

    /// The attributes with every reference among their values resolved.
    fn resolve_all<R: Resource, D>(attrs: Vec<(String, String)>, ctx: Context<'_, '_, R, D>) -> (values:
        Result<Vec<(String, String)>, ConfigurafoxError>)
        ensures
            match rewritten(attrs.deep_view(), resolution(ctx)) {
                Ok(model) => values matches Ok(found) && found.deep_view() == model,
                Err(failure) => values matches Err(error) && error@ == failure,
            },
    {
        let ghost model = attrs.deep_view();
        let ghost rewrite = resolution(ctx);
        let mut values: Vec<(String, String)> = Vec::new();
        assert(values.deep_view() == Seq::<(Seq<char>, Seq<char>)>::empty());
        for pair in it: attrs
            invariant
                it.seq() == attrs@,
                model == attrs.deep_view(),
                rewrite == resolution(ctx),
                rewritten(model.take(it.index() as int), rewrite) == Ok::<Attributes, Failure>(
                    values.deep_view(),
                ),
        {
            let ghost before = values.deep_view();
            proof {
                let upto = model.take(it.index() + 1);
                assert(upto.drop_last() == model.take(it.index() as int));
                assert(upto.last() == pair.deep_view());
            }
            let (key, reference) = pair;
            match Self::resolve(reference, ctx) {
                Ok(value) => {
                    let ghost added = (key@, value@);
                    values.push((key, value));
                    assert(values.deep_view() == before.push(added));
                },
                Err(error) => {
                    proof {
                        lemma_rewritten_fails(model, rewrite, it.index() + 1);
                    }
                    return Err(error);
                },
            }
        }
        assert(model.take(attrs@.len() as int) == model);
        Ok(values)
    }
}

impl<R: Resource, D> TreeWalker<R, D> for LinkReplacer {
    /// An element is claimed if one of its attribute values is a reference.
    open spec fn spec_matches(
        &self,
        tag_name: Seq<char>,
        attrs: Seq<(Seq<char>, Seq<char>)>,
        ctx: Context<R, D>,
    ) -> bool {
        has_sigil(attrs, LINK_SIGIL)
    }

    /// The element keeps its tag and children, and every attribute value
    /// that is a reference becomes the path it resolves to.
    open spec fn spec_replace(
        &self,
        tag_name: Seq<char>,
        attrs: Seq<(Seq<char>, Seq<char>)>,
        children: Seq<Markup>,
        ctx: Context<R, D>,
    ) -> Result<Seq<Markup>, Failure> {
        match rewritten(attrs, resolution(ctx)) {
            Ok(values) => Ok(seq![Markup::Element { name: tag_name, attrs: values, children }]),
            Err(failure) => Err(failure),
        }
    }

    open spec fn spec_describe(&self) -> Seq<char> {
        "LinkReplacer"@
    }

    fn describe(&self) -> (text: String) {
        String::from_str("LinkReplacer")
    }

    fn matches(&self, tag_name: &str, attrs: &[(String, String)], ctx: Context<'_, '_, R, D>) -> (claimed:
        bool) {
        any_value_starts_with(attrs, LINK_SIGIL)
    }

    fn replace(
        &self,
        tag_name: &str,
        attrs: Vec<(String, String)>,
        children: Vec<TreeNode>,
        ctx: Context<'_, '_, R, D>,
    ) -> (replaced: Result<Vec<TreeNode>, ConfigurafoxError>) {
        match Self::resolve_all(attrs, ctx) {
            Ok(values) => {
                let element = Element { name: String::from_str(tag_name), attrs: values, children };
                proof {
                    lemma_element_view(element);
                }
                let replaced = vec![TreeNode::Element(element)];
                assert(markup_of(replaced@) == seq![TreeNode::Element(element)@]);
                Ok(replaced)
            },
            Err(error) => Err(error),
        }
    }
}

} // verus!

//! The walker: one recursive pass of an ordered list of transformers over a
//! node tree.

use vstd::prelude::*;

use crate::error::ConfigurafoxError;
use crate::error::Failure;
use crate::markup::lemma_element_view;
use crate::markup::markup_of;
use crate::markup::Element;
use crate::markup::Markup;
use crate::markup::TreeNode;
use crate::resource_manager::Resource;
use crate::resource_manager::ResourceManager;
use crate::text::str_eq;

pub use crate::deindent::deindent;
pub use crate::highlight::SyntaxHighlighter;
pub use crate::links::LinkReplacer;
pub use crate::math::KatexReplacer;
pub use crate::variables::VariableReplacer;

verus! {

/// How many levels of elements the walker accepts: an element that lies
/// within this many other elements fails the walk.
pub const MAX_DEPTH: usize = 512;

/// What a transformer may read while it works on one document: the
/// resource, the path of its source, the registry, and the caller's data.
pub struct Context<'res, 'data, R: Resource, D> {
    pub resource: &'res R,
    pub source_path: &'res str,
    pub resources: &'res ResourceManager<R>,
    pub data: &'data D,
}

impl<'res, 'data, R: Resource, D> Clone for Context<'res, 'data, R, D> {
    fn clone(&self) -> (copy: Self)
        ensures
            copy == *self,
    {
        Context {
            resource: self.resource,
            source_path: self.source_path,
            resources: self.resources,
            data: self.data,
        }
    }
}

impl<'res, 'data, R: Resource, D> Copy for Context<'res, 'data, R, D> {

}

/// A transformer: a rule that claims elements and says what takes their place.
pub trait TreeWalker<R: Resource, D> {
    /// Whether this transformer claims the element with this tag and these
    /// attributes.
    spec fn spec_matches(
        &self,
        tag_name: Seq<char>,
        attrs: Seq<(Seq<char>, Seq<char>)>,
        ctx: Context<R, D>,
    ) -> bool;

    /// What takes the place of a claimed element, or why nothing can.
    spec fn spec_replace(
        &self,
        tag_name: Seq<char>,
        attrs: Seq<(Seq<char>, Seq<char>)>,
        children: Seq<Markup>,
        ctx: Context<R, D>,
    ) -> Result<Seq<Markup>, Failure>;

    /// The text that `describe` returns.
    spec fn spec_describe(&self) -> Seq<char>;

    /// A description of the transformer, for a reader.
    fn describe(&self) -> (text: String)
        ensures
            text@ == self.spec_describe(),
    ;

    fn matches(&self, tag_name: &str, attrs: &[(String, String)], ctx: Context<'_, '_, R, D>) -> (claimed:
        bool)
        ensures
            claimed == self.spec_matches(tag_name@, attrs.deep_view(), ctx),
    ;

    /// The nodes that take the place of a claimed element.
    fn replace(
        &self,
        tag_name: &str,
        attrs: Vec<(String, String)>,
        children: Vec<TreeNode>,
        ctx: Context<'_, '_, R, D>,
    ) -> (replaced: Result<Vec<TreeNode>, ConfigurafoxError>)
        requires
            self.spec_matches(tag_name@, attrs.deep_view(), ctx),
        ensures
            outcome(replaced) == self.spec_replace(
                tag_name@,
                attrs.deep_view(),
                markup_of(children@),
                ctx,
            ),
    ;
}

/// The model of what a transformation returned.
pub open spec fn outcome(result: Result<Vec<TreeNode>, ConfigurafoxError>) -> Result<
    Seq<Markup>,
    Failure,
> {
    match result {
        Ok(nodes) => Ok(markup_of(nodes@)),
        Err(error) => Err(error@),
    }
}

/// The position of the first pair of `attrs` whose key is `key`.
pub open spec fn attr_position(attrs: Seq<(Seq<char>, Seq<char>)>, key: Seq<char>) -> Option<int>
    decreases attrs.len(),
{
    if attrs.len() == 0 {
        None
    } else {
        match attr_position(attrs.drop_last(), key) {
            Some(i) => Some(i),
            None => if attrs.last().0 == key {
                Some(attrs.len() - 1)
            } else {
                None
            },
        }
    }
}

/// The value of the first attribute whose key is `key`.
pub open spec fn attr_value(attrs: Seq<(Seq<char>, Seq<char>)>, key: Seq<char>) -> Option<
    Seq<char>,
> {
    match attr_position(attrs, key) {
        Some(i) => Some(attrs[i].1),
        None => None,
    }
}

/// A match within a prefix of the attributes is the match within all of them.
pub proof fn lemma_attr_position_prefix(
    attrs: Seq<(Seq<char>, Seq<char>)>,
    key: Seq<char>,
    n: int,
)
    requires
        0 <= n <= attrs.len(),
        attr_position(attrs.take(n), key) is Some,
    ensures
        attr_position(attrs, key) == attr_position(attrs.take(n), key),
    decreases attrs.len(),
{
    if n < attrs.len() {
        assert(attrs.drop_last().take(n) == attrs.take(n));
        lemma_attr_position_prefix(attrs.drop_last(), key, n);
    } else {
        assert(attrs.take(n) == attrs);
    }
}

/// The value of the first attribute whose key is `key`.
pub fn get_attr<'a>(attrs: &'a [(String, String)], key: &str) -> (value: Option<&'a str>)
    ensures
        match attr_value(attrs.deep_view(), key@) {
            Some(text) => value matches Some(found) && found@ == text,
            None => value is None,
        },
{
    let ghost model = attrs.deep_view();
    let mut i: usize = 0;
    while i < attrs.len()
        invariant
            i <= attrs.len(),
            model == attrs.deep_view(),
            attr_position(model.take(i as int), key@) is None,
        decreases attrs.len() - i,
    {
        proof {
            let upto = model.take(i + 1);
            assert(upto.drop_last() == model.take(i as int));
            assert(upto.last() == model[i as int]);
            assert(model[i as int] == attrs@[i as int].deep_view());
        }
        if str_eq(attrs[i].0.as_str(), key) {
            proof {
                lemma_attr_position_prefix(model, key@, i + 1);
            }
            return Some(attrs[i].1.as_str());
        }
        i += 1;
    }
    assert(model.take(i as int) == model);
    None
}

/// The position of the first transformer that claims the element.
pub open spec fn first_match<R: Resource, D>(
    replacers: Seq<Box<dyn TreeWalker<R, D>>>,
    tag_name: Seq<char>,
    attrs: Seq<(Seq<char>, Seq<char>)>,
    ctx: Context<R, D>,
) -> Option<int>
    decreases replacers.len(),
{
    if replacers.len() == 0 {
        None
    } else {
        match first_match(replacers.drop_last(), tag_name, attrs, ctx) {
            Some(i) => Some(i),
            None => if replacers.last().spec_matches(tag_name, attrs, ctx) {
                Some(replacers.len() - 1)
            } else {
                None
            },
        }
    }
}

/// What one node of a level becomes when the level is rebuilt: the
/// replacement that the first transformer claiming it gives, or the node
/// itself where it is no element or nothing claims it.
pub open spec fn rebuilt_node<R: Resource, D>(
    node: Markup,
    replacers: Seq<Box<dyn TreeWalker<R, D>>>,
    ctx: Context<R, D>,
) -> Result<Seq<Markup>, Failure> {
    match node {
        Markup::Element { name, attrs, children } => match first_match(
            replacers,
            name,
            attrs,
            ctx,
        ) {
            Some(i) => replacers[i].spec_replace(name, attrs, children, ctx),
            None => Ok(seq![node]),
        },
        _ => Ok(seq![node]),
    }
}

/// A level after each of its nodes was rebuilt, in document order, or the
/// failure of the first node that could not be.
pub open spec fn rebuilt_level<R: Resource, D>(
    nodes: Seq<Markup>,
    replacers: Seq<Box<dyn TreeWalker<R, D>>>,
    ctx: Context<R, D>,
) -> Result<Seq<Markup>, Failure>
    decreases nodes.len(),
{
    if nodes.len() == 0 {
        Ok(Seq::empty())
    } else {
        match rebuilt_level(nodes.drop_last(), replacers, ctx) {
            Err(failure) => Err(failure),
            Ok(before) => match rebuilt_node(nodes.last(), replacers, ctx) {
                Err(failure) => Err(failure),
                Ok(piece) => Ok(before + piece),
            },
        }
    }
}

/// The failure of a walk that met an element with no further level allowed.
pub open spec fn too_deep() -> Failure {
    Failure::Other("Maximum nesting depth exceeded"@)
}

/// The result of walking `nodes` with `depth` further levels allowed below
/// them: the level is rebuilt, then the children of every element that the
/// rebuilt level holds are walked.
pub open spec fn walked<R: Resource, D>(
    nodes: Seq<Markup>,
    replacers: Seq<Box<dyn TreeWalker<R, D>>>,
    ctx: Context<R, D>,
    depth: nat,
) -> Result<Seq<Markup>, Failure>
    decreases depth, 1nat, 0nat,
{
    match rebuilt_level(nodes, replacers, ctx) {
        Err(failure) => Err(failure),
        Ok(level) => walked_children(level, replacers, ctx, depth),
    }
}

/// A rebuilt level after the children of each of its elements were walked,
/// in document order, or the first failure on the way.
pub open spec fn walked_children<R: Resource, D>(
    level: Seq<Markup>,
    replacers: Seq<Box<dyn TreeWalker<R, D>>>,
    ctx: Context<R, D>,
    depth: nat,
) -> Result<Seq<Markup>, Failure>
    decreases depth, 0nat, level.len(),
{
    if level.len() == 0 {
        Ok(Seq::empty())
    } else {
        match walked_children(level.drop_last(), replacers, ctx, depth) {
            Err(failure) => Err(failure),
            Ok(before) => match level.last() {
                Markup::Element { name, attrs, children } => if depth == 0 {
                    Err(too_deep())
                } else {
                    match walked(children, replacers, ctx, (depth - 1) as nat) {
                        Err(failure) => Err(failure),
                        Ok(inner) => Ok(
                            before.push(Markup::Element { name, attrs, children: inner }),
                        ),
                    }
                },
                other => Ok(before.push(other)),
            },
        }
    }
}

/// A match among the first `n` transformers is the match among all of them.
pub proof fn lemma_first_match_prefix<R: Resource, D>(
    replacers: Seq<Box<dyn TreeWalker<R, D>>>,
    tag_name: Seq<char>,
    attrs: Seq<(Seq<char>, Seq<char>)>,
    ctx: Context<R, D>,
    n: int,
)
    requires
        0 <= n <= replacers.len(),
        first_match(replacers.take(n), tag_name, attrs, ctx) is Some,
    ensures
        first_match(replacers, tag_name, attrs, ctx) == first_match(
            replacers.take(n),
            tag_name,
            attrs,
            ctx,
        ),
    decreases replacers.len(),
{
    if n < replacers.len() {
        assert(replacers.drop_last().take(n) == replacers.take(n));
        lemma_first_match_prefix(replacers.drop_last(), tag_name, attrs, ctx, n);
    } else {
        assert(replacers.take(n) == replacers);
    }
}

/// A failure among the first `n` nodes of a level is the failure of the level.
pub proof fn lemma_rebuilt_level_fails<R: Resource, D>(
    nodes: Seq<Markup>,
    replacers: Seq<Box<dyn TreeWalker<R, D>>>,
    ctx: Context<R, D>,
    n: int,
)
    requires
        0 <= n <= nodes.len(),
        rebuilt_level(nodes.take(n), replacers, ctx) is Err,
    ensures
        rebuilt_level(nodes, replacers, ctx) == rebuilt_level(nodes.take(n), replacers, ctx),
    decreases nodes.len(),
{
    if n < nodes.len() {
        assert(nodes.drop_last().take(n) == nodes.take(n));
        lemma_rebuilt_level_fails(nodes.drop_last(), replacers, ctx, n);
    } else {
        assert(nodes.take(n) == nodes);
    }
}

/// A failure below the first `n` nodes of a level is the failure of the level.
pub proof fn lemma_walked_children_fails<R: Resource, D>(
    level: Seq<Markup>,
    replacers: Seq<Box<dyn TreeWalker<R, D>>>,
    ctx: Context<R, D>,
    depth: nat,
    n: int,
)
    requires
        0 <= n <= level.len(),
        walked_children(level.take(n), replacers, ctx, depth) is Err,
    ensures
        walked_children(level, replacers, ctx, depth) == walked_children(
            level.take(n),
            replacers,
            ctx,
            depth,
        ),
    decreases level.len(),
{
    if n < level.len() {
        assert(level.drop_last().take(n) == level.take(n));
        lemma_walked_children_fails(level.drop_last(), replacers, ctx, depth, n);
    } else {
        assert(level.take(n) == level);
    }
}

/// The first of `replacers` that claims the element.
fn first_claiming<R: Resource, D>(
    replacers: &[Box<dyn TreeWalker<R, D>>],
    tag_name: &str,
    attrs: &[(String, String)],
    ctx: Context<'_, '_, R, D>,
) -> (found: Option<usize>)
    ensures
        match first_match(replacers@, tag_name@, attrs.deep_view(), ctx) {
            Some(i) => found == Some(i as usize) && 0 <= i < replacers@.len()
                && replacers@[i].spec_matches(tag_name@, attrs.deep_view(), ctx),
            None => found is None,
        },
{
    let mut i: usize = 0;
    while i < replacers.len()
        invariant
            i <= replacers.len(),
            first_match(replacers@.take(i as int), tag_name@, attrs.deep_view(), ctx) is None,
        decreases replacers.len() - i,
    {
        proof {
            let upto = replacers@.take(i + 1);
            assert(upto.drop_last() == replacers@.take(i as int));
            assert(upto.last() == replacers@[i as int]);
        }
        if replacers[i].matches(tag_name, attrs, ctx) {
            proof {
                lemma_first_match_prefix(replacers@, tag_name@, attrs.deep_view(), ctx, i + 1);
            }
            return Some(i);
        }
        i += 1;
    }
    assert(replacers@.take(i as int) == replacers@);
    None
}

/// Rebuilds one level: every element goes to the first transformer that
/// claims it, and what that returns stands in its place.
fn rebuild_level<R: Resource, D>(
    nodes: Vec<TreeNode>,
    replacers: &[Box<dyn TreeWalker<R, D>>],
    ctx: Context<'_, '_, R, D>,
) -> (rebuilt: Result<Vec<TreeNode>, ConfigurafoxError>)
    ensures
        outcome(rebuilt) == rebuilt_level(markup_of(nodes@), replacers@, ctx),
{
    let ghost all = markup_of(nodes@);
    let mut level: Vec<TreeNode> = Vec::new();
    assert(markup_of(level@) == Seq::<Markup>::empty());
    for node in it: nodes
        invariant
            it.seq() == nodes@,
            all == markup_of(nodes@),
            rebuilt_level(all.take(it.index() as int), replacers@, ctx) == Ok::<
                Seq<Markup>,
                Failure,
            >(markup_of(level@)),
    {
        let ghost before = markup_of(level@);
        proof {
            let upto = all.take(it.index() + 1);
            assert(upto.drop_last() == all.take(it.index() as int));
            assert(upto.last() == node@);
        }
        match node {
            TreeNode::Element(element) => {
                proof {
                    lemma_element_view(element);
                }
                let found = first_claiming(
                    replacers,
                    element.name.as_str(),
                    element.attrs.as_slice(),
                    ctx,
                );
                match found {
                    Some(i) => {
                        let Element { name, attrs, children } = element;
                        match replacers[i].replace(name.as_str(), attrs, children, ctx) {
                            Ok(mut piece) => {
                                let ghost added = markup_of(piece@);
                                level.append(&mut piece);
                                assert(markup_of(level@) == before + added);
                            },
                            Err(error) => {
                                proof {
                                    lemma_rebuilt_level_fails(
                                        all,
                                        replacers@,
                                        ctx,
                                        it.index() + 1,
                                    );
                                }
                                return Err(error);
                            },
                        }
                    },
                    None => {
                        level.push(TreeNode::Element(element));
                        assert(markup_of(level@) == before + seq![node@]);
                    },
                }
            },
            other => {
                level.push(other);
                assert(markup_of(level@) == before + seq![node@]);
            },
        }
    }
    assert(all.take(nodes@.len() as int) == all);
    Ok(level)
}

/// Walks the children of every element of a rebuilt level.
fn walk_children<R: Resource, D>(
    level: Vec<TreeNode>,
    replacers: &[Box<dyn TreeWalker<R, D>>],
    ctx: Context<'_, '_, R, D>,
    depth: usize,
) -> (done: Result<Vec<TreeNode>, ConfigurafoxError>)
    ensures
        outcome(done) == walked_children(markup_of(level@), replacers@, ctx, depth as nat),
    decreases depth, 0nat,
{
    let ghost all = markup_of(level@);
    let mut out: Vec<TreeNode> = Vec::new();
    assert(markup_of(out@) == Seq::<Markup>::empty());
    for node in it: level
        invariant
            it.seq() == level@,
            all == markup_of(level@),
            walked_children(all.take(it.index() as int), replacers@, ctx, depth as nat) == Ok::<
                Seq<Markup>,
                Failure,
            >(markup_of(out@)),
    {
        let ghost before = markup_of(out@);
        proof {
            let upto = all.take(it.index() + 1);
            assert(upto.drop_last() == all.take(it.index() as int));
            assert(upto.last() == node@);
        }
        match node {
            TreeNode::Element(element) => {
                proof {
                    lemma_element_view(element);
                }
                if depth == 0 {
                    proof {
                        lemma_walked_children_fails(
                            all,
                            replacers@,
                            ctx,
                            depth as nat,
                            it.index() + 1,
                        );
                    }
                    return Err(
                        ConfigurafoxError::Other("Maximum nesting depth exceeded".to_owned()),
                    );
                }
                let Element { name, attrs, children } = element;
                match walk_level(children, replacers, ctx, depth - 1) {
                    Ok(inner) => {
                        let walked_element = Element { name, attrs, children: inner };
                        proof {
                            lemma_element_view(walked_element);
                        }
                        out.push(TreeNode::Element(walked_element));
                        assert(markup_of(out@) == before.push(TreeNode::Element(walked_element)@));
                    },
                    Err(error) => {
                        proof {
                            lemma_walked_children_fails(
                                all,
                                replacers@,
                                ctx,
                                depth as nat,
                                it.index() + 1,
                            );
                        }
                        return Err(error);
                    },
                }
            },
            other => {
                out.push(other);
                assert(markup_of(out@) == before.push(node@));
            },
        }
    }
    assert(all.take(level@.len() as int) == all);
    Ok(out)
}

/// Walks `nodes` with `depth` further levels allowed below them.
fn walk_level<R: Resource, D>(
    nodes: Vec<TreeNode>,
    replacers: &[Box<dyn TreeWalker<R, D>>],
    ctx: Context<'_, '_, R, D>,
    depth: usize,
) -> (done: Result<Vec<TreeNode>, ConfigurafoxError>)
    ensures
        outcome(done) == walked(markup_of(nodes@), replacers@, ctx, depth as nat),
    decreases depth, 1nat,
{
    match rebuild_level(nodes, replacers, ctx) {
        Ok(level) => walk_children(level, replacers, ctx, depth),
        Err(error) => Err(error),
    }
}

/// Applies `replacers` to the tree `dom` in one pass from the top down.
///
/// At each level every element goes to the first transformer that claims
/// it, and what that transformer returns stands in the element's place
/// without being offered to the transformers again at that level. Then the
/// children of every element of the rebuilt level are walked in the same
/// way. The first failure ends the walk and leaves `dom` empty. An element
/// that lies within `MAX_DEPTH` other elements is such a failure.
pub fn walk<'res, 'data, R: Resource, D>(
    dom: &mut Vec<TreeNode>,
    replacers: &[Box<dyn TreeWalker<R, D>>],
    ctx: Context<'res, 'data, R, D>,
) -> (result: Result<(), ConfigurafoxError>)
    ensures
        match walked(markup_of(old(dom)@), replacers@, ctx, MAX_DEPTH as nat) {
            Ok(tree) => result is Ok && markup_of(final(dom)@) == tree,
            Err(failure) => result matches Err(error) && error@ == failure && final(dom)@.len()
                == 0,
        },
{
    let mut nodes: Vec<TreeNode> = Vec::new();
    std::mem::swap(dom, &mut nodes);
    match walk_level(nodes, replacers, ctx, MAX_DEPTH) {
        Ok(tree) => {
            *dom = tree;
            Ok(())
        },
        Err(error) => Err(error),
    }
}

} // verus!

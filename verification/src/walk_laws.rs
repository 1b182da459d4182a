//! What holds of every walk, whatever the transformers.

use vstd::prelude::*;

use crate::attributes::has_sigil;
use crate::error::Failure;
use crate::highlight::SyntaxHighlighter;
use crate::links::LinkReplacer;
use crate::links::LINK_SIGIL;
use crate::markup::nesting;
use crate::markup::Markup;
use crate::math::KatexReplacer;
use crate::resource_manager::Resource;
use crate::text::begins_with;
use crate::treewalker::first_match;
use crate::treewalker::rebuilt_level;
use crate::treewalker::rebuilt_node;
use crate::treewalker::walked;
use crate::treewalker::walked_children;
use crate::treewalker::Context;
use crate::treewalker::TreeWalker;
use crate::variables::VariableReplacer;
use crate::variables::VARIABLE_SIGIL;

verus! {

/// The transformer that `first_match` gives claims the element, and none
/// before it in the list does. Where it gives none, none claims the element.
pub proof fn lemma_first_match_is_first<R: Resource, D>(
    replacers: Seq<Box<dyn TreeWalker<R, D>>>,
    tag_name: Seq<char>,
    attrs: Seq<(Seq<char>, Seq<char>)>,
    ctx: Context<R, D>,
)
    ensures
        match first_match(replacers, tag_name, attrs, ctx) {
            Some(i) => 0 <= i < replacers.len() && replacers[i].spec_matches(tag_name, attrs, ctx)
                && forall|k: int|
                0 <= k < i ==> !(#[trigger] replacers[k]).spec_matches(tag_name, attrs, ctx),
            None => forall|k: int|
                0 <= k < replacers.len() ==> !(#[trigger] replacers[k]).spec_matches(
                    tag_name,
                    attrs,
                    ctx,
                ),
        },
    decreases replacers.len(),
{
    if replacers.len() > 0 {
        let front = replacers.drop_last();
        lemma_first_match_is_first(front, tag_name, attrs, ctx);
        assert forall|k: int| 0 <= k < front.len() implies front[k] == replacers[k] by {}
        match first_match(front, tag_name, attrs, ctx) {
            Some(i) => {
                assert(front[i] == replacers[i]);
                assert forall|k: int| 0 <= k < i implies !(#[trigger] replacers[k]).spec_matches(
                    tag_name,
                    attrs,
                    ctx,
                ) by {
                    assert(front[k] == replacers[k]);
                }
            },
            None => {
                assert forall|k: int| 0 <= k < front.len() implies !(
                #[trigger] replacers[k]).spec_matches(tag_name, attrs, ctx) by {
                    assert(front[k] == replacers[k]);
                }
            },
        }
    }
}

/// Every node of a rebuilt level stems from a node of the level before: it
/// is that node itself, where that is no element or no transformer claims
/// it, or it is one of the nodes that the first transformer claiming that
/// element returned in its place.
pub proof fn lemma_rebuilt_level_origin<R: Resource, D>(
    nodes: Seq<Markup>,
    replacers: Seq<Box<dyn TreeWalker<R, D>>>,
    ctx: Context<R, D>,
    j: int,
) -> (i: int)
    requires
        rebuilt_level(nodes, replacers, ctx) is Ok,
        0 <= j < rebuilt_level(nodes, replacers, ctx)->Ok_0.len(),
    ensures
        0 <= i < nodes.len(),
        rebuilt_node(nodes[i], replacers, ctx) is Ok,
        rebuilt_node(nodes[i], replacers, ctx)->Ok_0.contains(
            rebuilt_level(nodes, replacers, ctx)->Ok_0[j],
        ),
        match nodes[i] {
            Markup::Element { name, attrs, children } => match first_match(
                replacers,
                name,
                attrs,
                ctx,
            ) {
                Some(k) => 0 <= k < replacers.len() && rebuilt_node(nodes[i], replacers, ctx)
                    == replacers[k].spec_replace(name, attrs, children, ctx),
                None => rebuilt_level(nodes, replacers, ctx)->Ok_0[j] == nodes[i],
            },
            _ => rebuilt_level(nodes, replacers, ctx)->Ok_0[j] == nodes[i],
        },
    decreases nodes.len(),
{
    let before = rebuilt_level(nodes.drop_last(), replacers, ctx)->Ok_0;
    let piece = rebuilt_node(nodes.last(), replacers, ctx)->Ok_0;
    if j < before.len() {
        let i = lemma_rebuilt_level_origin(nodes.drop_last(), replacers, ctx, j);
        assert(nodes.drop_last()[i] == nodes[i]);
        i
    } else {
        let i = nodes.len() - 1;
        assert(piece[j - before.len()] == (before + piece)[j]);
        match nodes[i] {
            Markup::Element { name, attrs, children } => {
                lemma_first_match_is_first(replacers, name, attrs, ctx);
            },
            _ => {},
        }
        i
    }
}

/// What a transformer returns is not offered to the transformers again at
/// its own level: the walk of a level is the rebuilt level with the
/// children of its elements walked, and nothing more.
pub proof fn lemma_replacement_not_rebuilt<R: Resource, D>(
    node: Markup,
    replacers: Seq<Box<dyn TreeWalker<R, D>>>,
    ctx: Context<R, D>,
    depth: nat,
)
    ensures
        walked(seq![node], replacers, ctx, depth) == match rebuilt_node(node, replacers, ctx) {
            Ok(piece) => walked_children(piece, replacers, ctx, depth),
            Err(failure) => Err(failure),
        },
{
    let level = seq![node];
    assert(level.drop_last() == Seq::<Markup>::empty());
    assert(level.last() == node);
    assert(rebuilt_level(level.drop_last(), replacers, ctx) == Ok::<Seq<Markup>, Failure>(
        Seq::empty(),
    ));
    match rebuilt_node(node, replacers, ctx) {
        Ok(piece) => {
            assert(Seq::<Markup>::empty() + piece == piece);
        },
        Err(_) => {},
    }
}

/// Whether no transformer claims any element of the tree, at any level.
pub open spec fn unclaimed<R: Resource, D>(
    nodes: Seq<Markup>,
    replacers: Seq<Box<dyn TreeWalker<R, D>>>,
    ctx: Context<R, D>,
) -> bool
    decreases nodes,
{
    nodes.len() == 0 || (unclaimed(nodes.drop_last(), replacers, ctx) && match nodes.last() {
        Markup::Element { name, attrs, children } => first_match(replacers, name, attrs, ctx)
            is None && unclaimed(children, replacers, ctx),
        _ => true,
    })
}

/// Rebuilding a level of which no transformer claims an element leaves it
/// as it is.
pub proof fn lemma_rebuilt_level_unclaimed<R: Resource, D>(
    nodes: Seq<Markup>,
    replacers: Seq<Box<dyn TreeWalker<R, D>>>,
    ctx: Context<R, D>,
)
    requires
        unclaimed(nodes, replacers, ctx),
    ensures
        rebuilt_level(nodes, replacers, ctx) == Ok::<Seq<Markup>, Failure>(nodes),
    decreases nodes.len(),
{
    if nodes.len() > 0 {
        lemma_rebuilt_level_unclaimed(nodes.drop_last(), replacers, ctx);
        assert(nodes.drop_last() + seq![nodes.last()] == nodes);
    } else {
        assert(nodes == Seq::<Markup>::empty());
    }
}

/// A walk changes nothing in a tree of which no transformer claims any
/// element, at any level, as long as the tree has no more levels of
/// elements than the walk allows. So a second walk over what a first walk
/// has left free of anything to claim is a walk in vain.
pub proof fn lemma_walk_unclaimed<R: Resource, D>(
    nodes: Seq<Markup>,
    replacers: Seq<Box<dyn TreeWalker<R, D>>>,
    ctx: Context<R, D>,
    depth: nat,
)
    requires
        unclaimed(nodes, replacers, ctx),
        nesting(nodes) <= depth,
    ensures
        walked(nodes, replacers, ctx, depth) == Ok::<Seq<Markup>, Failure>(nodes),
        walked_children(nodes, replacers, ctx, depth) == Ok::<Seq<Markup>, Failure>(nodes),
    decreases nodes,
{
    lemma_rebuilt_level_unclaimed(nodes, replacers, ctx);
    if nodes.len() == 0 {
        assert(nodes == Seq::<Markup>::empty());
    } else {
        lemma_walk_unclaimed(nodes.drop_last(), replacers, ctx, depth);
        match nodes.last() {
            Markup::Element { name, attrs, children } => {
                lemma_walk_unclaimed(children, replacers, ctx, (depth - 1) as nat);
                assert(nodes.drop_last().push(nodes.last()) == nodes);
            },
            _ => {
                assert(nodes.drop_last().push(nodes.last()) == nodes);
            },
        }
    }
}


/// A walked tree has no more levels of elements than the walk allows.
pub proof fn lemma_walked_nesting<R: Resource, D>(
    nodes: Seq<Markup>,
    replacers: Seq<Box<dyn TreeWalker<R, D>>>,
    ctx: Context<R, D>,
    depth: nat,
)
    ensures
        walked(nodes, replacers, ctx, depth) matches Ok(tree) ==> nesting(tree) <= depth,
    decreases depth, 1nat, 0nat,
{
    match rebuilt_level(nodes, replacers, ctx) {
        Ok(level) => {
            lemma_walked_children_nesting(level, replacers, ctx, depth);
        },
        Err(_) => {},
    }
}

/// A level whose elements had their children walked has no more levels of
/// elements than the walk allows.
pub proof fn lemma_walked_children_nesting<R: Resource, D>(
    level: Seq<Markup>,
    replacers: Seq<Box<dyn TreeWalker<R, D>>>,
    ctx: Context<R, D>,
    depth: nat,
)
    ensures
        walked_children(level, replacers, ctx, depth) matches Ok(tree) ==> nesting(tree) <= depth,
    decreases depth, 0nat, level.len(),
{
    if level.len() > 0 {
        lemma_walked_children_nesting(level.drop_last(), replacers, ctx, depth);
        match walked_children(level.drop_last(), replacers, ctx, depth) {
            Ok(before) => {
                match level.last() {
                    Markup::Element { name, attrs, children } => {
                        if depth > 0 {
                            lemma_walked_nesting(children, replacers, ctx, (depth - 1) as nat);
                            match walked(children, replacers, ctx, (depth - 1) as nat) {
                                Ok(inner) => {
                                    let element = Markup::Element { name, attrs, children: inner };
                                    assert(before.push(element).drop_last() == before);
                                    assert(before.push(element).last() == element);
                                },
                                Err(_) => {},
                            }
                        }
                    },
                    other => {
                        assert(before.push(other).drop_last() == before);
                        assert(before.push(other).last() == other);
                    },
                }
            },
            Err(_) => {},
        }
    }
}

/// Whether an element bears none of the marks that the transformers of
/// this library go by: no sigil before its tag or before the value of an
/// attribute, and none of the reserved tags.
pub open spec fn unmarked(tag_name: Seq<char>, attrs: Seq<(Seq<char>, Seq<char>)>) -> bool {
    &&& !begins_with(tag_name, VARIABLE_SIGIL)
    &&& !has_sigil(attrs, VARIABLE_SIGIL)
    &&& !has_sigil(attrs, LINK_SIGIL)
    &&& tag_name != "katex"@
    &&& tag_name != "katex-prelude"@
    &&& tag_name != "code-hl"@
    &&& tag_name != "pre-hl"@
}

/// None of the four transformers of this library claims an element that
/// bears no mark.
pub proof fn lemma_unmarked_is_unclaimed<R: Resource, D>(
    variables: VariableReplacer,
    highlighter: SyntaxHighlighter,
    tag_name: Seq<char>,
    attrs: Seq<(Seq<char>, Seq<char>)>,
    ctx: Context<R, D>,
)
    requires
        unmarked(tag_name, attrs),
    ensures
        !variables.spec_matches(tag_name, attrs, ctx),
        !LinkReplacer.spec_matches(tag_name, attrs, ctx),
        !KatexReplacer.spec_matches(tag_name, attrs, ctx),
        !highlighter.spec_matches(tag_name, attrs, ctx),
{
    reveal_strlit("$");
}

} // verus!

//! Attribute lists: looking a sigil up in their values, and rewriting the
//! values one by one.

use vstd::prelude::*;

use crate::error::Failure;
use crate::text::begins_with;
use crate::text::starts_with_char;

verus! {

/// The model of an attribute list.
pub type Attributes = Seq<(Seq<char>, Seq<char>)>;

/// Whether the value of some attribute begins with `sigil`.
pub open spec fn has_sigil(attrs: Attributes, sigil: char) -> bool {
    exists|i: int| 0 <= i < attrs.len() && begins_with(#[trigger] attrs[i].1, sigil)
}

/// Whether the value of some attribute begins with `sigil`.
pub fn any_value_starts_with(attrs: &[(String, String)], sigil: char) -> (found: bool)
    ensures
        found == has_sigil(attrs.deep_view(), sigil),
{
    let ghost model = attrs.deep_view();
    let mut i: usize = 0;
    while i < attrs.len()
        invariant
            i <= attrs.len(),
            model == attrs.deep_view(),
            forall|j: int| 0 <= j < i ==> !begins_with(#[trigger] model[j].1, sigil),
        decreases attrs.len() - i,
    {
        assert(model[i as int] == attrs@[i as int].deep_view());
        if starts_with_char(attrs[i].1.as_str(), sigil) {
            assert(begins_with(model[i as int].1, sigil));
            return true;
        }
        i += 1;
    }
    false
}

/// The attribute list with `rewrite` applied to each value in turn, the
/// keys kept, or the first failure of `rewrite`.
pub open spec fn rewritten(
    attrs: Attributes,
    rewrite: spec_fn(Seq<char>) -> Result<Seq<char>, Failure>,
) -> Result<Attributes, Failure>
    decreases attrs.len(),
{
    if attrs.len() == 0 {
        Ok(Seq::empty())
    } else {
        match rewritten(attrs.drop_last(), rewrite) {
            Err(failure) => Err(failure),
            Ok(before) => match rewrite(attrs.last().1) {
                Err(failure) => Err(failure),
                Ok(value) => Ok(before.push((attrs.last().0, value))),
            },
        }
    }
}

/// A failure among the first `n` attributes is the failure of the list.
pub proof fn lemma_rewritten_fails(
    attrs: Attributes,
    rewrite: spec_fn(Seq<char>) -> Result<Seq<char>, Failure>,
    n: int,
)
    requires
        0 <= n <= attrs.len(),
        rewritten(attrs.take(n), rewrite) is Err,
    ensures
        rewritten(attrs, rewrite) == rewritten(attrs.take(n), rewrite),
    decreases attrs.len(),
{
    if n < attrs.len() {
        assert(attrs.drop_last().take(n) == attrs.take(n));
        lemma_rewritten_fails(attrs.drop_last(), rewrite, n);
    } else {
        assert(attrs.take(n) == attrs);
    }
}

/// Rewriting keeps the number of attributes and every key.
pub proof fn lemma_rewritten_keeps_keys(
    attrs: Attributes,
    rewrite: spec_fn(Seq<char>) -> Result<Seq<char>, Failure>,
)
    ensures
        rewritten(attrs, rewrite) matches Ok(values) ==> values.len() == attrs.len() && forall|
            i: int,
        |
            0 <= i < attrs.len() ==> (#[trigger] values[i]).0 == attrs[i].0 && rewrite(attrs[i].1)
                == Ok::<Seq<char>, Failure>(values[i].1),
    decreases attrs.len(),
{
    if attrs.len() > 0 {
        lemma_rewritten_keeps_keys(attrs.drop_last(), rewrite);
    }
}

} // verus!

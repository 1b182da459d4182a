//! The transformer that puts the values of variables in the place of
//! references to them.

use vstd::prelude::*;
use vstd::string::StringExecFns;

use crate::attributes::any_value_starts_with;
use crate::attributes::has_sigil;
use crate::attributes::lemma_rewritten_fails;
use crate::attributes::rewritten;
use crate::attributes::Attributes;
use crate::bindings::debug_quoted;
use crate::bindings::debug_text;
use crate::error::ConfigurafoxError;
use crate::error::Failure;
use crate::markup::lemma_element_view;
use crate::markup::markup_of;
use crate::markup::Element;
use crate::markup::Markup;
use crate::markup::TreeNode;
use crate::resource_manager::Resource;
use crate::text::after;
use crate::text::begins_with;
use crate::text::followed_by;
use crate::text::join;
use crate::text::joined;
use crate::text::starts_with_char;
use crate::text::without_first_char;
use crate::treewalker::attr_value;
use crate::treewalker::get_attr;
use crate::treewalker::Context;
use crate::treewalker::TreeWalker;

verus! {

/// The character that marks a reference to a variable.
pub const VARIABLE_SIGIL: char = '$';

/// Holds the variables: pairs of a name and a value. Where a name occurs
/// twice, its first pair counts.
pub struct VariableReplacer(pub Vec<(String, String)>);

/// What `reference` stands for: itself where it does not begin with the
/// sigil, else the value of the variable that the rest of it names.
pub open spec fn substituted(variables: Attributes, reference: Seq<char>) -> Result<
    Seq<char>,
    Failure,
> {
    if !begins_with(reference, VARIABLE_SIGIL) {
        Ok(reference)
    } else {
        match attr_value(variables, after(reference, 1)) {
            Some(value) => Ok(value),
            None => Err(Failure::Other("Unknown variable "@ + reference)),
        }
    }
}

/// `substituted`, as a function of the reference.
pub open spec fn substitution(variables: Attributes) -> spec_fn(Seq<char>) -> Result<
    Seq<char>,
    Failure,
> {
    |reference: Seq<char>| substituted(variables, reference)
}

/// How the variables read in a description: each name and value quoted,
/// with ` = ` between them.
pub open spec fn described_variables(variables: Attributes) -> Seq<Seq<char>> {
    Seq::new(
        variables.len(),
        |i: int| debug_quoted(variables[i].0) + " = "@ + debug_quoted(variables[i].1),
    )
}

impl VariableReplacer {
    /// The variables, as pairs of name and value.
    pub open spec fn variables(self) -> Attributes {
        self.0.deep_view()
    }

    /// What `reference` stands for.
    pub fn substitute(&self, reference: String) -> (value: Result<String, ConfigurafoxError>)
        ensures
            match substituted(self.variables(), reference@) {
                Ok(text) => value matches Ok(found) && found@ == text,
                Err(failure) => value matches Err(error) && error@ == failure,
            },
    {
        if !starts_with_char(reference.as_str(), VARIABLE_SIGIL) {
            return Ok(reference);
        }
        let name = without_first_char(reference.as_str());
        match get_attr(self.0.as_slice(), name) {
            Some(value) => Ok(String::from_str(value)),
            None => Err(ConfigurafoxError::Other(followed_by("Unknown variable ", reference.as_str()))),
        }
    }

    /// The attributes with every reference among their values substituted.
    fn substitute_all(&self, attrs: Vec<(String, String)>) -> (values: Result<
        Vec<(String, String)>,
        ConfigurafoxError,
    >)
        ensures
            match rewritten(attrs.deep_view(), substitution(self.variables())) {
                Ok(model) => values matches Ok(found) && found.deep_view() == model,
                Err(failure) => values matches Err(error) && error@ == failure,
            },
    {
        let ghost model = attrs.deep_view();
        let ghost rewrite = substitution(self.variables());
        let mut values: Vec<(String, String)> = Vec::new();
        assert(values.deep_view() == Seq::<(Seq<char>, Seq<char>)>::empty());
        for pair in it: attrs
            invariant
                it.seq() == attrs@,
                model == attrs.deep_view(),
                rewrite == substitution(self.variables()),
                rewritten(model.take(it.index() as int), rewrite) == Ok::<Attributes, Failure>(
                    values.deep_view(),
                ),
        {
            let ghost before = values.deep_view();
            proof {
                let upto = model.take(it.index() + 1);
                assert(upto.drop_last() == model.take(it.index() as int));
                assert(upto.last() == pair.deep_view());
            }
            let (key, reference) = pair;
            match self.substitute(reference) {
                Ok(value) => {
                    let ghost added = (key@, value@);
                    values.push((key, value));
                    assert(values.deep_view() == before.push(added));
                },
                Err(error) => {
                    proof {
                        lemma_rewritten_fails(model, rewrite, it.index() + 1);
                    }
                    return Err(error);
                },
            }
        }
        assert(model.take(attrs@.len() as int) == model);
        Ok(values)
    }
}

impl<R: Resource, D> TreeWalker<R, D> for VariableReplacer {
    /// An element is claimed if its tag or one of its attribute values is a
    /// reference.
    open spec fn spec_matches(
        &self,
        tag_name: Seq<char>,
        attrs: Seq<(Seq<char>, Seq<char>)>,
        ctx: Context<R, D>,
    ) -> bool {
        begins_with(tag_name, VARIABLE_SIGIL) || has_sigil(attrs, VARIABLE_SIGIL)
    }

    /// An element whose tag is a reference becomes the text of the
    /// variable's value. Any other element keeps its tag and children, and
    /// every attribute value that is a reference becomes the variable's
    /// value.
    open spec fn spec_replace(
        &self,
        tag_name: Seq<char>,
        attrs: Seq<(Seq<char>, Seq<char>)>,
        children: Seq<Markup>,
        ctx: Context<R, D>,
    ) -> Result<Seq<Markup>, Failure> {
        if begins_with(tag_name, VARIABLE_SIGIL) {
            match substituted(self.variables(), tag_name) {
                Ok(value) => Ok(seq![Markup::Text(value)]),
                Err(failure) => Err(failure),
            }
        } else {
            match rewritten(attrs, substitution(self.variables())) {
                Ok(values) => Ok(seq![Markup::Element { name: tag_name, attrs: values, children }]),
                Err(failure) => Err(failure),
            }
        }
    }

    open spec fn spec_describe(&self) -> Seq<char> {
        "VariableReplacer("@ + joined(described_variables(self.variables()), ", "@) + ")"@
    }

    fn describe(&self) -> (text: String) {
        let mut parts: Vec<String> = Vec::new();
        let mut i: usize = 0;
        assert(parts.deep_view() == described_variables(self.variables()).take(0));
        while i < self.0.len()
            invariant
                i <= self.0.len(),
                parts.deep_view() == described_variables(self.variables()).take(i as int),
            decreases self.0.len() - i,
        {
            let ghost before = parts.deep_view();
            assert(self.variables()[i as int] == self.0@[i as int].deep_view());
            let mut part = debug_text(self.0[i].0.as_str());
            part.append(" = ");
            part.append(debug_text(self.0[i].1.as_str()).as_str());
            parts.push(part);
            assert(parts.deep_view() == before.push(part@));
            i += 1;
        }
        assert(described_variables(self.variables()).take(i as int) == described_variables(
            self.variables(),
        ));
        let mut text = followed_by("VariableReplacer(", join(&parts, ", ").as_str());
        text.append(")");
        text
    }

    fn matches(&self, tag_name: &str, attrs: &[(String, String)], ctx: Context<'_, '_, R, D>) -> (claimed:
        bool) {
        starts_with_char(tag_name, VARIABLE_SIGIL) || any_value_starts_with(attrs, VARIABLE_SIGIL)
    }

    fn replace(
        &self,
        tag_name: &str,
        attrs: Vec<(String, String)>,
        children: Vec<TreeNode>,
        ctx: Context<'_, '_, R, D>,
    ) -> (replaced: Result<Vec<TreeNode>, ConfigurafoxError>) {
        if starts_with_char(tag_name, VARIABLE_SIGIL) {
            match self.substitute(String::from_str(tag_name)) {
                Ok(value) => {
                    let replaced = vec![TreeNode::Text(value)];
                    assert(markup_of(replaced@) == seq![Markup::Text(value@)]);
                    Ok(replaced)
                },
                Err(error) => Err(error),
            }
        } else {
            match self.substitute_all(attrs) {
                Ok(values) => {
                    let element = Element { name: String::from_str(tag_name), attrs: values, children };
                    proof {
                        lemma_element_view(element);
                    }
                    let replaced = vec![TreeNode::Element(element)];
                    assert(markup_of(replaced@) == seq![TreeNode::Element(element)@]);
                    Ok(replaced)
                },
                Err(error) => Err(error),
            }
        }
    }
}

} // verus!

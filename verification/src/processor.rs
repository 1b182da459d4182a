//! The processors: what turns the source of one resource into the contents
//! of its output file.

use vstd::prelude::*;
use vstd::string::StrSliceExecFns;
use vstd::string::StringExecFns;
use vstd::utf8::encode_utf8;

use crate::bindings::joined_path;
use crate::bindings::path_join;
use crate::bindings::serialize;
use crate::bindings::serialized_markup;
use crate::error::ConfigurafoxError;
use crate::error::Failure;
use crate::markup::lemma_trimmed_nesting;
use crate::markup::markup_of;
use crate::markup::trim;
use crate::markup::trimmed;
use crate::markup::Markup;
use crate::markup::TreeNode;
use crate::resource_manager::Resource;
use crate::resource_manager::ResourceManager;
use crate::text::followed_by;
use crate::text::join;
use crate::text::joined;
use crate::treewalker::walk;
use crate::walk_laws::lemma_walked_nesting;
use crate::treewalker::walked;
use crate::treewalker::Context;
use crate::treewalker::TreeWalker;
use crate::treewalker::MAX_DEPTH;

verus! {

/// Where the output of `resource` is written: its output path, below the
/// directory `output_root`.
pub fn output_file<R: Resource>(output_root: &str, resource: &R) -> (path: String)
    ensures
        path@ == joined_path(output_root@, resource.spec_output_path()),
{
    path_join(output_root, resource.output_path().as_str())
}

/// A do-nothing processor: the output is the source, byte for byte.
pub struct IdentityProcessor;

impl IdentityProcessor {
    pub fn name(&self) -> (text: String)
        ensures
            text@ == "IdentityHandler"@,
    {
        String::from_str("IdentityHandler")
    }
}

/// The processor for documents: it walks the document's tree with its
/// transformers, trims the tree if `trim` is set, and writes it out.
#[verifier::reject_recursive_types(R)]
#[verifier::reject_recursive_types(D)]
pub struct HTMLProcessor<'data, R: Resource, D> {
    pub walkers: Vec<Box<dyn TreeWalker<R, D>>>,
    pub trim: bool,
    pub data: &'data D,
}

/// The descriptions of the transformers, in order.
pub open spec fn descriptions<R: Resource, D>(walkers: Seq<Box<dyn TreeWalker<R, D>>>) -> Seq<
    Seq<char>,
> {
    Seq::new(walkers.len(), |i: int| walkers[i].spec_describe())
}

/// The bytes of the output for the tree `dom`: the UTF-8 encoding of the
/// text of the walked tree, trimmed before it is written if `trim` is set;
/// or the failure of the walk.
pub open spec fn processed<R: Resource, D>(
    dom: Seq<Markup>,
    walkers: Seq<Box<dyn TreeWalker<R, D>>>,
    trim: bool,
    ctx: Context<R, D>,
) -> Result<Seq<u8>, Failure> {
    match walked(dom, walkers, ctx, MAX_DEPTH as nat) {
        Err(failure) => Err(failure),
        Ok(tree) => Ok(
            encode_utf8(
                serialized_markup(
                    if trim {
                        trimmed(tree)
                    } else {
                        tree
                    },
                ),
            ),
        ),
    }
}

impl<'data, R: Resource, D> HTMLProcessor<'data, R, D> {
    /// The name of the processor, with the descriptions of its transformers.
    pub fn name(&self) -> (text: String)
        ensures
            text@ == "HTMLProcessor("@ + joined(descriptions(self.walkers@), ", "@) + ")"@,
    {
        let mut parts: Vec<String> = Vec::new();
        let mut i: usize = 0;
        assert(parts.deep_view() == descriptions(self.walkers@).take(0));
        while i < self.walkers.len()
            invariant
                i <= self.walkers.len(),
                parts.deep_view() == descriptions(self.walkers@).take(i as int),
            decreases self.walkers.len() - i,
        {
            let ghost before = parts.deep_view();
            let part = self.walkers[i].describe();
            parts.push(part);
            assert(parts.deep_view() == before.push(part@));
            i += 1;
        }
        assert(descriptions(self.walkers@).take(i as int) == descriptions(self.walkers@));
        let mut text = followed_by("HTMLProcessor(", join(&parts, ", ").as_str());
        text.append(")");
        text
    }

    /// The contents of the output file for the resource `source`, whose
    /// source at `source_path` was read as the tree `dom`.
    pub fn process_document(
        &self,
        dom: Vec<TreeNode>,
        source: &R,
        source_path: &str,
        resources: &ResourceManager<R>,
    ) -> (output: Result<Vec<u8>, ConfigurafoxError>)
        ensures
            match processed(
                markup_of(dom@),
                self.walkers@,
                self.trim,
                (Context { resource: source, source_path, resources, data: self.data }),
            ) {
                Ok(bytes) => output matches Ok(found) && found@ == bytes,
                Err(failure) => output matches Err(error) && error@ == failure,
            },
    {
        let mut dom = dom;
        let ctx = Context { resource: source, source_path, resources, data: self.data };
        proof {
            lemma_walked_nesting(markup_of(dom@), self.walkers@, ctx, MAX_DEPTH as nat);
        }
        match walk(&mut dom, self.walkers.as_slice(), ctx) {
            Ok(()) => {},
            Err(error) => {
                return Err(error);
            },
        }
        if self.trim {
            proof {
                lemma_trimmed_nesting(markup_of(dom@));
            }
            trim(&mut dom);
        }
        let html = serialize(&dom);
        Ok(html.as_str().as_bytes_vec())
    }
}

} // verus!

//! Where tags are kept, and the operations that every store offers.
use vstd::prelude::*;
use vstd::string::*;
use crate::tagset::TagSet;

verus! {

/// Why a store could not be set up or could not do its work.
#[derive(Debug)]
pub enum TagError {
    /// A malformed backend specification or construction argument.
    Config(String),
    /// The store failed to read, decode or write.
    Storage(String),
}

/// The storage error `what: path: message`.
pub fn storage_error(what: &str, path: &str, message: &str) -> (r: TagError)
    ensures
        r matches TagError::Storage(m) && m@ == what@ + seq![':', ' '] + path@ + seq![':', ' '] + message@,
{
    let mut m = String::from_str(what);
    m.append(": ");
    m.append(path);
    m.append(": ");
    m.append(message);
    proof {
        reveal_strlit(": ");
        assert(": "@ =~= seq![':', ' ']);
    }
    TagError::Storage(m)
}

/// A store of tag sets, keyed by file path.
pub trait Backend {
    /// What the store needs of itself to work.
    spec fn valid(&self) -> bool;

    /// The tags that the store holds for `path`; empty where it holds none.
    fn tags(&self, path: &str) -> (r: Result<TagSet, TagError>)
        requires
            self.valid(),
        ensures
            r is Ok ==> r->Ok_0.wf(),
            r is Err ==> r->Err_0 is Storage,
    ;

    /// Replaces the tags held for `path` by `tags`; with no tags, nothing is
    /// left for `path`.
    fn set_tags(&mut self, path: &str, tags: TagSet) -> (r: Result<(), TagError>)
        requires
            old(self).valid(),
            tags.wf(),
        ensures
            final(self).valid(),
            r is Err ==> r->Err_0 is Storage,
    ;
}

/// `tags` with `tag` added.
pub fn with_tag(tags: TagSet, tag: String) -> (r: TagSet)
    requires
        tags.wf(),
    ensures
        r.wf(),
        r@ == tags@.insert(tag@),
{
    let mut tags = tags;
    tags.insert(tag);
    tags
}

/// `tags` with `tag` taken out.
pub fn without_tag(tags: TagSet, tag: &str) -> (r: TagSet)
    requires
        tags.wf(),
    ensures
        r.wf(),
        r@ == tags@.remove(tag@),
{
    let mut tags = tags;
    tags.remove(tag);
    tags
}

/// Adds `tag` to the tags of `path`: reads them, adds it, writes them back.
pub fn add_tag<B: Backend>(backend: &mut B, path: &str, tag: String) -> (r: Result<(), TagError>)
    requires
        old(backend).valid(),
    ensures
        final(backend).valid(),
{
    let tags = backend.tags(path)?;
    backend.set_tags(path, with_tag(tags, tag))
}

/// Takes `tag` out of the tags of `path`: reads them, removes it, writes them
/// back.
pub fn delete_tag<B: Backend>(backend: &mut B, path: &str, tag: &str) -> (r: Result<(), TagError>)
    requires
        old(backend).valid(),
    ensures
        final(backend).valid(),
{
    let tags = backend.tags(path)?;
    backend.set_tags(path, without_tag(tags, tag))
}

/// Adding a tag twice gives the set that adding it once gives.
pub proof fn lemma_add_tag_idempotent(tags: Set<Seq<char>>, tag: Seq<char>)
    ensures
        tags.insert(tag).insert(tag) == tags.insert(tag),
{
    assert(tags.insert(tag).insert(tag) =~= tags.insert(tag));
}

/// Deleting a tag that is absent leaves the set as it was.
pub proof fn lemma_delete_absent_tag(tags: Set<Seq<char>>, tag: Seq<char>)
    requires
        !tags.contains(tag),
    ensures
        tags.remove(tag) == tags,
{
    assert(tags.remove(tag) =~= tags);
}

} // verus!

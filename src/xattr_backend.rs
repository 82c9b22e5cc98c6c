//! Tags kept in the extended attribute `user.zstags` of the file itself.
use vstd::prelude::*;
use crate::backend::{storage_error, Backend, TagError};
use crate::codec::{decode_payload, encode_payload, joined, lemma_payload_round_trip, payload_tags, storable};
use crate::tagset::TagSet;

verus! {

/// The value of an attribute as bytes, `None` where it is absent.
pub open spec fn attr_view(value: Option<Vec<u8>>) -> Option<Seq<u8>> {
    match value {
        Some(v) => Some(v@),
        None => None,
    }
}

/// The tags that an attribute value holds: none where it is absent, `None`
/// where it cannot be decoded.
pub open spec fn attr_tags(value: Option<Seq<u8>>) -> Option<Set<Seq<char>>> {
    match value {
        Some(b) => payload_tags(b),
        None => Some(Set::empty()),
    }
}

/// The attribute value that stands for `tags`: absent for no tags.
pub open spec fn attr_for(tags: TagSet) -> Option<Seq<u8>> {
    if tags@ == Set::<Seq<char>>::empty() {
        None
    } else {
        Some(joined(tags.tag_seq()))
    }
}

/// Relies on `xattr::get`: the value of attribute `name` of the file at
/// `path`, `None` where the file has no such attribute.
#[verifier::external_body]
fn attr_get(path: &str, name: &str) -> (r: Result<Option<Vec<u8>>, String>) {
    xattr::get(path, name).map_err(|e| e.to_string())
}

/// Relies on `xattr::set`: sets attribute `name` of the file at `path`.
#[verifier::external_body]
fn attr_set(path: &str, name: &str, value: &[u8]) -> (r: Result<(), String>) {
    xattr::set(path, name, value).map_err(|e| e.to_string())
}

/// Relies on `xattr::remove`: removes attribute `name` of the file at `path`.
#[verifier::external_body]
fn attr_remove(path: &str, name: &str) -> (r: Result<(), String>) {
    xattr::remove(path, name).map_err(|e| e.to_string())
}

/// Keeps each file's tags in an extended attribute of that file.
pub struct XattrBackend;

impl XattrBackend {
    /// The tags that the attribute value `value` holds.
    pub fn tags_from_attr(value: Option<Vec<u8>>) -> (r: Result<TagSet, TagError>)
        ensures
            r is Ok <==> attr_tags(attr_view(value)) is Some,
            r is Ok ==> r->Ok_0.wf() && r->Ok_0@ == attr_tags(attr_view(value))->0,
            r is Err ==> r->Err_0 is Storage,
    {
        match value {
            None => Ok(TagSet::new()),
            Some(b) => match decode_payload(&b) {
                Some(t) => Ok(t),
                None => Err(TagError::Storage(String::from_str("a tag is not UTF-8"))),
            },
        }
    }

    /// The attribute value to write for `tags`; `None`: remove the attribute.
    pub fn attr_for_tags(tags: &TagSet) -> (r: Option<Vec<u8>>)
        requires
            tags.wf(),
        ensures
            attr_view(r) == attr_for(*tags),
    {
        if tags.is_empty() {
            None
        } else {
            Some(encode_payload(tags))
        }
    }
}

impl XattrBackend {
    /// The outcome of clearing the tags of `path` when removing the attribute
    /// failed with `removal_error`, given what reading the tags back gave: no
    /// tags means the attribute was absent already, and that is no failure.
    pub fn removal_outcome(path: &str, removal_error: &str, reread: Result<TagSet, TagError>) -> (r: Result<(), TagError>)
        ensures
            reread is Ok && reread->Ok_0@ == Set::<Seq<char>>::empty() ==> r is Ok,
            reread is Ok && reread->Ok_0@ != Set::<Seq<char>>::empty() ==> (r matches Err(TagError::Storage(m))
                && m@ == "zstags::XattrBackend::set_tags"@ + seq![':', ' '] + path@ + seq![':', ' '] + removal_error@),
            reread is Err ==> r is Err && r->Err_0 == reread->Err_0,
    {
        match reread {
            Ok(now) => {
                if now.is_empty() {
                    Ok(())
                } else {
                    Err(storage_error("zstags::XattrBackend::set_tags", path, removal_error))
                }
            },
            Err(e) => Err(e),
        }
    }
}

/// Writing a set of storable tags and reading the attribute back gives that
/// set; for no tags, no attribute is left.
pub proof fn lemma_xattr_round_trip(tags: TagSet)
    requires
        tags.wf(),
        forall|t: Seq<char>| tags@.contains(t) ==> storable(t),
    ensures
        attr_tags(attr_for(tags)) == Some(tags@),
        tags@ == Set::<Seq<char>>::empty() ==> attr_for(tags) is None,
{
    if tags@ != Set::<Seq<char>>::empty() {
        vstd::seq_lib::seq_to_set_is_finite(tags.tag_seq());
        vstd::set_lib::lemma_set_empty_equivalency_len(tags@);
        lemma_payload_round_trip(tags);
    }
}

impl Backend for XattrBackend {
    open spec fn valid(&self) -> bool {
        true
    }

    fn tags(&self, path: &str) -> (r: Result<TagSet, TagError>) {
        match attr_get(path, "user.zstags") {
            Ok(value) => match XattrBackend::tags_from_attr(value) {
                Ok(t) => Ok(t),
                Err(_) => Err(storage_error("zstags::XattrBackend::tags", path, "a tag is not UTF-8")),
            },
            Err(e) => Err(storage_error("zstags::XattrBackend::tags", path, e.as_str())),
        }
    }

    fn set_tags(&mut self, path: &str, tags: TagSet) -> (r: Result<(), TagError>) {
        match XattrBackend::attr_for_tags(&tags) {
            Some(bytes) => match attr_set(path, "user.zstags", bytes.as_slice()) {
                Ok(()) => Ok(()),
                Err(e) => Err(storage_error("zstags::XattrBackend::set_tags", path, e.as_str())),
            },
            None => match attr_remove(path, "user.zstags") {
                Ok(()) => Ok(()),
                Err(e) => XattrBackend::removal_outcome(path, e.as_str(), self.tags(path)),
            },
        }
    }
}

} // verus!

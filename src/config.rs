//! Choosing and setting up a store from a specification string
//! `schema[:arg[:arg...]]`: `xattr`, or `persy:<database>:<base dir>[:init]`.
use vstd::prelude::*;
use vstd::string::*;
use crate::backend::{Backend, TagError};
use crate::paths::{absolute_of, is_abs};
use crate::persy_backend::{bad_args, PersyBackend};
use crate::tagset::TagSet;
use crate::text::str_eq;
use crate::xattr_backend::XattrBackend;

verus! {

/// The fields of `s` between colons, in order; `s` with no colon is one field.
pub open spec fn fields_of(s: Seq<char>) -> Seq<Seq<char>>
    decreases s.len(),
{
    if s.len() == 0 {
        seq![Seq::<char>::empty()]
    } else {
        let f = fields_of(s.drop_last());
        if s.last() == ':' {
            f.push(Seq::<char>::empty())
        } else {
            f.update(f.len() - 1, f.last().push(s.last()))
        }
    }
}

/// The fields of `s` between colons.
pub fn split_fields(s: &str) -> (r: Vec<String>)
    ensures
        r@.map_values(|f: String| f@) == fields_of(s@),
        r@.len() >= 1,
{
    let n = s.unicode_len();
    let mut out: Vec<String> = Vec::new();
    let mut start: usize = 0;
    let mut i: usize = 0;
    assert(s@.take(0) =~= Seq::<char>::empty());
    assert(s@.subrange(0, 0) =~= Seq::<char>::empty());
    while i < n
        invariant
            n == s@.len(),
            start <= i <= n,
            out@.map_values(|f: String| f@).push(s@.subrange(start as int, i as int)) == fields_of(
                s@.take(i as int),
            ),
        decreases n - i,
    {
        let ghost before = out@.map_values(|f: String| f@).push(s@.subrange(start as int, i as int));
        proof {
            assert(s@.take(i as int + 1).drop_last() =~= s@.take(i as int));
            assert(s@.take(i as int + 1).last() == s@[i as int]);
        }
        if s.get_char(i) == ':' {
            let f = String::from_str(s.substring_char(start, i));
            out.push(f);
            start = i + 1;
            assert(s@.subrange(start as int, i as int + 1) =~= Seq::<char>::empty());
            assert(out@.map_values(|f: String| f@).push(s@.subrange(start as int, i as int + 1))
                =~= before.push(Seq::<char>::empty()));
        } else {
            assert(s@.subrange(start as int, i as int + 1) =~= s@.subrange(start as int, i as int).push(s@[i as int]));
            assert(out@.map_values(|f: String| f@).push(s@.subrange(start as int, i as int + 1))
                =~= before.update(before.len() - 1, before.last().push(s@[i as int])));
        }
        i = i + 1;
    }
    assert(s@.take(n as int) =~= s@);
    let last = String::from_str(s.substring_char(start, n));
    out.push(last);
    assert(out@.map_values(|f: String| f@) =~= fields_of(s@));
    out
}

/// A store of either kind.
pub enum AnyBackend {
    Xattr(XattrBackend),
    Persy(PersyBackend),
}

impl Backend for AnyBackend {
    open spec fn valid(&self) -> bool {
        match self {
            AnyBackend::Xattr(_) => true,
            AnyBackend::Persy(p) => p.wf(),
        }
    }

    fn tags(&self, path: &str) -> (r: Result<TagSet, TagError>) {
        match self {
            AnyBackend::Xattr(b) => b.tags(path),
            AnyBackend::Persy(b) => b.tags(path),
        }
    }

    fn set_tags(&mut self, path: &str, tags: TagSet) -> (r: Result<(), TagError>) {
        match self {
            AnyBackend::Xattr(b) => b.set_tags(path, tags),
            AnyBackend::Persy(b) => b.set_tags(path, tags),
        }
    }
}

/// The store that `bspec` names, with relative paths taken from `cur_dir`.
pub fn create_backend(bspec: &str, cur_dir: &str) -> (r: Result<AnyBackend, TagError>)
    requires
        is_abs(cur_dir@),
    ensures
        r is Ok ==> r->Ok_0.valid(),
        fields_of(bspec@)[0] == seq!['x', 'a', 't', 't', 'r'] ==> {
            &&& r is Ok <==> fields_of(bspec@).len() == 1
            &&& r is Ok ==> r->Ok_0 is Xattr
            &&& r is Err ==> r->Err_0 is Config
        },
        fields_of(bspec@)[0] == seq!['p', 'e', 'r', 's', 'y'] ==> {
            &&& bad_args(fields_of(bspec@).drop_first()) ==> r is Err && r->Err_0 is Config
            &&& r is Err && r->Err_0 is Config ==> bad_args(fields_of(bspec@).drop_first())
            &&& r is Ok ==> r->Ok_0 is Persy && r->Ok_0->Persy_0.cwd() == cur_dir@
                && r->Ok_0->Persy_0.base() == absolute_of(fields_of(bspec@)[2], cur_dir@)
        },
        fields_of(bspec@)[0] != seq!['x', 'a', 't', 't', 'r']
            && fields_of(bspec@)[0] != seq!['p', 'e', 'r', 's', 'y'] ==> r is Err && r->Err_0 is Config,
{
    let fields = split_fields(bspec);
    let ghost fv = fields@.map_values(|f: String| f@);
    assert(fv[0] == fields@[0]@);
    proof {
        reveal_strlit("xattr");
        reveal_strlit("persy");
        assert("xattr"@ =~= seq!['x', 'a', 't', 't', 'r']);
        assert("persy"@ =~= seq!['p', 'e', 'r', 's', 'y']);
    }
    if str_eq(fields[0].as_str(), "xattr") {
        if fields.len() == 1 {
            Ok(AnyBackend::Xattr(XattrBackend))
        } else {
            Err(TagError::Config(String::from_str("xattr backend: takes no arguments")))
        }
    } else if str_eq(fields[0].as_str(), "persy") {
        let mut args: Vec<&str> = Vec::new();
        let mut i: usize = 1;
        while i < fields.len()
            invariant
                1 <= i <= fields@.len(),
                fv == fields@.map_values(|f: String| f@),
                args@.map_values(|a: &str| a@) == fv.subrange(1, i as int),
            decreases fields@.len() - i,
        {
            let ghost prev = args@;
            assert(fv[i as int] == fields@[i as int]@);
            let a = fields[i].as_str();
            args.push(a);
            assert(args@ == prev.push(a));
            assert(args@.map_values(|a: &str| a@) =~= prev.map_values(|a: &str| a@).push(a@));
            assert(args@.map_values(|a: &str| a@) =~= fv.subrange(1, i as int + 1));
            i = i + 1;
        }
        assert(fv.subrange(1, fv.len() as int) =~= fv.drop_first());
        assert(fv.len() > 2 ==> fv[2] == fv.drop_first()[1]);
        match PersyBackend::new(args, cur_dir) {
            Ok(b) => Ok(AnyBackend::Persy(b)),
            Err(e) => Err(e),
        }
    } else {
        Err(TagError::Config(String::from_str("got invalid backend specification (unknown/unsupported schema)")))
    }
}

} // verus!

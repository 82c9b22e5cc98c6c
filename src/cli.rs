//! Rules that the command-line tools apply around the stores.
use vstd::prelude::*;
use vstd::string::*;
use crate::tagset::TagSet;

verus! {

/// Whether a directory entry is walked into: the starting point always is,
/// any other entry only where its name does not start with a dot.
pub open spec fn visible(name: Seq<char>, depth: nat) -> bool {
    depth == 0 || name.len() == 0 || name[0] != '.'
}

/// Whether the entry `name`, `depth` levels below the starting point, is
/// walked into.
pub fn is_not_hidden(name: &str, depth: usize) -> (r: bool)
    ensures
        r == visible(name@, depth as nat),
{
    depth == 0 || name.unicode_len() == 0 || name.get_char(0) != '.'
}

/// A change to a tag set: `+tag` adds, `-tag` removes.
#[derive(Debug)]
pub enum TagMod {
    Add(String),
    Remove(String),
}

/// The change that `s` names: a sign and a non-empty tag.
pub open spec fn tag_mod_of(s: Seq<char>) -> Option<(bool, Seq<char>)> {
    if s.len() >= 2 && s[0] == '+' {
        Some((true, s.drop_first()))
    } else if s.len() >= 2 && s[0] == '-' {
        Some((false, s.drop_first()))
    } else {
        None
    }
}

impl TagMod {
    /// The change that `s` names, if it is one.
    pub fn parse(s: &str) -> (r: Option<TagMod>)
        ensures
            tag_mod_of(s@) is None <==> r is None,
            r matches Some(TagMod::Add(t)) ==> tag_mod_of(s@) == Some((true, t@)),
            r matches Some(TagMod::Remove(t)) ==> tag_mod_of(s@) == Some((false, t@)),
    {
        let n = s.unicode_len();
        if n < 2 {
            return None;
        }
        let c = s.get_char(0);
        let rest = String::from_str(s.substring_char(1, n));
        assert(rest@ =~= s@.drop_first());
        if c == '+' {
            Some(TagMod::Add(rest))
        } else if c == '-' {
            Some(TagMod::Remove(rest))
        } else {
            None
        }
    }

    /// Applies the change to `tags`; true where the set changed.
    pub fn apply(self, tags: &mut TagSet) -> (r: bool)
        requires
            old(tags).wf(),
        ensures
            final(tags).wf(),
            self matches TagMod::Add(t) ==> final(tags)@ == old(tags)@.insert(t@)
                && r == !old(tags)@.contains(t@),
            self matches TagMod::Remove(t) ==> final(tags)@ == old(tags)@.remove(t@)
                && r == old(tags)@.contains(t@),
    {
        match self {
            TagMod::Add(t) => tags.insert(t),
            TagMod::Remove(t) => tags.remove(t.as_str()),
        }
    }
}

/// `title:` followed by each tag after a space.
pub open spec fn tags_line_of(title: Seq<char>, tags: Seq<Seq<char>>) -> Seq<char>
    decreases tags.len(),
{
    if tags.len() == 0 {
        title + seq![':']
    } else {
        tags_line_of(title, tags.drop_last()) + seq![' '] + tags.last()
    }
}

/// The line that lists `tags` under `title`.
pub fn tags_line(title: &str, tags: &TagSet) -> (r: String)
    ensures
        r@ == tags_line_of(title@, tags.tag_seq()),
{
    let items = tags.items();
    let ghost ts = tags.tag_seq();
    let mut out = String::from_str(title);
    out.append(":");
    proof {
        reveal_strlit(":");
        assert(":"@ =~= seq![':']);
        assert(ts.take(0) =~= Seq::<Seq<char>>::empty());
    }
    let mut i: usize = 0;
    while i < items.len()
        invariant
            items@.map_values(|s: String| s@) == ts,
            i <= ts.len(),
            out@ == tags_line_of(title@, ts.take(i as int)),
        decreases ts.len() - i,
    {
        out.append(" ");
        out.append(items[i].as_str());
        proof {
            reveal_strlit(" ");
            assert(" "@ =~= seq![' ']);
            assert(ts.take(i as int + 1).drop_last() =~= ts.take(i as int));
            assert(ts.take(i as int + 1).last() == ts[i as int]);
            assert(items@[i as int]@ == ts[i as int]);
        }
        i = i + 1;
    }
    assert(ts.take(ts.len() as int) =~= ts);
    out
}

} // verus!

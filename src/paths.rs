use vstd::prelude::*;
use vstd::string::*;

verus! {

/// Position of the last `/` in `s`, or -1 where there is none.
pub open spec fn last_slash(s: Seq<char>) -> int
    decreases s.len(),
{
    if s.len() == 0 {
        -1
    } else if s.last() == '/' {
        s.len() - 1
    } else {
        last_slash(s.drop_last())
    }
}

/// The directory part of a `/`-separated path: everything before the last
/// `/`, or `/` itself where that is the first character; empty where the
/// path has no `/`.
pub open spec fn parent_of(s: Seq<char>) -> Seq<char> {
    let k = last_slash(s);
    if k < 0 {
        Seq::empty()
    } else if k == 0 {
        seq!['/']
    } else {
        s.take(k)
    }
}

/// The last component of a `/`-separated path.
pub open spec fn file_name_of(s: Seq<char>) -> Seq<char> {
    s.skip(last_slash(s) + 1)
}

/// `rel` resolved against `root`: an absolute `rel` stands alone, otherwise
/// the two are joined by one `/`.
pub open spec fn join_of(root: Seq<char>, rel: Seq<char>) -> Seq<char> {
    if rel.len() > 0 && rel[0] == '/' {
        rel
    } else if root.len() == 0 {
        rel
    } else if root.last() == '/' {
        root + rel
    } else {
        root + seq!['/'] + rel
    }
}

proof fn lemma_last_slash_at(s: Seq<char>, k: int)
    requires
        -1 <= k < s.len(),
        k >= 0 ==> s[k] == '/',
        forall|j: int| k < j < s.len() ==> s[j] != '/',
    ensures
        last_slash(s) == k,
    decreases s.len(),
{
    if s.len() > 0 && s.len() - 1 != k {
        lemma_last_slash_at(s.drop_last(), k);
    }
}

fn find_last_slash(s: &str) -> (r: usize)
    ensures
        r as int == last_slash(s@) + 1,
        r <= s@.len(),
        r > 0 ==> s@[r - 1] == '/',
{
    let mut i: usize = s.unicode_len();
    while i > 0
        invariant
            i <= s@.len(),
            forall|j: int| i <= j < s@.len() ==> s@[j] != '/',
        decreases i,
    {
        if s.get_char(i - 1) == '/' {
            proof {
                lemma_last_slash_at(s@, i - 1);
            }
            return i;
        }
        i = i - 1;
    }
    proof {
        lemma_last_slash_at(s@, -1);
    }
    0
}

/// Splits a path into its directory part and its last component.
pub fn split_path(path: &str) -> (r: (String, String))
    ensures
        r.0@ == parent_of(path@),
        r.1@ == file_name_of(path@),
{
    let after = find_last_slash(path);
    let len = path.unicode_len();
    let name = path.substring_char(after, len).to_owned();
    let dir = if after == 0 {
        String::new()
    } else if after == 1 {
        path.substring_char(0, 1).to_owned()
    } else {
        path.substring_char(0, after - 1).to_owned()
    };
    proof {
        if after == 1 {
            assert(path@.subrange(0, 1) =~= seq!['/']);
        }
        if after > 1 {
            assert(path@.subrange(0, after - 1) =~= path@.take(after - 1));
        }
        assert(path@.subrange(after as int, len as int) =~= path@.skip(after as int));
    }
    (dir, name)
}

/// Resolves `rel` against `root`.
pub fn join_path(root: &str, rel: &str) -> (r: String)
    ensures
        r@ == join_of(root@, rel@),
{
    let rel_len = rel.unicode_len();
    let root_len = root.unicode_len();
    if rel_len > 0 && rel.get_char(0) == '/' {
        return rel.to_owned();
    }
    if root_len == 0 {
        return rel.to_owned();
    }
    let base = root.to_owned();
    if root.get_char(root_len - 1) == '/' {
        base.concat(rel)
    } else {
        let sep = "/";
        proof {
            reveal_strlit("/");
        }
        let with_sep = base.concat(sep);
        assert(sep@ =~= seq!['/']);
        with_sep.concat(rel)
    }
}

} // verus!

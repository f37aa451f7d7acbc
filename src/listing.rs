use crate::sync_plan::texts;
use vstd::prelude::*;
use vstd::string::*;

verus! {

/// A directory entry whose name starts with `.` is hidden.
pub open spec fn is_hidden(name: Seq<char>) -> bool {
    name.len() > 0 && name[0] == '.'
}

/// The names of `names` that are not hidden, in their order.
pub open spec fn visible(names: Seq<Seq<char>>) -> Seq<Seq<char>> {
    names.filter(|n: Seq<char>| !is_hidden(n))
}

/// Keeps the entry names that are not hidden, in their order.
pub fn visible_file_names(names: Vec<String>) -> (r: Vec<String>)
    ensures
        texts(r@) == visible(texts(names@)),
{
    let mut kept: Vec<String> = Vec::new();
    let mut i: usize = 0;
    while i < names.len()
        invariant
            i <= names.len(),
            texts(kept@) == visible(texts(names@.take(i as int))),
        decreases names.len() - i,
    {
        let name: &String = &names[i];
        let ghost before = texts(names@.take(i as int));
        let ghost now = texts(names@.take(i as int + 1));
        assert(now.drop_last() =~= before);
        assert(now.last() == name@);
        proof {
            reveal(Seq::filter);
        }
        let n = name.as_str();
        let hidden = n.unicode_len() > 0 && n.get_char(0) == '.';
        if !hidden {
            kept.push(name.clone());
            assert(texts(kept@) =~= visible(before).push(name@));
        }
        i = i + 1;
    }
    assert(names@.take(i as int) =~= names@);
    kept
}

} // verus!

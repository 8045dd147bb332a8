//! File names and their extensions.

use vstd::prelude::*;

use crate::text::chars_of;

verus! {

/// The index of the last `.` in `name`, if there is one.
pub open spec fn last_dot(name: Seq<char>) -> Option<int>
    decreases name.len(),
{
    if name.len() == 0 {
        None
    } else if name.last() == '.' {
        Some(name.len() - 1)
    } else {
        last_dot(name.drop_last())
    }
}

/// The extension of a file name, as `std::path::Path::extension` documents it:
/// what follows the last `.`; none when there is no `.`, when the only `.`
/// starts the name, or for `..`.
pub open spec fn file_extension(name: Seq<char>) -> Option<Seq<char>> {
    if name == seq!['.', '.'] {
        None
    } else {
        match last_dot(name) {
            Some(i) => if i > 0 {
                Some(name.skip(i + 1))
            } else {
                None
            },
            None => None,
        }
    }
}

proof fn lemma_last_dot(name: Seq<char>)
    ensures
        match last_dot(name) {
            Some(i) => 0 <= i < name.len() && name[i] == '.' && forall|k: int|
                i < k < name.len() ==> name[k] != '.',
            None => forall|k: int| 0 <= k < name.len() ==> name[k] != '.',
        },
    decreases name.len(),
{
    if name.len() > 0 && name.last() != '.' {
        let d = name.drop_last();
        lemma_last_dot(d);
        assert forall|k: int| 0 <= k < name.len() - 1 implies name[k] == d[k] by {}
        assert(name[name.len() - 1] == name.last());
    }
}

/// Whether the file name `name` has the extension `typ`.
pub fn has_typ_extension(name: &str) -> (res: bool)
    ensures
        res == (file_extension(name@) == Some(seq!['t', 'y', 'p'])),
{
    let c = chars_of(name);
    let n = c.len();
    proof {
        lemma_last_dot(c@);
    }
    if n == 2 && c[0] == '.' && c[1] == '.' {
        assert(c@ =~= seq!['.', '.']);
        return false;
    }
    assert(c@ != seq!['.', '.']) by {
        if c@ == seq!['.', '.'] {
            assert(c@[0] == '.' && c@[1] == '.');
        }
    }
    let mut i: usize = n;
    while i > 0 && c[i - 1] != '.'
        invariant
            i <= n,
            n == c@.len(),
            forall|k: int| i <= k < n ==> c@[k] != '.',
        decreases i,
    {
        i = i - 1;
    }
    if i <= 1 {
        // no dot, or the only dot starts the name
        return false;
    }
    let dot = i - 1;
    assert(last_dot(c@) == Some(dot as int));
    let ghost ext = c@.skip(i as int);
    if n - i == 3 && c[i] == 't' && c[i + 1] == 'y' && c[i + 2] == 'p' {
        assert(ext =~= seq!['t', 'y', 'p']);
        true
    } else {
        assert(ext != seq!['t', 'y', 'p']) by {
            if ext == seq!['t', 'y', 'p'] {
                assert(ext.len() == 3);
                assert(ext[0] == c@[i as int]);
                assert(ext[1] == c@[i + 1]);
                assert(ext[2] == c@[i + 2]);
            }
        }
        false
    }
}

} // verus!

verus! {

/// An extension is what follows a dot inside the name.
pub proof fn lemma_file_extension_suffix(name: Seq<char>)
    ensures
        file_extension(name) is Some ==> {
            let i = last_dot(name)->0;
            &&& last_dot(name) is Some
            &&& 0 < i < name.len()
            &&& file_extension(name) == Some(name.skip(i + 1))
        },
{
    lemma_last_dot(name);
}

} // verus!

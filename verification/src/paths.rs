//! Paths as text: how one is put under another.

use vstd::prelude::*;

verus! {

/// The path `name` leads to from `base`: an absolute one leads to itself, and any other is set
/// apart by a slash unless `base` is empty or ends in one already.
pub open spec fn joined(base: Seq<char>, name: Seq<char>) -> Seq<char> {
    if name.len() > 0 && name[0] == '/' {
        name
    } else if base.len() == 0 || base.last() == '/' {
        base + name
    } else {
        base + "/"@ + name
    }
}

/// Returns the path `name` leads to from `base`.
pub fn join(base: &str, name: &str) -> (path: String)
    ensures
        path@ == joined(base@, name@),
{
    let named: usize = name.unicode_len();
    if named > 0 && name.get_char(0) == '/' {
        return name.to_string();
    }
    let mut path = base.to_string();
    let len: usize = base.unicode_len();
    if len > 0 && base.get_char(len - 1) != '/' {
        path.append("/");
    }
    path.append(name);
    path
}

/// A relative name never leads out of the directory it is put under: the path starts with the
/// directory and ends with the name.
pub proof fn a_relative_name_stays_under_its_base(base: Seq<char>, name: Seq<char>)
    requires
        name.len() > 0,
        name[0] != '/',
    ensures
        base.is_prefix_of(joined(base, name)),
        name.is_suffix_of(joined(base, name)),
{
    assert(joined(base, name).take(base.len() as int) =~= base);
    assert(base =~= joined(base, name).subrange(0, base.len() as int));
    let path = joined(base, name);
    assert(name =~= path.subrange(path.len() - name.len(), path.len() as int));
}

/// An absolute name leads to itself. A relative one is put behind its base with exactly one slash in
/// between: the one the base ends in, or one more where it ends in none; behind nothing it stands
/// alone.
pub proof fn a_name_is_put_behind_its_base_with_one_slash(base: Seq<char>, name: Seq<char>)
    ensures
        name.len() > 0 && name[0] == '/' ==> joined(base, name) == name,
        !(name.len() > 0 && name[0] == '/') ==> {
            let path = joined(base, name);
            &&& path.take(base.len() as int) == base
            &&& path.skip(path.len() - name.len()) == name
            &&& base.len() == 0 || base.last() == '/' ==> path.len() == base.len() + name.len()
            &&& base.len() > 0 && base.last() != '/' ==> path.len() == base.len() + 1 + name.len()
                && path[base.len() as int] == '/'
        },
{
    reveal_strlit("/");
    let path = joined(base, name);
    if !(name.len() > 0 && name[0] == '/') {
        assert(path.take(base.len() as int) =~= base);
        assert(path.skip(path.len() - name.len()) =~= name);
    }
}

} // verus!

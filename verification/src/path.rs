//! Paths as the organizer builds and reads them: segments with a `/` between
//! them.

use vstd::prelude::*;
use vstd::string::StringExecFns;

use crate::text::chars_of;

verus! {

/// `child` below `parent`.
pub open spec fn join(parent: Seq<char>, child: Seq<char>) -> Seq<char> {
    parent + seq!['/'] + child
}

/// Where the last segment of a path begins: behind its last `/`, or at the
/// start if it has none.
pub open spec fn base_start(path: Seq<char>) -> int
    decreases path.len(),
{
    if path.len() == 0 {
        0
    } else if path.last() == '/' {
        path.len() as int
    } else {
        base_start(path.drop_last())
    }
}

/// The last segment of a path: what follows its last `/`, or the whole path
/// if it has none. A path that ends in `/` has an empty last segment.
pub open spec fn base_name(path: Seq<char>) -> Seq<char> {
    path.subrange(base_start(path), path.len() as int)
}

/// The last segment of a path holds no `/`, and it begins at the start of the
/// path or right behind a `/`.
pub proof fn lemma_base_start(path: Seq<char>)
    ensures
        0 <= base_start(path) <= path.len(),
        base_start(path) == 0 || path[base_start(path) - 1] == '/',
        forall|i: int| base_start(path) <= i < path.len() ==> path[i] != '/',
    decreases path.len(),
{
    if path.len() > 0 && path.last() != '/' {
        let shorter = path.drop_last();
        lemma_base_start(shorter);
        assert forall|i: int| base_start(path) <= i < path.len() implies path[i] != '/' by {
            if i < shorter.len() {
                assert(path[i] == shorter[i]);
            }
        }
    }
}

/// A name without `/` is the last segment of the path that ends in it.
pub proof fn lemma_base_name_of_join(parent: Seq<char>, name: Seq<char>)
    requires
        forall|i: int| 0 <= i < name.len() ==> name[i] != '/',
    ensures
        base_name(join(parent, name)) == name,
    decreases name.len(),
{
    let path = join(parent, name);
    if name.len() == 0 {
        assert(path.last() == '/');
        assert(base_name(path) =~= name);
    } else {
        let shorter = name.drop_last();
        lemma_base_name_of_join(parent, shorter);
        assert(path.drop_last() =~= join(parent, shorter));
        assert(path.last() == name.last());
        assert(base_start(path) == base_start(join(parent, shorter)));
        lemma_base_start(join(parent, shorter));
        assert(base_name(path) =~= base_name(join(parent, shorter)).push(name.last()));
        assert(shorter.push(name.last()) =~= name);
    }
}

/// The path of `child` below `parent`.
pub fn join_path(parent: &str, child: &str) -> (joined: String)
    ensures
        joined@ == join(parent@, child@),
{
    let mut joined = String::from_str(parent);
    joined.append("/");
    joined.append(child);
    proof {
        reveal_strlit("/");
        assert("/"@ =~= seq!['/']);
    }
    joined
}

/// The last segment of a path.
pub fn file_name_of(path: &str) -> (name: String)
    ensures
        name@ == base_name(path@),
{
    let chars = chars_of(path);
    let mut start: usize = chars.len();
    while start > 0 && chars[start - 1] != '/'
        invariant
            start <= chars.len(),
            chars@ == path@,
            forall|i: int| start <= i < chars.len() ==> chars[i] != '/',
        decreases start,
    {
        start -= 1;
    }
    proof {
        lemma_base_start_found(path@, start as int);
    }
    String::from_str(path.substring_char(start, chars.len()))
}

/// The position behind which no `/` follows, and which is the start or
/// follows a `/`, is where the last segment begins.
proof fn lemma_base_start_found(path: Seq<char>, start: int)
    requires
        0 <= start <= path.len(),
        start == 0 || path[start - 1] == '/',
        forall|i: int| start <= i < path.len() ==> path[i] != '/',
    ensures
        base_start(path) == start,
    decreases path.len(),
{
    if path.len() > 0 && path.last() != '/' {
        lemma_base_start_found(path.drop_last(), start);
    }
}

} // verus!

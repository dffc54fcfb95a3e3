//! Unix paths as text.

use crate::text;
use vstd::prelude::*;
use vstd::string::*;

verus! {

/// `rest` resolved against `base`: an absolute `rest` stands for itself, and a separator is put
/// between the two unless `base` is empty or ends with one.
pub open spec fn join_path(base: Seq<char>, rest: Seq<char>) -> Seq<char> {
    if rest.len() > 0 && rest[0] == '/' {
        rest
    } else if base.len() == 0 || base.last() == '/' {
        base + rest
    } else {
        base + "/"@ + rest
    }
}

/// `rest` resolved against `base`.
pub fn join(base: &str, rest: &str) -> (r: String)
    ensures
        r@ == join_path(base@, rest@),
{
    let b = text::chars_of(base);
    let t = text::chars_of(rest);
    if t.len() > 0 && t[0] == '/' {
        return rest.to_owned();
    }
    let mut r = base.to_owned();
    if b.len() > 0 && b[b.len() - 1] != '/' {
        r.append("/");
    }
    r.append(rest);
    r
}

/// Resolving is associative: a path can be resolved against a directory in one step or by way of
/// a directory below it.
pub proof fn join_path_associative(a: Seq<char>, b: Seq<char>, c: Seq<char>)
    ensures
        join_path(join_path(a, b), c) == join_path(a, join_path(b, c)),
{
    reveal_strlit("/");
    assert(join_path(join_path(a, b), c) =~= join_path(a, join_path(b, c)));
}

/// An absolute path stands for itself; a relative one follows the directory, with exactly one
/// separator put between them unless there is one or there is no directory.
pub proof fn relative_paths_follow_the_directory(dir: Seq<char>, c: char, rest: Seq<char>)
    ensures
        join_path(dir, seq!['/'] + rest) == seq!['/'] + rest,
        rest.len() == 0 || rest[0] != '/' ==> {
            &&& join_path(Seq::empty(), rest) == rest
            &&& join_path(dir + seq!['/'], rest) == dir + seq!['/'] + rest
            &&& c != '/' ==> join_path(dir + seq![c], rest) == dir + seq![c] + seq!['/'] + rest
        },
{
    reveal_strlit("/");
    assert("/"@ =~= seq!['/']);
    assert((seq!['/'] + rest)[0] == '/');
    assert((dir + seq!['/']).last() == '/');
    assert((dir + seq![c]).last() == c);
    assert(Seq::<char>::empty() + rest =~= rest);
}

} // verus!

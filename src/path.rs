//! Paths, held as text.

use vstd::prelude::*;

verus! {

/// `name` under the directory `dir`, one `/` between them.
pub open spec fn joined(dir: Seq<char>, name: Seq<char>) -> Seq<char> {
    if dir.len() == 0 || dir.last() == '/' {
        dir + name
    } else {
        dir + seq!['/'] + name
    }
}

/// The path of `name` under the directory `dir`.
pub fn join(dir: &str, name: &str) -> (r: String)
    ensures
        r@ == joined(dir@, name@),
{
    proof {
        reveal_strlit("/");
    }
    let mut r = String::from_str(dir);
    let n = dir.unicode_len();
    if n > 0 && dir.get_char(n - 1) != '/' {
        r.append("/");
    }
    r.append(name);
    r
}

} // verus!

//! Path arithmetic on text, with `/` as the separator.

use vstd::prelude::*;
use vstd::string::*;

verus! {

/// Whether `name` starts at the root.
pub open spec fn is_absolute(name: Seq<char>) -> bool {
    name.len() > 0 && name[0] == '/'
}

/// `name` adjoined to `dir`: an absolute `name` stands for itself, otherwise
/// it follows `dir`, with a separator between the two unless `dir` is empty
/// or already ends with one.
pub open spec fn join_path(dir: Seq<char>, name: Seq<char>) -> Seq<char> {
    if is_absolute(name) {
        name
    } else if dir.len() == 0 || dir.last() == '/' {
        dir + name
    } else {
        dir + seq!['/'] + name
    }
}

/// Under one directory, different relative names give different paths.
pub proof fn lemma_join_injective(dir: Seq<char>, a: Seq<char>, b: Seq<char>)
    requires
        !is_absolute(a),
        !is_absolute(b),
        join_path(dir, a) == join_path(dir, b),
    ensures
        a == b,
{
    let head = if dir.len() == 0 || dir.last() == '/' {
        dir
    } else {
        dir + seq!['/']
    };
    assert(join_path(dir, a) =~= head + a);
    assert(join_path(dir, b) =~= head + b);
    assert((head + a).subrange(head.len() as int, (head + a).len() as int) =~= a);
    assert((head + b).subrange(head.len() as int, (head + b).len() as int) =~= b);
}

/// Adjoins `name` to `dir`.
pub fn join(dir: &str, name: &str) -> (r: String)
    ensures
        r@ == join_path(dir@, name@),
{
    if name.unicode_len() > 0 && name.get_char(0) == '/' {
        return String::from_str(name);
    }
    let n: usize = dir.unicode_len();
    let mut out = String::from_str(dir);
    if n > 0 && dir.get_char(n - 1) != '/' {
        proof {
            reveal_strlit("/");
        }
        out.append("/");
        assert(out@ =~= dir@ + seq!['/']);
    }
    out.append(name);
    out
}

} // verus!

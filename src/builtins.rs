//! The external functions every program may call without declaring them.
use vstd::prelude::*;

verus! {

/// Names of the builtin functions, in registration order; each takes one
/// `Int` and returns an `Int`.
pub open spec fn builtin_names() -> Seq<Seq<char>> {
    seq!["printint"@, "printchar"@, "printcharln"@, "printintln"@, "readchar"@]
}

/// The builtin names as strings.
pub fn builtins() -> (r: Vec<String>)
    ensures
        r@.len() == builtin_names().len(),
        forall|i: int| 0 <= i < r@.len() ==> #[trigger] r@[i]@ == builtin_names()[i],
{
    let mut r: Vec<String> = Vec::new();
    r.push("printint".to_owned());
    r.push("printchar".to_owned());
    r.push("printcharln".to_owned());
    r.push("printintln".to_owned());
    r.push("readchar".to_owned());
    r
}

} // verus!

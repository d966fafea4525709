//! Paths, held as text with `/` between components.
use vstd::prelude::*;
use crate::text::push_char;

verus! {

/// `child` under `dir`, with one separator between them.
pub open spec fn joined(dir: Seq<char>, child: Seq<char>) -> Seq<char> {
    if dir.len() > 0 && dir.last() == '/' {
        dir + child
    } else {
        dir + seq!['/'] + child
    }
}

/// `child` under `dir`. Unlike `Path::join`, a child that starts with `/`
/// does not replace `dir`: what is joined stays inside `dir`.
pub fn join(dir: &str, child: &str) -> (r: String)
    ensures
        r@ == joined(dir@, child@),
{
    let mut s = dir.to_string();
    let n = dir.unicode_len();
    if n == 0 || dir.get_char(n - 1) != '/' {
        push_char(&mut s, '/');
    }
    s.append(child);
    s
}

} // verus!

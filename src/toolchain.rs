//! Reads the pinned toolchains of a node code base.
use vstd::prelude::*;
use crate::text::push_char;
use crate::web::{chars_of, lines, scan_lines, strip_cr};

verus! {

/// Whether `c` has Unicode's `White_Space` property, as
/// `char::is_whitespace` tells: its 25 code points.
pub open spec fn unicode_space(c: char) -> bool {
    let u = c as u32;
    (0x09 <= u <= 0x0D) || u == 0x20 || u == 0x85 || u == 0xA0 || u == 0x1680 || (0x2000 <= u
        <= 0x200A) || u == 0x2028 || u == 0x2029 || u == 0x202F || u == 0x205F || u == 0x3000
}

/// Whether `c` is white space in Unicode's sense.
pub fn is_space(c: char) -> (r: bool)
    ensures
        r == unicode_space(c),
{
    let u = c as u32;
    (0x09 <= u && u <= 0x0D) || u == 0x20 || u == 0x85 || u == 0xA0 || u == 0x1680 || (0x2000
        <= u && u <= 0x200A) || u == 0x2028 || u == 0x2029 || u == 0x202F || u == 0x205F || u
        == 0x3000
}

/// The lines of `text`, as character vectors.
pub fn split_lines(text: &str) -> (r: Vec<Vec<char>>)
    ensures
        r@.map_values(|l: Vec<char>| l@) == lines(text@),
{
    let chars = chars_of(text);
    let mut out: Vec<Vec<char>> = Vec::new();
    let mut cur: Vec<char> = Vec::new();
    let mut i: usize = 0;
    while i < chars.len()
        invariant
            i <= chars@.len(),
            chars@ == text@,
            out@.map_values(|l: Vec<char>| l@) == scan_lines(chars@.subrange(0, i as int)).0,
            cur@ == scan_lines(chars@.subrange(0, i as int)).1,
        decreases chars@.len() - i,
    {
        let c = chars[i];
        let ghost prev = chars@.subrange(0, i as int);
        proof {
            assert(chars@.subrange(0, i + 1).drop_last() =~= prev);
        }
        if c == '\n' {
            let n = cur.len();
            if n > 0 && cur[n - 1] == '\r' {
                let _ = cur.pop();
            }
            proof {
                assert(cur@ =~= strip_cr(scan_lines(prev).1));
            }
            let ghost before = out@;
            out.push(cur);
            cur = Vec::new();
            proof {
                assert(out@.map_values(|l: Vec<char>| l@) =~= before.map_values(|l: Vec<char>| l@).push(
                    strip_cr(scan_lines(prev).1),
                ));
            }
        } else {
            cur.push(c);
        }
        i = i + 1;
    }
    proof {
        assert(chars@.subrange(0, i as int) =~= text@);
    }
    if cur.len() > 0 {
        let ghost before = out@;
        out.push(cur);
        proof {
            assert(out@.map_values(|l: Vec<char>| l@) =~= before.map_values(|l: Vec<char>| l@).push(
                scan_lines(text@).1,
            ));
        }
    }
    out
}

fn string_of(chars: &Vec<char>, from: usize, to: usize) -> (r: String)
    requires
        from <= to <= chars@.len(),
    ensures
        r@ == chars@.subrange(from as int, to as int),
{
    let mut s = String::new();
    let mut i: usize = from;
    while i < to
        invariant
            from <= i <= to <= chars@.len(),
            s@ == chars@.subrange(from as int, i as int),
        decreases to - i,
    {
        push_char(&mut s, chars[i]);
        i = i + 1;
        proof {
            assert(s@ =~= chars@.subrange(from as int, i as int));
        }
    }
    s
}

/// The pinned nightly toolchain: the first line of
/// `smart_contracts/rust-toolchain`.
pub fn pinned_nightly(text: &str) -> (r: Option<String>)
    ensures
        lines(text@).len() == 0 ==> r.is_none(),
        lines(text@).len() > 0 ==> r.is_some() && r.unwrap()@ == lines(text@)[0],
{
    let ls = split_lines(text);
    if ls.len() == 0 {
        None
    } else {
        proof {
            assert(ls@.map_values(|l: Vec<char>| l@)[0] == ls@[0]@);
        }
        Some(string_of(&ls[0], 0, ls[0].len()))
    }
}

/// The number of leading white space characters of `line`.
pub open spec fn indent(line: Seq<char>) -> nat
    decreases line.len(),
{
    if line.len() > 0 && unicode_space(line[0]) {
        1 + indent(line.drop_first())
    } else {
        0
    }
}

/// A line that names the channel: after its indentation, `channel`.
pub open spec fn is_channel_line(line: Seq<char>) -> bool {
    let k = indent(line) as int;
    k + 7 <= line.len() && line.subrange(k, k + 7) == "channel"@
}

/// The position of the first `"` in `line` at or after `from`, if any.
pub open spec fn quote_from(line: Seq<char>, from: int) -> Option<int>
    decreases line.len() - from,
{
    if from < 0 || from >= line.len() {
        None
    } else if line[from] == '"' {
        Some(from)
    } else {
        quote_from(line, from + 1)
    }
}

/// The text between the first two `"` of `line`.
pub open spec fn quoted(line: Seq<char>) -> Option<Seq<char>> {
    match quote_from(line, 0) {
        Some(a) => match quote_from(line, a + 1) {
            Some(b) => Some(line.subrange(a + 1, b)),
            None => None,
        },
        None => None,
    }
}

/// The version of the first channel line of `text`, if any.
pub open spec fn channel_version(ls: Seq<Seq<char>>) -> Option<Seq<char>>
    decreases ls.len(),
{
    if ls.len() == 0 {
        None
    } else if is_channel_line(ls[0]) {
        quoted(ls[0])
    } else {
        channel_version(ls.drop_first())
    }
}

fn leading_space(line: &Vec<char>) -> (r: usize)
    ensures
        r == indent(line@),
        r <= line@.len(),
{
    let mut i: usize = 0;
    proof {
        assert(line@.subrange(0, line@.len() as int) =~= line@);
    }
    while i < line.len() && is_space(line[i])
        invariant
            i <= line@.len(),
            indent(line@) == i + indent(line@.subrange(i as int, line@.len() as int)),
        decreases line@.len() - i,
    {
        proof {
            assert(line@.subrange(i as int, line@.len() as int).drop_first() =~= line@.subrange(
                i + 1,
                line@.len() as int,
            ));
        }
        i = i + 1;
    }
    proof {
        if i < line@.len() {
            assert(line@.subrange(i as int, line@.len() as int)[0] == line@[i as int]);
        }
    }
    i
}

fn find_quote(line: &Vec<char>, from: usize) -> (r: Option<usize>)
    requires
        from <= line@.len(),
    ensures
        r.is_some() <==> quote_from(line@, from as int).is_some(),
        r.is_some() ==> quote_from(line@, from as int) == Some(r.unwrap() as int),
        r.is_some() ==> from <= r.unwrap() < line@.len(),
{
    let mut i: usize = from;
    while i < line.len()
        invariant
            from <= i <= line@.len(),
            quote_from(line@, from as int) == quote_from(line@, i as int),
        decreases line@.len() - i,
    {
        if line[i] == '"' {
            return Some(i);
        }
        i = i + 1;
    }
    None
}

fn is_channel(line: &Vec<char>) -> (r: bool)
    ensures
        r == is_channel_line(line@),
{
    let k = leading_space(line);
    proof {
        reveal_strlit("channel");
    }
    if line.len() - k < 7 {
        return false;
    }
    let word = ['c', 'h', 'a', 'n', 'n', 'e', 'l'];
    let n = line.len();
    let mut j: usize = 0;
    while j < 7
        invariant
            j <= 7,
            n == line@.len(),
            k + 7 <= line@.len(),
            k == indent(line@),
            word@ == "channel"@,
            forall|q: int| 0 <= q < j ==> line@[k + q] == word@[q],
        decreases 7 - j,
    {
        assert(k + j < line@.len());
        if line[k + j] != word[j] {
            proof {
                assert(line@.subrange(k as int, k + 7)[j as int] != "channel"@[j as int]);
                assert(line@.subrange(k as int, k + 7) != "channel"@);
            }
            return false;
        }
        j = j + 1;
    }
    proof {
        assert(line@.subrange(k as int, k + 7) =~= "channel"@);
    }
    true
}

/// The pinned stable toolchain: the quoted version of the first `channel`
/// line of `rust-toolchain.toml`.
pub fn pinned_stable(text: &str) -> (r: Option<String>)
    ensures
        match channel_version(lines(text@)) {
            Some(v) => r.is_some() && r.unwrap()@ == v,
            None => r.is_none(),
        },
{
    let ls = split_lines(text);
    let ghost views = ls@.map_values(|l: Vec<char>| l@);
    let mut i: usize = 0;
    proof {
        assert(views.subrange(0, views.len() as int) =~= views);
    }
    while i < ls.len()
        invariant
            i <= ls@.len(),
            views == lines(text@),
            views.len() == ls@.len(),
            forall|q: int| 0 <= q < views.len() ==> views[q] == ls@[q]@,
            channel_version(lines(text@)) == channel_version(views.subrange(i as int, views.len() as int)),
        decreases ls@.len() - i,
    {
        let ghost tail = views.subrange(i as int, views.len() as int);
        proof {
            assert(tail[0] == ls@[i as int]@);
            assert(tail.drop_first() =~= views.subrange(i + 1, views.len() as int));
        }
        if is_channel(&ls[i]) {
            let line = &ls[i];
            assert(channel_version(tail) == quoted(line@));
            let first = find_quote(line, 0);
            if let Some(a) = first {
                let second = find_quote(line, a + 1);
                if let Some(b) = second {
                    let version = string_of(line, a + 1, b);
                    assert(quote_from(line@, 0) == Some(a as int));
                    assert(quote_from(line@, a + 1) == Some(b as int));
                    assert(quoted(line@) == Some(version@));
                    return Some(version);
                }
            }
            proof {
                if first.is_some() {
                    assert(quote_from(line@, 0) == Some(first.unwrap() as int));
                } else {
                    assert(quote_from(line@, 0).is_none());
                }
            }
            return None;
        }
        i = i + 1;
    }
    None
}

} // verus!

//! Pages of the monitoring dashboard that show generated files.
use vstd::prelude::*;
use crate::text::push_char;

verus! {

/// The characters of `s`.
pub fn chars_of(s: &str) -> (r: Vec<char>)
    ensures
        r@ == s@,
{
    let mut r: Vec<char> = Vec::new();
    for c in it: s.chars()
        invariant
            it.seq() == s@,
            r@ == it.seq().subrange(0, it.index() as int),
    {
        r.push(c);
    }
    proof {
        assert(s@.subrange(0, s@.len() as int) =~= s@);
    }
    r
}

/// A line without the carriage return that ended it.
pub open spec fn strip_cr(line: Seq<char>) -> Seq<char> {
    if line.len() > 0 && line.last() == '\r' {
        line.drop_last()
    } else {
        line
    }
}

/// The complete lines of `s` and the text after the last line feed.
pub open spec fn scan_lines(s: Seq<char>) -> (Seq<Seq<char>>, Seq<char>)
    decreases s.len(),
{
    if s.len() == 0 {
        (Seq::empty(), Seq::empty())
    } else {
        let (done, cur) = scan_lines(s.drop_last());
        if s.last() == '\n' {
            (done.push(strip_cr(cur)), Seq::empty())
        } else {
            (done, cur.push(s.last()))
        }
    }
}

/// The lines of `s`: split at line feeds, a carriage return before a line
/// feed dropped, and no empty line after a final line feed.
pub open spec fn lines(s: Seq<char>) -> Seq<Seq<char>> {
    let (done, cur) = scan_lines(s);
    if cur.len() > 0 {
        done.push(cur)
    } else {
        done
    }
}

/// A table header line, `[...]`.
pub open spec fn is_header(line: Seq<char>) -> bool {
    line.len() >= 2 && line[0] == '[' && line.last() == ']'
}

/// A line as shown: headers in bold.
pub open spec fn decorate(line: Seq<char>) -> Seq<char> {
    if is_header(line) {
        "<span class=\"strong\">"@ + line + "</span>"@
    } else {
        line
    }
}

/// The shown lines, each followed by a line feed.
pub open spec fn render(ls: Seq<Seq<char>>) -> Seq<char>
    decreases ls.len(),
{
    if ls.len() == 0 {
        Seq::empty()
    } else {
        render(ls.drop_last()) + decorate(ls.last()) + seq!['\n']
    }
}

/// A TOML file as preformatted HTML, with its table headers in bold.
pub open spec fn beautified(input: Seq<char>) -> Seq<char> {
    "<code><pre>"@ + render(lines(input)) + "</pre></code>"@
}

fn push_line(out: &mut String, line: &Vec<char>, len: usize)
    requires
        len <= line@.len(),
    ensures
        final(out)@ == old(out)@ + decorate(line@.subrange(0, len as int)) + seq!['\n'],
{
    let ghost l = line@.subrange(0, len as int);
    let header = len >= 2 && line[0] == '[' && line[len - 1] == ']';
    proof {
        reveal_strlit("<span class=\"strong\">");
        reveal_strlit("</span>");
    }
    if header {
        out.append("<span class=\"strong\">");
    }
    let ghost mid = out@;
    let mut i: usize = 0;
    while i < len
        invariant
            i <= len <= line@.len(),
            out@ == mid + line@.subrange(0, i as int),
        decreases len - i,
    {
        push_char(out, line[i]);
        i = i + 1;
        proof {
            assert(out@ =~= mid + line@.subrange(0, i as int));
        }
    }
    if header {
        out.append("</span>");
    }
    push_char(out, '\n');
    proof {
        assert(header == is_header(l));
        assert(final(out)@ =~= old(out)@ + decorate(l) + seq!['\n']);
    }
}

/// Shows a TOML file as preformatted HTML, its table headers in bold.
pub fn beautify_toml(input: String) -> (r: String)
    ensures
        r@ == beautified(input@),
{
    let chars = chars_of(input.as_str());
    proof {
        reveal_strlit("<code><pre>");
        reveal_strlit("</pre></code>");
    }
    let mut buf = "<code><pre>".to_string();
    let mut cur: Vec<char> = Vec::new();
    let mut i: usize = 0;
    while i < chars.len()
        invariant
            i <= chars@.len(),
            chars@ == input@,
            buf@ == "<code><pre>"@ + render(scan_lines(chars@.subrange(0, i as int)).0),
            cur@ == scan_lines(chars@.subrange(0, i as int)).1,
        decreases chars@.len() - i,
    {
        let c = chars[i];
        let ghost prev = chars@.subrange(0, i as int);
        proof {
            assert(chars@.subrange(0, i + 1).drop_last() =~= prev);
        }
        if c == '\n' {
            let n = cur.len();
            let len = if n > 0 && cur[n - 1] == '\r' {
                n - 1
            } else {
                n
            };
            proof {
                assert(cur@.subrange(0, len as int) =~= strip_cr(cur@));
            }
            push_line(&mut buf, &cur, len);
            cur = Vec::new();
            proof {
                let done = scan_lines(prev).0;
                assert(scan_lines(chars@.subrange(0, i + 1)).0 == done.push(strip_cr(
                    scan_lines(prev).1,
                )));
                assert(done.push(strip_cr(scan_lines(prev).1)).drop_last() =~= done);
                assert(cur@ =~= scan_lines(chars@.subrange(0, i + 1)).1);
            }
        } else {
            cur.push(c);
        }
        i = i + 1;
    }
    proof {
        assert(chars@.subrange(0, i as int) =~= input@);
    }
    if cur.len() > 0 {
        let n = cur.len();
        push_line(&mut buf, &cur, n);
        proof {
            assert(cur@.subrange(0, n as int) =~= cur@);
            let done = scan_lines(input@).0;
            assert(done.push(cur@).drop_last() =~= done);
        }
    }
    buf.append("</pre></code>");
    buf
}

pub open spec fn page_head() -> Seq<char> {
    "<html lang=\"en\">\n\n<head>\n    <meta charset=\"UTF-8\">\n    <meta name=\"viewport\" content=\"width=device-width, initial-scale=1.0\">\n    <title>Casper Utilities for Network Testing</title>\n    <style>\n        \npre,\ncode {\n    .strong {\n        font-weight: bold;\n        color: green;\n    }\n}\n    </style>\n</head>\n\n<body>\n    "@
}

pub open spec fn page_tail() -> Seq<char> {
    "\n</body>\n\n</html>"@
}

/// Wraps `content` in the dashboard's HTML page.
pub fn style(content: String) -> (r: String)
    ensures
        r@ == page_head() + content@ + page_tail(),
{
    let mut page = "<html lang=\"en\">\n\n<head>\n    <meta charset=\"UTF-8\">\n    <meta name=\"viewport\" content=\"width=device-width, initial-scale=1.0\">\n    <title>Casper Utilities for Network Testing</title>\n    <style>\n        \npre,\ncode {\n    .strong {\n        font-weight: bold;\n        color: green;\n    }\n}\n    </style>\n</head>\n\n<body>\n    ".to_string();
    page.append(content.as_str());
    page.append("\n</body>\n\n</html>");
    page
}

} // verus!

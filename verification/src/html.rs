//! Assembly of the final HTML document from the decoded text.

use crate::text::{chars_of, string_of};
use vstd::prelude::*;
use vstd::string::StringExecFns;

verus! {

/// What stands for one character in escaped text.
pub open spec fn escape_of(c: char) -> Seq<char> {
    if c == '&' {
        seq!['&', 'a', 'm', 'p', ';']
    } else if c == '<' {
        seq!['&', 'l', 't', ';']
    } else if c == '>' {
        seq!['&', 'g', 't', ';']
    } else if c == '"' {
        seq!['&', 'q', 'u', 'o', 't', ';']
    } else if c == '\'' {
        seq!['&', '#', '3', '9', ';']
    } else {
        seq![c]
    }
}

/// The text `s` with each of `& < > " '` replaced by its entity.
pub open spec fn escaped(s: Seq<char>) -> Seq<char>
    decreases s.len(),
{
    if s.len() == 0 {
        s
    } else {
        escaped(s.drop_last()) + escape_of(s.last())
    }
}

/// A character that may open or close markup or an attribute value.
pub open spec fn is_markup_char(c: char) -> bool {
    c == '<' || c == '>' || c == '"' || c == '\''
}

/// Escaped text holds no markup character.
pub proof fn lemma_escaped_has_no_markup(s: Seq<char>)
    ensures
        forall|i: int| 0 <= i < escaped(s).len() ==> !is_markup_char(#[trigger] escaped(s)[i]),
    decreases s.len(),
{
    if s.len() > 0 {
        lemma_escaped_has_no_markup(s.drop_last());
        let head = escaped(s.drop_last());
        let tail = escape_of(s.last());
        assert forall|i: int| 0 <= i < escaped(s).len() implies !is_markup_char(
            #[trigger] escaped(s)[i],
        ) by {
            if i < head.len() {
                assert(escaped(s)[i] == head[i]);
            } else {
                assert(escaped(s)[i] == tail[i - head.len()]);
            }
        }
    }
}

/// Text without any of `& < > " '` is its own escaped form.
pub proof fn lemma_plain_text_is_unchanged(s: Seq<char>)
    requires
        forall|i: int| 0 <= i < s.len() ==> !is_markup_char(#[trigger] s[i]) && s[i] != '&',
    ensures
        escaped(s) == s,
    decreases s.len(),
{
    if s.len() > 0 {
        assert forall|i: int| 0 <= i < s.drop_last().len() implies !is_markup_char(
            #[trigger] s.drop_last()[i],
        ) && s.drop_last()[i] != '&' by {
            assert(s.drop_last()[i] == s[i]);
        }
        lemma_plain_text_is_unchanged(s.drop_last());
        assert(!is_markup_char(s[s.len() - 1]) && s[s.len() - 1] != '&');
        assert(s.drop_last() + seq![s.last()] =~= s);
    }
}

fn push_all(out: &mut Vec<char>, a: char, b: char, c: char, d: char)
    ensures
        final(out)@ == old(out)@ + seq![a, b, c, d],
{
    out.push(a);
    out.push(b);
    out.push(c);
    out.push(d);
    assert(out@ =~= old(out)@ + seq![a, b, c, d]);
}

/// Escapes a sequence of characters.
pub fn escape_chars(v: &[char]) -> (out: Vec<char>)
    ensures
        out@ == escaped(v@),
{
    let n: usize = v.len();
    let mut out: Vec<char> = Vec::with_capacity(n);
    let mut i: usize = 0;
    while i < n
        invariant
            n == v@.len(),
            i <= n,
            out@ == escaped(v@.subrange(0, i as int)),
        decreases n - i,
    {
        assert(v@.subrange(0, i as int + 1).drop_last() =~= v@.subrange(0, i as int));
        let ghost before = out@;
        let c: char = v[i];
        if c == '&' {
            push_all(&mut out, '&', 'a', 'm', 'p');
            out.push(';');
        } else if c == '<' {
            push_all(&mut out, '&', 'l', 't', ';');
        } else if c == '>' {
            push_all(&mut out, '&', 'g', 't', ';');
        } else if c == '"' {
            push_all(&mut out, '&', 'q', 'u', 'o');
            out.push('t');
            out.push(';');
        } else if c == '\'' {
            push_all(&mut out, '&', '#', '3', '9');
            out.push(';');
        } else {
            out.push(c);
        }
        assert(out@ =~= before + escape_of(c));
        i += 1;
    }
    assert(v@.subrange(0, n as int) =~= v@);
    out
}

/// Escapes `& < > " '` for use as the content of an HTML element.
pub fn escape_html(s: &str) -> (out: String)
    ensures
        out@ == escaped(s@),
{
    let v = chars_of(s);
    let e = escape_chars(v.as_slice());
    string_of(e.as_slice())
}

/// The lower-case form of an ASCII capital; any other character itself.
pub open spec fn ascii_lower(c: char) -> char {
    if 'A' <= c && c <= 'Z' {
        ((c as u32) + 32) as char
    } else {
        c
    }
}

/// Whether `<html`, in any mix of upper and lower case, stands at
/// position `p`.
pub open spec fn html_tag_at(s: Seq<char>, p: int) -> bool {
    &&& 0 <= p
    &&& p + 5 <= s.len()
    &&& s[p] == '<'
    &&& ascii_lower(s[p + 1]) == 'h'
    &&& ascii_lower(s[p + 2]) == 't'
    &&& ascii_lower(s[p + 3]) == 'm'
    &&& ascii_lower(s[p + 4]) == 'l'
}

/// Whether a text is marked up as an HTML document already.
pub open spec fn has_html_tag(s: Seq<char>) -> bool {
    exists|p: int| html_tag_at(s, p)
}

fn is_letter(c: char, lower: char, upper: char) -> (r: bool)
    requires
        'a' <= lower <= 'z',
        upper as u32 + 32 == lower as u32,
    ensures
        r == (ascii_lower(c) == lower),
{
    c == lower || c == upper
}

/// Tests whether a sequence of characters holds an `<html` tag.
pub fn chars_contain_html_tag(v: &[char]) -> (r: bool)
    ensures
        r == has_html_tag(v@),
{
    let n: usize = v.len();
    if n < 5 {
        return false;
    }
    let mut p: usize = 0;
    while p <= n - 5
        invariant
            n == v@.len(),
            n >= 5,
            p <= n - 4,
            forall|q: int| 0 <= q < p ==> !html_tag_at(v@, q),
        decreases n - p,
    {
        if v[p] == '<' && is_letter(v[p + 1], 'h', 'H') && is_letter(v[p + 2], 't', 'T')
            && is_letter(v[p + 3], 'm', 'M') && is_letter(v[p + 4], 'l', 'L') {
            assert(html_tag_at(v@, p as int));
            return true;
        }
        p += 1;
    }
    false
}

/// Tests whether a text holds an `<html` tag, in any case.
pub fn contains_html_tag(s: &str) -> (r: bool)
    ensures
        r == has_html_tag(s@),
{
    let v = chars_of(s);
    chars_contain_html_tag(v.as_slice())
}

/// What is put before the escaped text of a document.
pub open spec fn document_head() -> Seq<char> {
    "<!doctype html><html><head><meta charset=\"utf-8\"></head><body><pre>"@
}

/// What is put behind the escaped text of a document.
pub open spec fn document_tail() -> Seq<char> {
    "</pre></body></html>"@
}

/// The document made from a text: the text itself where it is marked up
/// already, else its escaped form inside a `<pre>` element of a minimal
/// document.
pub open spec fn document_of(text: Seq<char>) -> Seq<char> {
    if has_html_tag(text) {
        text
    } else {
        document_head() + escaped(text) + document_tail()
    }
}

/// Makes the HTML document of a decoded text, given as characters.
pub fn assemble_chars(text: &[char]) -> (html: String)
    ensures
        html@ == document_of(text@),
{
    if chars_contain_html_tag(text) {
        return string_of(text);
    }
    let body = string_of(escape_chars(text).as_slice());
    let mut html = String::from_str(
        "<!doctype html><html><head><meta charset=\"utf-8\"></head><body><pre>",
    );
    html.append(body.as_str());
    html.append("</pre></body></html>");
    html
}

/// Makes the HTML document of a decoded text.
pub fn assemble(text: &str) -> (html: String)
    ensures
        html@ == document_of(text@),
{
    let v = chars_of(text);
    assemble_chars(v.as_slice())
}

} // verus!

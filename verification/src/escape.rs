//! HTML escaping of untrusted text.
//!
//! Post text and author names come straight from the upstream network and are
//! escaped exactly once, at the point where they are interpolated into the
//! rendered HTML fragment.

use vstd::prelude::*;

verus! {

/// The escaped form of one character: `&`, `<`, `>` and `"` become entities,
/// every other character stands for itself.
pub open spec fn escape_char_spec(c: char) -> Seq<char> {
    if c == '&' {
        "&amp;"@
    } else if c == '<' {
        "&lt;"@
    } else if c == '>' {
        "&gt;"@
    } else if c == '"' {
        "&quot;"@
    } else {
        seq![c]
    }
}

/// The HTML-escaped form of a text: each character replaced by its escaped
/// form, in order.
pub open spec fn escape_spec(s: Seq<char>) -> Seq<char>
    decreases s.len(),
{
    if s.len() == 0 {
        Seq::empty()
    } else {
        escape_char_spec(s[0]) + escape_spec(s.drop_first())
    }
}

/// Escaping distributes over appending one character at the end.
pub proof fn lemma_escape_push(s: Seq<char>, c: char)
    ensures
        escape_spec(s.push(c)) == escape_spec(s) + escape_char_spec(c),
    decreases s.len(),
{
    if s.len() == 0 {
        assert(s.push(c)[0] == c);
        assert(s.push(c).drop_first() =~= Seq::<char>::empty());
        assert(escape_spec(s.push(c)) == escape_char_spec(c) + escape_spec(Seq::<char>::empty()));
        assert(escape_spec(s.push(c)) =~= escape_spec(s) + escape_char_spec(c));
    } else {
        assert(s.push(c)[0] == s[0]);
        assert(s.push(c).drop_first() =~= s.drop_first().push(c));
        lemma_escape_push(s.drop_first(), c);
        assert(escape_spec(s.push(c)) == escape_char_spec(s[0]) + (escape_spec(s.drop_first())
            + escape_char_spec(c)));
        assert(escape_spec(s.push(c)) =~= escape_spec(s) + escape_char_spec(c));
    }
}

/// Escaped text cannot break out of the surrounding markup: no raw `<`,
/// `>` or `"` survives escaping, whatever the input held.
pub proof fn lemma_escape_no_markup(s: Seq<char>, i: int)
    requires
        0 <= i < escape_spec(s).len(),
    ensures
        escape_spec(s)[i] != '<',
        escape_spec(s)[i] != '>',
        escape_spec(s)[i] != '"',
    decreases s.len(),
{
    reveal_strlit("&amp;");
    reveal_strlit("&lt;");
    reveal_strlit("&gt;");
    reveal_strlit("&quot;");
    if s.len() > 0 {
        let head = escape_char_spec(s[0]);
        if i < head.len() {
            assert(escape_spec(s)[i] == head[i]);
        } else {
            lemma_escape_no_markup(s.drop_first(), i - head.len());
            assert(escape_spec(s)[i] == escape_spec(s.drop_first())[i - head.len()]);
        }
    }
}

/// Relies on std's `String::push`: appends exactly the one character.
#[verifier::external_body]
pub(crate) fn push_char(s: &mut String, c: char)
    ensures
        final(s)@ == old(s)@ + seq![c],
{
    s.push(c);
}

/// HTML-escapes a text for interpolation into markup.
pub fn escape_html(s: &str) -> (r: String)
    ensures
        r@ == escape_spec(s@),
{
    let len = s.unicode_len();
    let mut out = String::new();
    let mut i: usize = 0;
    while i < len
        invariant
            len == s@.len(),
            i <= len,
            out@ == escape_spec(s@.take(i as int)),
        decreases len - i,
    {
        let c = s.get_char(i);
        if c == '&' {
            out.append("&amp;");
        } else if c == '<' {
            out.append("&lt;");
        } else if c == '>' {
            out.append("&gt;");
        } else if c == '"' {
            out.append("&quot;");
        } else {
            push_char(&mut out, c);
        }
        proof {
            lemma_escape_push(s@.take(i as int), s@[i as int]);
            assert(s@.take(i + 1) =~= s@.take(i as int).push(s@[i as int]));
        }
        i += 1;
    }
    proof {
        assert(s@.take(len as int) =~= s@);
    }
    out
}

} // verus!

//! Rendering one normalized post as an HTML fragment for an RSS item
//! description.
//!
//! The fragment is built from newline-separated blocks, in this order: the
//! escaped post text as a paragraph (with a compact block-quote for a
//! quote-post inlined right after it), then a block-quote for a repost, then
//! one block per media attachment. Every interpolated text field is
//! HTML-escaped exactly here; URLs are passed through verbatim.
//!
//! Repost chains are unwrapped at most [`MAX_RENDER_DEPTH`] levels deep, so a
//! pathological self-referential payload cannot make rendering run away.

use vstd::prelude::*;

use crate::escape::{escape_html, escape_spec};
use crate::post::{author_label, author_label_spec, MediaItem, MediaKind, NormalizedPost};

verus! {

/// How many levels of repost wrapping are unwrapped while rendering; upstream
/// platforms nest reposts at most one level deep themselves.
pub const MAX_RENDER_DEPTH: u32 = 1;

/// Whitespace for the purpose of deciding that a quoted text is blank.
pub open spec fn is_space(c: char) -> bool {
    c == ' ' || c == '\t' || c == '\n' || c == '\r'
}

/// A text is blank when every character is whitespace.
pub open spec fn is_blank_spec(s: Seq<char>) -> bool {
    forall|i: int| 0 <= i < s.len() ==> is_space(s[i])
}

fn is_blank(s: &str) -> (r: bool)
    ensures
        r == is_blank_spec(s@),
{
    let len = s.unicode_len();
    let mut i: usize = 0;
    while i < len
        invariant
            len == s@.len(),
            i <= len,
            forall|k: int| 0 <= k < i ==> is_space(s@[k]),
        decreases len - i,
    {
        let c = s.get_char(i);
        if !(c == ' ' || c == '\t' || c == '\n' || c == '\r') {
            assert(!is_space(s@[i as int]));
            return false;
        }
        i += 1;
    }
    true
}

/// The link out of a quote block, built from the quoted post's handle and
/// identifier; it points at the Bluesky app, where quote-posts come from.
pub open spec fn quote_link_spec(q: NormalizedPost) -> Seq<char> {
    "<a href=\"https://bsky.app/profile/"@ + q.author_handle@ + "/post/"@ + q.id@
        + "\">view quoted post</a>"@
}

/// The compact block-quote a quote-post is shown as: always the quoted
/// author's name; the quoted text when it is not blank; a link to the quoted
/// post when the source data carries a handle to build it from.
pub open spec fn quote_block_spec(q: NormalizedPost) -> Seq<char> {
    "\n<blockquote>"@ + escape_spec(author_label_spec(q)) + (if !is_blank_spec(
        q.text_html_unsafe@,
    ) {
        ": "@ + escape_spec(q.text_html_unsafe@)
    } else {
        Seq::<char>::empty()
    }) + (if q.author_handle@.len() > 0 {
        " "@ + quote_link_spec(q)
    } else {
        Seq::<char>::empty()
    }) + "</blockquote>"@
}

/// The alt text of an attachment, empty when the source omitted it. An
/// explicitly empty alt text and an absent one render the same way.
pub open spec fn alt_or_empty_spec(m: MediaItem) -> Seq<char> {
    match m.alt_text {
        Some(a) => a@,
        None => Seq::<char>::empty(),
    }
}

/// The fragment one media attachment renders to, given its resolved URL `u`.
/// An image becomes an `img` tag carrying the escaped alt text; a video
/// becomes a thumbnail-wrapped link when a thumbnail exists, followed by a
/// plain textual link either way.
pub open spec fn media_fragment_spec(m: MediaItem, u: Seq<char>) -> Seq<char> {
    match m.kind {
        MediaKind::Image => "<img src=\""@ + u + "\" alt=\""@ + escape_spec(alt_or_empty_spec(m))
            + "\">"@,
        MediaKind::Video => (match m.thumbnail_url {
            Some(t) => "<a href=\""@ + u + "\"><img src=\""@ + t@ + "\"></a>"@ + "\n"@,
            None => Seq::<char>::empty(),
        }) + "<a href=\""@ + u + "\">View video</a>"@,
    }
}

/// What one attachment contributes to the output: its fragment behind a
/// newline separator, or nothing when it has no URL to render.
pub open spec fn media_part_spec(m: MediaItem) -> Seq<char> {
    match m.url {
        Some(u) => "\n"@ + media_fragment_spec(m, u@),
        None => Seq::<char>::empty(),
    }
}

/// The concatenated media blocks, in attachment order.
pub open spec fn media_parts_spec(ms: Seq<MediaItem>) -> Seq<char>
    decreases ms.len(),
{
    if ms.len() == 0 {
        Seq::<char>::empty()
    } else {
        media_part_spec(ms[0]) + media_parts_spec(ms.drop_first())
    }
}

proof fn lemma_media_parts_push(ms: Seq<MediaItem>, m: MediaItem)
    ensures
        media_parts_spec(ms.push(m)) == media_parts_spec(ms) + media_part_spec(m),
    decreases ms.len(),
{
    if ms.len() == 0 {
        assert(ms.push(m).drop_first() =~= Seq::<MediaItem>::empty());
        assert(media_parts_spec(ms.push(m)) == media_part_spec(m) + media_parts_spec(
            Seq::<MediaItem>::empty(),
        ));
        assert(media_parts_spec(ms.push(m)) =~= media_parts_spec(ms) + media_part_spec(m));
    } else {
        assert(ms.push(m)[0] == ms[0]);
        assert(ms.push(m).drop_first() =~= ms.drop_first().push(m));
        lemma_media_parts_push(ms.drop_first(), m);
        assert(media_parts_spec(ms.push(m)) == media_part_spec(ms[0]) + (media_parts_spec(
            ms.drop_first(),
        ) + media_part_spec(m)));
        assert(media_parts_spec(ms.push(m)) =~= media_parts_spec(ms) + media_part_spec(m));
    }
}

/// The leading block of a rendered post: the escaped text as a paragraph,
/// with the quote block (if any) inlined right after it.
pub open spec fn base_block_spec(p: NormalizedPost) -> Seq<char> {
    "<p>"@ + escape_spec(p.text_html_unsafe@) + "</p>"@ + (match p.quoted_post {
        Some(q) => quote_block_spec(*q),
        None => Seq::<char>::empty(),
    })
}

/// The whole rendered fragment of a post at unwrap depth `depth`: the base
/// block, then — while the depth cap allows — the repost shown as the
/// reposted author's name over a block-quote of the reposted post, then the
/// media blocks.
pub open spec fn render_spec(p: NormalizedPost, depth: int) -> Seq<char>
    decreases p,
{
    let base = base_block_spec(p);
    let with_repost = match p.reposted_post {
        Some(b) => if depth < MAX_RENDER_DEPTH as int {
            base + "\n"@ + escape_spec(author_label_spec(*b)) + ":\n<blockquote>"@ + render_spec(
                *b,
                depth + 1,
            ) + "</blockquote>"@
        } else {
            base
        },
        None => base,
    };
    with_repost + media_parts_spec(p.media@)
}

/// A post with no repost, no quote and no media renders to exactly one
/// paragraph holding its escaped text, and nothing else.
pub proof fn lemma_render_plain_post(p: NormalizedPost, depth: int)
    requires
        p.reposted_post is None,
        p.quoted_post is None,
        p.media@.len() == 0,
    ensures
        render_spec(p, depth) == "<p>"@ + escape_spec(p.text_html_unsafe@) + "</p>"@,
{
    assert(render_spec(p, depth) =~= "<p>"@ + escape_spec(p.text_html_unsafe@) + "</p>"@);
}

/// A post with a repost wrapper (and no quote or media) renders to its own
/// base text followed by the reposted author's name over a block-quote
/// holding the reposted post's rendering, in that nesting.
pub proof fn lemma_render_repost(p: NormalizedPost)
    requires
        p.reposted_post is Some,
        p.quoted_post is None,
        p.media@.len() == 0,
    ensures
        render_spec(p, 0) == "<p>"@ + escape_spec(p.text_html_unsafe@) + "</p>"@ + "\n"@
            + escape_spec(author_label_spec(*p.reposted_post->Some_0)) + ":\n<blockquote>"@
            + render_spec(*p.reposted_post->Some_0, 1) + "</blockquote>"@,
{
    let inner = *p.reposted_post->Some_0;
    assert(render_spec(p, 0) =~= "<p>"@ + escape_spec(p.text_html_unsafe@) + "</p>"@ + "\n"@
        + escape_spec(author_label_spec(inner)) + ":\n<blockquote>"@ + render_spec(inner, 1)
        + "</blockquote>"@);
}

/// A post with two image attachments — the first with alt text, the second
/// without — renders to its paragraph followed by two image fragments: the
/// first carries the escaped alt text, the second an empty `alt` value.
pub proof fn lemma_render_two_images(p: NormalizedPost, depth: int)
    requires
        p.reposted_post is None,
        p.quoted_post is None,
        p.media@.len() == 2,
        p.media@[0].url is Some,
        p.media@[1].url is Some,
        p.media@[0].kind == MediaKind::Image,
        p.media@[1].kind == MediaKind::Image,
        p.media@[0].alt_text is Some,
        p.media@[1].alt_text is None,
    ensures
        render_spec(p, depth) == "<p>"@ + escape_spec(p.text_html_unsafe@) + "</p>"@ + "\n"@
            + "<img src=\""@ + p.media@[0].url->Some_0@ + "\" alt=\""@ + escape_spec(
            p.media@[0].alt_text->Some_0@,
        ) + "\">"@ + "\n"@ + "<img src=\""@ + p.media@[1].url->Some_0@ + "\" alt=\""@ + "\">"@,
{
    let ms = p.media@;
    assert(ms.drop_first()[0] == ms[1]);
    assert(ms.drop_first().drop_first() =~= Seq::<MediaItem>::empty());
    assert(media_parts_spec(Seq::<MediaItem>::empty()) == Seq::<char>::empty());
    assert(media_parts_spec(ms.drop_first()) =~= media_part_spec(ms[1]));
    assert(media_parts_spec(ms) =~= media_part_spec(ms[0]) + media_part_spec(ms[1]));
    assert(escape_spec(alt_or_empty_spec(ms[1])) =~= Seq::<char>::empty());
    assert(render_spec(p, depth) =~= "<p>"@ + escape_spec(p.text_html_unsafe@) + "</p>"@ + "\n"@
        + "<img src=\""@ + p.media@[0].url->Some_0@ + "\" alt=\""@ + escape_spec(
        p.media@[0].alt_text->Some_0@,
    ) + "\">"@ + "\n"@ + "<img src=\""@ + p.media@[1].url->Some_0@ + "\" alt=\""@ + "\">"@);
}

fn quote_block(q: &NormalizedPost) -> (r: String)
    ensures
        r@ == quote_block_spec(*q),
{
    let mut out = String::new();
    out.append("\n<blockquote>");
    let lbl = escape_html(author_label(q).as_str());
    out.append(lbl.as_str());
    if !is_blank(q.text_html_unsafe.as_str()) {
        out.append(": ");
        let t = escape_html(q.text_html_unsafe.as_str());
        out.append(t.as_str());
    }
    if q.author_handle.as_str().unicode_len() > 0 {
        out.append(" ");
        out.append("<a href=\"https://bsky.app/profile/");
        out.append(q.author_handle.as_str());
        out.append("/post/");
        out.append(q.id.as_str());
        out.append("\">view quoted post</a>");
    }
    out.append("</blockquote>");
    proof {
        assert(out@ =~= quote_block_spec(*q));
    }
    out
}

fn media_fragment(m: &MediaItem, u: &String) -> (r: String)
    ensures
        r@ == media_fragment_spec(*m, u@),
{
    let mut out = String::new();
    match m.kind {
        MediaKind::Image => {
            out.append("<img src=\"");
            out.append(u.as_str());
            out.append("\" alt=\"");
            let alt = match &m.alt_text {
                Some(a) => escape_html(a.as_str()),
                None => String::new(),
            };
            out.append(alt.as_str());
            out.append("\">");
        },
        MediaKind::Video => {
            if let Some(t) = &m.thumbnail_url {
                out.append("<a href=\"");
                out.append(u.as_str());
                out.append("\"><img src=\"");
                out.append(t.as_str());
                out.append("\"></a>");
                out.append("\n");
            }
            out.append("<a href=\"");
            out.append(u.as_str());
            out.append("\">View video</a>");
        },
    }
    proof {
        assert(out@ =~= media_fragment_spec(*m, u@));
    }
    out
}

/// Renders one post as an HTML fragment, starting at unwrap depth `depth`
/// (callers pass 0).
pub fn render(post: &NormalizedPost, depth: u32) -> (r: String)
    ensures
        r@ == render_spec(*post, depth as int),
    decreases *post,
{
    let mut out = String::new();
    out.append("<p>");
    let esc = escape_html(post.text_html_unsafe.as_str());
    out.append(esc.as_str());
    out.append("</p>");
    if let Some(q) = &post.quoted_post {
        let qb = quote_block(q);
        out.append(qb.as_str());
    }
    proof {
        assert(out@ =~= base_block_spec(*post));
    }
    if depth < MAX_RENDER_DEPTH {
        if let Some(b) = &post.reposted_post {
            out.append("\n");
            let lbl = escape_html(author_label(b).as_str());
            out.append(lbl.as_str());
            out.append(":\n<blockquote>");
            let inner = render(b, depth + 1);
            out.append(inner.as_str());
            out.append("</blockquote>");
        }
    }
    let ghost with_repost = out@;
    proof {
        assert(with_repost =~= match post.reposted_post {
            Some(b) => if (depth as int) < MAX_RENDER_DEPTH as int {
                base_block_spec(*post) + "\n"@ + escape_spec(author_label_spec(*b))
                    + ":\n<blockquote>"@ + render_spec(*b, depth as int + 1) + "</blockquote>"@
            } else {
                base_block_spec(*post)
            },
            None => base_block_spec(*post),
        });
    }
    let mut j: usize = 0;
    while j < post.media.len()
        invariant
            j <= post.media@.len(),
            out@ == with_repost + media_parts_spec(post.media@.take(j as int)),
        decreases post.media@.len() - j,
    {
        let m = &post.media[j];
        if let Some(u) = &m.url {
            out.append("\n");
            let frag = media_fragment(m, u);
            out.append(frag.as_str());
        }
        proof {
            lemma_media_parts_push(post.media@.take(j as int), post.media@[j as int]);
            assert(post.media@.take(j + 1) =~= post.media@.take(j as int).push(
                post.media@[j as int],
            ));
            assert(out@ =~= with_repost + media_parts_spec(post.media@.take(j + 1)));
        }
        j += 1;
    }
    proof {
        assert(post.media@.take(post.media@.len() as int) =~= post.media@);
        assert(out@ =~= render_spec(*post, depth as int));
    }
    out
}

} // verus!

//! The platform-agnostic data model the renderer and assembler consume.
//!
//! The surrounding application normalizes each upstream record (Mastodon or
//! Bluesky) into a [`NormalizedPost`] before handing it to this crate, and is
//! expected to drop records that carry no identifier and to cap the depth of
//! repost/quote chains while normalizing.

use vstd::prelude::*;

verus! {

/// Whether a media attachment is a still image or a playable video.
#[derive(Clone, Copy, Debug, PartialEq, Eq, Structural)]
pub enum MediaKind {
    Image,
    Video,
}

/// One media attachment of a post, in display order.
#[derive(Clone, Debug)]
pub struct MediaItem {
    /// Where the full resource lives; an attachment without one is silently
    /// omitted from the rendered output.
    pub url: Option<String>,
    pub kind: MediaKind,
    /// Alternative text; rendered as an `alt` attribute, empty when absent.
    pub alt_text: Option<String>,
    /// A preview image; a video needs one to render a clickable preview.
    pub thumbnail_url: Option<String>,
}

/// One post of the fetched timeline, normalized across platforms.
pub struct NormalizedPost {
    /// Stable unique identifier, used as the feed item GUID (non-permalink).
    /// Never empty: see [`wf_post`].
    pub id: String,
    /// Display name of the author; the handle stands in when it is empty.
    pub author_display_name: String,
    pub author_handle: String,
    /// Raw platform text. Not pre-escaped: it is HTML-escaped exactly once,
    /// at render time.
    pub text_html_unsafe: String,
    /// Human-facing URL of the post (the canonical URI where none exists).
    pub permalink: String,
    /// Creation time as seconds since the Unix epoch; absent if unparsable,
    /// in which case the feed item omits its publish date.
    pub created_at: Option<i64>,
    /// A repost/boost wraps the re-shared post.
    pub reposted_post: Option<Box<NormalizedPost>>,
    /// A quote-post carries a reference to another post beside its own text.
    pub quoted_post: Option<Box<NormalizedPost>>,
    pub media: Vec<MediaItem>,
}

/// Channel-level feed metadata.
#[derive(Clone, Debug)]
pub struct FeedMetadata {
    pub title: String,
    pub description: String,
    pub channel_link: String,
}

/// A post is well formed when it and every nested post carry a non-empty
/// identifier. Callers drop upstream records that have none.
pub open spec fn wf_post(p: NormalizedPost) -> bool
    decreases p,
{
    &&& p.id@.len() > 0
    &&& match p.reposted_post {
        Some(b) => wf_post(*b),
        None => true,
    }
    &&& match p.quoted_post {
        Some(b) => wf_post(*b),
        None => true,
    }
}

/// The name a post is shown under: the author's display name, or the handle
/// when the display name is empty.
pub open spec fn author_label_spec(p: NormalizedPost) -> Seq<char> {
    if p.author_display_name@.len() == 0 {
        p.author_handle@
    } else {
        p.author_display_name@
    }
}

/// Picks the name a post is shown under (display name, falling back to the
/// handle).
pub fn author_label(p: &NormalizedPost) -> (r: &String)
    ensures
        r@ == author_label_spec(*p),
{
    if p.author_display_name.as_str().unicode_len() == 0 {
        &p.author_handle
    } else {
        &p.author_display_name
    }
}

} // verus!

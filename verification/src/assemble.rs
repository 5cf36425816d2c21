//! Building the RSS 2.0 document from rendered posts.
//!
//! The assembler maps each post to a feed item — GUID from the post id
//! (marked non-permalink), title from the author, description from the
//! rendered HTML, link from the permalink, publish date from the creation
//! time when one is known — and hands the ordered items to the `rss` crate's
//! writer. Input order is preserved exactly; nothing is re-sorted.

use vstd::prelude::*;

use crate::post::{author_label, author_label_spec, wf_post, FeedMetadata, NormalizedPost};
use crate::render::{render, render_spec};
use crate::rfc2822::{format_rfc2822, formattable, rfc2822_spec};

verus! {

/// The report a feed-writer failure would come back as, never a panic. With
/// the in-memory sinks the assembler writes to it does not occur, and
/// [`assemble`] promises success; the `Result` shape stays as the
/// assembler's contract surface.
#[derive(Clone, Copy, Debug, PartialEq, Eq, Structural)]
pub struct ChannelBuildError;

#[verifier::external_type_specification]
#[verifier::external_body]
pub struct ExRssItem(rss::Item);

/// What one feed item holds, as the assembler sees it. `guid_permalink`
/// is the GUID's `isPermaLink` marking; post ids are not permalinks, so
/// every item built here carries `false`.
pub ghost struct ItemModel {
    pub title: Seq<char>,
    pub description: Seq<char>,
    pub link: Seq<char>,
    pub guid: Seq<char>,
    pub guid_permalink: bool,
    pub pub_date: Option<Seq<char>>,
}

/// What an `rss::Item` built by this module holds.
pub uninterp spec fn item_model(i: rss::Item) -> ItemModel;

/// The view of an optional string.
pub open spec fn opt_str_view(o: Option<String>) -> Option<Seq<char>> {
    match o {
        Some(s) => Some(s@),
        None => None,
    }
}

/// Relies on `rss::Item` being a plain record of its fields: the built item
/// carries exactly the given title, description, link, publish date and
/// GUID, the GUID marked non-permalink.
#[verifier::external_body]
fn rss_item_new(
    title: &String,
    description: &String,
    link: &String,
    guid: &String,
    pub_date: &Option<String>,
) -> (r: rss::Item)
    ensures
        item_model(r) == (ItemModel {
            title: title@,
            description: description@,
            link: link@,
            guid: guid@,
            guid_permalink: false,
            pub_date: opt_str_view(*pub_date),
        }),
{
    rss::Item {
        title: Some(title.clone()),
        description: Some(description.clone()),
        link: Some(link.clone()),
        guid: Some(rss::Guid { value: guid.clone(), permalink: false }),
        pub_date: pub_date.clone(),
        ..rss::Item::default()
    }
}

/// The serialized RSS document for the given channel fields and ordered
/// items, as the `rss` crate's writer produces it.
pub uninterp spec fn channel_xml(
    title: Seq<char>,
    description: Seq<char>,
    link: Seq<char>,
    items: Seq<ItemModel>,
) -> Seq<char>;

/// Relies on `rss::Channel`'s writer (`write_to`, and `Display` for the
/// string): serializing is a pure function of the channel's fields, with
/// the items appearing in their given order, and never a panic. The
/// writer's only failures are its sink's I/O errors, and the sinks here —
/// `io::sink` and the `Vec` behind `Display` — cannot fail, so the call
/// succeeds; the error arm stays as the report a fallible sink would get.
#[verifier::external_body]
fn rss_channel_to_xml(
    title: &String,
    description: &String,
    link: &String,
    items: Vec<rss::Item>,
) -> (r: Result<String, ChannelBuildError>)
    ensures
        r is Ok,
        r matches Ok(s) ==> s@ == channel_xml(
            title@,
            description@,
            link@,
            items@.map_values(|it: rss::Item| item_model(it)),
        ),
{
    let channel = rss::Channel {
        title: title.clone(),
        description: description.clone(),
        link: link.clone(),
        items,
        ..rss::Channel::default()
    };
    match channel.write_to(std::io::sink()) {
        Ok(_) => Ok(channel.to_string()),
        Err(_) => Err(ChannelBuildError),
    }
}

/// The feed item one post maps to: GUID from the id, title from the author
/// label, description from the rendering, link from the permalink, publish
/// date from the creation time when it is formattable (omitted otherwise,
/// never defaulted).
pub open spec fn item_model_of_post(p: NormalizedPost) -> ItemModel {
    ItemModel {
        title: author_label_spec(p),
        description: render_spec(p, 0),
        link: p.permalink@,
        guid: p.id@,
        guid_permalink: false,
        pub_date: (match p.created_at {
            Some(t) => if formattable(t as int) {
                Some(rfc2822_spec(t as int))
            } else {
                None
            },
            None => None,
        }),
    }
}

/// The document assembling a timeline produces: the channel metadata and
/// the posts' items, in input order.
pub open spec fn assemble_xml_spec(posts: Seq<NormalizedPost>, meta: FeedMetadata) -> Seq<char> {
    channel_xml(
        meta.title@,
        meta.description@,
        meta.channel_link@,
        posts.map_values(|p: NormalizedPost| item_model_of_post(p)),
    )
}

/// The item sequence of an assembled document is the posts mapped one to
/// one: as long as the input, with the item at each position built from the
/// post at that same position — input order is preserved exactly.
pub proof fn lemma_assemble_preserves_order(posts: Seq<NormalizedPost>, i: int)
    requires
        0 <= i < posts.len(),
    ensures
        posts.map_values(|p: NormalizedPost| item_model_of_post(p)).len() == posts.len(),
        posts.map_values(|p: NormalizedPost| item_model_of_post(p))[i] == item_model_of_post(
            posts[i],
        ),
{
}

/// Builds the RSS 2.0 document for a fetched timeline: one item per post,
/// in input order. It succeeds on every input: the feed writer's only
/// failure mode is its sink's, and the assembler writes to an in-memory
/// one.
pub fn assemble(posts: &Vec<NormalizedPost>, meta: &FeedMetadata) -> (r: Result<
    String,
    ChannelBuildError,
>)
    requires
        forall|i: int| 0 <= i < posts@.len() ==> wf_post(#[trigger] posts@[i]),
    ensures
        r is Ok,
        r matches Ok(s) ==> s@ == assemble_xml_spec(posts@, *meta),
{
    let mut items: Vec<rss::Item> = Vec::new();
    let mut i: usize = 0;
    while i < posts.len()
        invariant
            i <= posts@.len(),
            items@.map_values(|it: rss::Item| item_model(it)) =~= posts@.take(
                i as int,
            ).map_values(|p: NormalizedPost| item_model_of_post(p)),
        decreases posts@.len() - i,
    {
        let p = &posts[i];
        let title = author_label(p).clone();
        let description = render(p, 0);
        let pub_date = match p.created_at {
            Some(t) => format_rfc2822(t),
            None => None,
        };
        let item = rss_item_new(&title, &description, &p.permalink, &p.id, &pub_date);
        proof {
            assert(item_model(item) == item_model_of_post(posts@[i as int]));
        }
        let ghost prev_items = items@;
        items.push(item);
        proof {
            posts@.lemma_map_take_succ(|p: NormalizedPost| item_model_of_post(p), i as int);
            prev_items.lemma_push_map_commute(|it: rss::Item| item_model(it), item);
            assert(items@.map_values(|it: rss::Item| item_model(it)) =~= posts@.take(
                i + 1,
            ).map_values(|p: NormalizedPost| item_model_of_post(p)));
        }
        i += 1;
    }
    proof {
        assert(posts@.take(posts@.len() as int) =~= posts@);
        assert(items@.map_values(|it: rss::Item| item_model(it)) =~= posts@.map_values(
            |p: NormalizedPost| item_model_of_post(p),
        ));
    }
    rss_channel_to_xml(&meta.title, &meta.description, &meta.channel_link, items)
}

} // verus!

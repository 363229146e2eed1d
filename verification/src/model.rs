//! The feed model the renderers read: plain records produced by the external
//! acquisition collaborator and immutable afterwards.

use vstd::prelude::*;

verus! {

/// A single article. Every field is optional; renderers substitute literal
/// fallback text for absent fields. `description` holds the body markup.
#[derive(Clone, Debug)]
pub struct Item {
    pub title: Option<String>,
    pub author: Option<String>,
    pub link: Option<String>,
    pub description: Option<String>,
}

/// A named, ordered collection of items.
#[derive(Clone, Debug)]
pub struct Feed {
    pub title: String,
    pub items: Vec<Item>,
}

/// Mathematical form of an item: text as character sequences.
pub ghost struct ItemS {
    pub title: Option<Seq<char>>,
    pub author: Option<Seq<char>>,
    pub link: Option<Seq<char>>,
    pub description: Option<Seq<char>>,
}

/// Mathematical form of a feed.
pub ghost struct FeedS {
    pub title: Seq<char>,
    pub items: Seq<ItemS>,
}

pub open spec fn opt_view(o: Option<String>) -> Option<Seq<char>> {
    match o {
        Some(s) => Some(s@),
        None => None,
    }
}

impl View for Item {
    type V = ItemS;

    open spec fn view(&self) -> ItemS {
        ItemS {
            title: opt_view(self.title),
            author: opt_view(self.author),
            link: opt_view(self.link),
            description: opt_view(self.description),
        }
    }
}

impl View for Feed {
    type V = FeedS;

    open spec fn view(&self) -> FeedS {
        FeedS { title: self.title@, items: self.items@.map_values(|it: Item| it@) }
    }
}

/// View of a whole feed list.
pub open spec fn feeds_view(feeds: Seq<Feed>) -> Seq<FeedS> {
    feeds.map_values(|f: Feed| f@)
}

/// The collection sizes the navigation state machine clamps against: one
/// entry per feed, holding that feed's item count.
pub fn item_counts(feeds: &Vec<Feed>) -> (counts: Vec<usize>)
    ensures
        counts@.len() == feeds@.len(),
        forall|k: int|
            0 <= k < feeds@.len() ==> counts@[k] == feeds_view(feeds@)[k].items.len(),
{
    let mut counts: Vec<usize> = Vec::new();
    let mut i: usize = 0;
    while i < feeds.len()
        invariant
            i <= feeds@.len(),
            counts@.len() == i,
            forall|k: int|
                0 <= k < i ==> counts@[k] == feeds_view(feeds@)[k].items.len(),
        decreases feeds@.len() - i,
    {
        counts.push(feeds[i].items.len());
        i += 1;
    }
    counts
}

} // verus!

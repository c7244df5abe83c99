//! The feed data that the list states hold: entries of a feed, and the
//! categories of the library with their feed sources.

use vstd::prelude::*;

verus! {

/// One entry (article) of a feed.
pub struct FeedEntry {
    pub title: String,
    pub description: String,
    pub author: String,
    /// Publication time, in seconds since the Unix epoch (UTC).
    pub date: i64,
    pub filepath: String,
    pub seen: bool,
}

impl Clone for FeedEntry {
    fn clone(&self) -> (r: FeedEntry)
        ensures
            r == *self,
    {
        FeedEntry {
            title: self.title.clone(),
            description: self.description.clone(),
            author: self.author.clone(),
            date: self.date,
            filepath: self.filepath.clone(),
            seen: self.seen,
        }
    }
}

/// A feed source as the feed tree lists it.
pub struct FeedSource {
    pub title: String,
    pub slug: String,
}

/// A category of the library and the feed sources filed under it.
pub struct FeedCategory {
    pub title: String,
    pub feeds: Vec<FeedSource>,
}

} // verus!

//! The records: catalogue items, per-anime watch state and watch lists.
use vstd::prelude::*;
use crate::episode::Float;

verus! {

/// A named, archivable grouping of anime ids, in the order they were added.
pub struct WatchList {
    pub title: String,
    pub archived: bool,
    pub animes: Vec<i32>,
}

pub struct Tag {
    pub name: String,
    pub count: i32,
}

pub struct ImageSet {
    pub large: String,
    pub common: String,
    pub medium: String,
    pub small: String,
}

/// Catalogue metadata of a show, as received from the catalogue.
pub struct AnimeItem {
    pub id: i32,
    pub name: String,
    pub name_cn: String,
    pub summary: String,
    pub date: String,
    pub eps: i32,
    pub total_episodes: i32,
    pub images: ImageSet,
    pub tags: Option<Vec<Tag>>,
}

/// The watch state of one show.
pub struct AnimeState {
    pub anime_id: i32,
    pub anime_item: AnimeItem,
    pub favorite: bool,
    pub watched_episodes: Vec<Float>,
    pub visibility: bool,
    pub rating: Option<i32>,
}

/// The lowest and the highest rating a show can be given.
pub const RATING_MIN: i32 = 1;

pub const RATING_MAX: i32 = 10;

/// Whether a rating lies in the accepted range.
pub fn is_valid_rating(rating: i32) -> (r: bool)
    ensures
        r == (RATING_MIN <= rating <= RATING_MAX),
{
    RATING_MIN <= rating && rating <= RATING_MAX
}

impl WatchList {
    /// An empty, unarchived watch list.
    pub fn new(title: &str) -> (r: WatchList)
        ensures
            r.title@ == title@,
            !r.archived,
            r.animes@ == Seq::<i32>::empty(),
    {
        WatchList { title: title.to_owned(), archived: false, animes: Vec::new() }
    }
}

impl AnimeState {
    /// The state a newly inserted show starts in: not a favourite, nothing
    /// watched, visible, unrated.
    pub fn new(anime_item: AnimeItem) -> (r: AnimeState)
        ensures
            r.anime_id == anime_item.id,
            r.anime_item == anime_item,
            !r.favorite,
            r.watched_episodes@ == Seq::<Float>::empty(),
            r.visibility,
            r.rating == None::<i32>,
    {
        AnimeState {
            anime_id: anime_item.id,
            anime_item,
            favorite: false,
            watched_episodes: Vec::new(),
            visibility: true,
            rating: None,
        }
    }
}

} // verus!

//! The payloads of the operations that callers send in.
use vstd::prelude::*;

verus! {

pub struct AnimeWatchListRequest {
    pub anime_id: i32,
    pub watch_list_name: String,
}

pub struct WatchListRequest {
    pub watch_list_name: String,
}

pub struct LogInRequest {
    pub otp: String,
}

pub struct LogOutRequest {
    pub token: String,
}

/// Marks episode `ep` watched or not.
pub struct UpdateEpisodeWatchedStateRequest {
    pub anime_id: i32,
    pub ep: i32,
    pub watched: bool,
}

pub struct UpdateWatchListArchivedRequest {
    pub watch_list_name: String,
    pub archived: bool,
}

pub struct UpdateAnimeVisibilityRequest {
    pub anime_id: i32,
    pub visible: bool,
}

pub struct AnimeIdRequest {
    pub anime_id: i32,
}

pub struct GetAnimeStatesRequest {
    pub anime_ids: Vec<i32>,
}

pub struct PostUpdateAnimeRatingRequest {
    pub anime_id: i32,
    pub rating: i32,
}

} // verus!

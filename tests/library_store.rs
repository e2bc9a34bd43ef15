use kserver::episode::Float;
use kserver::model::{AnimeItem, ImageSet, Tag, WatchList};
use kserver::store::{DbError, Library};

fn item(id: i32) -> AnimeItem {
    AnimeItem {
        id,
        name: format!("show {}", id),
        name_cn: String::new(),
        summary: String::from("a show"),
        date: String::from("2020-01-01"),
        eps: 12,
        total_episodes: 12,
        images: ImageSet {
            large: String::from("l"),
            common: String::from("c"),
            medium: String::from("m"),
            small: String::from("s"),
        },
        tags: Some(vec![Tag { name: String::from("drama"), count: 3 }]),
    }
}

fn library_with(lists: &[&str], members: &[(i32, &str)]) -> Library {
    let mut lib = Library::new();
    for t in lists {
        lib.add_new_watch_list(t).unwrap();
    }
    for (id, t) in members {
        if lib.query_anime_by_id(*id).is_err() {
            lib.insert_anime_item(item(*id)).unwrap();
        }
        lib.add_item_to_watch_list(*id, t);
    }
    lib
}

#[test]
fn removing_last_reference_deletes_state() {
    let mut lib = library_with(&["plan-to-watch"], &[(42, "plan-to-watch")]);
    lib.delete_anime_state_from_watch_list(42, "plan-to-watch");
    assert!(matches!(lib.query_anime_by_id(42), Err(DbError::AnimeNotFound(42))));
    assert!(lib.get_watch_list("plan-to-watch").unwrap().animes.is_empty());
}

#[test]
fn removing_one_of_two_references_keeps_state() {
    let mut lib = library_with(&["plan-to-watch", "watching"], &[(42, "plan-to-watch"), (42, "watching")]);
    lib.delete_anime_state_from_watch_list(42, "plan-to-watch");
    assert_eq!(lib.query_anime_by_id(42).unwrap().anime_id, 42);
    assert!(lib.get_watch_list("plan-to-watch").unwrap().animes.is_empty());
    assert_eq!(lib.get_watch_list("watching").unwrap().animes, vec![42]);
}

#[test]
fn removal_takes_every_copy_from_the_list() {
    let mut lib = library_with(&["a"], &[(7, "a"), (8, "a"), (7, "a")]);
    assert_eq!(lib.get_watch_list("a").unwrap().animes, vec![7, 8, 7]);
    lib.delete_anime_state_from_watch_list(7, "a");
    assert_eq!(lib.get_watch_list("a").unwrap().animes, vec![8]);
    assert!(lib.query_anime_by_id(7).is_err());
    assert!(lib.query_anime_by_id(8).is_ok());
}

#[test]
fn creating_duplicate_watch_list_fails() {
    let mut lib = Library::new();
    assert!(lib.add_new_watch_list("favourites").is_ok());
    assert!(matches!(lib.add_new_watch_list("favourites"), Err(DbError::StorageFailure(_))));
    assert_eq!(lib.get_all_list().len(), 1);
}

#[test]
fn deleting_missing_watch_list_succeeds_without_change() {
    let mut lib = library_with(&["a"], &[(1, "a")]);
    lib.delete_watch_list("nope");
    assert_eq!(lib.get_all_list().len(), 1);
    lib.delete_watch_list("a");
    assert!(lib.get_all_list().is_empty());
    assert!(matches!(lib.get_watch_list("a"), Err(DbError::WatchListNotFound(t)) if t == "a"));
    // the state stays: deleting a list does not purge
    assert!(lib.query_anime_by_id(1).is_ok());
}

#[test]
fn new_watch_list_is_empty_and_unarchived() {
    let w = WatchList::new("later");
    assert_eq!(w.title, "later");
    assert!(!w.archived);
    assert!(w.animes.is_empty());
}

#[test]
fn archive_flag_is_set_on_named_list_only() {
    let mut lib = library_with(&["a", "b"], &[]);
    lib.update_watch_list_archive_state("b", true);
    assert!(!lib.get_watch_list("a").unwrap().archived);
    assert!(lib.get_watch_list("b").unwrap().archived);
}

#[test]
fn inserted_state_starts_fresh() {
    let mut lib = Library::new();
    lib.insert_anime_item(item(5)).unwrap();
    let s = lib.query_anime_by_id(5).unwrap();
    assert_eq!(s.anime_id, 5);
    assert!(!s.favorite);
    assert!(s.visibility);
    assert!(s.watched_episodes.is_empty());
    assert_eq!(s.rating, None);
    assert!(matches!(lib.insert_anime_item(item(5)), Err(DbError::StorageFailure(_))));
}

#[test]
fn missing_anime_is_not_found() {
    let mut lib = Library::new();
    assert!(matches!(lib.query_anime_by_id(3), Err(DbError::AnimeNotFound(3))));
    assert!(matches!(lib.update_episode_watched_state(3, Float::Int(1), true), Err(DbError::AnimeNotFound(3))));
    assert!(matches!(lib.update_anime_visibility(3, false), Err(DbError::AnimeNotFound(3))));
    assert!(matches!(lib.update_anime_rating(3, 5), Err(DbError::AnimeNotFound(3))));
}

#[test]
fn episode_marking_in_store_round_trips() {
    let mut lib = library_with(&["a"], &[(9, "a")]);
    lib.update_episode_watched_state(9, Float::new(35, 10), true).unwrap();
    assert_eq!(lib.query_anime_by_id(9).unwrap().watched_episodes, vec![Float::Half(3)]);
    lib.update_episode_watched_state(9, Float::new(35, 10), false).unwrap();
    assert!(lib.query_anime_by_id(9).unwrap().watched_episodes.is_empty());
}

#[test]
fn visibility_and_rating_updates() {
    let mut lib = library_with(&["a"], &[(9, "a")]);
    lib.update_anime_visibility(9, false).unwrap();
    lib.update_anime_rating(9, 8).unwrap();
    let s = lib.query_anime_by_id(9).unwrap();
    assert!(!s.visibility);
    assert_eq!(s.rating, Some(8));
    assert!(matches!(lib.update_anime_rating(9, 11), Err(DbError::InvalidRating(11))));
    assert!(matches!(lib.update_anime_rating(9, 0), Err(DbError::InvalidRating(0))));
    assert_eq!(lib.query_anime_by_id(9).unwrap().rating, Some(8));
}

#[test]
fn batch_query_skips_unknown_ids() {
    let lib = library_with(&["a"], &[(1, "a"), (2, "a"), (3, "a")]);
    let got: Vec<i32> = lib.query_anime_states_by_ids(&vec![3, 1, 99]).iter().map(|s| s.anime_id).collect();
    assert_eq!(got, vec![1, 3]);
    assert_eq!(lib.query_all_animes().len(), 3);
}

#[test]
fn referenced_follows_membership() {
    let mut lib = library_with(&["a"], &[(1, "a")]);
    assert!(lib.is_referenced(1));
    assert!(!lib.is_referenced(2));
    lib.remove_item_from_watch_list(1, "a");
    assert!(!lib.is_referenced(1));
    assert!(lib.query_anime_by_id(1).is_ok());
}

//! The stores of anime states and watch lists, and the consistency rule that
//! ties them: a state is kept only while some watch list names its anime.
use vstd::prelude::*;
use crate::episode::{Float, distinct_marks, toggled, set_episode_watched};
use crate::model::{AnimeItem, AnimeState, WatchList, RATING_MIN, RATING_MAX, is_valid_rating};

verus! {

/// Why a store operation failed.
#[derive(Debug)]
pub enum DbError {
    AnimeNotFound(i32),
    EpisodeNotFound(i32),
    StorageFailure(String),
    WatchListNotFound(String),
    InvalidRating(i32),
}

/// Some stored state is that of anime `id`.
pub open spec fn id_stored(states: Seq<AnimeState>, id: i32) -> bool {
    exists|i: int| 0 <= i < states.len() && #[trigger] states[i].anime_id == id
}

/// Some watch list has the title `t`.
pub open spec fn title_taken(lists: Seq<WatchList>, t: Seq<char>) -> bool {
    exists|i: int| 0 <= i < lists.len() && #[trigger] lists[i].title@ == t
}

/// Some watch list names anime `id`.
pub open spec fn referenced(lists: Seq<WatchList>, id: i32) -> bool {
    exists|i: int| 0 <= i < lists.len() && #[trigger] lists[i].animes@.contains(id)
}

/// The ids with every copy of `x` taken out, the rest in order.
pub open spec fn ids_without(s: Seq<i32>, x: i32) -> Seq<i32>
    decreases s.len(),
{
    if s.len() == 0 {
        s
    } else if s.last() == x {
        ids_without(s.drop_last(), x)
    } else {
        ids_without(s.drop_last(), x).push(s.last())
    }
}

/// `new` is `old` with only the id sequences changed, each to `edit` of the
/// old one where the title is `t`.
pub open spec fn lists_edited(
    old: Seq<WatchList>,
    new: Seq<WatchList>,
    t: Seq<char>,
    edit: spec_fn(Seq<i32>) -> Seq<i32>,
) -> bool {
    &&& new.len() == old.len()
    &&& forall|k: int|
        0 <= k < old.len() ==> {
            &&& #[trigger] new[k].title == old[k].title
            &&& new[k].archived == old[k].archived
            &&& new[k].animes@ == if old[k].title@ == t {
                edit(old[k].animes@)
            } else {
                old[k].animes@
            }
        }
}

/// The watch lists after removing anime `id` from the list titled `t`.
pub open spec fn lists_after_removal(
    old: Seq<WatchList>,
    new: Seq<WatchList>,
    id: i32,
    t: Seq<char>,
) -> bool {
    lists_edited(old, new, t, |s: Seq<i32>| ids_without(s, id))
}

/// A state as a newly inserted item starts: not a favourite, nothing
/// watched, visible, unrated.
pub open spec fn fresh_state(s: AnimeState, item: AnimeItem) -> bool {
    &&& s.anime_id == item.id
    &&& s.anime_item == item
    &&& !s.favorite
    &&& s.watched_episodes@ == Seq::<Float>::empty()
    &&& s.visibility
    &&& s.rating == None::<i32>
}

/// `new` is `old` with the state of anime `id` changed as `edit` says and
/// every other state left as it was.
pub open spec fn states_edited(
    old: Seq<AnimeState>,
    new: Seq<AnimeState>,
    id: i32,
    edit: spec_fn(AnimeState, AnimeState) -> bool,
) -> bool {
    &&& new.len() == old.len()
    &&& forall|k: int|
        0 <= k < old.len() ==> {
            &&& (#[trigger] new[k]).anime_id == old[k].anime_id
            &&& if old[k].anime_id == id {
                edit(old[k], new[k])
            } else {
                new[k] == old[k]
            }
        }
}

/// `b` is `a` with nothing but the watched set changed.
pub open spec fn same_but_episodes(a: AnimeState, b: AnimeState) -> bool {
    &&& b.anime_id == a.anime_id
    &&& b.anime_item == a.anime_item
    &&& b.favorite == a.favorite
    &&& b.visibility == a.visibility
    &&& b.rating == a.rating
}

pub open spec fn is_anime_not_found<T>(r: Result<T, DbError>, id: i32) -> bool {
    match r {
        Err(DbError::AnimeNotFound(e)) => e == id,
        _ => false,
    }
}

pub open spec fn is_watch_list_not_found<T>(r: Result<T, DbError>, t: Seq<char>) -> bool {
    match r {
        Err(DbError::WatchListNotFound(e)) => e@ == t,
        _ => false,
    }
}

pub open spec fn is_invalid_rating<T>(r: Result<T, DbError>, rating: i32) -> bool {
    match r {
        Err(DbError::InvalidRating(v)) => v == rating,
        _ => false,
    }
}

pub open spec fn is_storage_failure<T>(r: Result<T, DbError>) -> bool {
    r matches Err(DbError::StorageFailure(_))
}

/// `b` is `a` with the visibility set to `v`.
pub open spec fn visibility_set(a: AnimeState, b: AnimeState, v: bool) -> bool {
    &&& b.anime_id == a.anime_id
    &&& b.anime_item == a.anime_item
    &&& b.favorite == a.favorite
    &&& b.watched_episodes == a.watched_episodes
    &&& b.visibility == v
    &&& b.rating == a.rating
}

/// `b` is `a` with the rating set to `rating`.
pub open spec fn rating_set(a: AnimeState, b: AnimeState, rating: i32) -> bool {
    &&& b.anime_id == a.anime_id
    &&& b.anime_item == a.anime_item
    &&& b.favorite == a.favorite
    &&& b.watched_episodes == a.watched_episodes
    &&& b.visibility == a.visibility
    &&& b.rating == Some(rating)
}

/// The states, in stored order, whose anime id is among `ids`.
pub open spec fn states_with_ids(states: Seq<AnimeState>, ids: Seq<i32>) -> Seq<AnimeState>
    decreases states.len(),
{
    if states.len() == 0 {
        states
    } else if ids.contains(states.last().anime_id) {
        states_with_ids(states.drop_last(), ids).push(states.last())
    } else {
        states_with_ids(states.drop_last(), ids)
    }
}

/// The ids with every copy of `x` taken out.
pub fn remove_id(v: &Vec<i32>, x: i32) -> (r: Vec<i32>)
    ensures
        r@ == ids_without(v@, x),
{
    let mut kept: Vec<i32> = Vec::new();
    let mut i: usize = 0;
    while i < v.len()
        invariant
            i <= v@.len(),
            kept@ == ids_without(v@.subrange(0, i as int), x),
        decreases v@.len() - i,
    {
        proof {
            assert(v@.subrange(0, i + 1).drop_last() =~= v@.subrange(0, i as int));
        }
        if v[i] != x {
            kept.push(v[i]);
        }
        i = i + 1;
    }
    proof {
        assert(v@.subrange(0, v@.len() as int) =~= v@);
    }
    kept
}

/// No copy of `x` is left once it has been taken out.
pub proof fn lemma_ids_without_excludes(s: Seq<i32>, x: i32)
    ensures
        !ids_without(s, x).contains(x),
    decreases s.len(),
{
    if s.len() > 0 {
        lemma_ids_without_excludes(s.drop_last(), x);
        let p = ids_without(s.drop_last(), x);
        if s.last() != x {
            assert forall|k: int| 0 <= k < p.len() + 1 implies p.push(s.last())[k] != x by {
                if k < p.len() {
                    assert(p.push(s.last())[k] == p[k]);
                }
            }
        }
    }
}

/// What removing anime `id` from the list titled `t` leaves: the id is gone
/// from that list, and the anime's state is gone too exactly when no list
/// names the anime any more; every other state stays.
pub open spec fn removal_outcome(
    old_lists: Seq<WatchList>,
    old_states: Seq<AnimeState>,
    new_lists: Seq<WatchList>,
    new_states: Seq<AnimeState>,
    id: i32,
    t: Seq<char>,
) -> bool {
    &&& lists_after_removal(old_lists, new_lists, id, t)
    &&& referenced(new_lists, id) ==> new_states == old_states
    &&& !referenced(new_lists, id) ==> !id_stored(new_states, id)
    &&& forall|s: AnimeState|
        new_states.contains(s) <==> old_states.contains(s) && (s.anime_id != id || referenced(
            new_lists,
            id,
        ))
}

/// Removing an anime from the only list that names it deletes its state.
pub proof fn lemma_last_reference_purges_state(
    old_lists: Seq<WatchList>,
    old_states: Seq<AnimeState>,
    new_lists: Seq<WatchList>,
    new_states: Seq<AnimeState>,
    id: i32,
    t: Seq<char>,
)
    requires
        removal_outcome(old_lists, old_states, new_lists, new_states, id, t),
        forall|k: int| 0 <= k < old_lists.len() && #[trigger] old_lists[k].title@ != t
            ==> !old_lists[k].animes@.contains(id),
    ensures
        !id_stored(new_states, id),
{
    assert forall|k: int| 0 <= k < new_lists.len() implies !(#[trigger] new_lists[k].animes@.contains(id)) by {
        assert(new_lists[k].title == old_lists[k].title);
        if old_lists[k].title@ == t {
            lemma_ids_without_excludes(old_lists[k].animes@, id);
        }
    }
}

/// Removing an anime from one list keeps its state while another list still
/// names it.
pub proof fn lemma_other_reference_keeps_state(
    old_lists: Seq<WatchList>,
    old_states: Seq<AnimeState>,
    new_lists: Seq<WatchList>,
    new_states: Seq<AnimeState>,
    id: i32,
    t: Seq<char>,
)
    requires
        removal_outcome(old_lists, old_states, new_lists, new_states, id, t),
        id_stored(old_states, id),
        exists|k: int| 0 <= k < old_lists.len() && #[trigger] old_lists[k].title@ != t
            && old_lists[k].animes@.contains(id),
    ensures
        id_stored(new_states, id),
{
    let k = choose|k: int| 0 <= k < old_lists.len() && #[trigger] old_lists[k].title@ != t
        && old_lists[k].animes@.contains(id);
    assert(new_lists[k].title == old_lists[k].title);
    assert(new_lists[k].animes@ == old_lists[k].animes@);
    assert(referenced(new_lists, id));
}

/// Once a list titled `t` has been created, `t` is taken, so creating a
/// second list of that title fails.
pub proof fn lemma_created_title_taken(old_lists: Seq<WatchList>, new_lists: Seq<WatchList>, t: Seq<char>)
    requires
        new_lists.len() == old_lists.len() + 1,
        new_lists.drop_last() == old_lists,
        new_lists.last().title@ == t,
    ensures
        title_taken(new_lists, t),
{
    assert(new_lists[new_lists.len() - 1].title@ == t);
}

/// Whether `x` is among the ids.
pub fn contains_id(ids: &Vec<i32>, x: i32) -> (r: bool)
    ensures
        r == ids@.contains(x),
{
    let mut i: usize = 0;
    while i < ids.len()
        invariant
            i <= ids@.len(),
            forall|k: int| 0 <= k < i ==> ids@[k] != x,
        decreases ids@.len() - i,
    {
        if ids[i] == x {
            proof {
                assert(ids@[i as int] == x);
            }
            return true;
        }
        i = i + 1;
    }
    false
}

/// The anime states and watch lists of one user.
pub struct Library {
    pub states: Vec<AnimeState>,
    pub lists: Vec<WatchList>,
}

impl Library {
    /// No two states share an anime id, no two lists share a title, and no
    /// watched set holds a mark twice.
    pub open spec fn wf(&self) -> bool {
        &&& forall|i: int, j: int|
            0 <= i < self.states@.len() && 0 <= j < self.states@.len() && i != j
                ==> #[trigger] self.states@[i].anime_id != #[trigger] self.states@[j].anime_id
        &&& forall|i: int, j: int|
            0 <= i < self.lists@.len() && 0 <= j < self.lists@.len() && i != j
                ==> #[trigger] self.lists@[i].title@ != #[trigger] self.lists@[j].title@
        &&& forall|i: int|
            0 <= i < self.states@.len() ==> distinct_marks(
                #[trigger] self.states@[i].watched_episodes@,
            )
    }

    /// An empty library.
    pub fn new() -> (r: Library)
        ensures
            r.wf(),
            r.states@.len() == 0,
            r.lists@.len() == 0,
    {
        Library { states: Vec::new(), lists: Vec::new() }
    }

    /// The position of the state of anime `id`, if one is stored.
    fn find_state(&self, id: i32) -> (r: Option<usize>)
        ensures
            match r {
                Some(i) => i < self.states@.len() && self.states@[i as int].anime_id == id,
                None => !id_stored(self.states@, id),
            },
    {
        let mut i: usize = 0;
        while i < self.states.len()
            invariant
                i <= self.states@.len(),
                forall|k: int| 0 <= k < i ==> self.states@[k].anime_id != id,
            decreases self.states@.len() - i,
        {
            if self.states[i].anime_id == id {
                return Some(i);
            }
            i = i + 1;
        }
        None
    }

    /// The position of the list titled `t`, if there is one.
    fn find_list(&self, t: &String) -> (r: Option<usize>)
        ensures
            match r {
                Some(i) => i < self.lists@.len() && self.lists@[i as int].title@ == t@,
                None => !title_taken(self.lists@, t@),
            },
    {
        let mut i: usize = 0;
        while i < self.lists.len()
            invariant
                i <= self.lists@.len(),
                forall|k: int| 0 <= k < i ==> self.lists@[k].title@ != t@,
            decreases self.lists@.len() - i,
        {
            if self.lists[i].title == *t {
                return Some(i);
            }
            i = i + 1;
        }
        None
    }

    /// Whether some watch list names anime `id`.
    pub fn is_referenced(&self, id: i32) -> (r: bool)
        ensures
            r == referenced(self.lists@, id),
    {
        let mut i: usize = 0;
        while i < self.lists.len()
            invariant
                i <= self.lists@.len(),
                forall|k: int| 0 <= k < i ==> !self.lists@[k].animes@.contains(id),
            decreases self.lists@.len() - i,
        {
            let animes = &self.lists[i].animes;
            let mut j: usize = 0;
            while j < animes.len()
                invariant
                    j <= animes@.len(),
                    i < self.lists@.len(),
                    animes@ == self.lists@[i as int].animes@,
                    forall|m: int| 0 <= m < j ==> animes@[m] != id,
                decreases animes@.len() - j,
            {
                if animes[j] == id {
                    proof {
                        assert(self.lists@[i as int].animes@[j as int] == id);
                        assert(self.lists@[i as int].animes@.contains(id));
                    }
                    return true;
                }
                j = j + 1;
            }
            i = i + 1;
        }
        false
    }

    /// The state of anime `id`.
    pub fn query_anime_by_id(&self, id: i32) -> (r: Result<&AnimeState, DbError>)
        ensures
            id_stored(self.states@, id) <==> r.is_ok(),
            r.is_err() ==> is_anime_not_found(r, id),
            r matches Ok(s) ==> self.states@.contains(*s) && s.anime_id == id,
    {
        match self.find_state(id) {
            Some(i) => Ok(&self.states[i]),
            None => Err(DbError::AnimeNotFound(id)),
        }
    }

    /// Appends anime `id` to the list titled `title`. Nothing changes when no
    /// list has that title; an id already present is appended again.
    pub fn add_item_to_watch_list(&mut self, id: i32, title: &str)
        requires
            old(self).wf(),
        ensures
            final(self).wf(),
            final(self).states@ == old(self).states@,
            lists_edited(old(self).lists@, final(self).lists@, title@, |s: Seq<i32>| s.push(id)),
    {
        let t = title.to_owned();
        let ghost pre = self.lists@;
        match self.find_list(&t) {
            None => {},
            Some(i) => {
                let mut l = self.lists.remove(i);
                l.animes.push(id);
                self.lists.insert(i, l);
                proof {
                    assert(self.lists@ =~= pre.update(i as int, l));
                }
            },
        }
    }

    /// Removes every copy of anime `id` from the list titled `title`.
    /// Nothing changes when no list has that title.
    pub fn remove_item_from_watch_list(&mut self, id: i32, title: &str)
        requires
            old(self).wf(),
        ensures
            final(self).wf(),
            final(self).states@ == old(self).states@,
            lists_after_removal(old(self).lists@, final(self).lists@, id, title@),
    {
        let t = title.to_owned();
        let ghost pre = self.lists@;
        match self.find_list(&t) {
            None => {},
            Some(i) => {
                let mut l = self.lists.remove(i);
                l.animes = remove_id(&l.animes, id);
                self.lists.insert(i, l);
                proof {
                    assert(self.lists@ =~= pre.update(i as int, l));
                }
            },
        }
    }

    /// Sets the archived flag of the list titled `title`. Nothing changes when
    /// no list has that title.
    pub fn update_watch_list_archive_state(&mut self, title: &str, archived: bool)
        requires
            old(self).wf(),
        ensures
            final(self).wf(),
            final(self).states@ == old(self).states@,
            final(self).lists@.len() == old(self).lists@.len(),
            forall|k: int|
                0 <= k < old(self).lists@.len() ==> {
                    &&& #[trigger] final(self).lists@[k].title == old(self).lists@[k].title
                    &&& final(self).lists@[k].animes == old(self).lists@[k].animes
                    &&& final(self).lists@[k].archived == if old(self).lists@[k].title@ == title@ {
                        archived
                    } else {
                        old(self).lists@[k].archived
                    }
                },
    {
        let t = title.to_owned();
        let ghost pre = self.lists@;
        match self.find_list(&t) {
            None => {},
            Some(i) => {
                let mut l = self.lists.remove(i);
                l.archived = archived;
                self.lists.insert(i, l);
                proof {
                    assert(self.lists@ =~= pre.update(i as int, l));
                }
            },
        }
    }

    /// All watch lists.
    pub fn get_all_list(&self) -> (r: &Vec<WatchList>)
        ensures
            r@ == self.lists@,
    {
        &self.lists
    }

    /// All anime states.
    pub fn query_all_animes(&self) -> (r: &Vec<AnimeState>)
        ensures
            r@ == self.states@,
    {
        &self.states
    }

    /// The list titled `title`.
    pub fn get_watch_list(&self, title: &str) -> (r: Result<&WatchList, DbError>)
        ensures
            title_taken(self.lists@, title@) <==> r.is_ok(),
            r.is_err() ==> is_watch_list_not_found(r, title@),
            r matches Ok(l) ==> self.lists@.contains(*l) && l.title@ == title@,
    {
        let t = title.to_owned();
        match self.find_list(&t) {
            Some(i) => Ok(&self.lists[i]),
            None => Err(DbError::WatchListNotFound(t)),
        }
    }

    /// Creates an empty, unarchived list titled `title`. It fails, changing
    /// nothing, when a list of that title exists.
    pub fn add_new_watch_list(&mut self, title: &str) -> (r: Result<(), DbError>)
        requires
            old(self).wf(),
        ensures
            final(self).wf(),
            final(self).states@ == old(self).states@,
            r.is_ok() <==> !title_taken(old(self).lists@, title@),
            r.is_err() ==> is_storage_failure(r) && final(self).lists@ == old(self).lists@,
            r.is_ok() ==> final(self).lists@.len() == old(self).lists@.len() + 1
                && final(self).lists@.drop_last() == old(self).lists@
                && final(self).lists@.last().title@ == title@
                && !final(self).lists@.last().archived
                && final(self).lists@.last().animes@ == Seq::<i32>::empty(),
    {
        let t = title.to_owned();
        if self.find_list(&t).is_some() {
            return Err(DbError::StorageFailure("duplicate key value violates unique constraint".to_owned()));
        }
        let ghost pre = self.lists@;
        self.lists.push(WatchList::new(title));
        proof {
            assert(self.lists@.drop_last() =~= pre);
            assert forall|i: int, j: int|
                0 <= i < self.lists@.len() && 0 <= j < self.lists@.len() && i != j
                    implies #[trigger] self.lists@[i].title@ != #[trigger] self.lists@[j].title@ by {
                if i == pre.len() {
                    assert(pre[j].title@ == self.lists@[j].title@);
                } else if j == pre.len() {
                    assert(pre[i].title@ == self.lists@[i].title@);
                }
            }
        }
        Ok(())
    }

    /// Deletes the list titled `title`; deleting one that does not exist
    /// succeeds and changes nothing. The states it named stay.
    pub fn delete_watch_list(&mut self, title: &str)
        requires
            old(self).wf(),
        ensures
            final(self).wf(),
            final(self).states@ == old(self).states@,
            !title_taken(old(self).lists@, title@) ==> final(self).lists@ == old(self).lists@,
            title_taken(old(self).lists@, title@) ==> exists|i: int|
                0 <= i < old(self).lists@.len() && #[trigger] old(self).lists@[i].title@ == title@
                    && final(self).lists@ == old(self).lists@.remove(i),
    {
        let t = title.to_owned();
        let ghost pre = self.lists@;
        match self.find_list(&t) {
            None => {},
            Some(i) => {
                self.lists.remove(i);
                proof {
                    assert(pre[i as int].title@ == title@);
                    assert forall|a: int, b: int|
                        0 <= a < self.lists@.len() && 0 <= b < self.lists@.len() && a != b
                            implies #[trigger] self.lists@[a].title@ != #[trigger] self.lists@[b].title@ by {
                        let pa = if a < i { a } else { a + 1 };
                        let pb = if b < i { b } else { b + 1 };
                        assert(self.lists@[a] == pre[pa]);
                        assert(self.lists@[b] == pre[pb]);
                    }
                }
            },
        }
    }

    /// Deletes the state of anime `id`, if one is stored.
    fn delete_state(&mut self, id: i32)
        requires
            old(self).wf(),
        ensures
            final(self).wf(),
            final(self).lists@ == old(self).lists@,
            !id_stored(final(self).states@, id),
            forall|s: AnimeState|
                final(self).states@.contains(s) <==> old(self).states@.contains(s) && s.anime_id != id,
    {
        let ghost pre = self.states@;
        match self.find_state(id) {
            None => {
                assert forall|s: AnimeState| pre.contains(s) implies s.anime_id != id by {
                    let k = choose|k: int| 0 <= k < pre.len() && pre[k] == s;
                    assert(pre[k].anime_id == s.anime_id);
                }
            },
            Some(i) => {
                self.states.remove(i);
                proof {
                    let post = self.states@;
                    assert(post == pre.remove(i as int));
                    assert forall|a: int, b: int|
                        0 <= a < post.len() && 0 <= b < post.len() && a != b
                            implies #[trigger] post[a].anime_id != #[trigger] post[b].anime_id by {
                        let pa = if a < i { a } else { a + 1 };
                        let pb = if b < i { b } else { b + 1 };
                        assert(post[a] == pre[pa]);
                        assert(post[b] == pre[pb]);
                    }
                    assert forall|a: int| 0 <= a < post.len() implies distinct_marks(
                        #[trigger] post[a].watched_episodes@,
                    ) by {
                        let pa = if a < i { a } else { a + 1 };
                        assert(post[a] == pre[pa]);
                    }
                    assert forall|k: int| 0 <= k < post.len() implies post[k].anime_id != id by {
                        let pk = if k < i { k } else { k + 1 };
                        assert(post[k] == pre[pk]);
                    }
                    assert forall|s: AnimeState|
                        post.contains(s) <==> pre.contains(s) && s.anime_id != id by {
                        if post.contains(s) {
                            let k = choose|k: int| 0 <= k < post.len() && post[k] == s;
                            let pk = if k < i { k } else { k + 1 };
                            assert(post[k] == pre[pk]);
                        }
                        if pre.contains(s) && s.anime_id != id {
                            let k = choose|k: int| 0 <= k < pre.len() && pre[k] == s;
                            assert(k != i);
                            if k < i {
                                assert(post[k] == s);
                            } else {
                                assert(post[k - 1] == s);
                            }
                        }
                    }
                }
            },
        }
    }

    /// Removes anime `id` from the list titled `title`, then deletes the
    /// anime's state when no list names it any more. The two steps are not
    /// atomic against other writers of the same stores.
    pub fn delete_anime_state_from_watch_list(&mut self, id: i32, title: &str)
        requires
            old(self).wf(),
        ensures
            final(self).wf(),
            removal_outcome(
                old(self).lists@,
                old(self).states@,
                final(self).lists@,
                final(self).states@,
                id,
                title@,
            ),
    {
        self.remove_item_from_watch_list(id, title);
        if !self.is_referenced(id) {
            self.delete_state(id);
        }
    }

    /// Marks episode `mark` of anime `id` watched or unwatched. It fails with
    /// `AnimeNotFound`, changing nothing, when no state of that anime is stored.
    pub fn update_episode_watched_state(&mut self, id: i32, mark: Float, watched: bool) -> (r:
        Result<(), DbError>)
        requires
            old(self).wf(),
        ensures
            final(self).wf(),
            final(self).lists@ == old(self).lists@,
            r.is_ok() <==> id_stored(old(self).states@, id),
            r.is_err() ==> is_anime_not_found(r, id) && final(self).states@ == old(self).states@,
            r.is_ok() ==> states_edited(
                old(self).states@,
                final(self).states@,
                id,
                |a: AnimeState, b: AnimeState|
                    same_but_episodes(a, b) && b.watched_episodes@.to_set() == toggled(
                        a.watched_episodes@.to_set(),
                        mark,
                        watched,
                    ),
            ),
    {
        let ghost pre = self.states@;
        match self.find_state(id) {
            None => Err(DbError::AnimeNotFound(id)),
            Some(i) => {
                let mut st = self.states.remove(i);
                proof {
                    assert(st == pre[i as int]);
                }
                set_episode_watched(&mut st.watched_episodes, mark, watched);
                self.states.insert(i, st);
                proof {
                    let post = self.states@;
                    assert(post =~= pre.update(i as int, st));
                    assert forall|k: int| 0 <= k < pre.len() && k != i implies pre[k].anime_id
                        != id by {
                        assert(pre[k].anime_id != pre[i as int].anime_id);
                    }
                    assert forall|a: int, b: int|
                        0 <= a < post.len() && 0 <= b < post.len() && a != b
                            implies #[trigger] post[a].anime_id != #[trigger] post[b].anime_id by {
                        assert(pre[a].anime_id == post[a].anime_id);
                        assert(pre[b].anime_id == post[b].anime_id);
                    }
                    assert forall|a: int| 0 <= a < post.len() implies distinct_marks(
                        #[trigger] post[a].watched_episodes@,
                    ) by {
                        if a != i {
                            assert(post[a] == pre[a]);
                        }
                    }
                }
                Ok(())
            },
        }
    }

    /// Sets the visibility of anime `id`. It fails with `AnimeNotFound`,
    /// changing nothing, when no state of that anime is stored.
    pub fn update_anime_visibility(&mut self, id: i32, visible: bool) -> (r: Result<(), DbError>)
        requires
            old(self).wf(),
        ensures
            final(self).wf(),
            final(self).lists@ == old(self).lists@,
            r.is_ok() <==> id_stored(old(self).states@, id),
            r.is_err() ==> is_anime_not_found(r, id) && final(self).states@ == old(self).states@,
            r.is_ok() ==> states_edited(
                old(self).states@,
                final(self).states@,
                id,
                |a: AnimeState, b: AnimeState| visibility_set(a, b, visible),
            ),
    {
        let ghost pre = self.states@;
        match self.find_state(id) {
            None => Err(DbError::AnimeNotFound(id)),
            Some(i) => {
                let mut st = self.states.remove(i);
                st.visibility = visible;
                self.states.insert(i, st);
                proof {
                    self.lemma_single_edit(pre, i as int, id);
                }
                Ok(())
            },
        }
    }

    /// Rates anime `id`. A rating outside 1..=10 fails with `InvalidRating`;
    /// an anime with no stored state fails with `AnimeNotFound`; either way
    /// nothing changes.
    pub fn update_anime_rating(&mut self, id: i32, rating: i32) -> (r: Result<(), DbError>)
        requires
            old(self).wf(),
        ensures
            final(self).wf(),
            final(self).lists@ == old(self).lists@,
            r.is_ok() <==> RATING_MIN <= rating <= RATING_MAX && id_stored(old(self).states@, id),
            !(RATING_MIN <= rating <= RATING_MAX) ==> is_invalid_rating(r, rating),
            RATING_MIN <= rating <= RATING_MAX && !id_stored(old(self).states@, id)
                ==> is_anime_not_found(r, id),
            r.is_err() ==> final(self).states@ == old(self).states@,
            r.is_ok() ==> states_edited(
                old(self).states@,
                final(self).states@,
                id,
                |a: AnimeState, b: AnimeState| rating_set(a, b, rating),
            ),
    {
        if !is_valid_rating(rating) {
            return Err(DbError::InvalidRating(rating));
        }
        let ghost pre = self.states@;
        match self.find_state(id) {
            None => Err(DbError::AnimeNotFound(id)),
            Some(i) => {
                let mut st = self.states.remove(i);
                st.rating = Some(rating);
                self.states.insert(i, st);
                proof {
                    self.lemma_single_edit(pre, i as int, id);
                }
                Ok(())
            },
        }
    }

    /// After one state, that of anime `id` at position `i`, was replaced by
    /// one with the same id and watched set, the ids stay unique, the watched
    /// sets distinct, and no other state changed.
    proof fn lemma_single_edit(&self, pre: Seq<AnimeState>, i: int, id: i32)
        requires
            0 <= i < pre.len(),
            pre[i].anime_id == id,
            self.states@.len() == pre.len(),
            self.states@[i].anime_id == id,
            self.states@[i].watched_episodes == pre[i].watched_episodes,
            forall|k: int| 0 <= k < pre.len() && k != i ==> self.states@[k] == pre[k],
            forall|a: int, b: int|
                0 <= a < pre.len() && 0 <= b < pre.len() && a != b
                    ==> #[trigger] pre[a].anime_id != #[trigger] pre[b].anime_id,
            forall|a: int| 0 <= a < pre.len() ==> distinct_marks(#[trigger] pre[a].watched_episodes@),
            forall|a: int, b: int|
                0 <= a < self.lists@.len() && 0 <= b < self.lists@.len() && a != b
                    ==> #[trigger] self.lists@[a].title@ != #[trigger] self.lists@[b].title@,
        ensures
            self.wf(),
            forall|k: int| 0 <= k < pre.len() && k != i ==> pre[k].anime_id != id,
    {
        let post = self.states@;
        assert forall|k: int| 0 <= k < pre.len() && k != i implies pre[k].anime_id != id by {
            assert(pre[k].anime_id != pre[i].anime_id);
        }
        assert forall|a: int, b: int|
            0 <= a < post.len() && 0 <= b < post.len() && a != b
                implies #[trigger] post[a].anime_id != #[trigger] post[b].anime_id by {
            assert(pre[a].anime_id == post[a].anime_id);
            assert(pre[b].anime_id == post[b].anime_id);
        }
        assert forall|a: int| 0 <= a < post.len() implies distinct_marks(
            #[trigger] post[a].watched_episodes@,
        ) by {
            if a != i {
                assert(post[a] == pre[a]);
            }
        }
    }

    /// The stored states whose anime id is among `ids`, in stored order; ids
    /// with no stored state are passed over.
    pub fn query_anime_states_by_ids(&self, ids: &Vec<i32>) -> (r: Vec<&AnimeState>)
        ensures
            r@.map_values(|s: &AnimeState| *s) == states_with_ids(self.states@, ids@),
    {
        let mut out: Vec<&AnimeState> = Vec::new();
        let mut i: usize = 0;
        while i < self.states.len()
            invariant
                i <= self.states@.len(),
                out@.map_values(|s: &AnimeState| *s) == states_with_ids(
                    self.states@.subrange(0, i as int),
                    ids@,
                ),
            decreases self.states@.len() - i,
        {
            let ghost prefix = self.states@.subrange(0, i as int);
            proof {
                assert(self.states@.subrange(0, i + 1).drop_last() =~= prefix);
            }
            let st = &self.states[i];
            if contains_id(ids, st.anime_id) {
                out.push(st);
                proof {
                    assert(out@.map_values(|s: &AnimeState| *s) =~= states_with_ids(prefix, ids@).push(
                        self.states@[i as int],
                    ));
                }
            }
            i = i + 1;
        }
        proof {
            assert(self.states@.subrange(0, self.states@.len() as int) =~= self.states@);
        }
        out
    }

    /// Stores a fresh state for a catalogue item. It fails, changing nothing,
    /// when a state for that anime is stored already. Adding the anime to a
    /// watch list is the caller's part.
    pub fn insert_anime_item(&mut self, item: AnimeItem) -> (r: Result<(), DbError>)
        requires
            old(self).wf(),
        ensures
            final(self).wf(),
            final(self).lists@ == old(self).lists@,
            r.is_ok() <==> !id_stored(old(self).states@, item.id),
            r.is_err() ==> is_storage_failure(r) && final(self).states@ == old(self).states@,
            r.is_ok() ==> final(self).states@.len() == old(self).states@.len() + 1
                && final(self).states@.drop_last() == old(self).states@
                && fresh_state(final(self).states@.last(), item),
    {
        let id = item.id;
        if self.find_state(id).is_some() {
            return Err(DbError::StorageFailure("duplicate key value violates unique constraint".to_owned()));
        }
        let ghost pre = self.states@;
        self.states.push(AnimeState::new(item));
        proof {
            assert(self.states@.drop_last() =~= pre);
            assert forall|i: int, j: int|
                0 <= i < self.states@.len() && 0 <= j < self.states@.len() && i != j
                    implies #[trigger] self.states@[i].anime_id != #[trigger] self.states@[j].anime_id by {
                if i == pre.len() {
                    assert(pre[j].anime_id == self.states@[j].anime_id);
                } else if j == pre.len() {
                    assert(pre[i].anime_id == self.states@[i].anime_id);
                }
            }
            assert forall|i: int| 0 <= i < self.states@.len() implies distinct_marks(
                #[trigger] self.states@[i].watched_episodes@,
            ) by {
                if i < pre.len() {
                    assert(self.states@[i] == pre[i]);
                }
            }
        }
        Ok(())
    }
}

} // verus!

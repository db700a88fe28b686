//! The ledger: every user's profile, and whether the ledger has changed
//! since it was last written out.

use std::collections::hash_map::Entry;
use std::collections::HashMap;
use vstd::prelude::*;
use vstd::std_specs::hash::*;
use vstd::std_specs::iter::IteratorSpec;
use crate::cymatic::{average_of, coefficient_of_history, ScoreError};
use crate::profile::{
    latest, lemma_history_is_latest, max_user_history, ProfileView, UserProfileData,
};
use crate::sentiment::SentimentResult;

verus! {

broadcast use vstd::std_specs::hash::group_hash_axioms;

/// What the ledger holds: the profiles by user id, and whether they differ
/// from what was last written out.
pub struct DatabaseView {
    pub profiles: Map<u64, ProfileView>,
    pub dirty: bool,
}

impl DatabaseView {
    /// A ledger without profiles, with nothing to write out.
    pub open spec fn empty() -> DatabaseView {
        DatabaseView { profiles: Map::empty(), dirty: false }
    }

    /// The profile that the next sample of `id` goes to: the one that is
    /// there, or a fresh one under `user_tag`.
    pub open spec fn profile_or_fresh(self, id: u64, user_tag: Seq<char>) -> ProfileView {
        if self.profiles.contains_key(id) {
            self.profiles[id]
        } else {
            ProfileView::fresh(user_tag)
        }
    }

    /// The ledger after one sample of user `id`, seen under `user_tag`.
    pub open spec fn ingested(self, id: u64, user_tag: Seq<char>, item: SentimentResult)
        -> DatabaseView {
        DatabaseView {
            profiles: self.profiles.insert(id, self.profile_or_fresh(id, user_tag).pushed(item)),
            dirty: true,
        }
    }

    /// The ledger after the samples of `events`, one after the other, each
    /// of user `id` under the tag that comes with it.
    pub open spec fn ingested_all(self, id: u64, events: Seq<(Seq<char>, SentimentResult)>)
        -> DatabaseView
        decreases events.len(),
    {
        if events.len() == 0 {
            self
        } else {
            self.ingested_all(id, events.drop_last()).ingested(
                id,
                events.last().0,
                events.last().1,
            )
        }
    }

    /// The ledger after the samples of user `id` were erased.
    pub open spec fn erased(self, id: u64) -> DatabaseView {
        DatabaseView {
            profiles: self.profiles.insert(id, self.profiles[id].cleared()),
            dirty: true,
        }
    }

    /// The ledger after an attempt to write it out that succeeded or not.
    pub open spec fn flushed(self, written: bool) -> DatabaseView {
        DatabaseView { profiles: self.profiles, dirty: self.dirty && !written }
    }
}

/// Why a request on one user failed.
#[derive(Clone, Copy, Debug, PartialEq, Eq, Structural)]
pub enum LedgerError {
    /// The ledger has no profile of that user.
    NotFound,
}

/// Why no ledger could be made from what storage gave.
#[derive(Clone, Copy, Debug, PartialEq, Eq, Structural)]
pub enum LoadError {
    /// Storage is there and could not be read.
    Unreadable,
    /// What was read is not a ledger.
    PersistenceCorrupt,
}

/// What an attempt to read the stored ledger gave.
pub enum StoredLedger {
    /// Nothing is stored.
    Missing,
    /// Storage is there and could not be read.
    Unreadable,
    /// What was read could not be understood.
    Malformed,
    /// The stored profiles, each with its user id.
    Profiles(Vec<(u64, UserProfileData)>),
}

/// The user ids of `records`, in their order.
pub open spec fn record_ids(records: Seq<(u64, UserProfileData)>) -> Seq<u64> {
    records.map_values(|r: (u64, UserProfileData)| r.0)
}

/// The profiles of `records` by user id: a user's profile is that of the
/// record which names the user.
pub open spec fn record_profiles(records: Seq<(u64, UserProfileData)>) -> Map<u64, ProfileView> {
    Map::new(
        |id: u64| record_ids(records).contains(id),
        |id: u64| records[record_ids(records).index_of(id)].1@,
    )
}

/// The ledger that `stored` stands for, where it stands for one.
pub open spec fn loaded(stored: StoredLedger) -> Result<DatabaseView, LoadError> {
    match stored {
        StoredLedger::Missing => Ok(DatabaseView::empty()),
        StoredLedger::Unreadable => Err(LoadError::Unreadable),
        StoredLedger::Malformed => Err(LoadError::PersistenceCorrupt),
        StoredLedger::Profiles(records) => if record_ids(records@).no_duplicates() {
            Ok(DatabaseView { profiles: record_profiles(records@), dirty: false })
        } else {
            Err(LoadError::PersistenceCorrupt)
        },
    }
}

/// Whether `r` is the outcome `expected`.
pub open spec fn matches_loaded(
    r: Result<UserProfilesDatabase, LoadError>,
    expected: Result<DatabaseView, LoadError>,
) -> bool {
    match (r, expected) {
        (Ok(db), Ok(v)) => db@ == v,
        (Err(e), Err(f)) => e == f,
        _ => false,
    }
}

/// All profiles, by user id.
pub struct UserProfilesDatabase {
    db: HashMap<u64, UserProfileData>,
    dirty: bool,
}

impl View for UserProfilesDatabase {
    type V = DatabaseView;

    closed spec fn view(&self) -> DatabaseView {
        DatabaseView {
            profiles: self.db@.map_values(|p: UserProfileData| p@),
            dirty: self.dirty,
        }
    }
}

impl UserProfilesDatabase {
    /// A ledger without profiles, with nothing to write out.
    pub fn new() -> (r: UserProfilesDatabase)
        ensures
            r@ == DatabaseView::empty(),
    {
        let r = UserProfilesDatabase { db: HashMap::new(), dirty: false };
        assert(r@.profiles =~= Map::empty());
        r
    }

    /// Makes the ledger from what an attempt to read the stored one gave.
    ///
    /// Where nothing is stored the ledger is empty. Storage that could not be
    /// read, a document that could not be understood and one that names a
    /// user twice give no ledger.
    pub fn try_create_from_disk(stored: StoredLedger) -> (r: Result<
        UserProfilesDatabase,
        LoadError,
    >)
        ensures
            matches_loaded(r, loaded(stored)),
    {
        match stored {
            StoredLedger::Missing => Ok(UserProfilesDatabase::new()),
            StoredLedger::Unreadable => Err(LoadError::Unreadable),
            StoredLedger::Malformed => Err(LoadError::PersistenceCorrupt),
            StoredLedger::Profiles(records) => {
                let ghost all = records@;
                let mut rest = records;
                let mut db: HashMap<u64, UserProfileData> = HashMap::new();
                while rest.len() > 0
                    invariant
                        stored matches StoredLedger::Profiles(whole) && whole@ == all,
                        rest.len() <= all.len(),
                        rest@ == all.take(rest.len() as int),
                        forall|id: u64| #[trigger]
                            db@.contains_key(id) ==> exists|j: int|
                                rest.len() <= j < all.len() && (#[trigger] all[j]).0 == id,
                        forall|j: int|
                            rest.len() <= j < all.len() ==> db@.contains_key(
                                (#[trigger] all[j]).0,
                            ) && db@[all[j].0]@ == all[j].1@,
                        forall|j: int, k: int|
                            rest.len() <= j < k < all.len() ==> (#[trigger] all[j]).0
                                != (#[trigger] all[k]).0,
                    decreases rest.len(),
                {
                    let ghost at = rest.len() - 1;
                    let item = rest.pop().unwrap();
                    let (id, profile) = item;
                    assert(all[at] == (id, profile));
                    if db.contains_key(&id) {
                        proof {
                            let j = choose|j: int| at < j < all.len() && (#[trigger] all[j]).0 == id;
                            let ids = record_ids(all);
                            assert(ids.len() == all.len());
                            assert(ids[at] == id && ids[j] == id && at != j);
                            assert(!ids.no_duplicates());
                        }
                        return Err(LoadError::PersistenceCorrupt);
                    }
                    db.insert(id, profile);
                }
                let r = UserProfilesDatabase { db, dirty: false };
                proof {
                    let ids = record_ids(all);
                    assert(ids.no_duplicates());
                    assert forall|id: u64| r@.profiles.contains_key(id) implies ids.contains(
                        id,
                    ) by {
                        let j = choose|j: int| 0 <= j < all.len() && (#[trigger] all[j]).0 == id;
                        assert(ids[j] == id);
                    }
                    assert forall|id: u64| ids.contains(id) implies r@.profiles.contains_key(id)
                        && r@.profiles[id] == record_profiles(all)[id] by {
                        let j = ids.index_of(id);
                        assert(all[j].0 == id);
                    }
                    assert(r@.profiles =~= record_profiles(all));
                }
                Ok(r)
            },
        }
    }

    /// Records one sample of user `id`. A user who is seen for the first time
    /// gets a profile under `tag`; the tag of a known user stays as it is.
    pub fn add_sentiment_result_for_user(&mut self, id: u64, tag: &str, result: SentimentResult)
        ensures
            final(self)@ == old(self)@.ingested(id, tag@, result),
    {
        let profile = self.db.entry(id).or_insert(UserProfileData::new(tag));
        profile.add_sentiment_result(result);
        self.dirty = true;
        assert(self@.profiles =~= old(self)@.ingested(id, tag@, result).profiles);
    }

    /// The profile of user `id`, where there is one.
    pub fn get_user_profile(&self, id: u64) -> (r: Option<&UserProfileData>)
        ensures
            r.is_some() <==> self@.profiles.contains_key(id),
            r.is_some() ==> r.unwrap()@ == self@.profiles[id] && r.unwrap()@.wf(),
    {
        match self.db.get(&id) {
            Some(profile) => {
                let _ = profile.sentiment_values();
                Some(profile)
            },
            None => None,
        }
    }

    /// The profile of user `id`, to be changed in place, where there is one.
    /// The ledger then counts as changed; where there is none, nothing
    /// changes.
    pub fn get_user_profile_as_mut(&mut self, id: u64) -> (r: Option<&mut UserProfileData>)
        ensures
            r.is_some() <==> old(self)@.profiles.contains_key(id),
            r.is_some() ==> r.unwrap()@ == old(self)@.profiles[id] && final(self)@.dirty
                && final(self)@.profiles =~= old(self)@.profiles.insert(id, final(r.unwrap())@),
            r.is_none() ==> final(self)@.dirty == old(self)@.dirty && final(self)@.profiles
                =~= old(self)@.profiles,
    {
        match self.db.entry(id) {
            Entry::Occupied(occupied) => {
                self.dirty = true;
                Some(occupied.into_mut())
            },
            Entry::Vacant(_) => None,
        }
    }

    /// Erases the samples of user `id`, whose profile and tag stay.
    ///
    /// Fails with `NotFound`, and changes nothing, where the ledger has no
    /// profile of that user.
    pub fn reset_user_profile(&mut self, id: u64) -> (r: Result<(), LedgerError>)
        ensures
            r.is_ok() <==> old(self)@.profiles.contains_key(id),
            r.is_ok() ==> final(self)@ == old(self)@.erased(id),
            r.is_err() ==> final(self)@ == old(self)@ && r == Err::<(), LedgerError>(
                LedgerError::NotFound,
            ),
    {
        match self.get_user_profile_as_mut(id) {
            Some(profile) => {
                profile.delete_data();
                Ok(())
            },
            None => Err(LedgerError::NotFound),
        }
    }

    /// The ids of the users who have a profile, each once, in no particular
    /// order.
    pub fn user_ids(&self) -> (r: Vec<u64>)
        ensures
            r@.no_duplicates(),
            r@.to_set() == self@.profiles.dom(),
    {
        let mut ids: Vec<u64> = Vec::new();
        let ghost keys = spec_keys_iter(&self.db).remaining();
        proof {
            axiom_spec_keys_iter(&self.db);
        }
        for id in it: self.db.keys()
            invariant
                it.seq() == keys,
                ids@.len() == it.index(),
                forall|j: int| 0 <= j < ids@.len() ==> ids@[j] == *keys[j],
        {
            ids.push(*id);
        }
        proof {
            assert(ids@ =~= keys.unref());
            assert(ids@.to_set() =~= self@.profiles.dom());
        }
        ids
    }

    /// A copy of every profile with its user id, in no particular order:
    /// what is written out. Read back, it gives this ledger again, with
    /// nothing to write out.
    pub fn to_records(&self) -> (r: Vec<(u64, UserProfileData)>)
        ensures
            record_ids(r@).no_duplicates(),
            record_profiles(r@) == self@.profiles,
            loaded(StoredLedger::Profiles(r)) == Ok::<DatabaseView, LoadError>(
                DatabaseView { profiles: self@.profiles, dirty: false },
            ),
    {
        let ids = self.user_ids();
        let mut records: Vec<(u64, UserProfileData)> = Vec::new();
        let mut i: usize = 0;
        while i < ids.len()
            invariant
                i <= ids.len(),
                ids@.to_set() == self@.profiles.dom(),
                records@.len() == i,
                forall|j: int|
                    0 <= j < i ==> (#[trigger] records@[j]).0 == ids@[j] && records@[j].1@
                        == self@.profiles[ids@[j]],
            decreases ids.len() - i,
        {
            let id: u64 = ids[i];
            proof {
                assert(ids@.to_set().contains(ids@[i as int]));
            }
            match self.get_user_profile(id) {
                Some(profile) => {
                    records.push((id, profile.duplicate()));
                },
                None => {
                    proof {
                        assert(false);
                    }
                },
            }
            i = i + 1;
        }
        proof {
            assert(record_ids(records@) =~= ids@);
            assert forall|id: u64| ids@.contains(id) implies self@.profiles.contains_key(id)
                && record_profiles(records@)[id] == self@.profiles[id] by {
                assert(ids@.to_set().contains(id));
                let j = ids@.index_of(id);
                assert(records@[j].0 == id);
            }
            assert forall|id: u64| self@.profiles.contains_key(id) implies ids@.contains(id) by {
                assert(ids@.to_set().contains(id));
            }
            assert(record_profiles(records@) =~= self@.profiles);
        }
        records
    }

    /// What a flush has to write: nothing where the ledger has not changed
    /// since it was last written out, else a copy of every profile with its
    /// user id. Whoever writes it reports the outcome to `flush_finished`.
    pub fn to_disk(&self) -> (r: Option<Vec<(u64, UserProfileData)>>)
        ensures
            r.is_some() <==> self@.dirty,
            r matches Some(records) ==> record_ids(records@).no_duplicates() && record_profiles(
                records@,
            ) == self@.profiles,
    {
        if !self.dirty {
            None
        } else {
            Some(self.to_records())
        }
    }

    /// Whether the ledger has changed since it was last written out, so that
    /// a flush has something to write.
    pub fn needs_flush(&self) -> (r: bool)
        ensures
            r == self@.dirty,
    {
        self.dirty
    }

    /// Takes note of an attempt to write the ledger out. A write that
    /// succeeded leaves nothing to write; one that failed leaves the ledger
    /// as it was, to be tried again.
    pub fn flush_finished(&mut self, written: bool)
        ensures
            final(self)@ == old(self)@.flushed(written),
    {
        if written {
            self.dirty = false;
        }
    }
}

/// The samples of `events`, in their order.
pub open spec fn samples_of(events: Seq<(Seq<char>, SentimentResult)>) -> Seq<SentimentResult> {
    events.map_values(|e: (Seq<char>, SentimentResult)| e.1)
}

/// No sample is lost and none counts twice: after one or more samples of a
/// user whom the ledger did not know, the user's profile carries the tag
/// that came with the first sample and holds the most recent samples, as
/// many as there were or as the buffer takes, whichever is less. Nobody
/// else's profile has changed, and the ledger has something to write out.
pub proof fn lemma_ingested_all(
    v: DatabaseView,
    id: u64,
    events: Seq<(Seq<char>, SentimentResult)>,
)
    requires
        !v.profiles.contains_key(id),
        events.len() >= 1,
    ensures
        v.ingested_all(id, events).dirty,
        v.ingested_all(id, events).profiles.contains_key(id),
        v.ingested_all(id, events).profiles.remove(id) == v.profiles,
        v.ingested_all(id, events).profiles[id] == ProfileView::fresh(events[0].0).pushed_all(
            samples_of(events),
        ),
        v.ingested_all(id, events).profiles[id].user_tag == events[0].0,
        v.ingested_all(id, events).profiles[id].sentiment_values.len() == if events.len()
            <= max_user_history() {
            events.len() as int
        } else {
            max_user_history()
        },
        v.ingested_all(id, events).profiles[id].chronological() == latest(samples_of(events)),
    decreases events.len(),
{
    let earlier = events.drop_last();
    let samples = samples_of(events);
    assert(samples.drop_last() =~= samples_of(earlier));
    assert(samples.last() == events.last().1);
    if events.len() == 1 {
        assert(v.ingested_all(id, earlier) == v);
        assert(samples.drop_last().len() == 0);
        assert(ProfileView::fresh(events[0].0).pushed_all(samples.drop_last())
            == ProfileView::fresh(events[0].0));
    } else {
        lemma_ingested_all(v, id, earlier);
        assert(earlier[0] == events[0]);
    }
    assert(v.ingested_all(id, events).profiles.remove(id) =~= v.profiles);
    lemma_history_is_latest(events[0].0, samples);
}

/// After a write that succeeded there is nothing to write, so a second flush
/// with no change in between writes nothing; after one that failed, what was
/// to be written still is.
pub proof fn lemma_flush_once(v: DatabaseView)
    ensures
        !v.flushed(true).dirty,
        v.flushed(true).flushed(true) == v.flushed(true),
        v.flushed(false) == v,
{
}

/// Erasing a user's samples leaves an empty history, of which neither a
/// mean nor a coefficient can be had.
pub proof fn lemma_erased_is_empty(v: DatabaseView, id: u64)
    requires
        v.profiles.contains_key(id),
    ensures
        v.erased(id).profiles.contains_key(id),
        v.erased(id).profiles[id].sentiment_values.len() == 0,
        average_of(v.erased(id).profiles[id].sentiment_values) == Err::<(int, int), ScoreError>(
            ScoreError::EmptyHistory,
        ),
        coefficient_of_history(v.erased(id).profiles[id].sentiment_values) == Err::<
            (int, int),
            ScoreError,
        >(ScoreError::EmptyHistory),
{
}

} // verus!

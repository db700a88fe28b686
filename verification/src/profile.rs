//! One user's profile: a ring buffer of the most recent sentiment samples.

use vstd::prelude::*;
use vstd::seq_lib::lemma_seq_union_to_multiset_commutative;
use crate::cymatic::{
    average_compound, average_of, coefficient_of_history, matches_outcome, ComputedData, ScoreError,
};
use crate::sentiment::{compound_total, SentimentResult};

verus! {

/// The most samples that are kept for one user.
pub const MAX_USER_HISTORY: usize = 100;

/// `MAX_USER_HISTORY` as a mathematical integer.
pub open spec fn max_user_history() -> int {
    100
}

/// What a profile holds: the tag under which the user was first seen, the
/// samples as they are stored, and the position that the next overwrite
/// takes once the buffer is full.
pub struct ProfileView {
    pub user_tag: Seq<char>,
    pub sentiment_values: Seq<SentimentResult>,
    pub oldest_index: int,
}

impl ProfileView {
    /// The buffer is within its capacity and the cursor within the buffer's
    /// range.
    pub open spec fn wf(self) -> bool {
        &&& self.sentiment_values.len() <= max_user_history()
        &&& 0 <= self.oldest_index < max_user_history()
    }

    /// While there is room in the buffer the cursor rests at its start. This
    /// holds of a new profile and stays true under `pushed` and `cleared`.
    pub open spec fn aligned(self) -> bool {
        self.sentiment_values.len() < max_user_history() ==> self.oldest_index == 0
    }

    /// The profile of a user who has just been seen for the first time.
    pub open spec fn fresh(user_tag: Seq<char>) -> ProfileView {
        ProfileView { user_tag, sentiment_values: Seq::empty(), oldest_index: 0 }
    }

    /// The profile after one more sample: appended while there is room,
    /// else written over the oldest one.
    pub open spec fn pushed(self, item: SentimentResult) -> ProfileView {
        if self.sentiment_values.len() < max_user_history() {
            ProfileView {
                user_tag: self.user_tag,
                sentiment_values: self.sentiment_values.push(item),
                oldest_index: self.oldest_index,
            }
        } else {
            ProfileView {
                user_tag: self.user_tag,
                sentiment_values: self.sentiment_values.update(self.oldest_index, item),
                oldest_index: (self.oldest_index + 1) % max_user_history(),
            }
        }
    }

    /// The profile after `items`, one after the other.
    pub open spec fn pushed_all(self, items: Seq<SentimentResult>) -> ProfileView
        decreases items.len(),
    {
        if items.len() == 0 {
            self
        } else {
            self.pushed_all(items.drop_last()).pushed(items.last())
        }
    }

    /// The profile after its samples were erased.
    pub open spec fn cleared(self) -> ProfileView {
        ProfileView { user_tag: self.user_tag, sentiment_values: Seq::empty(), oldest_index: 0 }
    }

    /// The stored samples from the oldest to the newest: once the buffer is
    /// full, the stored order rotated by the cursor.
    pub open spec fn chronological(self) -> Seq<SentimentResult> {
        if self.sentiment_values.len() < max_user_history() {
            self.sentiment_values
        } else {
            self.sentiment_values.subrange(self.oldest_index, self.sentiment_values.len() as int)
                + self.sentiment_values.subrange(0, self.oldest_index)
        }
    }
}

/// The last `max_user_history()` items of `items`, or all of them where
/// there are fewer.
pub open spec fn latest(items: Seq<SentimentResult>) -> Seq<SentimentResult> {
    if items.len() <= max_user_history() {
        items
    } else {
        items.subrange(items.len() - max_user_history(), items.len() as int)
    }
}

/// One more sample moves the chronological window by one: it is appended,
/// and where the buffer was full the oldest sample leaves.
pub proof fn lemma_pushed_chronological(v: ProfileView, item: SentimentResult)
    requires
        v.wf(),
        v.aligned(),
    ensures
        v.pushed(item).wf(),
        v.pushed(item).aligned(),
        v.sentiment_values.len() < max_user_history() ==> v.pushed(item).chronological()
            == v.chronological().push(item),
        v.sentiment_values.len() == max_user_history() ==> v.pushed(item).chronological()
            == v.chronological().drop_first().push(item),
{
    if v.sentiment_values.len() < max_user_history() {
        assert(v.pushed(item).chronological() =~= v.sentiment_values.push(item));
    } else {
        assert(v.pushed(item).chronological() =~= v.chronological().drop_first().push(item));
    }
}

/// However many samples a new profile has taken, it holds the lesser of
/// their number and `max_user_history()`, oldest first from its cursor on:
/// exactly the most recent ones.
pub proof fn lemma_history_is_latest(user_tag: Seq<char>, items: Seq<SentimentResult>)
    ensures
        ProfileView::fresh(user_tag).pushed_all(items).wf(),
        ProfileView::fresh(user_tag).pushed_all(items).aligned(),
        ProfileView::fresh(user_tag).pushed_all(items).user_tag == user_tag,
        ProfileView::fresh(user_tag).pushed_all(items).sentiment_values.len() == if items.len()
            <= max_user_history() {
            items.len() as int
        } else {
            max_user_history()
        },
        ProfileView::fresh(user_tag).pushed_all(items).oldest_index == if items.len()
            <= max_user_history() {
            0
        } else {
            items.len() % (max_user_history() as nat)
        },
        ProfileView::fresh(user_tag).pushed_all(items).chronological() == latest(items),
    decreases items.len(),
{
    if items.len() > 0 {
        let before = ProfileView::fresh(user_tag).pushed_all(items.drop_last());
        lemma_history_is_latest(user_tag, items.drop_last());
        lemma_pushed_chronological(before, items.last());
        let after = before.pushed(items.last());
        if items.len() <= max_user_history() {
            assert(after.sentiment_values =~= items);
            assert(after.chronological() =~= items);
        } else {
            assert(after.chronological() =~= latest(items));
        }
    } else {
        assert(ProfileView::fresh(user_tag).chronological() =~= latest(items));
    }
}

/// Rotating the buffer changes the order of the samples, not which samples
/// there are.
pub proof fn lemma_rotation_keeps_samples(v: ProfileView)
    requires
        v.wf(),
    ensures
        v.chronological().to_multiset() == v.sentiment_values.to_multiset(),
{
    if v.sentiment_values.len() == max_user_history() {
        let head = v.sentiment_values.subrange(0, v.oldest_index);
        let tail = v.sentiment_values.subrange(v.oldest_index, v.sentiment_values.len() as int);
        assert(head + tail =~= v.sentiment_values);
        lemma_seq_union_to_multiset_commutative(head, tail);
    }
}

/// Whatever the rotation, a new profile that has taken `items` holds the
/// most recent of them, each as often as it occurs among those, and no
/// other sample.
pub proof fn lemma_history_holds_latest_samples(user_tag: Seq<char>, items: Seq<SentimentResult>)
    ensures
        ProfileView::fresh(user_tag).pushed_all(items).sentiment_values.to_multiset() == latest(
            items,
        ).to_multiset(),
        coefficient_of_history(ProfileView::fresh(user_tag).pushed_all(items).sentiment_values)
            == coefficient_of_history(latest(items)),
{
    lemma_history_is_latest(user_tag, items);
    lemma_rotation_keeps_samples(ProfileView::fresh(user_tag).pushed_all(items));
    lemma_rotation_keeps_coefficient(ProfileView::fresh(user_tag).pushed_all(items));
}

/// The sum of the compound scores of two runs of samples, one after the
/// other, is the sum of their sums.
pub proof fn lemma_compound_total_concat(a: Seq<SentimentResult>, b: Seq<SentimentResult>)
    ensures
        compound_total(a + b) == compound_total(a) + compound_total(b),
    decreases b.len(),
{
    if b.len() == 0 {
        assert(a + b =~= a);
    } else {
        assert((a + b).drop_last() =~= a + b.drop_last());
        lemma_compound_total_concat(a, b.drop_last());
    }
}

/// The coefficient of a profile does not depend on the rotation of its
/// buffer: it is that of the samples in chronological order.
pub proof fn lemma_rotation_keeps_coefficient(v: ProfileView)
    requires
        v.wf(),
    ensures
        coefficient_of_history(v.chronological()) == coefficient_of_history(v.sentiment_values),
{
    if v.sentiment_values.len() == max_user_history() {
        let head = v.sentiment_values.subrange(0, v.oldest_index);
        let tail = v.sentiment_values.subrange(v.oldest_index, v.sentiment_values.len() as int);
        assert(head + tail =~= v.sentiment_values);
        lemma_compound_total_concat(head, tail);
        lemma_compound_total_concat(tail, head);
    }
}

/// The sentiment history of one user.
pub struct UserProfileData {
    user_tag: String,
    sentiment_values: Vec<SentimentResult>,
    oldest_index: usize,
}

impl View for UserProfileData {
    type V = ProfileView;

    closed spec fn view(&self) -> ProfileView {
        ProfileView {
            user_tag: self.user_tag@,
            sentiment_values: self.sentiment_values@,
            oldest_index: self.oldest_index as int,
        }
    }
}

impl UserProfileData {
    #[verifier::type_invariant]
    closed spec fn within_capacity(self) -> bool {
        self.sentiment_values.len() <= MAX_USER_HISTORY && self.oldest_index < MAX_USER_HISTORY
    }

    /// An empty profile for the user who goes by `tag`.
    pub fn new(tag: &str) -> (r: UserProfileData)
        ensures
            r@ == ProfileView::fresh(tag@),
            r@.wf(),
    {
        UserProfileData { user_tag: tag.to_owned(), sentiment_values: Vec::new(), oldest_index: 0 }
    }

    /// Puts a profile together from its stored parts. There is none where
    /// more than `MAX_USER_HISTORY` samples are given or the cursor lies
    /// outside the buffer's range.
    pub fn from_parts(
        user_tag: String,
        sentiment_values: Vec<SentimentResult>,
        oldest_index: usize,
    ) -> (r: Option<UserProfileData>)
        ensures
            r.is_some() <==> sentiment_values.len() <= MAX_USER_HISTORY && oldest_index
                < MAX_USER_HISTORY,
            r.is_some() ==> r.unwrap()@.wf() && r.unwrap()@ == (ProfileView {
                user_tag: user_tag@,
                sentiment_values: sentiment_values@,
                oldest_index: oldest_index as int,
            }),
    {
        if sentiment_values.len() > MAX_USER_HISTORY || oldest_index >= MAX_USER_HISTORY {
            None
        } else {
            Some(UserProfileData { user_tag, sentiment_values, oldest_index })
        }
    }

    /// A copy of the profile: the same tag, samples and cursor.
    pub fn duplicate(&self) -> (r: UserProfileData)
        ensures
            r@ == self@,
    {
        proof {
            use_type_invariant(self);
        }
        let n: usize = self.sentiment_values.len();
        let mut values: Vec<SentimentResult> = Vec::new();
        let mut i: usize = 0;
        while i < n
            invariant
                i <= n,
                n == self.sentiment_values.len(),
                values@ == self.sentiment_values@.take(i as int),
            decreases n - i,
        {
            values.push(self.sentiment_values[i]);
            proof {
                assert(values@ =~= self.sentiment_values@.take(i + 1));
            }
            i = i + 1;
        }
        proof {
            assert(values@ =~= self.sentiment_values@);
        }
        UserProfileData {
            user_tag: self.user_tag.clone(),
            sentiment_values: values,
            oldest_index: self.oldest_index,
        }
    }

    /// The tag under which the user was first seen.
    pub fn user_tag(&self) -> (r: &str)
        ensures
            r@ == self@.user_tag,
    {
        self.user_tag.as_str()
    }

    /// The samples in the order in which they are stored.
    pub fn sentiment_values(&self) -> (r: &Vec<SentimentResult>)
        ensures
            r@ == self@.sentiment_values,
            self@.wf(),
    {
        proof {
            use_type_invariant(self);
        }
        &self.sentiment_values
    }

    /// The position that the next overwrite takes once the buffer is full.
    pub fn oldest_index(&self) -> (r: usize)
        ensures
            r == self@.oldest_index,
    {
        self.oldest_index
    }

    /// The arithmetic mean of the compound scores that the profile holds
    /// now, as the fraction of the two numbers returned.
    ///
    /// Fails with `EmptyHistory` where it holds no sample.
    pub fn average_compound(&self) -> (r: Result<(i64, u64), ScoreError>)
        ensures
            match r {
                Ok((total, weight)) => average_of(self@.sentiment_values) == Ok::<
                    (int, int),
                    ScoreError,
                >((total as int, weight as int)),
                Err(e) => average_of(self@.sentiment_values) == Err::<(int, int), ScoreError>(e),
            },
    {
        proof {
            use_type_invariant(self);
        }
        average_compound(&self.sentiment_values)
    }

    /// The crime coefficient of the samples that the profile holds now.
    ///
    /// Fails with `EmptyHistory` where it holds none, and with
    /// `SaturatedSentiment` where their mean compound score is exactly `-1`.
    pub fn get_cymatic_data(&self) -> (r: Result<ComputedData, ScoreError>)
        ensures
            matches_outcome(r, coefficient_of_history(self@.sentiment_values)),
            self@.wf(),
    {
        proof {
            use_type_invariant(self);
        }
        ComputedData::from_sentiment_values(&self.sentiment_values)
    }

    /// Records one more sample, over the oldest one where the buffer is full.
    pub fn add_sentiment_result(&mut self, result: SentimentResult)
        ensures
            final(self)@ == old(self)@.pushed(result),
            old(self)@.wf(),
            final(self)@.wf(),
    {
        proof {
            use_type_invariant(&*self);
        }
        let mut values: Vec<SentimentResult> = Vec::new();
        core::mem::swap(&mut values, &mut self.sentiment_values);
        if values.len() < MAX_USER_HISTORY {
            values.push(result);
        } else {
            values.set(self.oldest_index, result);
            self.oldest_index = (self.oldest_index + 1) % MAX_USER_HISTORY;
        }
        core::mem::swap(&mut values, &mut self.sentiment_values);
    }

    /// Erases every sample. The tag stays.
    pub fn delete_data(&mut self)
        ensures
            final(self)@ == old(self)@.cleared(),
            final(self)@.wf(),
    {
        proof {
            use_type_invariant(&*self);
        }
        self.sentiment_values = Vec::new();
        self.oldest_index = 0;
    }
}

} // verus!

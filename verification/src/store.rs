//! Append-only sample store: one immutable time series of (fee, revenue)
//! observations per channel, keyed by (channel id, timestamp). Appends fail
//! on a key collision instead of overwriting, and each channel's series is
//! kept most-recent-first so that bounded recency queries are a prefix.

use vstd::prelude::*;

verus! {

/// Error returned by the store.
#[derive(Clone, Copy, Debug, PartialEq, Eq, Structural)]
pub enum StoreError {
    /// A sample with the same (channel id, timestamp) key is already stored.
    DuplicateKey,
}

/// The time series of one channel: samples as (observed_at, fee, revenue),
/// ordered most-recent-first.
pub struct ChannelSeries {
    pub id: String,
    pub samples: Vec<(i64, u32, u32)>,
}

impl ChannelSeries {
    /// Timestamps strictly decrease: most recent first, no two samples of
    /// one channel share a timestamp.
    pub open spec fn wf(self) -> bool {
        forall|i: int, j: int|
            #![trigger self.samples@[i], self.samples@[j]]
            0 <= i < j < self.samples@.len() ==> self.samples@[i].0 > self.samples@[j].0
    }
}

/// Number of leading samples whose timestamp exceeds `t`: the position at
/// which a sample taken at `t` belongs in a most-recent-first series.
pub open spec fn insert_pos(samples: Seq<(i64, u32, u32)>, t: int) -> int
    decreases samples.len(),
{
    if samples.len() == 0 {
        0
    } else if samples[0].0 > t {
        1 + insert_pos(samples.drop_first(), t)
    } else {
        0
    }
}

/// `insert_pos` is the first index whose timestamp is at most `t`.
pub proof fn lemma_insert_pos(samples: Seq<(i64, u32, u32)>, t: int)
    ensures
        0 <= insert_pos(samples, t) <= samples.len(),
        forall|j: int| #![trigger samples[j]] 0 <= j < insert_pos(samples, t) ==> samples[j].0 > t,
        insert_pos(samples, t) < samples.len() ==> samples[insert_pos(samples, t)].0 <= t,
    decreases samples.len(),
{
    if samples.len() > 0 && samples[0].0 > t {
        lemma_insert_pos(samples.drop_first(), t);
        assert forall|j: int| 0 <= j < insert_pos(samples, t) implies samples[j].0 > t by {
            if j > 0 {
                assert(samples.drop_first()[j - 1] == samples[j]);
            }
        }
        if insert_pos(samples, t) < samples.len() {
            assert(samples.drop_first()[insert_pos(samples.drop_first(), t)] == samples[
                insert_pos(samples, t)
            ]);
        }
    }
}

/// In-memory sample store satisfying the persistence contract: an
/// append-only log keyed by (channel id, observed_at) whose appends fail on
/// key collisions rather than overwrite.
pub struct SampleStore {
    pub channels: Vec<ChannelSeries>,
}

impl SampleStore {
    /// Some stored series carries this channel id.
    pub open spec fn has_channel(self, id: Seq<char>) -> bool {
        exists|k: int| 0 <= k < self.channels@.len() && self.channels@[k].id@ == id
    }

    /// The index of the series that carries this channel id.
    pub open spec fn channel_index(self, id: Seq<char>) -> int {
        choose|k: int| 0 <= k < self.channels@.len() && self.channels@[k].id@ == id
    }

    /// The samples stored for a channel, most-recent-first; empty when the
    /// channel has no history.
    pub open spec fn channel_samples(self, id: Seq<char>) -> Seq<(i64, u32, u32)> {
        if self.has_channel(id) {
            self.channels@[self.channel_index(id)].samples@
        } else {
            Seq::empty()
        }
    }

    /// A sample with this (channel id, timestamp) key is stored.
    pub open spec fn has_key(self, id: Seq<char>, t: int) -> bool {
        exists|i: int|
            #![trigger self.channel_samples(id)[i]]
            0 <= i < self.channel_samples(id).len() && self.channel_samples(id)[i].0 == t
    }

    /// Well-formed store: channel ids are unique and every series is
    /// ordered most-recent-first without timestamp collisions.
    pub open spec fn wf(self) -> bool {
        &&& (forall|k: int|
            0 <= k < self.channels@.len() ==> (#[trigger] self.channels@[k]).wf())
        &&& (forall|k1: int, k2: int|
            #![trigger self.channels@[k1].id, self.channels@[k2].id]
            0 <= k1 < k2 < self.channels@.len() ==> self.channels@[k1].id@
                != self.channels@[k2].id@)
    }

    /// Create an empty store.
    pub fn new() -> (store: SampleStore)
        ensures
            store.wf(),
            forall|id: Seq<char>| #[trigger] store.channel_samples(id) == Seq::<(i64, u32, u32)>::empty(),
    {
        SampleStore { channels: Vec::new() }
    }

    /// Index of the series holding this channel id, if one exists.
    fn find_channel(&self, channel_id: &String) -> (found: Option<usize>)
        requires
            self.wf(),
        ensures
            match found {
                Some(k) => {
                    &&& k < self.channels@.len()
                    &&& self.channels@[k as int].id@ == channel_id@
                    &&& self.has_channel(channel_id@)
                    &&& self.channel_index(channel_id@) == k as int
                },
                None => !self.has_channel(channel_id@),
            },
    {
        let mut k: usize = 0;
        while k < self.channels.len()
            invariant
                self.wf(),
                k <= self.channels@.len(),
                forall|j: int| 0 <= j < k ==> (#[trigger] self.channels@[j]).id@ != channel_id@,
            decreases self.channels@.len() - k,
        {
            if self.channels[k].id == *channel_id {
                proof {
                    assert(0 <= k < self.channels@.len() && self.channels@[k as int].id@
                        == channel_id@);
                    let chosen = self.channel_index(channel_id@);
                    assert(0 <= chosen < self.channels@.len() && self.channels@[chosen].id@
                        == channel_id@);
                }
                return Some(k);
            }
            k = k + 1;
        }
        None
    }

    /// Append one immutable sample. Fails, leaving every stored sample
    /// untouched, when a sample with the same (channel id, timestamp) key
    /// already exists; otherwise the sample enters the channel's series at
    /// its timestamp-ordered place.
    pub fn append(&mut self, channel_id: &String, fee: u32, revenue: u32, observed_at: i64) -> (result:
        Result<(), StoreError>)
        requires
            old(self).wf(),
        ensures
            final(self).wf(),
            result is Err <==> old(self).has_key(channel_id@, observed_at as int),
            result matches Err(e) ==> e == StoreError::DuplicateKey,
            result is Err ==> forall|id: Seq<char>| #[trigger] final(self).channel_samples(id)
                == old(self).channel_samples(id),
            result is Ok ==> final(self).channel_samples(channel_id@) == old(self).channel_samples(
                channel_id@,
            ).insert(
                insert_pos(old(self).channel_samples(channel_id@), observed_at as int),
                (observed_at, fee, revenue),
            ),
            result is Ok ==> final(self).has_key(channel_id@, observed_at as int),
            forall|id: Seq<char>| id != channel_id@ ==> #[trigger] final(self).channel_samples(id)
                == old(self).channel_samples(id),
    {
        match self.find_channel(channel_id) {
            Some(k) => self.append_existing(k, channel_id, fee, revenue, observed_at),
            None => {
                let mut samples: Vec<(i64, u32, u32)> = Vec::new();
                samples.push((observed_at, fee, revenue));
                let series = ChannelSeries { id: channel_id.clone(), samples };
                self.channels.push(series);
                proof {
                    let n = old(self).channels@.len() as int;
                    assert(self.channels@[n].id@ == channel_id@);
                    assert(self.has_channel(channel_id@));
                    assert forall|k2: int|
                        0 <= k2 < self.channels@.len() && self.channels@[k2].id@
                            == channel_id@ implies k2 == n by {
                        if k2 < n {
                            assert(old(self).channels@[k2].id@ != channel_id@);
                            assert(self.channels@[k2] == old(self).channels@[k2]);
                        }
                    }
                    assert(self.channel_index(channel_id@) == n);
                    assert(self.channel_samples(channel_id@) =~= old(self).channel_samples(
                        channel_id@,
                    ).insert(0, (observed_at, fee, revenue)));
                    assert(self.channel_samples(channel_id@)[0].0 == observed_at as int);
                    lemma_unchanged_other_channels(*old(self), *self, channel_id@);
                }
                Ok(())
            },
        }
    }

    /// Append a sample for a channel already present at index `k`.
    fn append_existing(&mut self, k: usize, channel_id: &String, fee: u32, revenue: u32, observed_at: i64) -> (result:
        Result<(), StoreError>)
        requires
            old(self).wf(),
            k < old(self).channels@.len(),
            old(self).channels@[k as int].id@ == channel_id@,
            old(self).channel_index(channel_id@) == k as int,
            old(self).has_channel(channel_id@),
        ensures
            final(self).wf(),
            result is Err <==> old(self).has_key(channel_id@, observed_at as int),
            result matches Err(e) ==> e == StoreError::DuplicateKey,
            result is Err ==> forall|id: Seq<char>| #[trigger] final(self).channel_samples(id)
                == old(self).channel_samples(id),
            result is Ok ==> final(self).channel_samples(channel_id@) == old(self).channel_samples(
                channel_id@,
            ).insert(
                insert_pos(old(self).channel_samples(channel_id@), observed_at as int),
                (observed_at, fee, revenue),
            ),
            result is Ok ==> final(self).has_key(channel_id@, observed_at as int),
            forall|id: Seq<char>| id != channel_id@ ==> #[trigger] final(self).channel_samples(id)
                == old(self).channel_samples(id),
    {
        let ghost old_samples = old(self).channels@[k as int].samples@;
        let t = observed_at;
        let mut series = self.channels.remove(k);
        let pos = lower_pos(&series.samples, t);
        proof {
            lemma_insert_pos(old_samples, t as int);
        }
        let mut duplicate = false;
        if pos < series.samples.len() {
            let (ts, _, _) = series.samples[pos];
            if ts == t {
                duplicate = true;
            }
        }
        if duplicate {
            self.channels.insert(k, series);
            proof {
                assert(self.channels@ =~= old(self).channels@);
                assert(old(self).channel_samples(channel_id@)[pos as int].0 == t as int);
                assert(old(self).has_key(channel_id@, t as int));
                assert forall|id: Seq<char>| #[trigger] self.channel_samples(id) == old(
                    self,
                ).channel_samples(id) by {
                    lemma_same_channels_same_samples(*old(self), *self, id);
                }
            }
            Err(StoreError::DuplicateKey)
        } else {
            proof {
                assert forall|i: int|
                    0 <= i < old_samples.len() implies old_samples[i].0 != t as int by {
                    assert(old(self).channels@[k as int].wf());
                    if i < pos {
                        assert(old_samples[i].0 > t as int);
                    } else if i == pos {
                        assert(old_samples[i].0 != t as int);
                    } else {
                        assert(old_samples[pos as int].0 <= t as int);
                        assert(old_samples[pos as int].0 > old_samples[i].0);
                    }
                }
                assert(!old(self).has_key(channel_id@, t as int));
                assert(pos as int == insert_pos(old_samples, t as int)) by {
                    let ip = insert_pos(old_samples, t as int);
                    if pos < ip {
                        assert(old_samples[pos as int].0 > t as int);
                    } else if ip < pos {
                        assert(old_samples[ip].0 > t as int);
                        assert(old_samples[ip].0 <= t as int);
                    }
                }
            }
            series.samples.insert(pos, (t, fee, revenue));
            proof {
                assert(series.wf()) by {
                    assert(old(self).channels@[k as int].wf());
                    assert forall|i: int, j: int|
                        0 <= i < j < series.samples@.len() implies series.samples@[i].0
                        > series.samples@[j].0 by {
                        let s = series.samples@;
                        if j < pos {
                            assert(s[i] == old_samples[i] && s[j] == old_samples[j]);
                        } else if i > pos {
                            assert(s[i] == old_samples[i - 1] && s[j] == old_samples[j - 1]);
                        } else if i < pos && j == pos {
                            assert(s[i] == old_samples[i]);
                            assert(s[i].0 > t as int);
                        } else if i == pos && j > pos {
                            assert(s[j] == old_samples[j - 1]);
                            assert(pos as int <= j - 1 < old_samples.len());
                            assert(old_samples[j - 1].0 <= t as int);
                            assert(old_samples[j - 1].0 != t as int);
                        } else if i < pos && j > pos {
                            assert(s[i] == old_samples[i] && s[j] == old_samples[j - 1]);
                            assert(s[i].0 > t as int);
                            assert(old_samples[j - 1].0 <= t as int);
                        }
                    }
                }
            }
            self.channels.insert(k, series);
            proof {
                assert(self.channels@ =~= old(self).channels@.update(
                    k as int,
                    ChannelSeries { id: old(self).channels@[k as int].id, samples: series.samples },
                ));
                assert(self.wf()) by {
                    assert forall|k2: int|
                        0 <= k2 < self.channels@.len() implies (
                    #[trigger] self.channels@[k2]).wf() by {
                        if k2 != k as int {
                            assert(self.channels@[k2] == old(self).channels@[k2]);
                            assert(old(self).channels@[k2].wf());
                        }
                    }
                }
                assert(self.channels@[k as int].id@ == channel_id@);
                assert(self.has_channel(channel_id@));
                assert forall|k2: int|
                    0 <= k2 < self.channels@.len() && self.channels@[k2].id@
                        == channel_id@ implies k2 == k as int by {
                    if k2 != k as int {
                        assert(self.channels@[k2] == old(self).channels@[k2]);
                        assert(old(self).channels@[k2].id@ != old(self).channels@[k as int].id@);
                    }
                }
                assert(self.channel_index(channel_id@) == k as int);
                assert(self.channel_samples(channel_id@) == old_samples.insert(
                    pos as int,
                    (t, fee, revenue),
                ));
                assert(self.channel_samples(channel_id@)[pos as int] == (t, fee, revenue));
                assert(self.has_key(channel_id@, t as int));
                lemma_unchanged_other_channels(*old(self), *self, channel_id@);
            }
            Ok(())
        }
    }

    /// The most recent `limit` samples stored for a channel, ordered
    /// most-recent-first; fewer when the channel's history is shorter.
    pub fn recent(&self, channel_id: &String, limit: usize) -> (samples: Vec<(i64, u32, u32)>)
        requires
            self.wf(),
        ensures
            ({
                let stored = self.channel_samples(channel_id@);
                let n = if limit as int <= stored.len() {
                    limit as int
                } else {
                    stored.len() as int
                };
                samples@ == stored.take(n)
            }),
    {
        match self.find_channel(channel_id) {
            None => {
                let samples: Vec<(i64, u32, u32)> = Vec::new();
                proof {
                    assert(samples@ =~= self.channel_samples(channel_id@).take(0));
                }
                samples
            },
            Some(k) => {
                let series = &self.channels[k];
                let n = if limit <= series.samples.len() {
                    limit
                } else {
                    series.samples.len()
                };
                let mut samples: Vec<(i64, u32, u32)> = Vec::new();
                let mut i: usize = 0;
                while i < n
                    invariant
                        i <= n <= series.samples@.len(),
                        samples@ == series.samples@.take(i as int),
                    decreases n - i,
                {
                    proof {
                        assert(series.samples@.take(i + 1).drop_last() =~= series.samples@.take(
                            i as int,
                        ));
                    }
                    samples.push(series.samples[i]);
                    i = i + 1;
                }
                samples
            },
        }
    }
}

/// First index in a most-recent-first series whose timestamp is at most
/// `t`; the series length when every timestamp exceeds `t`.
fn lower_pos(samples: &Vec<(i64, u32, u32)>, t: i64) -> (pos: usize)
    ensures
        pos <= samples@.len(),
        forall|j: int| #![trigger samples@[j]] 0 <= j < pos ==> samples@[j].0 > t,
        pos < samples@.len() ==> samples@[pos as int].0 <= t,
{
    let mut pos: usize = 0;
    while pos < samples.len() && samples[pos].0 > t
        invariant
            pos <= samples@.len(),
            forall|j: int| #![trigger samples@[j]] 0 <= j < pos ==> samples@[j].0 > t,
        decreases samples@.len() - pos,
    {
        pos = pos + 1;
    }
    pos
}

/// Two well-formed stores whose series agree pointwise, except possibly at
/// the series of `changed`, store the same samples for every other id.
proof fn lemma_same_channels_same_samples(a: SampleStore, b: SampleStore, id: Seq<char>)
    requires
        a.wf(),
        b.wf(),
        a.channels@.len() == b.channels@.len(),
        forall|k: int| 0 <= k < a.channels@.len() ==> #[trigger] b.channels@[k].id@
            == a.channels@[k].id@,
        forall|k: int| 0 <= k < a.channels@.len() && a.channels@[k].id@ == id
            ==> #[trigger] b.channels@[k].samples@ == a.channels@[k].samples@,
    ensures
        b.channel_samples(id) == a.channel_samples(id),
{
    if a.has_channel(id) {
        let ka = a.channel_index(id);
        assert(0 <= ka < a.channels@.len() && a.channels@[ka].id@ == id);
        assert(b.channels@[ka].id@ == id);
        assert(b.has_channel(id));
        let kb = b.channel_index(id);
        assert(0 <= kb < b.channels@.len() && b.channels@[kb].id@ == id);
        assert(a.channels@[kb].id@ == id);
        if ka != kb {
            if ka < kb {
                assert(a.channels@[ka].id@ != a.channels@[kb].id@);
            } else {
                assert(a.channels@[kb].id@ != a.channels@[ka].id@);
            }
        }
        assert(ka == kb);
    } else {
        if b.has_channel(id) {
            let kb = b.channel_index(id);
            assert(0 <= kb < b.channels@.len() && b.channels@[kb].id@ == id);
            assert(a.channels@[kb].id@ == id);
        }
        assert(!b.has_channel(id));
        assert(b.channel_samples(id) =~= a.channel_samples(id));
    }
}

/// After an append for `changed`, every other channel's samples are what
/// they were: the stores agree on all series whose id differs.
proof fn lemma_unchanged_other_channels(a: SampleStore, b: SampleStore, changed: Seq<char>)
    requires
        a.wf(),
        b.wf(),
        forall|k: int| 0 <= k < a.channels@.len() ==> #[trigger] b.channels@[k] == a.channels@[k]
            || b.channels@[k].id@ == changed,
        forall|k: int| 0 <= k < a.channels@.len() ==> #[trigger] b.channels@[k].id@
            == a.channels@[k].id@,
        b.channels@.len() == a.channels@.len() || (b.channels@.len() == a.channels@.len() + 1
            && b.channels@[a.channels@.len() as int].id@ == changed),
    ensures
        forall|id: Seq<char>| id != changed ==> #[trigger] b.channel_samples(id)
            == a.channel_samples(id),
{
    assert forall|id: Seq<char>| id != changed implies #[trigger] b.channel_samples(id)
        == a.channel_samples(id) by {
        if a.has_channel(id) {
            let ka = a.channel_index(id);
            assert(0 <= ka < a.channels@.len() && a.channels@[ka].id@ == id);
            assert(b.channels@[ka].id@ == id);
            assert(b.has_channel(id));
            let kb = b.channel_index(id);
            assert(0 <= kb < b.channels@.len() && b.channels@[kb].id@ == id);
            if kb < a.channels@.len() {
                assert(a.channels@[kb].id@ == id);
                if ka != kb {
                    if ka < kb {
                        assert(a.channels@[ka].id@ != a.channels@[kb].id@);
                    } else {
                        assert(a.channels@[kb].id@ != a.channels@[ka].id@);
                    }
                }
                assert(ka == kb);
                assert(b.channels@[ka] == a.channels@[ka]);
            } else {
                assert(b.channels@[kb].id@ == changed);
            }
        } else {
            if b.has_channel(id) {
                let kb = b.channel_index(id);
                assert(0 <= kb < b.channels@.len() && b.channels@[kb].id@ == id);
                if kb < a.channels@.len() {
                    assert(a.channels@[kb].id@ == id);
                    assert(a.has_channel(id));
                } else {
                    assert(b.channels@[kb].id@ == changed);
                }
            }
            assert(!b.has_channel(id));
            assert(b.channel_samples(id) =~= a.channel_samples(id));
        }
    }
}

/// Within one well-formed store, a channel's series never repeats a
/// timestamp: the (channel id, observed_at) key identifies at most one
/// sample, so an append can only ever add, never overwrite.
pub proof fn lemma_keys_never_repeat(store: SampleStore, id: Seq<char>, i: int, j: int)
    requires
        store.wf(),
        0 <= i < j < store.channel_samples(id).len(),
    ensures
        store.channel_samples(id)[i].0 != store.channel_samples(id)[j].0,
{
    if store.has_channel(id) {
        let k = store.channel_index(id);
        assert(0 <= k < store.channels@.len() && store.channels@[k].id@ == id);
        assert(store.channels@[k].wf());
    }
}

} // verus!

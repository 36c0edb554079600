//! Compression dictionaries: a store of dictionaries by id with a size
//! limit on imports, and a bounded queue of training samples. Times are
//! seconds since the Unix epoch.

use vstd::prelude::*;
use crate::net::compression::CompressionError;
use crate::text::{str_equal, decimal_chars, append_decimal};
use crate::platform::now_millis;

verus! {

/// A compression dictionary.
#[derive(Debug, Clone)]
pub struct Dictionary {
    pub id: String,
    pub data: Vec<u8>,
    pub created_at: u64,
    pub usage_count: u64,
    pub size: usize,
}

/// The age at `now` of what was made at `created`, in seconds; 0 for a
/// creation time after `now`.
pub open spec fn age_at(created: u64, now: u64) -> u64 {
    if now >= created { (now - created) as u64 } else { 0 }
}

/// A time of `ms` milliseconds since the Unix epoch in whole seconds
/// (rounded down); 0 for a time before the epoch.
pub open spec fn secs_of(ms: i64) -> u64 {
    if ms < 0 { 0 } else { (ms / 1000) as u64 }
}

/// The current time in whole seconds since the Unix epoch; 0 before it.
fn now_secs() -> (r: u64)
    ensures
        exists|ms: i64| r == #[trigger] secs_of(ms),
{
    let ms = now_millis();
    let r: u64 = if ms < 0 {
        0
    } else {
        (ms / 1000) as u64
    };
    assert(r == secs_of(ms));
    r
}

/// A copy of a byte vector.
fn copy_bytes(v: &Vec<u8>) -> (r: Vec<u8>)
    ensures
        r@ == v@,
{
    let mut r: Vec<u8> = Vec::new();
    let n = v.len();
    let mut i: usize = 0;
    while i < n
        invariant
            n == v@.len(),
            i <= n,
            r@ == v@.subrange(0, i as int),
        decreases n - i,
    {
        r.push(v[i]);
        i = i + 1;
        assert(r@ =~= v@.subrange(0, i as int));
    }
    assert(v@.subrange(0, n as int) =~= v@);
    r
}

impl Dictionary {
    /// A dictionary created at `now`, unused so far.
    pub fn new_at(id: String, data: Vec<u8>, now: u64) -> (r: Self)
        ensures
            r.id@ == id@,
            r.data@ == data@,
            r.size == data@.len(),
            r.created_at == now,
            r.usage_count == 0,
    {
        let size = data.len();
        Dictionary { id, data, created_at: now, usage_count: 0, size }
    }

    /// A dictionary created now, unused so far.
    pub fn new(id: String, data: Vec<u8>) -> (r: Self)
        ensures
            r.id@ == id@,
            r.data@ == data@,
            r.size == data@.len(),
            r.usage_count == 0,
            exists|ms: i64| r.created_at == #[trigger] secs_of(ms),
    {
        Dictionary::new_at(id, data, now_secs())
    }

    /// The dictionary's age at `now`; 0 for a creation time after `now`.
    pub fn age_seconds_at(&self, now: u64) -> (r: u64)
        ensures
            r == age_at(self.created_at, now),
    {
        now.saturating_sub(self.created_at)
    }

    /// The dictionary's age now.
    pub fn age_seconds(&self) -> (r: u64)
        ensures
            exists|now: u64| r == #[trigger] age_at(self.created_at, now),
    {
        self.age_seconds_at(now_secs())
    }

    /// A copy of the dictionary.
    pub fn copied(&self) -> (r: Self)
        ensures
            same_dictionary(r, *self),
    {
        Dictionary {
            id: self.id.clone(),
            data: copy_bytes(&self.data),
            created_at: self.created_at,
            usage_count: self.usage_count,
            size: self.size,
        }
    }
}

/// Whether two dictionaries agree in every field.
pub open spec fn same_dictionary(a: Dictionary, b: Dictionary) -> bool {
    &&& a.id@ == b.id@
    &&& a.data@ == b.data@
    &&& a.created_at == b.created_at
    &&& a.usage_count == b.usage_count
    &&& a.size == b.size
}

/// Dictionary configuration; the least effectiveness score is in
/// thousandths (100 stands for 0.1).
#[derive(Debug, Clone, Copy)]
pub struct DictionaryConfig {
    pub max_dictionaries: usize,
    pub max_dictionary_size: usize,
    pub min_training_samples: usize,
    pub max_age_seconds: u64,
    pub min_effectiveness_permille: u32,
}

impl Default for DictionaryConfig {
    fn default() -> (r: Self)
        ensures
            r.max_dictionaries == 10,
            r.max_dictionary_size == 65536,
            r.min_training_samples == 100,
            r.max_age_seconds == 86400,
            r.min_effectiveness_permille == 100,
    {
        DictionaryConfig {
            max_dictionaries: 10,
            max_dictionary_size: 64 * 1024,
            min_training_samples: 100,
            max_age_seconds: 24 * 60 * 60,
            min_effectiveness_permille: 100,
        }
    }
}

/// The position of the first dictionary with id `id` in `ds`, from `i` on.
pub open spec fn find_dictionary(ds: Seq<Dictionary>, id: Seq<char>, i: int) -> Option<int>
    decreases ds.len() - i,
{
    if i < 0 || i >= ds.len() {
        None
    } else if ds[i].id@ == id {
        Some(i)
    } else {
        find_dictionary(ds, id, i + 1)
    }
}

proof fn lemma_find_dictionary(ds: Seq<Dictionary>, id: Seq<char>, i: int)
    requires
        0 <= i,
    ensures
        find_dictionary(ds, id, i) matches Some(j) ==> i <= j < ds.len() && ds[j].id@ == id,
        find_dictionary(ds, id, i) is None ==> forall|j: int| i <= j < ds.len() ==> ds[j].id@ != id,
    decreases ds.len() - i,
{
    if i < ds.len() {
        lemma_find_dictionary(ds, id, i + 1);
    }
}

/// The sum of the sizes of `ds`.
pub open spec fn total_size(ds: Seq<Dictionary>) -> nat
    decreases ds.len(),
{
    if ds.len() == 0 {
        0
    } else {
        total_size(ds.drop_last()) + ds.last().size as nat
    }
}

/// The training samples kept after adding `sample` to `samples`: the
/// oldest one is dropped once there are more than `2 * min` of them.
pub open spec fn samples_after(samples: Seq<Seq<u8>>, sample: Seq<u8>, min: usize) -> Seq<Seq<u8>> {
    let added = samples.push(sample);
    if added.len() > 2 * min {
        added.drop_first()
    } else {
        added
    }
}

/// Dictionary manager for training and managing compression dictionaries.
#[derive(Debug)]
pub struct DictionaryManager {
    config: DictionaryConfig,
    dictionaries: Vec<Dictionary>,
    training_samples: Vec<Vec<u8>>,
}

impl DictionaryManager {
    pub closed spec fn config_spec(&self) -> DictionaryConfig {
        self.config
    }

    pub closed spec fn dictionaries_spec(&self) -> Seq<Dictionary> {
        self.dictionaries@
    }

    pub closed spec fn samples(&self) -> Seq<Seq<u8>> {
        self.training_samples@.map_values(|v: Vec<u8>| v@)
    }

    /// The dictionary with id `id`, if any.
    pub open spec fn dictionary(&self, id: Seq<char>) -> Option<Dictionary> {
        match find_dictionary(self.dictionaries_spec(), id, 0) {
            Some(j) => Some(self.dictionaries_spec()[j]),
            None => None,
        }
    }

    /// A manager with no dictionaries and no training samples.
    pub fn new(config: DictionaryConfig) -> (r: Self)
        ensures
            r.config_spec() == config,
            r.dictionaries_spec().len() == 0,
            r.samples().len() == 0,
    {
        let r = DictionaryManager { config, dictionaries: Vec::new(), training_samples: Vec::new() };
        assert(r.samples() =~= Seq::<Seq<u8>>::empty());
        r
    }

    /// The configuration.
    pub fn config(&self) -> (r: DictionaryConfig)
        ensures
            r == self.config_spec(),
    {
        self.config
    }

    /// Adds a training sample; once there are more than twice the
    /// least number of training samples, the oldest is dropped.
    pub fn add_training_sample(&mut self, data: Vec<u8>) -> (r: Result<(), CompressionError>)
        requires
            2 * old(self).config_spec().min_training_samples <= usize::MAX,
        ensures
            r is Ok,
            final(self).samples() == samples_after(old(self).samples(), data@, old(self).config_spec().min_training_samples),
            final(self).dictionaries_spec() == old(self).dictionaries_spec(),
            final(self).config_spec() == old(self).config_spec(),
    {
        let ghost d = data@;
        self.training_samples.push(data);
        assert(self.samples() =~= old(self).samples().push(d));
        if self.training_samples.len() > self.config.min_training_samples * 2 {
            let _oldest = self.training_samples.remove(0);
            assert(self.samples() =~= old(self).samples().push(d).drop_first());
        }
        Ok(())
    }

    /// The position of the dictionary with id `id`.
    fn position(&self, id: &str) -> (r: Option<usize>)
        ensures
            match r {
                Some(k) => find_dictionary(self.dictionaries_spec(), id@, 0) == Some(k as int),
                None => find_dictionary(self.dictionaries_spec(), id@, 0) is None,
            },
    {
        let n = self.dictionaries.len();
        let mut i: usize = 0;
        while i < n
            invariant
                n == self.dictionaries@.len(),
                i <= n,
                find_dictionary(self.dictionaries_spec(), id@, 0) == find_dictionary(self.dictionaries_spec(), id@, i as int),
            decreases n - i,
        {
            if str_equal(self.dictionaries[i].id.as_str(), id) {
                return Some(i);
            }
            i = i + 1;
        }
        None
    }

    /// A copy of the dictionary with id `id`, if any.
    pub fn get_dictionary(&self, id: &str) -> (r: Option<Dictionary>)
        ensures
            match self.dictionary(id@) {
                Some(d) => r matches Some(x) && same_dictionary(x, d),
                None => r is None,
            },
    {
        match self.position(id) {
            Some(k) => {
                proof {
                    lemma_find_dictionary(self.dictionaries_spec(), id@, 0);
                }
                Some(self.dictionaries[k].copied())
            },
            None => None,
        }
    }

    /// The ids of the dictionaries, in the order they were first imported.
    pub fn list_dictionaries(&self) -> (r: Vec<String>)
        ensures
            r@.map_values(|s: String| s@) == self.dictionaries_spec().map_values(|d: Dictionary| d.id@),
    {
        let mut r: Vec<String> = Vec::new();
        let n = self.dictionaries.len();
        let mut i: usize = 0;
        while i < n
            invariant
                n == self.dictionaries@.len(),
                i <= n,
                r@.len() == i,
                forall|k: int| 0 <= k < i ==> (#[trigger] r@[k])@ == self.dictionaries_spec()[k].id@,
            decreases n - i,
        {
            let id = self.dictionaries[i].id.clone();
            r.push(id);
            i = i + 1;
        }
        assert(r@.map_values(|s: String| s@) =~= self.dictionaries_spec().map_values(|d: Dictionary| d.id@));
        r
    }

    /// The total size of the dictionaries.
    pub fn memory_usage(&self) -> (r: usize)
        requires
            total_size(self.dictionaries_spec()) <= usize::MAX,
        ensures
            r == total_size(self.dictionaries_spec()),
    {
        let ghost ds = self.dictionaries_spec();
        let mut total: usize = 0;
        let n = self.dictionaries.len();
        let mut i: usize = 0;
        while i < n
            invariant
                ds == self.dictionaries_spec(),
                n == ds.len(),
                i <= n,
                total == total_size(ds.take(i as int)),
                total_size(ds) <= usize::MAX,
            decreases n - i,
        {
            assert(ds.take(i + 1).drop_last() =~= ds.take(i as int));
            proof {
                lemma_total_size_prefix(ds, i as int + 1);
            }
            total = total + self.dictionaries[i].size;
            i = i + 1;
        }
        assert(ds.take(n as int) =~= ds);
        total
    }

    /// Counts a use of the dictionary with id `id` and returns how many
    /// uses it had before, which the caller's running effectiveness average
    /// is weighted by; an unknown id is an error.
    pub fn update_dictionary_effectiveness(&mut self, id: &str) -> (r: Result<u64, CompressionError>)
        requires
            old(self).dictionary(id@) matches Some(d) ==> d.usage_count < u64::MAX,
        ensures
            final(self).config_spec() == old(self).config_spec(),
            final(self).samples() == old(self).samples(),
            match old(self).dictionary(id@) {
                None => r matches Err(CompressionError::DictionaryError { .. }) && final(self).dictionaries_spec()
                    == old(self).dictionaries_spec(),
                Some(d) => r == Ok::<u64, CompressionError>(d.usage_count) && ({
                    let j = find_dictionary(old(self).dictionaries_spec(), id@, 0)->0;
                    final(self).dictionaries_spec() == old(self).dictionaries_spec().update(
                        j,
                        Dictionary { usage_count: (d.usage_count + 1) as u64, ..d },
                    )
                }),
            },
    {
        match self.position(id) {
            Some(k) => {
                proof {
                    lemma_find_dictionary(self.dictionaries_spec(), id@, 0);
                }
                let mut d = self.dictionaries.remove(k);
                let before = d.usage_count;
                d.usage_count = d.usage_count + 1;
                self.dictionaries.insert(k, d);
                assert(self.dictionaries_spec() =~= old(self).dictionaries_spec().update(
                    k as int,
                    Dictionary { usage_count: (before + 1) as u64, ..old(self).dictionaries_spec()[k as int] },
                ));
                Ok(before)
            },
            None => {
                let mut reason = String::from_str("Dictionary not found: ");
                reason.append(id);
                Err(CompressionError::DictionaryError { reason })
            },
        }
    }

    /// The data of the dictionary with id `id`; an unknown id is an error.
    pub fn export_dictionary(&self, id: &str) -> (r: Result<Vec<u8>, CompressionError>)
        ensures
            match self.dictionary(id@) {
                Some(d) => r matches Ok(v) && v@ == d.data@,
                None => r matches Err(CompressionError::DictionaryError { .. }),
            },
    {
        match self.position(id) {
            Some(k) => {
                proof {
                    lemma_find_dictionary(self.dictionaries_spec(), id@, 0);
                }
                Ok(copy_bytes(&self.dictionaries[k].data))
            },
            None => {
                let mut reason = String::from_str("Dictionary not found: ");
                reason.append(id);
                Err(CompressionError::DictionaryError { reason })
            },
        }
    }

    /// Imports a dictionary created now under `id`, in place of a
    /// dictionary of the same id; data larger than the configured maximum
    /// is refused.
    pub fn import_dictionary(&mut self, id: String, data: Vec<u8>) -> (r: Result<(), CompressionError>)
        ensures
            final(self).config_spec() == old(self).config_spec(),
            final(self).samples() == old(self).samples(),
            data@.len() > old(self).config_spec().max_dictionary_size ==> (r matches Err(
                CompressionError::DictionaryError { .. },
            ) && final(self).dictionaries_spec() == old(self).dictionaries_spec()),
            data@.len() <= old(self).config_spec().max_dictionary_size ==> r is Ok && (final(self).dictionary(id@) matches Some(
                d,
            ) && d.id@ == id@ && d.data@ == data@ && d.size == data@.len() && d.usage_count == 0),
            forall|q: Seq<char>| q != id@ ==> #[trigger] final(self).dictionary(q) == old(self).dictionary(q),
    {
        if data.len() > self.config.max_dictionary_size {
            let mut reason = String::from_str("Dictionary too large: ");
            append_decimal(&mut reason, data.len());
            reason.append(" > ");
            append_decimal(&mut reason, self.config.max_dictionary_size);
            return Err(CompressionError::DictionaryError { reason });
        }
        let ghost ds = self.dictionaries_spec();
        let pos = self.position(id.as_str());
        let dictionary = Dictionary::new(id, data);
        let ghost dv = dictionary;
        proof {
            lemma_find_dictionary(ds, dv.id@, 0);
        }
        match pos {
            Some(k) => {
                proof {
                    lemma_find_dictionary(ds, dv.id@, 0);
                    assert forall|q: Seq<char>| #[trigger] find_dictionary(ds.update(k as int, dv), q, 0) == find_dictionary(ds, q, 0) by {
                        lemma_find_dictionary_update(ds, k as int, dv, q, 0);
                    }
                }
                self.dictionaries.set(k, dictionary);
                assert(self.dictionaries_spec() == ds.update(k as int, dv));
                proof {
                    assert forall|q: Seq<char>| q != dv.id@ implies #[trigger] self.dictionary(q) == old(self).dictionary(q) by {
                        lemma_find_dictionary(ds, q, 0);
                        if let Some(j) = find_dictionary(ds, q, 0) {
                            assert(j != k);
                        }
                    }
                }
            },
            None => {
                self.dictionaries.push(dictionary);
                assert(self.dictionaries_spec() == ds.push(dv));
                proof {
                    lemma_find_dictionary_push(ds, dv, dv.id@, 0);
                    assert(ds.push(dv)[ds.len() as int] == dv);
                    assert forall|q: Seq<char>| q != dv.id@ implies #[trigger] self.dictionary(q) == old(self).dictionary(q) by {
                        lemma_find_dictionary_push(ds, dv, q, 0);
                        lemma_find_dictionary(ds, q, 0);
                        if let Some(j) = find_dictionary(ds, q, 0) {
                            assert(ds.push(dv)[j] == ds[j]);
                        }
                    }
                }
            },
        }
        Ok(())
    }
}

proof fn lemma_total_size_prefix(ds: Seq<Dictionary>, i: int)
    requires
        0 <= i <= ds.len(),
    ensures
        total_size(ds.take(i)) <= total_size(ds),
    decreases ds.len() - i,
{
    if i < ds.len() {
        lemma_total_size_prefix(ds, i + 1);
        assert(ds.take(i + 1).drop_last() =~= ds.take(i));
    } else {
        assert(ds.take(i) =~= ds);
    }
}

proof fn lemma_find_dictionary_update(ds: Seq<Dictionary>, k: int, d: Dictionary, id: Seq<char>, i: int)
    requires
        0 <= i,
        0 <= k < ds.len(),
        d.id@ == ds[k].id@,
    ensures
        find_dictionary(ds.update(k, d), id, i) == find_dictionary(ds, id, i),
    decreases ds.len() - i,
{
    if i < ds.len() {
        lemma_find_dictionary_update(ds, k, d, id, i + 1);
    }
}

proof fn lemma_find_dictionary_push(ds: Seq<Dictionary>, d: Dictionary, id: Seq<char>, i: int)
    requires
        0 <= i <= ds.len(),
    ensures
        find_dictionary(ds, id, i) is Some ==> find_dictionary(ds.push(d), id, i) == find_dictionary(ds, id, i),
        find_dictionary(ds, id, i) is None ==> find_dictionary(ds.push(d), id, i) == (if d.id@ == id {
            Some(ds.len() as int)
        } else {
            None::<int>
        }),
    decreases ds.len() - i,
{
    if i < ds.len() {
        lemma_find_dictionary_push(ds, d, id, i + 1);
        assert(ds.push(d)[i] == ds[i]);
    } else {
        assert(ds.push(d)[i] == d);
        assert(find_dictionary(ds.push(d), id, i + 1) is None);
    }
}

} // verus!

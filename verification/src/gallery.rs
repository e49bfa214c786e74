//! The image batch prefetch pipeline: an unbounded logical sequence of
//! remote image references materialized in finite ten-key batches, with a
//! look-ahead trigger that starts prefetching the next batch two
//! positions before the current one runs out.
//!
//! A reference is its key: a monotonically increasing disambiguator the
//! collaborator turns into a concrete request. Loading is genuinely
//! asynchronous: the pipeline issues instructions and consumes discrete
//! completion signals; a failed load is counted as complete by the
//! caller (fail-open), so one bad asset never blocks a batch.

use vstd::prelude::*;

verus! {

/// An instruction to the external image-loading collaborator.
#[derive(Debug, Clone, PartialEq)]
pub enum Effect {
    /// Nothing to load.
    Nothing,
    /// Load every key of the first visible batch.
    PreloadInitial(Vec<u64>),
    /// Load every key of the look-ahead batch in the background.
    PreloadNext(Vec<u64>),
}

/// The gallery state.
#[derive(Debug)]
pub struct Gallery {
    /// The keys of every image the user can currently cycle through.
    pub current_batch: Vec<u64>,
    /// The position currently shown.
    pub current_index: usize,
    /// Whether the first batch is still loading.
    pub is_loading_current: bool,
    /// Completion signals received for the first batch.
    pub loaded_count: usize,
    /// Whether a look-ahead batch is loading in the background.
    pub is_prefetching_next: bool,
    /// The keys of the look-ahead batch, only while prefetching.
    pub next_batch: Vec<u64>,
    /// Completion signals received for the look-ahead batch.
    pub next_loaded_count: usize,
    /// How many keys have ever been materialized.
    pub total_ever_loaded: usize,
}

/// The mathematical model of `Gallery`.
#[verifier::ext_equal]
pub struct GalleryModel {
    pub batch: Seq<u64>,
    pub index: int,
    pub loading: bool,
    pub loaded: int,
    pub prefetching: bool,
    pub next: Seq<u64>,
    pub next_loaded: int,
    pub total: int,
}

impl View for Gallery {
    type V = GalleryModel;

    open spec fn view(&self) -> GalleryModel {
        GalleryModel {
            batch: self.current_batch@,
            index: self.current_index as int,
            loading: self.is_loading_current,
            loaded: self.loaded_count as int,
            prefetching: self.is_prefetching_next,
            next: self.next_batch@,
            next_loaded: self.next_loaded_count as int,
            total: self.total_ever_loaded as int,
        }
    }
}

/// Well-formedness: the index stays inside a non-empty batch, the total
/// mirrors the materialized keys, and a look-ahead batch exists exactly
/// while it is being prefetched.
pub open spec fn gallery_wf(m: GalleryModel) -> bool {
    &&& (m.batch.len() > 0 ==> 0 <= m.index < m.batch.len())
    &&& (m.batch.len() == 0 ==> m.index == 0 && !m.loading && !m.prefetching)
    &&& m.total == m.batch.len()
    &&& 0 <= m.loaded <= m.batch.len()
    &&& (m.loading ==> m.loaded < m.batch.len() && !m.prefetching)
    &&& (!m.prefetching ==> m.next.len() == 0 && m.next_loaded == 0)
    &&& (m.prefetching ==> m.next.len() == 10 && 0 <= m.next_loaded < 10)
}

/// The gallery before anything was loaded.
pub open spec fn empty_gallery_model() -> GalleryModel {
    GalleryModel {
        batch: Seq::empty(),
        index: 0,
        loading: false,
        loaded: 0,
        prefetching: false,
        next: Seq::empty(),
        next_loaded: 0,
        total: 0,
    }
}

/// Ten consecutive keys starting at `start`.
pub open spec fn keys_from(start: int) -> Seq<u64> {
    Seq::new(10, |i: int| (start + i) as u64)
}

/// The first batch materialized and sent off to load.
pub open spec fn start_initial_model(m: GalleryModel, base: u64) -> GalleryModel {
    GalleryModel {
        batch: keys_from(base as int),
        index: 0,
        loading: true,
        loaded: 0,
        total: 10,
        ..m
    }
}

/// The keys of a look-ahead batch issued at time `base` after `total`
/// keys were ever materialized.
pub open spec fn next_keys(base: u64, total: int) -> Seq<u64> {
    keys_from(base as int + total + 1000)
}

/// One `advance`: like the initial load from the empty state, a no-op
/// while the first batch still loads, and otherwise one circular step
/// forward, starting the look-ahead prefetch when the new position lies
/// within the last two of the batch and none is running yet.
pub open spec fn advance_model(m: GalleryModel, base: u64) -> GalleryModel {
    if m.batch.len() == 0 {
        start_initial_model(m, base)
    } else if m.loading {
        m
    } else {
        let idx = (m.index + 1) % (m.batch.len() as int);
        let m1 = GalleryModel { index: idx, ..m };
        if idx + 2 >= m.batch.len() && !m.prefetching {
            GalleryModel {
                prefetching: true,
                next: next_keys(base, m.total),
                next_loaded: 0,
                ..m1
            }
        } else {
            m1
        }
    }
}

/// One completion signal for the first batch; the last one clears the
/// loading flag and shows the first image.
pub open spec fn image_loaded_model(m: GalleryModel) -> GalleryModel {
    if m.loading {
        let loaded = m.loaded + 1;
        if loaded >= m.batch.len() {
            GalleryModel { loaded: loaded, loading: false, index: 0, ..m }
        } else {
            GalleryModel { loaded: loaded, ..m }
        }
    } else {
        m
    }
}

/// The whole first batch reported loaded at once.
pub open spec fn all_loaded_model(m: GalleryModel) -> GalleryModel {
    if m.loading {
        GalleryModel { loading: false, index: 0, ..m }
    } else {
        m
    }
}

/// The look-ahead batch merged into the visible one: the batch is the
/// concatenation, the index is untouched, and the look-ahead slot
/// clears.
pub open spec fn merge_model(m: GalleryModel) -> GalleryModel {
    GalleryModel {
        batch: m.batch + m.next,
        total: m.batch.len() + m.next.len() as int,
        prefetching: false,
        next: Seq::empty(),
        next_loaded: 0,
        ..m
    }
}

/// One completion signal for the look-ahead batch; the last one merges
/// it.
pub open spec fn next_image_loaded_model(m: GalleryModel) -> GalleryModel {
    if m.prefetching {
        let nl = m.next_loaded + 1;
        if nl >= m.next.len() {
            merge_model(m)
        } else {
            GalleryModel { next_loaded: nl, ..m }
        }
    } else {
        m
    }
}

impl Gallery {
    /// The gallery before anything was loaded.
    pub fn new() -> (r: Gallery)
        ensures
            r@ == empty_gallery_model(),
            gallery_wf(r@),
    {
        let r = Gallery {
            current_batch: Vec::new(),
            current_index: 0,
            is_loading_current: false,
            loaded_count: 0,
            is_prefetching_next: false,
            next_batch: Vec::new(),
            next_loaded_count: 0,
            total_ever_loaded: 0,
        };
        proof {
            assert(r@ =~~= empty_gallery_model());
        }
        r
    }

    /// Materializes the first ten-key batch and instructs the
    /// collaborator to load every key.
    pub fn start_initial_batch(&mut self, base: u64) -> (r: Effect)
        requires
            gallery_wf(old(self)@),
            old(self)@.batch.len() == 0,
            base as int + 10 <= u64::MAX,
        ensures
            gallery_wf(final(self)@),
            final(self)@ == start_initial_model(old(self)@, base),
            r matches Effect::PreloadInitial(keys) && keys@ == keys_from(base as int),
    {
        self.is_loading_current = true;
        self.loaded_count = 0;
        self.current_index = 0;
        let mut keys: Vec<u64> = Vec::new();
        let mut sent: Vec<u64> = Vec::new();
        let mut i: u64 = 0;
        while i < 10
            invariant
                0 <= i <= 10,
                base as int + 10 <= u64::MAX,
                keys@ =~= keys_from(base as int).take(i as int),
                sent@ == keys@,
            decreases 10 - i,
        {
            let k: u64 = base + i;
            keys.push(k);
            sent.push(k);
            proof {
                assert(keys@ =~= keys_from(base as int).take(i + 1));
            }
            i = i + 1;
        }
        proof {
            assert(keys@ =~= keys_from(base as int));
        }
        self.current_batch = keys;
        self.total_ever_loaded = self.current_batch.len();
        proof {
            assert(self@ =~~= start_initial_model(old(self)@, base));
        }
        Effect::PreloadInitial(sent)
    }

    /// Advances to the next image, loading the first batch from the
    /// empty state and triggering the look-ahead prefetch near the end
    /// of the batch.
    pub fn advance(&mut self, base: u64) -> (r: Effect)
        requires
            gallery_wf(old(self)@),
            base as int + old(self)@.total + 1010 <= u64::MAX,
        ensures
            gallery_wf(final(self)@),
            final(self)@ == advance_model(old(self)@, base),
            old(self)@.batch.len() == 0 ==> (r matches Effect::PreloadInitial(keys) && keys@
                == keys_from(base as int)),
            old(self)@.batch.len() > 0 && advance_model(old(self)@, base).prefetching
                && !old(self)@.prefetching ==> (r matches Effect::PreloadNext(keys) && keys@
                == next_keys(base, old(self)@.total)),
            old(self)@.batch.len() > 0 && (advance_model(old(self)@, base).prefetching
                <==> old(self)@.prefetching) ==> r == Effect::Nothing,
    {
        if self.current_batch.len() == 0 {
            self.start_initial_batch(base)
        } else if !self.is_loading_current {
            let len = self.current_batch.len();
            self.current_index = (self.current_index + 1) % len;
            if len - self.current_index <= 2 && !self.is_prefetching_next {
                self.is_prefetching_next = true;
                self.next_loaded_count = 0;
                let start: u64 = base + self.total_ever_loaded as u64 + 1000;
                let mut keys: Vec<u64> = Vec::new();
                let mut sent: Vec<u64> = Vec::new();
                let mut i: u64 = 0;
                while i < 10
                    invariant
                        0 <= i <= 10,
                        start as int + 10 <= u64::MAX,
                        keys@ =~= keys_from(start as int).take(i as int),
                        sent@ == keys@,
                    decreases 10 - i,
                {
                    let k: u64 = start + i;
                    keys.push(k);
                    sent.push(k);
                    proof {
                        assert(keys@ =~= keys_from(start as int).take(i + 1));
                    }
                    i = i + 1;
                }
                proof {
                    assert(keys@ =~= next_keys(base, old(self)@.total));
                }
                self.next_batch = keys;
                proof {
                    assert(self@ =~~= advance_model(old(self)@, base));
                }
                Effect::PreloadNext(sent)
            } else {
                proof {
                    assert(self@ =~~= advance_model(old(self)@, base));
                }
                Effect::Nothing
            }
        } else {
            Effect::Nothing
        }
    }

    /// Consumes one completion signal for the first batch. The signal
    /// carries the index the collaborator addressed; completion counts
    /// signals, not indices.
    pub fn image_loaded(&mut self, index: usize)
        requires
            gallery_wf(old(self)@),
        ensures
            gallery_wf(final(self)@),
            final(self)@ == image_loaded_model(old(self)@),
    {
        let _ = index;
        if self.is_loading_current {
            self.loaded_count = self.loaded_count + 1;
            if self.loaded_count >= self.current_batch.len() {
                self.is_loading_current = false;
                self.current_index = 0;
            }
        }
        proof {
            assert(self@ =~~= image_loaded_model(old(self)@));
        }
    }

    /// Consumes the signal that the whole first batch finished.
    pub fn all_images_loaded(&mut self)
        requires
            gallery_wf(old(self)@),
        ensures
            gallery_wf(final(self)@),
            final(self)@ == all_loaded_model(old(self)@),
    {
        if self.is_loading_current {
            self.is_loading_current = false;
            self.current_index = 0;
        }
        proof {
            assert(self@ =~~= all_loaded_model(old(self)@));
        }
    }

    /// Consumes one completion signal for the look-ahead batch; the last
    /// one merges it into the visible batch.
    pub fn next_batch_image_loaded(&mut self)
        requires
            gallery_wf(old(self)@),
        ensures
            gallery_wf(final(self)@),
            final(self)@ == next_image_loaded_model(old(self)@),
    {
        if self.is_prefetching_next {
            self.next_loaded_count = self.next_loaded_count + 1;
            if self.next_loaded_count >= self.next_batch.len() {
                self.merge_next_batch();
            }
        }
        proof {
            assert(self@ =~~= next_image_loaded_model(old(self)@));
        }
    }

    /// Consumes the signal that the whole look-ahead batch finished.
    pub fn next_batch_complete(&mut self)
        requires
            gallery_wf(old(self)@),
        ensures
            gallery_wf(final(self)@),
            final(self)@ == merge_model(old(self)@),
    {
        self.merge_next_batch();
    }

    /// Appends the look-ahead keys to the visible batch, keeping the
    /// current position, and clears the look-ahead slot.
    fn merge_next_batch(&mut self)
        requires
            gallery_wf(old(self)@) || (old(self)@.prefetching
                && old(self)@.next_loaded == old(self)@.next.len() && gallery_wf(
                GalleryModel { next_loaded: 0, ..old(self)@ },
            )),
        ensures
            final(self)@ == merge_model(old(self)@),
            gallery_wf(final(self)@),
    {
        self.current_batch.append(&mut self.next_batch);
        self.total_ever_loaded = self.current_batch.len();
        self.is_prefetching_next = false;
        self.next_loaded_count = 0;
        proof {
            assert(self@ =~~= merge_model(old(self)@));
        }
    }
}

// ------------------------------------------------------------------
// Laws
// ------------------------------------------------------------------
/// The gallery after `n` advances with the same time base.
pub open spec fn advance_n(m: GalleryModel, base: u64, n: int) -> GalleryModel
    decreases n,
{
    if n <= 0 {
        m
    } else {
        advance_model(advance_n(m, base, n - 1), base)
    }
}

/// Law: from a freshly loaded ten-key batch, advancing `j` times walks
/// the index forward one position per step and triggers the look-ahead
/// prefetch exactly at the step whose new index first lies within two
/// positions of the end - once, and not before.
pub proof fn lemma_first_trigger_at_eight(m: GalleryModel, base: u64, j: int)
    requires
        gallery_wf(m),
        m.batch.len() == 10,
        m.index == 0,
        !m.loading,
        !m.prefetching,
        0 <= j <= 8,
    ensures
        advance_n(m, base, j).index == j,
        advance_n(m, base, j).prefetching <==> j == 8,
        advance_n(m, base, j).batch == m.batch,
        advance_n(m, base, j).total == m.total,
        !advance_n(m, base, j).loading,
        gallery_wf(advance_n(m, base, j)),
    decreases j,
{
    if j > 0 {
        lemma_first_trigger_at_eight(m, base, j - 1);
        let prev = advance_n(m, base, j - 1);
        vstd::arithmetic::div_mod::lemma_small_mod(j as nat, 10);
        assert((prev.index + 1) % (prev.batch.len() as int) == j);
    }
}

/// Law: merging the resolved look-ahead batch grows the visible batch
/// by exactly the prefetched ten keys, appended behind the existing
/// ones, and the current index survives the merge unchanged.
pub proof fn lemma_merge_grows_by_ten(m: GalleryModel)
    requires
        gallery_wf(m),
        m.prefetching,
    ensures
        merge_model(m).batch.len() == m.batch.len() + 10,
        merge_model(m).index == m.index,
        merge_model(m).batch.take(m.batch.len() as int) == m.batch,
        !merge_model(m).prefetching,
        gallery_wf(merge_model(m)),
    decreases m.batch.len(),
{
    assert(merge_model(m).batch.take(m.batch.len() as int) =~= m.batch);
}

/// Law: while a look-ahead batch is already loading, advancing never
/// starts a second one, and the pending keys stay exactly as issued.
pub proof fn lemma_no_double_prefetch(m: GalleryModel, base: u64)
    requires
        gallery_wf(m),
        m.batch.len() > 0,
        !m.loading,
        m.prefetching,
    ensures
        advance_model(m, base).next == m.next,
        advance_model(m, base).prefetching,
        advance_model(m, base).batch == m.batch,
{
}

} // verus!

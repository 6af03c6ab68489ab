use vstd::prelude::*;

verus! {

/// The tables by which a track finds and times the samples that lie in
/// chunks, as far as reading a sample consults them.
#[derive(Debug, Clone, PartialEq, Eq)]
pub struct ChunkTables {
    /// Sample-to-chunk runs: the number of the first chunk of a run, and
    /// the samples in each of its chunks.
    pub chunk_runs: Vec<(u32, u32)>,
    /// Time-to-sample runs: a number of samples, and the duration of each.
    pub time_runs: Vec<(u32, u32)>,
    /// The size that all samples share, or 0 where `sizes` gives them.
    pub fixed_size: u32,
    /// The size of each sample.
    pub sizes: Vec<u32>,
    /// The chunk offsets that are stored in 64 bits.
    pub wide_offsets: Vec<u64>,
}

/// The mathematical value of `ChunkTables`.
pub struct ChunkTablesView {
    pub chunk_runs: Seq<(u32, u32)>,
    pub time_runs: Seq<(u32, u32)>,
    pub fixed_size: u32,
    pub sizes: Seq<u32>,
    pub wide_offsets: Seq<u64>,
}

impl View for ChunkTables {
    type V = ChunkTablesView;

    open spec fn view(&self) -> ChunkTablesView {
        ChunkTablesView {
            chunk_runs: self.chunk_runs@,
            time_runs: self.time_runs@,
            fixed_size: self.fixed_size,
            sizes: self.sizes@,
            wide_offsets: self.wide_offsets@,
        }
    }
}

/// What the movie fragments of a track say of its samples, as far as
/// reading a sample consults it.
#[derive(Debug, Clone, PartialEq, Eq)]
pub struct FragmentRuns {
    /// For each movie fragment of the track, the number of samples in its
    /// run, if it has a run.
    pub samples: Vec<Option<u32>>,
    /// The sizes that the runs list for their samples, run after run.
    pub sizes: Vec<u32>,
    /// The duration of each sample.
    pub sample_duration: u32,
}

/// The mathematical value of `FragmentRuns`.
pub struct FragmentRunsView {
    pub samples: Seq<Option<u32>>,
    pub sizes: Seq<u32>,
    pub sample_duration: u32,
}

impl View for FragmentRuns {
    type V = FragmentRunsView;

    open spec fn view(&self) -> FragmentRunsView {
        FragmentRunsView {
            samples: self.samples@,
            sizes: self.sizes@,
            sample_duration: self.sample_duration,
        }
    }
}

/// The tables by which a source track finds and times its samples: in
/// chunks, or in movie fragments where it has any.
#[derive(Debug, Clone, PartialEq, Eq)]
pub struct SampleTables {
    pub chunks: ChunkTables,
    pub fragments: FragmentRuns,
}

/// The mathematical value of `SampleTables`.
pub struct SampleTablesView {
    pub chunks: ChunkTablesView,
    pub fragments: FragmentRunsView,
}

impl View for SampleTables {
    type V = SampleTablesView;

    open spec fn view(&self) -> SampleTablesView {
        SampleTablesView { chunks: self.chunks@, fragments: self.fragments@ }
    }
}

/// Whether none of the sizes is larger than `limit`.
pub open spec fn all_within(sizes: Seq<u32>, limit: nat) -> bool {
    forall|i: int| 0 <= i < sizes.len() ==> #[trigger] sizes[i] <= limit
}

/// The number of samples that the time-to-sample runs cover.
pub open spec fn run_samples(runs: Seq<(u32, u32)>) -> nat
    decreases runs.len(),
{
    if runs.len() == 0 {
        0
    } else {
        run_samples(runs.drop_last()) + runs.last().0 as nat
    }
}

/// The ticks that the time-to-sample runs cover.
pub open spec fn run_ticks(runs: Seq<(u32, u32)>) -> nat
    decreases runs.len(),
{
    if runs.len() == 0 {
        0
    } else {
        run_ticks(runs.drop_last()) + (runs.last().0 as nat) * (runs.last().1 as nat)
    }
}

/// The sum of the sizes.
pub open spec fn total_size(sizes: Seq<u32>) -> nat
    decreases sizes.len(),
{
    if sizes.len() == 0 {
        0
    } else {
        total_size(sizes.drop_last()) + sizes.last() as nat
    }
}

/// The number of samples in the runs of the movie fragments.
pub open spec fn fragment_samples(fragments: Seq<Option<u32>>) -> nat
    decreases fragments.len(),
{
    if fragments.len() == 0 {
        0
    } else {
        fragment_samples(fragments.drop_last()) + match fragments.last() {
            Some(n) => n as nat,
            None => 0,
        }
    }
}

impl SampleTablesView {
    /// Whether the track's samples lie in movie fragments.
    pub open spec fn fragmented(self) -> bool {
        self.fragments.samples.len() > 0
    }

    /// Every chunk run starts at a chunk numbered from 1 and has samples in
    /// its chunks. A reader divides by the samples of a chunk and looks a
    /// chunk up under its number less one.
    pub open spec fn chunks_sound(self) -> bool {
        forall|j: int|
            0 <= j < self.chunks.chunk_runs.len() ==> (#[trigger] self.chunks.chunk_runs[j]).0 >= 1
                && self.chunks.chunk_runs[j].1 >= 1
    }

    /// As many samples as a chunk can hold, each of any size that occurs,
    /// take no more than 32 bits of bytes.
    pub open spec fn chunks_roomy(self) -> bool {
        &&& forall|j: int|
            0 <= j < self.chunks.chunk_runs.len() ==> self.chunks.fixed_size * (
            #[trigger] self.chunks.chunk_runs[j]).1 <= u32::MAX
        &&& forall|i: int, j: int|
            0 <= i < self.chunks.sizes.len() && 0 <= j < self.chunks.chunk_runs.len() ==> (
            #[trigger] self.chunks.sizes[i]) * (#[trigger] self.chunks.chunk_runs[j]).1 <= u32::MAX
    }

    /// The samples that precede a sample in its chunk take no more than 32
    /// bits of bytes, in which a reader adds up their sizes: either no
    /// chunk has room for more, or the sizes are listed and all of them
    /// together are no more.
    pub open spec fn sizes_sound(self) -> bool {
        self.chunks_roomy() || (self.chunks.fixed_size == 0 && total_size(self.chunks.sizes) <= u32::MAX)
    }

    /// Every wide chunk offset leaves room for an offset inside the chunk,
    /// which a reader adds to it in 64 bits.
    pub open spec fn offsets_sound(self) -> bool {
        forall|i: int|
            0 <= i < self.chunks.wide_offsets.len() ==> #[trigger] self.chunks.wide_offsets[i] <= u64::MAX
                - u32::MAX
    }

    /// The time-to-sample runs count their samples in 32 bits, the first
    /// sample being number 1, and their ticks in 64 bits. A reader adds up
    /// both, run by run, to find the start of a sample.
    pub open spec fn times_sound(self) -> bool {
        &&& run_samples(self.chunks.time_runs) < u32::MAX
        &&& run_ticks(self.chunks.time_runs) <= u64::MAX
    }

    /// The movie fragments are counted in 32 bits, and so are their
    /// samples; if they hold more than one sample, they hold at least one
    /// per fragment; and the start of the last sample, in ticks, fits in 32
    /// bits. A reader divides the number of samples by that of the fragments
    /// and, for every sample but the first, takes a remainder by the
    /// quotient; it multiplies the number of a sample, less one, by the
    /// duration of a sample.
    pub open spec fn fragments_sound(self) -> bool {
        &&& self.fragments.samples.len() <= u32::MAX
        &&& fragment_samples(self.fragments.samples) <= u32::MAX
        &&& fragment_samples(self.fragments.samples) >= 2 ==> fragment_samples(self.fragments.samples)
            >= self.fragments.samples.len()
        &&& fragment_samples(self.fragments.samples) >= 1 ==> (fragment_samples(self.fragments.samples) - 1)
            * self.fragments.sample_duration <= u32::MAX
    }

    /// No sample is larger than `limit` bytes. A reader makes room for a
    /// sample of the size listed before it reads the sample.
    pub open spec fn sizes_within(self, limit: nat) -> bool {
        if self.fragmented() {
            all_within(self.fragments.sizes, limit)
        } else {
            self.chunks.fixed_size <= limit && all_within(self.chunks.sizes, limit)
        }
    }

    /// Whether the tables are consistent enough for every sample that they
    /// cover to be looked up by plain machine arithmetic, in a container of
    /// `limit` bytes.
    pub open spec fn sound(self, limit: nat) -> bool {
        &&& self.sizes_within(limit)
        &&& if self.fragmented() {
            self.fragments_sound()
        } else {
            self.chunks_sound() && self.sizes_sound() && self.offsets_sound()
                && self.times_sound()
        }
    }

    /// The number of samples that sound tables give a time to. Samples are
    /// numbered from 1 up to this number.
    pub open spec fn covered(self) -> nat {
        if self.fragmented() {
            fragment_samples(self.fragments.samples)
        } else {
            run_samples(self.chunks.time_runs)
        }
    }
}

/// The first runs cover no more samples than all runs.
proof fn lemma_run_samples_grow(runs: Seq<(u32, u32)>, n: int)
    requires
        0 <= n <= runs.len(),
    ensures
        run_samples(runs.take(n)) <= run_samples(runs),
    decreases runs.len() - n,
{
    if n < runs.len() {
        lemma_run_samples_grow(runs, n + 1);
        assert(runs.take(n + 1).drop_last() =~= runs.take(n));
    } else {
        assert(runs.take(n) =~= runs);
    }
}

/// The first runs cover no more ticks than all runs.
proof fn lemma_run_ticks_grow(runs: Seq<(u32, u32)>, n: int)
    requires
        0 <= n <= runs.len(),
    ensures
        run_ticks(runs.take(n)) <= run_ticks(runs),
    decreases runs.len() - n,
{
    if n < runs.len() {
        lemma_run_ticks_grow(runs, n + 1);
        assert(runs.take(n + 1).drop_last() =~= runs.take(n));
        assert((runs[n].0 as nat) * (runs[n].1 as nat) >= 0) by (nonlinear_arith);
    } else {
        assert(runs.take(n) =~= runs);
    }
}

/// The first sizes add up to no more than all sizes.
proof fn lemma_total_size_grows(sizes: Seq<u32>, n: int)
    requires
        0 <= n <= sizes.len(),
    ensures
        total_size(sizes.take(n)) <= total_size(sizes),
    decreases sizes.len() - n,
{
    if n < sizes.len() {
        lemma_total_size_grows(sizes, n + 1);
        assert(sizes.take(n + 1).drop_last() =~= sizes.take(n));
    } else {
        assert(sizes.take(n) =~= sizes);
    }
}

/// The first fragments hold no more samples than all fragments.
proof fn lemma_fragment_samples_grow(fragments: Seq<Option<u32>>, n: int)
    requires
        0 <= n <= fragments.len(),
    ensures
        fragment_samples(fragments.take(n)) <= fragment_samples(fragments),
    decreases fragments.len() - n,
{
    if n < fragments.len() {
        lemma_fragment_samples_grow(fragments, n + 1);
        assert(fragments.take(n + 1).drop_last() =~= fragments.take(n));
    } else {
        assert(fragments.take(n) =~= fragments);
    }
}

/// A product of two numbers that are not negative grows with both.
proof fn lemma_product_grows(a: int, b: int, c: int, d: int)
    requires
        0 <= a <= c,
        0 <= b <= d,
    ensures
        a * b <= c * d,
{
    assert(a * b <= c * b) by (nonlinear_arith)
        requires
            0 <= a <= c,
            0 <= b,
    ;
    assert(c * b <= c * d) by (nonlinear_arith)
        requires
            0 <= c,
            0 <= b <= d,
    ;
}

/// Tells whether none of the sizes is larger than `limit`.
fn check_within(sizes: &Vec<u32>, limit: usize) -> (r: bool)
    ensures
        r == all_within(sizes@, limit as nat),
{
    let mut i: usize = 0;
    while i < sizes.len()
        invariant
            0 <= i <= sizes@.len(),
            forall|k: int| 0 <= k < i ==> #[trigger] sizes@[k] <= limit,
        decreases sizes@.len() - i,
    {
        if sizes[i] as usize > limit {
            return false;
        }
        i = i + 1;
    }
    true
}

impl SampleTables {
    /// Whether every chunk run is sound, and the largest number of samples
    /// in a chunk of any run (0 where there is no run).
    fn check_chunks(&self) -> (r: (bool, u32))
        ensures
            r.0 == self@.chunks_sound(),
            forall|j: int| 0 <= j < self.chunks.chunk_runs@.len() ==> (#[trigger] self.chunks.chunk_runs@[j]).1 <= r.1,
            self.chunks.chunk_runs@.len() == 0 ==> r.1 == 0,
            self.chunks.chunk_runs@.len() > 0 ==> exists|j: int|
                0 <= j < self.chunks.chunk_runs@.len() && (#[trigger] self.chunks.chunk_runs@[j]).1 == r.1,
    {
        let mut sound: bool = true;
        let mut most: u32 = 0;
        let mut j: usize = 0;
        while j < self.chunks.chunk_runs.len()
            invariant
                0 <= j <= self.chunks.chunk_runs@.len(),
                sound <==> forall|k: int|
                    0 <= k < j ==> (#[trigger] self.chunks.chunk_runs@[k]).0 >= 1 && self.chunks.chunk_runs@[k].1
                        >= 1,
                forall|k: int| 0 <= k < j ==> (#[trigger] self.chunks.chunk_runs@[k]).1 <= most,
                j == 0 ==> most == 0,
                j > 0 ==> exists|k: int| 0 <= k < j && (#[trigger] self.chunks.chunk_runs@[k]).1 == most,
            decreases self.chunks.chunk_runs@.len() - j,
        {
            let run = self.chunks.chunk_runs[j];
            if run.0 < 1 || run.1 < 1 {
                sound = false;
            }
            if run.1 >= most {
                most = run.1;
            }
            j = j + 1;
        }
        assert(self@.chunks.chunk_runs == self.chunks.chunk_runs@);
        (sound, most)
    }

    /// The largest size that a sample may have: the fixed size or the
    /// largest size listed, whichever is larger.
    fn largest_size(&self) -> (r: u32)
        ensures
            self.chunks.fixed_size <= r,
            forall|i: int| 0 <= i < self.chunks.sizes@.len() ==> #[trigger] self.chunks.sizes@[i] <= r,
            r == self.chunks.fixed_size || exists|i: int|
                0 <= i < self.chunks.sizes@.len() && #[trigger] self.chunks.sizes@[i] == r,
    {
        let mut most: u32 = self.chunks.fixed_size;
        let mut i: usize = 0;
        while i < self.chunks.sizes.len()
            invariant
                0 <= i <= self.chunks.sizes@.len(),
                self.chunks.fixed_size <= most,
                forall|k: int| 0 <= k < i ==> #[trigger] self.chunks.sizes@[k] <= most,
                most == self.chunks.fixed_size || exists|k: int|
                    0 <= k < i && #[trigger] self.chunks.sizes@[k] == most,
            decreases self.chunks.sizes@.len() - i,
        {
            if self.chunks.sizes[i] > most {
                most = self.chunks.sizes[i];
            }
            i = i + 1;
        }
        most
    }

    /// Whether the sizes are listed and add up to no more than 32 bits.
    fn check_total(&self) -> (r: bool)
        ensures
            r == (self.chunks.fixed_size == 0 && total_size(self.chunks.sizes@) <= u32::MAX),
    {
        if self.chunks.fixed_size != 0 {
            return false;
        }
        let mut total: u32 = 0;
        let mut i: usize = 0;
        while i < self.chunks.sizes.len()
            invariant
                0 <= i <= self.chunks.sizes@.len(),
                total == total_size(self.chunks.sizes@.take(i as int)),
            decreases self.chunks.sizes@.len() - i,
        {
            proof {
                assert(self.chunks.sizes@.take(i + 1).drop_last() =~= self.chunks.sizes@.take(i as int));
                lemma_total_size_grows(self.chunks.sizes@, i + 1);
            }
            if self.chunks.sizes[i] > 0xffff_ffff - total {
                return false;
            }
            total = total + self.chunks.sizes[i];
            i = i + 1;
        }
        proof {
            assert(self.chunks.sizes@.take(i as int) =~= self.chunks.sizes@);
        }
        true
    }

    /// Whether every wide chunk offset is sound.
    fn check_offsets(&self) -> (r: bool)
        ensures
            r == self@.offsets_sound(),
    {
        let mut i: usize = 0;
        while i < self.chunks.wide_offsets.len()
            invariant
                0 <= i <= self.chunks.wide_offsets@.len(),
                forall|k: int|
                    0 <= k < i ==> #[trigger] self.chunks.wide_offsets@[k] <= u64::MAX - u32::MAX,
            decreases self.chunks.wide_offsets@.len() - i,
        {
            if self.chunks.wide_offsets[i] > 0xffff_ffff_ffff_ffff - 0xffff_ffff {
                assert(self@.chunks.wide_offsets[i as int] > u64::MAX - u32::MAX);
                return false;
            }
            i = i + 1;
        }
        true
    }

    /// The number of samples that the time-to-sample runs cover, if the runs
    /// are sound.
    fn check_times(&self) -> (r: Option<u32>)
        ensures
            r is Some <==> self@.times_sound(),
            r matches Some(n) ==> n == run_samples(self.chunks.time_runs@),
    {
        let mut samples: u32 = 0;
        let mut total: u64 = 0;
        let mut i: usize = 0;
        while i < self.chunks.time_runs.len()
            invariant
                0 <= i <= self.chunks.time_runs@.len(),
                samples == run_samples(self.chunks.time_runs@.take(i as int)),
                total == run_ticks(self.chunks.time_runs@.take(i as int)),
                samples < u32::MAX,
            decreases self.chunks.time_runs@.len() - i,
        {
            let run = self.chunks.time_runs[i];
            proof {
                assert(self.chunks.time_runs@.take(i + 1).drop_last() =~= self.chunks.time_runs@.take(i as int));
                lemma_run_samples_grow(self.chunks.time_runs@, i + 1);
                lemma_run_ticks_grow(self.chunks.time_runs@, i + 1);
                lemma_product_grows(
                    run.0 as int,
                    run.1 as int,
                    u32::MAX as int,
                    u32::MAX as int,
                );
                assert(0xffff_ffff * 0xffff_ffff <= 0xffff_ffff_ffff_ffff) by (nonlinear_arith);
            }
            if run.0 >= 0xffff_ffff - samples {
                return None;
            }
            let ticks: u64 = (run.0 as u64) * (run.1 as u64);
            if ticks > 0xffff_ffff_ffff_ffff - total {
                return None;
            }
            samples = samples + run.0;
            total = total + ticks;
            i = i + 1;
        }
        proof {
            assert(self.chunks.time_runs@.take(i as int) =~= self.chunks.time_runs@);
        }
        Some(samples)
    }

    /// The number of samples in the movie fragments, if the fragments are
    /// sound.
    fn check_fragments(&self) -> (r: Option<u32>)
        ensures
            r is Some <==> self@.fragments_sound(),
            r matches Some(n) ==> n == fragment_samples(self.fragments.samples@),
    {
        if self.fragments.samples.len() > 0xffff_ffff {
            return None;
        }
        let mut samples: u32 = 0;
        let mut i: usize = 0;
        while i < self.fragments.samples.len()
            invariant
                0 <= i <= self.fragments.samples@.len(),
                samples == fragment_samples(self.fragments.samples@.take(i as int)),
            decreases self.fragments.samples@.len() - i,
        {
            proof {
                assert(self.fragments.samples@.take(i + 1).drop_last() =~= self.fragments.samples@.take(i as int));
                lemma_fragment_samples_grow(self.fragments.samples@, i + 1);
            }
            match self.fragments.samples[i] {
                Some(n) => {
                    if n > 0xffff_ffff - samples {
                        return None;
                    }
                    samples = samples + n;
                },
                None => {},
            }
            i = i + 1;
        }
        proof {
            assert(self.fragments.samples@.take(i as int) =~= self.fragments.samples@);
        }
        if samples >= 2 && (samples as usize) < self.fragments.samples.len() {
            return None;
        }
        if samples >= 1 {
            proof {
                lemma_product_grows(
                    samples - 1,
                    self.fragments.sample_duration as int,
                    u32::MAX as int,
                    u32::MAX as int,
                );
                assert(0xffff_ffff * 0xffff_ffff <= 0xffff_ffff_ffff_ffff) by (nonlinear_arith);
            }
            let last: u64 = ((samples - 1) as u64) * (self.fragments.sample_duration as u64);
            if last > 0xffff_ffff {
                return None;
            }
        }
        Some(samples)
    }

    /// The number of samples that the tables cover, if the tables are sound
    /// in a container of `limit` bytes; `None` if they are not.
    pub fn covered_samples(&self, limit: usize) -> (r: Option<u32>)
        ensures
            r is Some <==> self@.sound(limit as nat),
            r matches Some(n) ==> n == self@.covered(),
    {
        if self.fragments.samples.len() > 0 {
            if !check_within(&self.fragments.sizes, limit) {
                return None;
            }
            return self.check_fragments();
        }
        if self.chunks.fixed_size as usize > limit || !check_within(&self.chunks.sizes, limit) {
            return None;
        }
        let (chunks, most_in_chunk) = self.check_chunks();
        if !chunks {
            return None;
        }
        let largest = self.largest_size();
        proof {
            lemma_product_grows(
                largest as int,
                most_in_chunk as int,
                u32::MAX as int,
                u32::MAX as int,
            );
            assert(0xffff_ffff * 0xffff_ffff <= 0xffff_ffff_ffff_ffff) by (nonlinear_arith);
        }
        let room: u64 = (largest as u64) * (most_in_chunk as u64);
        proof {
            if room <= u32::MAX {
                assert forall|j: int| 0 <= j < self.chunks.chunk_runs@.len() implies self.chunks.fixed_size * (
                #[trigger] self.chunks.chunk_runs@[j]).1 <= u32::MAX by {
                    lemma_product_grows(
                        self.chunks.fixed_size as int,
                        self.chunks.chunk_runs@[j].1 as int,
                        largest as int,
                        most_in_chunk as int,
                    );
                }
                assert forall|i: int, j: int|
                    0 <= i < self.chunks.sizes@.len() && 0 <= j < self.chunks.chunk_runs@.len() implies (
                #[trigger] self.chunks.sizes@[i]) * (#[trigger] self.chunks.chunk_runs@[j]).1 <= u32::MAX by {
                    lemma_product_grows(
                        self.chunks.sizes@[i] as int,
                        self.chunks.chunk_runs@[j].1 as int,
                        largest as int,
                        most_in_chunk as int,
                    );
                }
            } else {
                assert(most_in_chunk > 0) by (nonlinear_arith)
                    requires
                        largest as int * most_in_chunk as int > 0,
                ;
                let j = choose|j: int|
                    0 <= j < self.chunks.chunk_runs@.len() && (#[trigger] self.chunks.chunk_runs@[j]).1
                        == most_in_chunk;
                if largest == self.chunks.fixed_size {
                    assert(self@.chunks.fixed_size * self@.chunks.chunk_runs[j].1 > u32::MAX);
                } else {
                    let i = choose|i: int|
                        0 <= i < self.chunks.sizes@.len() && #[trigger] self.chunks.sizes@[i] == largest;
                    assert(self@.chunks.sizes[i] * self@.chunks.chunk_runs[j].1 > u32::MAX);
                }
                assert(!self@.chunks_roomy());
            }
        }
        if room > 0xffff_ffff && !self.check_total() {
            return None;
        }
        if !self.check_offsets() {
            return None;
        }
        self.check_times()
    }
}

} // verus!

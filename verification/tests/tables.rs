use bili_remux::tables::{ChunkTables, FragmentRuns, SampleTables};

/// A limit that no size reaches.
const ROOMY: usize = usize::MAX;

fn plain() -> SampleTables {
    SampleTables {
        chunks: ChunkTables {
            chunk_runs: vec![(1, 2), (4, 1)],
            time_runs: vec![(5, 10), (3, 20)],
            fixed_size: 0,
            sizes: vec![3, 4, 5, 6, 7, 8, 9, 10],
            wide_offsets: vec![],
        },
        fragments: FragmentRuns { samples: vec![], sizes: vec![], sample_duration: 0 },
    }
}

fn fragmented(samples: Vec<Option<u32>>, sample_duration: u32) -> SampleTables {
    SampleTables {
        // A fragmented track is not read through these, whatever they hold.
        chunks: ChunkTables {
            chunk_runs: vec![(0, 0)],
            time_runs: vec![(u32::MAX, u32::MAX)],
            fixed_size: u32::MAX,
            sizes: vec![u32::MAX],
            wide_offsets: vec![u64::MAX],
        },
        fragments: FragmentRuns { samples, sizes: vec![1, 2, 3], sample_duration },
    }
}

#[test]
fn sound_tables_cover_the_samples_of_their_time_runs() {
    assert_eq!(plain().covered_samples(ROOMY), Some(8));
    let mut tables = plain();
    tables.chunks.time_runs = vec![];
    assert_eq!(tables.covered_samples(ROOMY), Some(0));
    tables.chunks.chunk_runs = vec![];
    tables.chunks.sizes = vec![];
    assert_eq!(tables.covered_samples(ROOMY), Some(0));
}

#[test]
fn chunk_runs_must_hold_samples_and_start_at_a_chunk() {
    let mut tables = plain();
    tables.chunks.chunk_runs = vec![(1, 2), (4, 0)];
    assert_eq!(tables.covered_samples(ROOMY), None);
    tables.chunks.chunk_runs = vec![(0, 2), (4, 1)];
    assert_eq!(tables.covered_samples(ROOMY), None);
    tables.chunks.chunk_runs = vec![(1, 1)];
    assert_eq!(tables.covered_samples(ROOMY), Some(8));
}

#[test]
fn sizes_that_add_up_to_32_bits_fit_any_chunk() {
    let mut tables = plain();
    tables.chunks.chunk_runs = vec![(1, u32::MAX)];
    tables.chunks.sizes = vec![0x8000_0000, 0, 0x7fff_ffff];
    assert_eq!(tables.covered_samples(ROOMY), Some(8));
    tables.chunks.sizes = vec![0x8000_0000, 1, 0x7fff_ffff];
    assert_eq!(tables.covered_samples(ROOMY), None);
    tables.chunks.sizes = vec![];
    assert_eq!(tables.covered_samples(ROOMY), Some(8));
    tables.chunks.fixed_size = 1;
    assert_eq!(tables.covered_samples(ROOMY), Some(8));
    tables.chunks.fixed_size = 2;
    assert_eq!(tables.covered_samples(ROOMY), None);
}

#[test]
fn a_chunk_of_the_largest_samples_must_fit_32_bits() {
    let mut tables = plain();
    tables.chunks.sizes = vec![1, 0x1_0000, 2];
    tables.chunks.chunk_runs = vec![(1, 3), (2, 0xffff)];
    assert_eq!(tables.covered_samples(ROOMY), Some(8));
    tables.chunks.chunk_runs = vec![(1, 0x1_0000), (2, 1)];
    assert_eq!(tables.covered_samples(ROOMY), Some(8));
    tables.chunks.sizes = vec![0x1_0000; 0x1_0000];
    assert_eq!(tables.covered_samples(ROOMY), None);
    tables.chunks.chunk_runs = vec![(1, 0xffff), (2, 1)];
    assert_eq!(tables.covered_samples(ROOMY), Some(8));

    let mut tables = plain();
    tables.chunks.sizes = vec![];
    tables.chunks.fixed_size = 0x1_0002;
    tables.chunks.chunk_runs = vec![(1, 0xffff)];
    assert_eq!(tables.covered_samples(ROOMY), None);
    // 0x1_0001 * 0xffff is the largest 32-bit number.
    tables.chunks.fixed_size = 0x1_0001;
    assert_eq!(tables.covered_samples(ROOMY), Some(8));
    tables.chunks.fixed_size = u32::MAX;
    tables.chunks.chunk_runs = vec![(1, 1)];
    assert_eq!(tables.covered_samples(ROOMY), Some(8));
    tables.chunks.chunk_runs = vec![(1, 2)];
    assert_eq!(tables.covered_samples(ROOMY), None);
}

#[test]
fn wide_offsets_must_leave_room_inside_the_chunk() {
    let mut tables = plain();
    tables.chunks.wide_offsets = vec![0, 1 << 40, u64::MAX - u32::MAX as u64];
    assert_eq!(tables.covered_samples(ROOMY), Some(8));
    tables.chunks.wide_offsets = vec![0, u64::MAX - u32::MAX as u64 + 1];
    assert_eq!(tables.covered_samples(ROOMY), None);
}

#[test]
fn time_runs_must_count_in_32_bits() {
    let mut tables = plain();
    tables.chunks.time_runs = vec![(u32::MAX - 1, 1)];
    assert_eq!(tables.covered_samples(ROOMY), Some(u32::MAX - 1));
    tables.chunks.time_runs = vec![(u32::MAX - 2, u32::MAX), (1, u32::MAX)];
    assert_eq!(tables.covered_samples(ROOMY), Some(u32::MAX - 1));
    tables.chunks.time_runs = vec![(u32::MAX, 1)];
    assert_eq!(tables.covered_samples(ROOMY), None);
    tables.chunks.time_runs = vec![(u32::MAX - 2, 1), (1, 1), (1, 1)];
    assert_eq!(tables.covered_samples(ROOMY), None);
}

#[test]
fn fragments_cover_the_samples_of_their_runs() {
    assert_eq!(fragmented(vec![Some(4), Some(6)], 512).covered_samples(ROOMY), Some(10));
    assert_eq!(fragmented(vec![Some(2), None], 512).covered_samples(ROOMY), Some(2));
    assert_eq!(fragmented(vec![None, None], 512).covered_samples(ROOMY), Some(0));
    assert_eq!(fragmented(vec![Some(0)], u32::MAX).covered_samples(ROOMY), Some(0));
}

#[test]
fn fragments_must_count_in_32_bits() {
    assert_eq!(fragmented(vec![Some(u32::MAX)], 1).covered_samples(ROOMY), Some(u32::MAX));
    assert_eq!(fragmented(vec![Some(u32::MAX), Some(1)], 0).covered_samples(ROOMY), None);
    assert_eq!(fragmented(vec![Some(1), Some(u32::MAX)], 0).covered_samples(ROOMY), None);
}

#[test]
fn fragments_with_samples_hold_one_each_at_least() {
    assert_eq!(fragmented(vec![Some(2), None, None], 0).covered_samples(ROOMY), None);
    assert_eq!(fragmented(vec![Some(1), Some(1), Some(0)], 0).covered_samples(ROOMY), None);
    assert_eq!(fragmented(vec![Some(3), None, None], 0).covered_samples(ROOMY), Some(3));
    assert_eq!(fragmented(vec![Some(1), Some(1)], 0).covered_samples(ROOMY), Some(2));
}

#[test]
fn a_single_fragment_sample_needs_no_company() {
    assert_eq!(fragmented(vec![Some(1), None], 0).covered_samples(ROOMY), Some(1));
    assert_eq!(fragmented(vec![None, None, Some(1)], u32::MAX).covered_samples(ROOMY), Some(1));
}

#[test]
fn the_last_fragment_sample_must_start_in_32_bits() {
    assert_eq!(fragmented(vec![Some(3)], 0x7fff_ffff).covered_samples(ROOMY), Some(3));
    assert_eq!(fragmented(vec![Some(3)], 0x8000_0000).covered_samples(ROOMY), None);
    assert_eq!(fragmented(vec![Some(1)], u32::MAX).covered_samples(ROOMY), Some(1));
    assert_eq!(fragmented(vec![Some(2)], u32::MAX).covered_samples(ROOMY), Some(2));
}

#[test]
fn no_sample_is_larger_than_the_container() {
    assert_eq!(plain().covered_samples(10), Some(8));
    assert_eq!(plain().covered_samples(9), None);
    assert_eq!(plain().covered_samples(0), None);
    let mut tables = plain();
    tables.chunks.sizes = vec![];
    tables.chunks.fixed_size = 77;
    assert_eq!(tables.covered_samples(77), Some(8));
    assert_eq!(tables.covered_samples(76), None);
    // The sizes of the runs count for a fragmented track only.
    tables.fragments.sizes = vec![100];
    assert_eq!(tables.covered_samples(77), Some(8));

    assert_eq!(fragmented(vec![Some(3)], 1).covered_samples(3), Some(3));
    assert_eq!(fragmented(vec![Some(3)], 1).covered_samples(2), None);
    let mut tables = fragmented(vec![Some(0)], 1);
    tables.fragments.sizes = vec![];
    assert_eq!(tables.covered_samples(0), Some(0));
}

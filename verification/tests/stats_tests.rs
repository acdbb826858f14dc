use loudnorm::stats::{Stats, BIN_COUNT};

#[test]
fn empty_stats_has_no_blocks() {
    let s = Stats::new();
    assert_eq!(s.total_count(), 0);
    assert_eq!(s.gated_count(0), 0);
    assert_eq!(s.gated_count(BIN_COUNT), 0);
    assert_eq!(s.quantile_bin(0, 1), None);
    assert_eq!(s.quantile_bin(0, 0), None);
    assert_eq!(s.range_centi(0, 0, 0), 0);
}

#[test]
fn add_block_counts_cells() {
    let mut s = Stats::new();
    s.add_block(5000);
    s.add_block(5000);
    s.add_block(6000);
    assert_eq!(s.total_count(), 3);
    assert_eq!(s.bin_count(5000), 2);
    assert_eq!(s.bin_count(6000), 1);
    assert_eq!(s.bin_count(5999), 0);
    assert_eq!(s.gated_count(0), 3);
    assert_eq!(s.gated_count(5001), 1);
    assert_eq!(s.gated_count(6001), 0);
}

#[test]
fn merge_adds_cells_pairwise() {
    let mut a = Stats::new();
    a.add_block(100);
    a.add_block(100);
    a.add_block(7500);
    let mut b = Stats::new();
    b.add_block(100);
    b.add_block(0);
    a.merge(&b);
    assert_eq!(a.total_count(), 5);
    assert_eq!(a.bin_count(100), 3);
    assert_eq!(a.bin_count(0), 1);
    assert_eq!(a.bin_count(7500), 1);
    // The merged-in source is unchanged.
    assert_eq!(b.total_count(), 2);
    assert_eq!(b.bin_count(100), 1);
}

#[test]
fn merge_equals_adding_all_inputs_directly() {
    let mut a = Stats::new();
    let mut b = Stats::new();
    let mut all = Stats::new();
    for bin in [4000usize, 4000, 4100] {
        a.add_block(bin);
        all.add_block(bin);
    }
    for bin in [4100usize, 4200] {
        b.add_block(bin);
        all.add_block(bin);
    }
    a.merge(&b);
    assert_eq!(a.total_count(), all.total_count());
    for bin in 0..BIN_COUNT {
        assert_eq!(a.bin_count(bin), all.bin_count(bin));
    }
}

#[test]
fn occupied_cells_lists_nonzero_cells_in_order() {
    let mut s = Stats::new();
    s.add_block(6000);
    s.add_block(5000);
    s.add_block(6000);
    s.add_block(0);
    assert_eq!(s.occupied_cells(0), vec![(0, 1), (5000, 1), (6000, 2)]);
    assert_eq!(s.occupied_cells(5000), vec![(5000, 1), (6000, 2)]);
    assert_eq!(s.occupied_cells(5001), vec![(6000, 2)]);
    assert_eq!(s.occupied_cells(6001), vec![]);
    assert_eq!(Stats::new().occupied_cells(0), vec![]);
}

#[test]
fn quantile_walks_running_count() {
    let mut s = Stats::new();
    s.add_block(5000);
    s.add_block(5000);
    s.add_block(6000);
    s.add_block(6000);
    s.add_block(6000);
    assert_eq!(s.quantile_bin(0, 0), None);
    assert_eq!(s.quantile_bin(0, 1), Some(5000));
    assert_eq!(s.quantile_bin(0, 2), Some(5000));
    assert_eq!(s.quantile_bin(0, 3), Some(6000));
    assert_eq!(s.quantile_bin(0, 5), Some(6000));
    assert_eq!(s.quantile_bin(0, 6), None);
    // Gated at a threshold above the lower cell.
    assert_eq!(s.gated_count(5500), 3);
    assert_eq!(s.quantile_bin(5500, 1), Some(6000));
    assert_eq!(s.quantile_bin(5500, 4), None);
}

#[test]
fn range_spans_selected_cells() {
    let mut s = Stats::new();
    s.add_block(5000);
    s.add_block(5000);
    s.add_block(6000);
    s.add_block(6000);
    s.add_block(6000);
    // Lowest to highest occupied cell: 10.00 LU apart.
    assert_eq!(s.range_centi(0, 1, 5), 1000);
    // A rank of zero stands for the first gated block, so the full range is
    // the whole spread present.
    assert_eq!(s.range_centi(0, 0, 5), 1000);
    assert_eq!(s.range_centi(0, 0, 0), 0);
    assert_eq!(s.range_centi(0, 2, 2), 0);
    // Ranks beyond the gated count select nothing on either side.
    assert_eq!(s.range_centi(0, 6, 7), 0);
    // A single occupied cell spans a zero range, wherever it sits.
    let mut one = Stats::new();
    one.add_block(6000);
    assert_eq!(one.range_centi(0, 0, 1), 0);
}

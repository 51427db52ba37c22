use memory_stark::columns::{
    ADDR_CONTEXT_COL, ADDR_VIRTUAL_COL, COUNTER_COL, FILTER_COL, FREQUENCIES_COL, IS_READ_COL,
    IS_STALE_COL, MEM_AFTER_FILTER_COL, RANGE_CHECK_COL, STALE_CONTEXTS_COL,
    STALE_CONTEXT_FREQUENCIES_COL, TIMESTAMP_COL,
};
use memory_stark::config::ProverConfig;
use memory_stark::global_metadata::{GlobalMetadata, GLOBAL_METADATA_COUNT};
use memory_stark::lookups::{
    ctl_context_pruning_looking, ctl_data, ctl_filter, ctl_filter_mem_after,
    ctl_filter_mem_before, ctl_looking_mem, lookups, requires_ctls,
};

#[test]
fn metadata_offsets_follow_declaration_order() {
    assert_eq!(GlobalMetadata::LargestContext.unscale(), 0);
    assert_eq!(GlobalMetadata::MemorySize.unscale(), 1);
    assert_eq!(GlobalMetadata::TrieDataSize.unscale(), 2);
    assert_eq!(GlobalMetadata::StateTrieRoot.unscale(), 4);
    assert_eq!(GlobalMetadata::BlobVersionedHashesLen.unscale(), GLOBAL_METADATA_COUNT - 1);
}

#[test]
fn metadata_listing_is_complete() {
    let all = GlobalMetadata::all();
    assert_eq!(all.len(), GLOBAL_METADATA_COUNT);
    // each offset occurs exactly once
    let mut seen = vec![false; GLOBAL_METADATA_COUNT];
    for m in &all {
        let u = m.unscale();
        assert!(!seen[u], "offset {} listed twice", u);
        seen[u] = true;
    }
    assert!(seen.iter().all(|s| *s));
}

#[test]
fn metadata_names_match_the_kernel() {
    assert_eq!(
        GlobalMetadata::LargestContext.var_name(),
        "GLOBAL_METADATA_LARGEST_CONTEXT",
    );
    assert_eq!(GlobalMetadata::BlockNumber.var_name(), "GLOBAL_METADATA_BLOCK_NUMBER");
    assert_eq!(
        GlobalMetadata::AccountsLinkedListNextAvailable.var_name(),
        "GLOBAL_METADATA_ACCOUNTS_LINKED_LIST_NEXT_AVAILABLE",
    );
    assert_eq!(
        GlobalMetadata::KernelHash.var_name(),
        "GLOBAL_METADATA_KERNEL_HASH",
    );
}

#[test]
fn operation_columns_for_cross_table_matching() {
    let data = ctl_data();
    assert_eq!(data.len(), 13);
    assert_eq!(data[0].coefficients, vec![(IS_READ_COL, 1)]);
    assert_eq!(data[1].coefficients, vec![(ADDR_CONTEXT_COL, 1)]);
    assert_eq!(data[12].coefficients, vec![(TIMESTAMP_COL, 1)]);
    let f = ctl_filter();
    assert_eq!(f.constants[0].coefficients, vec![(FILTER_COL, 1)]);
    assert!(f.products.is_empty());
    let looking = ctl_looking_mem();
    assert_eq!(looking.len(), 11);
}

#[test]
fn pruning_and_state_filters() {
    let pruning = ctl_context_pruning_looking();
    assert_eq!(pruning.columns.len(), 1);
    assert_eq!(pruning.columns[0].coefficients, vec![(STALE_CONTEXTS_COL, 1)]);
    // the constant is minus one in the field: the table stores context + 1
    assert_eq!(pruning.columns[0].constant, 0xFFFF_FFFF_0000_0000);
    let before = ctl_filter_mem_before();
    assert_eq!(before.products.len(), 1);
    assert_eq!(before.products[0].0.coefficients, vec![(TIMESTAMP_COL, 1)]);
    assert_eq!(before.constants[0].constant, 1);
    let after = ctl_filter_mem_after();
    assert_eq!(after.constants[0].coefficients, vec![(MEM_AFTER_FILTER_COL, 1)]);
}

#[test]
fn two_lookup_arguments() {
    let ls = lookups();
    assert_eq!(ls.len(), 2);
    let rc = &ls[0];
    assert_eq!(rc.columns[0].coefficients, vec![(RANGE_CHECK_COL, 1)]);
    assert_eq!(rc.columns[1].next_row_coefficients, vec![(ADDR_VIRTUAL_COL, 1)]);
    assert_eq!(rc.table_column.coefficients, vec![(COUNTER_COL, 1)]);
    assert_eq!(rc.frequencies_column.coefficients, vec![(FREQUENCIES_COL, 1)]);
    assert!(rc.filter_columns[0].is_none());
    assert!(rc.filter_columns[1].is_some());
    let stale = &ls[1];
    assert_eq!(stale.columns[0].coefficients, vec![(ADDR_CONTEXT_COL, 1)]);
    assert_eq!(stale.columns[0].constant, 1);
    assert_eq!(stale.table_column.coefficients, vec![(STALE_CONTEXTS_COL, 1)]);
    assert_eq!(
        stale.frequencies_column.coefficients,
        vec![(STALE_CONTEXT_FREQUENCIES_COL, 1)],
    );
    match &stale.filter_columns[0] {
        Some(f) => assert_eq!(f.constants[0].coefficients, vec![(IS_STALE_COL, 1)]),
        None => panic!("the stale lookup is filtered"),
    }
    assert!(requires_ctls());
}

#[test]
fn prover_config_holds_its_fields() {
    let c = ProverConfig::new(8, 20, false, true);
    assert_eq!(c.batch_size, 8);
    assert_eq!(c.max_cpu_len_log, 20);
    assert!(!c.save_inputs_on_error);
    assert!(c.test_only);
}

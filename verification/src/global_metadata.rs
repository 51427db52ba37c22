//! The global virtual-machine metadata fields: a closed enumeration of
//! the values stored in the metadata segment of the kernel context, each
//! with its offset within the segment and the name the kernel assembly
//! refers to it by.

use vstd::prelude::*;

verus! {

/// Number of global metadata fields.
pub const GLOBAL_METADATA_COUNT: usize = 59;

/// The global metadata fields of the virtual machine.
#[derive(Clone, Copy, Debug, PartialEq, Eq, Structural)]
pub enum GlobalMetadata {
    LargestContext,
    MemorySize,
    TrieDataSize,
    RlpDataSize,
    StateTrieRoot,
    TransactionTrieRoot,
    ReceiptTrieRoot,
    StateTrieRootDigestBefore,
    TransactionTrieRootDigestBefore,
    ReceiptTrieRootDigestBefore,
    StateTrieRootDigestAfter,
    TransactionTrieRootDigestAfter,
    ReceiptTrieRootDigestAfter,
    BlockBeneficiary,
    BlockTimestamp,
    BlockNumber,
    BlockDifficulty,
    BlockRandom,
    BlockGasLimit,
    BlockChainId,
    BlockBaseFee,
    BlockBlobGasUsed,
    BlockExcessBlobGas,
    BlockGasUsed,
    BlockGasUsedBefore,
    BlockGasUsedAfter,
    BlockCurrentHash,
    ParentBeaconBlockRoot,
    RefundCounter,
    AccessedAddressesLen,
    AccessedStorageKeysLen,
    SelfDestructListLen,
    BloomEntryLen,
    JournalLen,
    JournalDataLen,
    CurrentCheckpoint,
    TouchedAddressesLen,
    AccessListDataCost,
    AccessListRlpStart,
    AccessListRlpLen,
    ContractCreation,
    IsPrecompileFromEoa,
    CallStackDepth,
    LogsLen,
    LogsDataLen,
    LogsPayloadLen,
    TxnNumberBefore,
    TxnNumberAfter,
    CreatedContractsLen,
    KernelHash,
    KernelLen,
    AccountsLinkedListNextAvailable,
    StorageLinkedListNextAvailable,
    InitialAccountsLinkedListLen,
    InitialStorageLinkedListLen,
    TransientStorageLen,
    BlobVersionedHashesRlpStart,
    BlobVersionedHashesRlpLen,
    BlobVersionedHashesLen,
}

/// The offset of each field within the metadata segment: its position
/// in declaration order.
pub open spec fn unscale_spec(m: GlobalMetadata) -> int {
    match m {
        GlobalMetadata::LargestContext => 0,
        GlobalMetadata::MemorySize => 1,
        GlobalMetadata::TrieDataSize => 2,
        GlobalMetadata::RlpDataSize => 3,
        GlobalMetadata::StateTrieRoot => 4,
        GlobalMetadata::TransactionTrieRoot => 5,
        GlobalMetadata::ReceiptTrieRoot => 6,
        GlobalMetadata::StateTrieRootDigestBefore => 7,
        GlobalMetadata::TransactionTrieRootDigestBefore => 8,
        GlobalMetadata::ReceiptTrieRootDigestBefore => 9,
        GlobalMetadata::StateTrieRootDigestAfter => 10,
        GlobalMetadata::TransactionTrieRootDigestAfter => 11,
        GlobalMetadata::ReceiptTrieRootDigestAfter => 12,
        GlobalMetadata::BlockBeneficiary => 13,
        GlobalMetadata::BlockTimestamp => 14,
        GlobalMetadata::BlockNumber => 15,
        GlobalMetadata::BlockDifficulty => 16,
        GlobalMetadata::BlockRandom => 17,
        GlobalMetadata::BlockGasLimit => 18,
        GlobalMetadata::BlockChainId => 19,
        GlobalMetadata::BlockBaseFee => 20,
        GlobalMetadata::BlockBlobGasUsed => 21,
        GlobalMetadata::BlockExcessBlobGas => 22,
        GlobalMetadata::BlockGasUsed => 23,
        GlobalMetadata::BlockGasUsedBefore => 24,
        GlobalMetadata::BlockGasUsedAfter => 25,
        GlobalMetadata::BlockCurrentHash => 26,
        GlobalMetadata::ParentBeaconBlockRoot => 27,
        GlobalMetadata::RefundCounter => 28,
        GlobalMetadata::AccessedAddressesLen => 29,
        GlobalMetadata::AccessedStorageKeysLen => 30,
        GlobalMetadata::SelfDestructListLen => 31,
        GlobalMetadata::BloomEntryLen => 32,
        GlobalMetadata::JournalLen => 33,
        GlobalMetadata::JournalDataLen => 34,
        GlobalMetadata::CurrentCheckpoint => 35,
        GlobalMetadata::TouchedAddressesLen => 36,
        GlobalMetadata::AccessListDataCost => 37,
        GlobalMetadata::AccessListRlpStart => 38,
        GlobalMetadata::AccessListRlpLen => 39,
        GlobalMetadata::ContractCreation => 40,
        GlobalMetadata::IsPrecompileFromEoa => 41,
        GlobalMetadata::CallStackDepth => 42,
        GlobalMetadata::LogsLen => 43,
        GlobalMetadata::LogsDataLen => 44,
        GlobalMetadata::LogsPayloadLen => 45,
        GlobalMetadata::TxnNumberBefore => 46,
        GlobalMetadata::TxnNumberAfter => 47,
        GlobalMetadata::CreatedContractsLen => 48,
        GlobalMetadata::KernelHash => 49,
        GlobalMetadata::KernelLen => 50,
        GlobalMetadata::AccountsLinkedListNextAvailable => 51,
        GlobalMetadata::StorageLinkedListNextAvailable => 52,
        GlobalMetadata::InitialAccountsLinkedListLen => 53,
        GlobalMetadata::InitialStorageLinkedListLen => 54,
        GlobalMetadata::TransientStorageLen => 55,
        GlobalMetadata::BlobVersionedHashesRlpStart => 56,
        GlobalMetadata::BlobVersionedHashesRlpLen => 57,
        GlobalMetadata::BlobVersionedHashesLen => 58,
    }
}

/// The canonical listing order of the fields.
pub open spec fn all_spec() -> Seq<GlobalMetadata> {
    seq![
        GlobalMetadata::LargestContext,
        GlobalMetadata::MemorySize,
        GlobalMetadata::TrieDataSize,
        GlobalMetadata::RlpDataSize,
        GlobalMetadata::StateTrieRoot,
        GlobalMetadata::TransactionTrieRoot,
        GlobalMetadata::ReceiptTrieRoot,
        GlobalMetadata::StateTrieRootDigestBefore,
        GlobalMetadata::TransactionTrieRootDigestBefore,
        GlobalMetadata::ReceiptTrieRootDigestBefore,
        GlobalMetadata::StateTrieRootDigestAfter,
        GlobalMetadata::TransactionTrieRootDigestAfter,
        GlobalMetadata::ReceiptTrieRootDigestAfter,
        GlobalMetadata::BlockBeneficiary,
        GlobalMetadata::BlockTimestamp,
        GlobalMetadata::BlockNumber,
        GlobalMetadata::BlockDifficulty,
        GlobalMetadata::BlockRandom,
        GlobalMetadata::BlockGasLimit,
        GlobalMetadata::BlockChainId,
        GlobalMetadata::BlockBaseFee,
        GlobalMetadata::BlockGasUsed,
        GlobalMetadata::BlockBlobGasUsed,
        GlobalMetadata::BlockExcessBlobGas,
        GlobalMetadata::BlockGasUsedBefore,
        GlobalMetadata::BlockGasUsedAfter,
        GlobalMetadata::ParentBeaconBlockRoot,
        GlobalMetadata::RefundCounter,
        GlobalMetadata::AccessedAddressesLen,
        GlobalMetadata::AccessedStorageKeysLen,
        GlobalMetadata::SelfDestructListLen,
        GlobalMetadata::BloomEntryLen,
        GlobalMetadata::JournalLen,
        GlobalMetadata::JournalDataLen,
        GlobalMetadata::CurrentCheckpoint,
        GlobalMetadata::TouchedAddressesLen,
        GlobalMetadata::AccessListDataCost,
        GlobalMetadata::AccessListRlpStart,
        GlobalMetadata::AccessListRlpLen,
        GlobalMetadata::ContractCreation,
        GlobalMetadata::IsPrecompileFromEoa,
        GlobalMetadata::CallStackDepth,
        GlobalMetadata::LogsLen,
        GlobalMetadata::LogsDataLen,
        GlobalMetadata::LogsPayloadLen,
        GlobalMetadata::BlockCurrentHash,
        GlobalMetadata::TxnNumberBefore,
        GlobalMetadata::TxnNumberAfter,
        GlobalMetadata::CreatedContractsLen,
        GlobalMetadata::KernelHash,
        GlobalMetadata::KernelLen,
        GlobalMetadata::AccountsLinkedListNextAvailable,
        GlobalMetadata::StorageLinkedListNextAvailable,
        GlobalMetadata::InitialAccountsLinkedListLen,
        GlobalMetadata::InitialStorageLinkedListLen,
        GlobalMetadata::TransientStorageLen,
        GlobalMetadata::BlobVersionedHashesRlpStart,
        GlobalMetadata::BlobVersionedHashesRlpLen,
        GlobalMetadata::BlobVersionedHashesLen,
    ]
}

/// The assembly-level name of each field.
pub open spec fn var_name_spec(m: GlobalMetadata) -> Seq<char> {
    match m {
        GlobalMetadata::LargestContext => "GLOBAL_METADATA_LARGEST_CONTEXT"@,
        GlobalMetadata::MemorySize => "GLOBAL_METADATA_MEMORY_SIZE"@,
        GlobalMetadata::TrieDataSize => "GLOBAL_METADATA_TRIE_DATA_SIZE"@,
        GlobalMetadata::RlpDataSize => "GLOBAL_METADATA_RLP_DATA_SIZE"@,
        GlobalMetadata::StateTrieRoot => "GLOBAL_METADATA_STATE_TRIE_ROOT"@,
        GlobalMetadata::TransactionTrieRoot => "GLOBAL_METADATA_TXN_TRIE_ROOT"@,
        GlobalMetadata::ReceiptTrieRoot => "GLOBAL_METADATA_RECEIPT_TRIE_ROOT"@,
        GlobalMetadata::StateTrieRootDigestBefore => "GLOBAL_METADATA_STATE_TRIE_DIGEST_BEFORE"@,
        GlobalMetadata::TransactionTrieRootDigestBefore => "GLOBAL_METADATA_TXN_TRIE_DIGEST_BEFORE"@,
        GlobalMetadata::ReceiptTrieRootDigestBefore => "GLOBAL_METADATA_RECEIPT_TRIE_DIGEST_BEFORE"@,
        GlobalMetadata::StateTrieRootDigestAfter => "GLOBAL_METADATA_STATE_TRIE_DIGEST_AFTER"@,
        GlobalMetadata::TransactionTrieRootDigestAfter => "GLOBAL_METADATA_TXN_TRIE_DIGEST_AFTER"@,
        GlobalMetadata::ReceiptTrieRootDigestAfter => "GLOBAL_METADATA_RECEIPT_TRIE_DIGEST_AFTER"@,
        GlobalMetadata::BlockBeneficiary => "GLOBAL_METADATA_BLOCK_BENEFICIARY"@,
        GlobalMetadata::BlockTimestamp => "GLOBAL_METADATA_BLOCK_TIMESTAMP"@,
        GlobalMetadata::BlockNumber => "GLOBAL_METADATA_BLOCK_NUMBER"@,
        GlobalMetadata::BlockDifficulty => "GLOBAL_METADATA_BLOCK_DIFFICULTY"@,
        GlobalMetadata::BlockRandom => "GLOBAL_METADATA_BLOCK_RANDOM"@,
        GlobalMetadata::BlockGasLimit => "GLOBAL_METADATA_BLOCK_GAS_LIMIT"@,
        GlobalMetadata::BlockChainId => "GLOBAL_METADATA_BLOCK_CHAIN_ID"@,
        GlobalMetadata::BlockBaseFee => "GLOBAL_METADATA_BLOCK_BASE_FEE"@,
        GlobalMetadata::BlockBlobGasUsed => "GLOBAL_METADATA_BLOCK_BLOB_GAS_USED"@,
        GlobalMetadata::BlockExcessBlobGas => "GLOBAL_METADATA_BLOCK_EXCESS_BLOB_GAS"@,
        GlobalMetadata::BlockGasUsed => "GLOBAL_METADATA_BLOCK_GAS_USED"@,
        GlobalMetadata::BlockGasUsedBefore => "GLOBAL_METADATA_BLOCK_GAS_USED_BEFORE"@,
        GlobalMetadata::BlockGasUsedAfter => "GLOBAL_METADATA_BLOCK_GAS_USED_AFTER"@,
        GlobalMetadata::BlockCurrentHash => "GLOBAL_METADATA_BLOCK_CURRENT_HASH"@,
        GlobalMetadata::ParentBeaconBlockRoot => "GLOBAL_METADATA_PARENT_BEACON_BLOCK_ROOT"@,
        GlobalMetadata::RefundCounter => "GLOBAL_METADATA_REFUND_COUNTER"@,
        GlobalMetadata::AccessedAddressesLen => "GLOBAL_METADATA_ACCESSED_ADDRESSES_LEN"@,
        GlobalMetadata::AccessedStorageKeysLen => "GLOBAL_METADATA_ACCESSED_STORAGE_KEYS_LEN"@,
        GlobalMetadata::SelfDestructListLen => "GLOBAL_METADATA_SELFDESTRUCT_LIST_LEN"@,
        GlobalMetadata::BloomEntryLen => "GLOBAL_METADATA_BLOOM_ENTRY_LEN"@,
        GlobalMetadata::JournalLen => "GLOBAL_METADATA_JOURNAL_LEN"@,
        GlobalMetadata::JournalDataLen => "GLOBAL_METADATA_JOURNAL_DATA_LEN"@,
        GlobalMetadata::CurrentCheckpoint => "GLOBAL_METADATA_CURRENT_CHECKPOINT"@,
        GlobalMetadata::TouchedAddressesLen => "GLOBAL_METADATA_TOUCHED_ADDRESSES_LEN"@,
        GlobalMetadata::AccessListDataCost => "GLOBAL_METADATA_ACCESS_LIST_DATA_COST"@,
        GlobalMetadata::AccessListRlpStart => "GLOBAL_METADATA_ACCESS_LIST_RLP_START"@,
        GlobalMetadata::AccessListRlpLen => "GLOBAL_METADATA_ACCESS_LIST_RLP_LEN"@,
        GlobalMetadata::ContractCreation => "GLOBAL_METADATA_CONTRACT_CREATION"@,
        GlobalMetadata::IsPrecompileFromEoa => "GLOBAL_METADATA_IS_PRECOMPILE_FROM_EOA"@,
        GlobalMetadata::CallStackDepth => "GLOBAL_METADATA_CALL_STACK_DEPTH"@,
        GlobalMetadata::LogsLen => "GLOBAL_METADATA_LOGS_LEN"@,
        GlobalMetadata::LogsDataLen => "GLOBAL_METADATA_LOGS_DATA_LEN"@,
        GlobalMetadata::LogsPayloadLen => "GLOBAL_METADATA_LOGS_PAYLOAD_LEN"@,
        GlobalMetadata::TxnNumberBefore => "GLOBAL_METADATA_TXN_NUMBER_BEFORE"@,
        GlobalMetadata::TxnNumberAfter => "GLOBAL_METADATA_TXN_NUMBER_AFTER"@,
        GlobalMetadata::CreatedContractsLen => "GLOBAL_METADATA_CREATED_CONTRACTS_LEN"@,
        GlobalMetadata::KernelHash => "GLOBAL_METADATA_KERNEL_HASH"@,
        GlobalMetadata::KernelLen => "GLOBAL_METADATA_KERNEL_LEN"@,
        GlobalMetadata::AccountsLinkedListNextAvailable => "GLOBAL_METADATA_ACCOUNTS_LINKED_LIST_NEXT_AVAILABLE"@,
        GlobalMetadata::StorageLinkedListNextAvailable => "GLOBAL_METADATA_STORAGE_LINKED_LIST_NEXT_AVAILABLE"@,
        GlobalMetadata::InitialAccountsLinkedListLen => "GLOBAL_METADATA_INITIAL_ACCOUNTS_LINKED_LIST_LEN"@,
        GlobalMetadata::InitialStorageLinkedListLen => "GLOBAL_METADATA_INITIAL_STORAGE_LINKED_LIST_LEN"@,
        GlobalMetadata::TransientStorageLen => "GLOBAL_METADATA_TRANSIENT_STORAGE_LEN"@,
        GlobalMetadata::BlobVersionedHashesRlpStart => "GLOBAL_METADATA_BLOB_VERSIONED_HASHES_RLP_START"@,
        GlobalMetadata::BlobVersionedHashesRlpLen => "GLOBAL_METADATA_BLOB_VERSIONED_HASHES_RLP_LEN"@,
        GlobalMetadata::BlobVersionedHashesLen => "GLOBAL_METADATA_BLOB_VERSIONED_HASHES_LEN"@,
    }
}

impl GlobalMetadata {
    /// The field's offset within the metadata segment.
    pub fn unscale(&self) -> (r: usize)
        ensures
            r == unscale_spec(*self),
            r < GLOBAL_METADATA_COUNT,
    {
        match self {
            GlobalMetadata::LargestContext => 0,
            GlobalMetadata::MemorySize => 1,
            GlobalMetadata::TrieDataSize => 2,
            GlobalMetadata::RlpDataSize => 3,
            GlobalMetadata::StateTrieRoot => 4,
            GlobalMetadata::TransactionTrieRoot => 5,
            GlobalMetadata::ReceiptTrieRoot => 6,
            GlobalMetadata::StateTrieRootDigestBefore => 7,
            GlobalMetadata::TransactionTrieRootDigestBefore => 8,
            GlobalMetadata::ReceiptTrieRootDigestBefore => 9,
            GlobalMetadata::StateTrieRootDigestAfter => 10,
            GlobalMetadata::TransactionTrieRootDigestAfter => 11,
            GlobalMetadata::ReceiptTrieRootDigestAfter => 12,
            GlobalMetadata::BlockBeneficiary => 13,
            GlobalMetadata::BlockTimestamp => 14,
            GlobalMetadata::BlockNumber => 15,
            GlobalMetadata::BlockDifficulty => 16,
            GlobalMetadata::BlockRandom => 17,
            GlobalMetadata::BlockGasLimit => 18,
            GlobalMetadata::BlockChainId => 19,
            GlobalMetadata::BlockBaseFee => 20,
            GlobalMetadata::BlockBlobGasUsed => 21,
            GlobalMetadata::BlockExcessBlobGas => 22,
            GlobalMetadata::BlockGasUsed => 23,
            GlobalMetadata::BlockGasUsedBefore => 24,
            GlobalMetadata::BlockGasUsedAfter => 25,
            GlobalMetadata::BlockCurrentHash => 26,
            GlobalMetadata::ParentBeaconBlockRoot => 27,
            GlobalMetadata::RefundCounter => 28,
            GlobalMetadata::AccessedAddressesLen => 29,
            GlobalMetadata::AccessedStorageKeysLen => 30,
            GlobalMetadata::SelfDestructListLen => 31,
            GlobalMetadata::BloomEntryLen => 32,
            GlobalMetadata::JournalLen => 33,
            GlobalMetadata::JournalDataLen => 34,
            GlobalMetadata::CurrentCheckpoint => 35,
            GlobalMetadata::TouchedAddressesLen => 36,
            GlobalMetadata::AccessListDataCost => 37,
            GlobalMetadata::AccessListRlpStart => 38,
            GlobalMetadata::AccessListRlpLen => 39,
            GlobalMetadata::ContractCreation => 40,
            GlobalMetadata::IsPrecompileFromEoa => 41,
            GlobalMetadata::CallStackDepth => 42,
            GlobalMetadata::LogsLen => 43,
            GlobalMetadata::LogsDataLen => 44,
            GlobalMetadata::LogsPayloadLen => 45,
            GlobalMetadata::TxnNumberBefore => 46,
            GlobalMetadata::TxnNumberAfter => 47,
            GlobalMetadata::CreatedContractsLen => 48,
            GlobalMetadata::KernelHash => 49,
            GlobalMetadata::KernelLen => 50,
            GlobalMetadata::AccountsLinkedListNextAvailable => 51,
            GlobalMetadata::StorageLinkedListNextAvailable => 52,
            GlobalMetadata::InitialAccountsLinkedListLen => 53,
            GlobalMetadata::InitialStorageLinkedListLen => 54,
            GlobalMetadata::TransientStorageLen => 55,
            GlobalMetadata::BlobVersionedHashesRlpStart => 56,
            GlobalMetadata::BlobVersionedHashesRlpLen => 57,
            GlobalMetadata::BlobVersionedHashesLen => 58,
        }
    }

    /// Every field, exactly once each.
    pub fn all() -> (r: Vec<GlobalMetadata>)
        ensures
            r@ == all_spec(),
            r@.len() == GLOBAL_METADATA_COUNT,
    {
        let r: Vec<GlobalMetadata> = vec![
            GlobalMetadata::LargestContext,
            GlobalMetadata::MemorySize,
            GlobalMetadata::TrieDataSize,
            GlobalMetadata::RlpDataSize,
            GlobalMetadata::StateTrieRoot,
            GlobalMetadata::TransactionTrieRoot,
            GlobalMetadata::ReceiptTrieRoot,
            GlobalMetadata::StateTrieRootDigestBefore,
            GlobalMetadata::TransactionTrieRootDigestBefore,
            GlobalMetadata::ReceiptTrieRootDigestBefore,
            GlobalMetadata::StateTrieRootDigestAfter,
            GlobalMetadata::TransactionTrieRootDigestAfter,
            GlobalMetadata::ReceiptTrieRootDigestAfter,
            GlobalMetadata::BlockBeneficiary,
            GlobalMetadata::BlockTimestamp,
            GlobalMetadata::BlockNumber,
            GlobalMetadata::BlockDifficulty,
            GlobalMetadata::BlockRandom,
            GlobalMetadata::BlockGasLimit,
            GlobalMetadata::BlockChainId,
            GlobalMetadata::BlockBaseFee,
            GlobalMetadata::BlockGasUsed,
            GlobalMetadata::BlockBlobGasUsed,
            GlobalMetadata::BlockExcessBlobGas,
            GlobalMetadata::BlockGasUsedBefore,
            GlobalMetadata::BlockGasUsedAfter,
            GlobalMetadata::ParentBeaconBlockRoot,
            GlobalMetadata::RefundCounter,
            GlobalMetadata::AccessedAddressesLen,
            GlobalMetadata::AccessedStorageKeysLen,
            GlobalMetadata::SelfDestructListLen,
            GlobalMetadata::BloomEntryLen,
            GlobalMetadata::JournalLen,
            GlobalMetadata::JournalDataLen,
            GlobalMetadata::CurrentCheckpoint,
            GlobalMetadata::TouchedAddressesLen,
            GlobalMetadata::AccessListDataCost,
            GlobalMetadata::AccessListRlpStart,
            GlobalMetadata::AccessListRlpLen,
            GlobalMetadata::ContractCreation,
            GlobalMetadata::IsPrecompileFromEoa,
            GlobalMetadata::CallStackDepth,
            GlobalMetadata::LogsLen,
            GlobalMetadata::LogsDataLen,
            GlobalMetadata::LogsPayloadLen,
            GlobalMetadata::BlockCurrentHash,
            GlobalMetadata::TxnNumberBefore,
            GlobalMetadata::TxnNumberAfter,
            GlobalMetadata::CreatedContractsLen,
            GlobalMetadata::KernelHash,
            GlobalMetadata::KernelLen,
            GlobalMetadata::AccountsLinkedListNextAvailable,
            GlobalMetadata::StorageLinkedListNextAvailable,
            GlobalMetadata::InitialAccountsLinkedListLen,
            GlobalMetadata::InitialStorageLinkedListLen,
            GlobalMetadata::TransientStorageLen,
            GlobalMetadata::BlobVersionedHashesRlpStart,
            GlobalMetadata::BlobVersionedHashesRlpLen,
            GlobalMetadata::BlobVersionedHashesLen,
        ];
        proof {
            assert(r@ =~= all_spec());
        }
        r
    }

    /// The name the kernel assembly refers to the field by.
    pub fn var_name(&self) -> (r: &'static str)
        ensures
            r@ == var_name_spec(*self),
    {
        match self {
            GlobalMetadata::LargestContext => "GLOBAL_METADATA_LARGEST_CONTEXT",
            GlobalMetadata::MemorySize => "GLOBAL_METADATA_MEMORY_SIZE",
            GlobalMetadata::TrieDataSize => "GLOBAL_METADATA_TRIE_DATA_SIZE",
            GlobalMetadata::RlpDataSize => "GLOBAL_METADATA_RLP_DATA_SIZE",
            GlobalMetadata::StateTrieRoot => "GLOBAL_METADATA_STATE_TRIE_ROOT",
            GlobalMetadata::TransactionTrieRoot => "GLOBAL_METADATA_TXN_TRIE_ROOT",
            GlobalMetadata::ReceiptTrieRoot => "GLOBAL_METADATA_RECEIPT_TRIE_ROOT",
            GlobalMetadata::StateTrieRootDigestBefore => "GLOBAL_METADATA_STATE_TRIE_DIGEST_BEFORE",
            GlobalMetadata::TransactionTrieRootDigestBefore => "GLOBAL_METADATA_TXN_TRIE_DIGEST_BEFORE",
            GlobalMetadata::ReceiptTrieRootDigestBefore => "GLOBAL_METADATA_RECEIPT_TRIE_DIGEST_BEFORE",
            GlobalMetadata::StateTrieRootDigestAfter => "GLOBAL_METADATA_STATE_TRIE_DIGEST_AFTER",
            GlobalMetadata::TransactionTrieRootDigestAfter => "GLOBAL_METADATA_TXN_TRIE_DIGEST_AFTER",
            GlobalMetadata::ReceiptTrieRootDigestAfter => "GLOBAL_METADATA_RECEIPT_TRIE_DIGEST_AFTER",
            GlobalMetadata::BlockBeneficiary => "GLOBAL_METADATA_BLOCK_BENEFICIARY",
            GlobalMetadata::BlockTimestamp => "GLOBAL_METADATA_BLOCK_TIMESTAMP",
            GlobalMetadata::BlockNumber => "GLOBAL_METADATA_BLOCK_NUMBER",
            GlobalMetadata::BlockDifficulty => "GLOBAL_METADATA_BLOCK_DIFFICULTY",
            GlobalMetadata::BlockRandom => "GLOBAL_METADATA_BLOCK_RANDOM",
            GlobalMetadata::BlockGasLimit => "GLOBAL_METADATA_BLOCK_GAS_LIMIT",
            GlobalMetadata::BlockChainId => "GLOBAL_METADATA_BLOCK_CHAIN_ID",
            GlobalMetadata::BlockBaseFee => "GLOBAL_METADATA_BLOCK_BASE_FEE",
            GlobalMetadata::BlockBlobGasUsed => "GLOBAL_METADATA_BLOCK_BLOB_GAS_USED",
            GlobalMetadata::BlockExcessBlobGas => "GLOBAL_METADATA_BLOCK_EXCESS_BLOB_GAS",
            GlobalMetadata::BlockGasUsed => "GLOBAL_METADATA_BLOCK_GAS_USED",
            GlobalMetadata::BlockGasUsedBefore => "GLOBAL_METADATA_BLOCK_GAS_USED_BEFORE",
            GlobalMetadata::BlockGasUsedAfter => "GLOBAL_METADATA_BLOCK_GAS_USED_AFTER",
            GlobalMetadata::BlockCurrentHash => "GLOBAL_METADATA_BLOCK_CURRENT_HASH",
            GlobalMetadata::ParentBeaconBlockRoot => "GLOBAL_METADATA_PARENT_BEACON_BLOCK_ROOT",
            GlobalMetadata::RefundCounter => "GLOBAL_METADATA_REFUND_COUNTER",
            GlobalMetadata::AccessedAddressesLen => "GLOBAL_METADATA_ACCESSED_ADDRESSES_LEN",
            GlobalMetadata::AccessedStorageKeysLen => "GLOBAL_METADATA_ACCESSED_STORAGE_KEYS_LEN",
            GlobalMetadata::SelfDestructListLen => "GLOBAL_METADATA_SELFDESTRUCT_LIST_LEN",
            GlobalMetadata::BloomEntryLen => "GLOBAL_METADATA_BLOOM_ENTRY_LEN",
            GlobalMetadata::JournalLen => "GLOBAL_METADATA_JOURNAL_LEN",
            GlobalMetadata::JournalDataLen => "GLOBAL_METADATA_JOURNAL_DATA_LEN",
            GlobalMetadata::CurrentCheckpoint => "GLOBAL_METADATA_CURRENT_CHECKPOINT",
            GlobalMetadata::TouchedAddressesLen => "GLOBAL_METADATA_TOUCHED_ADDRESSES_LEN",
            GlobalMetadata::AccessListDataCost => "GLOBAL_METADATA_ACCESS_LIST_DATA_COST",
            GlobalMetadata::AccessListRlpStart => "GLOBAL_METADATA_ACCESS_LIST_RLP_START",
            GlobalMetadata::AccessListRlpLen => "GLOBAL_METADATA_ACCESS_LIST_RLP_LEN",
            GlobalMetadata::ContractCreation => "GLOBAL_METADATA_CONTRACT_CREATION",
            GlobalMetadata::IsPrecompileFromEoa => "GLOBAL_METADATA_IS_PRECOMPILE_FROM_EOA",
            GlobalMetadata::CallStackDepth => "GLOBAL_METADATA_CALL_STACK_DEPTH",
            GlobalMetadata::LogsLen => "GLOBAL_METADATA_LOGS_LEN",
            GlobalMetadata::LogsDataLen => "GLOBAL_METADATA_LOGS_DATA_LEN",
            GlobalMetadata::LogsPayloadLen => "GLOBAL_METADATA_LOGS_PAYLOAD_LEN",
            GlobalMetadata::TxnNumberBefore => "GLOBAL_METADATA_TXN_NUMBER_BEFORE",
            GlobalMetadata::TxnNumberAfter => "GLOBAL_METADATA_TXN_NUMBER_AFTER",
            GlobalMetadata::CreatedContractsLen => "GLOBAL_METADATA_CREATED_CONTRACTS_LEN",
            GlobalMetadata::KernelHash => "GLOBAL_METADATA_KERNEL_HASH",
            GlobalMetadata::KernelLen => "GLOBAL_METADATA_KERNEL_LEN",
            GlobalMetadata::AccountsLinkedListNextAvailable => "GLOBAL_METADATA_ACCOUNTS_LINKED_LIST_NEXT_AVAILABLE",
            GlobalMetadata::StorageLinkedListNextAvailable => "GLOBAL_METADATA_STORAGE_LINKED_LIST_NEXT_AVAILABLE",
            GlobalMetadata::InitialAccountsLinkedListLen => "GLOBAL_METADATA_INITIAL_ACCOUNTS_LINKED_LIST_LEN",
            GlobalMetadata::InitialStorageLinkedListLen => "GLOBAL_METADATA_INITIAL_STORAGE_LINKED_LIST_LEN",
            GlobalMetadata::TransientStorageLen => "GLOBAL_METADATA_TRANSIENT_STORAGE_LEN",
            GlobalMetadata::BlobVersionedHashesRlpStart => "GLOBAL_METADATA_BLOB_VERSIONED_HASHES_RLP_START",
            GlobalMetadata::BlobVersionedHashesRlpLen => "GLOBAL_METADATA_BLOB_VERSIONED_HASHES_RLP_LEN",
            GlobalMetadata::BlobVersionedHashesLen => "GLOBAL_METADATA_BLOB_VERSIONED_HASHES_LEN",
        }
    }
}

/// The listing covers every field: each one occurs in `all_spec`.
pub proof fn lemma_all_covers(m: GlobalMetadata)
    ensures
        all_spec().contains(m),
        all_spec()[unscale_in_all(m)] == m,
{
    assert(all_spec()[unscale_in_all(m)] == m);
}

/// The position of each field in the listing order.
pub open spec fn unscale_in_all(m: GlobalMetadata) -> int {
    match m {
        GlobalMetadata::LargestContext => 0,
        GlobalMetadata::MemorySize => 1,
        GlobalMetadata::TrieDataSize => 2,
        GlobalMetadata::RlpDataSize => 3,
        GlobalMetadata::StateTrieRoot => 4,
        GlobalMetadata::TransactionTrieRoot => 5,
        GlobalMetadata::ReceiptTrieRoot => 6,
        GlobalMetadata::StateTrieRootDigestBefore => 7,
        GlobalMetadata::TransactionTrieRootDigestBefore => 8,
        GlobalMetadata::ReceiptTrieRootDigestBefore => 9,
        GlobalMetadata::StateTrieRootDigestAfter => 10,
        GlobalMetadata::TransactionTrieRootDigestAfter => 11,
        GlobalMetadata::ReceiptTrieRootDigestAfter => 12,
        GlobalMetadata::BlockBeneficiary => 13,
        GlobalMetadata::BlockTimestamp => 14,
        GlobalMetadata::BlockNumber => 15,
        GlobalMetadata::BlockDifficulty => 16,
        GlobalMetadata::BlockRandom => 17,
        GlobalMetadata::BlockGasLimit => 18,
        GlobalMetadata::BlockChainId => 19,
        GlobalMetadata::BlockBaseFee => 20,
        GlobalMetadata::BlockGasUsed => 21,
        GlobalMetadata::BlockBlobGasUsed => 22,
        GlobalMetadata::BlockExcessBlobGas => 23,
        GlobalMetadata::BlockGasUsedBefore => 24,
        GlobalMetadata::BlockGasUsedAfter => 25,
        GlobalMetadata::ParentBeaconBlockRoot => 26,
        GlobalMetadata::RefundCounter => 27,
        GlobalMetadata::AccessedAddressesLen => 28,
        GlobalMetadata::AccessedStorageKeysLen => 29,
        GlobalMetadata::SelfDestructListLen => 30,
        GlobalMetadata::BloomEntryLen => 31,
        GlobalMetadata::JournalLen => 32,
        GlobalMetadata::JournalDataLen => 33,
        GlobalMetadata::CurrentCheckpoint => 34,
        GlobalMetadata::TouchedAddressesLen => 35,
        GlobalMetadata::AccessListDataCost => 36,
        GlobalMetadata::AccessListRlpStart => 37,
        GlobalMetadata::AccessListRlpLen => 38,
        GlobalMetadata::ContractCreation => 39,
        GlobalMetadata::IsPrecompileFromEoa => 40,
        GlobalMetadata::CallStackDepth => 41,
        GlobalMetadata::LogsLen => 42,
        GlobalMetadata::LogsDataLen => 43,
        GlobalMetadata::LogsPayloadLen => 44,
        GlobalMetadata::BlockCurrentHash => 45,
        GlobalMetadata::TxnNumberBefore => 46,
        GlobalMetadata::TxnNumberAfter => 47,
        GlobalMetadata::CreatedContractsLen => 48,
        GlobalMetadata::KernelHash => 49,
        GlobalMetadata::KernelLen => 50,
        GlobalMetadata::AccountsLinkedListNextAvailable => 51,
        GlobalMetadata::StorageLinkedListNextAvailable => 52,
        GlobalMetadata::InitialAccountsLinkedListLen => 53,
        GlobalMetadata::InitialStorageLinkedListLen => 54,
        GlobalMetadata::TransientStorageLen => 55,
        GlobalMetadata::BlobVersionedHashesRlpStart => 56,
        GlobalMetadata::BlobVersionedHashesRlpLen => 57,
        GlobalMetadata::BlobVersionedHashesLen => 58,
    }
}

} // verus!

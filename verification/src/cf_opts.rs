//! Column options: the settings with which a column is opened, worked out
//! from its descriptor, the global configuration and its cache.

use crate::cache::{get_cache, needs_shared, provision, CacheRegistry, CacheUse, SHARED};
use crate::descriptor::{
    CompactionPri, CompactionStyle, CompressionType, Config, Descriptor,
};
use crate::error::ErrorKind;
use crate::text::str_eq;
use vstd::prelude::*;

verus! {

/// Options string that tunes readahead of the block-based table.
pub const READAHEAD_OPTIONS: &'static str =
    "{{block_based_table_factory={num_file_reads_for_auto_readahead=0;max_auto_readahead_size=524288;initial_auto_readahead_size=16384}}}";

/// Options string that sets the arena block size to 2 MiB.
pub const ARENA_OPTIONS: &'static str = "{{arena_block_size=2097152;}}";

/// Window-bits parameter of the compression options; only zlib reads it.
pub const WINDOW_BITS: i32 = -14;

/// Compression-size percent of universal compaction: every file is compressed.
pub const COMPRESSION_SIZE_PERCENT: i32 = -1;

/// Size-amplification percent of universal compaction, high enough never to trigger.
pub const MAX_SIZE_AMPLIFICATION_PERCENT: i32 = 10000;

/// How index and filter blocks are pinned in the cache.
#[derive(Clone, Copy, Debug, PartialEq, Eq, Structural)]
pub enum PinningTier {
    Fallback,
    Unpinned,
    FlushedAndSimilar,
    All,
}

/// Index layout of a block-based table.
#[derive(Clone, Copy, Debug, PartialEq, Eq, Structural)]
pub enum IndexType {
    BinarySearch,
    HashSearch,
    TwoLevelIndexSearch,
}

/// Index inside a data block.
#[derive(Clone, Copy, Debug, PartialEq, Eq, Structural)]
pub enum DataBlockIndexType {
    BinarySearch,
    BinaryAndHash,
}

/// When universal compaction stops picking files.
#[derive(Clone, Copy, Debug, PartialEq, Eq, Structural)]
pub enum StopStyle {
    Similar,
    Total,
}

/// The block cache of a table.
#[derive(Clone, Copy, Debug, PartialEq, Eq, Structural)]
pub enum BlockCache {
    /// Nothing was said; the engine decides.
    Unset,
    /// The cache with this handle is attached.
    Attached(usize),
    /// The table runs without a block cache.
    Disabled,
}

/// Settings of the block-based table factory.
#[derive(Clone, Copy, Debug, PartialEq, Eq, Structural)]
pub struct TableOptions {
    pub block_size: usize,
    pub metadata_block_size: usize,
    pub cache_index_and_filter_blocks: bool,
    pub pin_top_level_index_and_filter: bool,
    pub pin_l0_filter_and_index_blocks_in_cache: bool,
    pub partition_pinning_tier: PinningTier,
    pub unpartitioned_pinning_tier: PinningTier,
    pub top_level_index_pinning_tier: PinningTier,
    pub partition_filters: bool,
    pub use_delta_encoding: bool,
    pub index_type: IndexType,
    pub data_block_index_type: DataBlockIndexType,
    pub block_cache: BlockCache,
}

/// Tunables of universal compaction.
#[derive(Clone, Copy, Debug, PartialEq, Eq, Structural)]
pub struct UniversalCompactOptions {
    pub stop_style: StopStyle,
    pub min_merge_width: i32,
    pub max_merge_width: i32,
    pub max_size_amplification_percent: i32,
    pub compression_size_percent: i32,
    pub size_ratio: i32,
}

/// Parameters of a compression setting.
#[derive(Clone, Copy, Debug, PartialEq, Eq, Structural)]
pub struct CompressionOptions {
    pub window_bits: i32,
    pub level: i32,
    pub strategy: i32,
    pub max_dict_bytes: i32,
}

/// Compression of the bottommost level.
#[derive(Clone, Copy, Debug, PartialEq, Eq, Structural)]
pub struct BottommostCompression {
    pub compression: CompressionType,
    pub options: CompressionOptions,
    /// Bytes of training data for zstd dictionaries; zero switches training off.
    pub zstd_max_train_bytes: i32,
}

/// Everything that is set on a column's options before it is opened.
#[derive(Clone, Copy, Debug)]
pub struct ColumnOptions {
    pub table: TableOptions,
    /// Options string applied before the table factory is set.
    pub table_tuning: &'static str,
    pub min_write_buffer_number: i32,
    pub max_write_buffer_number: i32,
    /// Size of a write buffer; `None` leaves the base value in place.
    pub write_buffer_size: Option<usize>,
    pub target_file_size_base: u64,
    pub target_file_size_multiplier: i32,
    pub level_zero_file_num_compaction_trigger: i32,
    pub level_compaction_dynamic_level_bytes: bool,
    pub ttl: u64,
    pub max_bytes_for_level_base: u64,
    /// The level multiplier, a whole number.
    pub max_bytes_for_level_multiplier: u32,
    pub max_bytes_for_level_multiplier_additional: [i32; 7],
    pub compaction_style: CompactionStyle,
    pub compaction_pri: CompactionPri,
    pub universal_compaction: UniversalCompactOptions,
    pub compression_type: CompressionType,
    pub compression_options: CompressionOptions,
    /// Compression of the bottommost level; `None` leaves the base in place.
    pub bottommost: Option<BottommostCompression>,
    /// Options string applied last.
    pub arena_tuning: &'static str,
}

/// The compression that a configured algorithm name selects; an unknown
/// name selects zstd.
pub open spec fn compression_of(algo: Seq<char>) -> CompressionType {
    if algo == "snappy"@ {
        CompressionType::Snappy
    } else if algo == "zlib"@ {
        CompressionType::Zlib
    } else if algo == "bz2"@ {
        CompressionType::Bz2
    } else if algo == "lz4"@ {
        CompressionType::Lz4
    } else if algo == "lz4hc"@ {
        CompressionType::Lz4hc
    } else if algo == "none"@ {
        CompressionType::Uncompressed
    } else {
        CompressionType::Zstd
    }
}

/// The descriptor with its compression fields taken from the configuration.
pub open spec fn with_compression(desc: Descriptor, config: &Config) -> Descriptor {
    Descriptor {
        compression: compression_of(config.rocksdb_compression_algo@),
        compression_level: config.rocksdb_compression_level,
        bottommost_level: if config.rocksdb_bottommost_compression {
            Some(config.rocksdb_bottommost_compression_level)
        } else {
            None
        },
        ..desc
    }
}

/// Table settings for a column, before a cache is attached.
pub open spec fn table_options_of(desc: &Descriptor, has_cache: bool) -> TableOptions {
    TableOptions {
        block_size: desc.block_size,
        metadata_block_size: desc.index_size,
        cache_index_and_filter_blocks: has_cache,
        pin_top_level_index_and_filter: false,
        pin_l0_filter_and_index_blocks_in_cache: false,
        partition_pinning_tier: PinningTier::Unpinned,
        unpartitioned_pinning_tier: PinningTier::Unpinned,
        top_level_index_pinning_tier: PinningTier::Unpinned,
        partition_filters: true,
        use_delta_encoding: false,
        index_type: IndexType::TwoLevelIndexSearch,
        data_block_index_type: if desc.block_index_hashing {
            DataBlockIndexType::BinaryAndHash
        } else {
            DataBlockIndexType::BinarySearch
        },
        block_cache: BlockCache::Unset,
    }
}

/// Table settings for a column with its cache attached, or with the block
/// cache disabled where it has none.
pub open spec fn table_with_cache(desc: &Descriptor, cache: Option<usize>) -> TableOptions {
    TableOptions {
        block_cache: match cache {
            Some(handle) => BlockCache::Attached(handle),
            None => BlockCache::Disabled,
        },
        ..table_options_of(desc, cache.is_some())
    }
}

/// Universal compaction tunables of a column.
pub open spec fn uc_options_of(desc: &Descriptor) -> UniversalCompactOptions {
    UniversalCompactOptions {
        stop_style: StopStyle::Total,
        min_merge_width: desc.merge_width.0,
        max_merge_width: desc.merge_width.1,
        max_size_amplification_percent: MAX_SIZE_AMPLIFICATION_PERCENT,
        compression_size_percent: COMPRESSION_SIZE_PERCENT,
        size_ratio: 1,
    }
}

/// Compression parameters at `level`.
pub open spec fn compression_options_of(level: i32) -> CompressionOptions {
    CompressionOptions { window_bits: WINDOW_BITS, level, strategy: 0, max_dict_bytes: 0 }
}

/// The options of a column whose descriptor already carries the configured
/// compression.
pub open spec fn patched_cf_options(desc: Descriptor, cache: Option<usize>) -> ColumnOptions {
    ColumnOptions {
        table: table_with_cache(&desc, cache),
        table_tuning: READAHEAD_OPTIONS,
        min_write_buffer_number: 1,
        max_write_buffer_number: 2,
        write_buffer_size: desc.write_size,
        target_file_size_base: desc.file_size,
        target_file_size_multiplier: desc.file_shape[0],
        level_zero_file_num_compaction_trigger: desc.level0_width,
        level_compaction_dynamic_level_bytes: false,
        ttl: desc.ttl,
        max_bytes_for_level_base: desc.level_size,
        max_bytes_for_level_multiplier: 1,
        max_bytes_for_level_multiplier_additional: desc.level_shape,
        compaction_style: desc.compaction,
        compaction_pri: desc.compaction_pri,
        universal_compaction: uc_options_of(&desc),
        compression_type: desc.compression,
        compression_options: compression_options_of(desc.compression_level),
        bottommost: match desc.bottommost_level {
            Some(level) => Some(
                BottommostCompression {
                    compression: desc.compression,
                    options: compression_options_of(level),
                    zstd_max_train_bytes: 0,
                },
            ),
            None => None,
        },
        arena_tuning: ARENA_OPTIONS,
    }
}

/// The options of a column: its descriptor, patched from the configuration,
/// laid out as engine settings.
pub open spec fn cf_options_of(desc: Descriptor, config: &Config, cache: Option<usize>) -> ColumnOptions {
    patched_cf_options(with_compression(desc, config), cache)
}

/// Takes the compression fields of the descriptor from the configuration.
pub fn set_compression(desc: &mut Descriptor, config: &Config)
    ensures
        *final(desc) == with_compression(*old(desc), config),
{
    let algo = config.rocksdb_compression_algo.as_str();
    desc.compression = if str_eq(algo, "snappy") {
        CompressionType::Snappy
    } else if str_eq(algo, "zlib") {
        CompressionType::Zlib
    } else if str_eq(algo, "bz2") {
        CompressionType::Bz2
    } else if str_eq(algo, "lz4") {
        CompressionType::Lz4
    } else if str_eq(algo, "lz4hc") {
        CompressionType::Lz4hc
    } else if str_eq(algo, "none") {
        CompressionType::Uncompressed
    } else {
        CompressionType::Zstd
    };
    desc.compression_level = config.rocksdb_compression_level;
    desc.bottommost_level = if config.rocksdb_bottommost_compression {
        Some(config.rocksdb_bottommost_compression_level)
    } else {
        None
    };
}

/// Universal compaction tunables of a column.
pub fn uc_options(desc: &Descriptor) -> (r: UniversalCompactOptions)
    ensures
        r == uc_options_of(desc),
{
    UniversalCompactOptions {
        stop_style: StopStyle::Total,
        min_merge_width: desc.merge_width.0,
        max_merge_width: desc.merge_width.1,
        max_size_amplification_percent: MAX_SIZE_AMPLIFICATION_PERCENT,
        compression_size_percent: COMPRESSION_SIZE_PERCENT,
        size_ratio: 1,
    }
}

/// Table settings for a column, before a cache is attached.
pub fn table_options(desc: &Descriptor, has_cache: bool) -> (r: TableOptions)
    ensures
        r == table_options_of(desc, has_cache),
{
    TableOptions {
        block_size: desc.block_size,
        metadata_block_size: desc.index_size,
        cache_index_and_filter_blocks: has_cache,
        pin_top_level_index_and_filter: false,
        pin_l0_filter_and_index_blocks_in_cache: false,
        partition_pinning_tier: PinningTier::Unpinned,
        unpartitioned_pinning_tier: PinningTier::Unpinned,
        top_level_index_pinning_tier: PinningTier::Unpinned,
        partition_filters: true,
        use_delta_encoding: false,
        index_type: IndexType::TwoLevelIndexSearch,
        data_block_index_type: if desc.block_index_hashing {
            DataBlockIndexType::BinaryAndHash
        } else {
            DataBlockIndexType::BinarySearch
        },
        block_cache: BlockCache::Unset,
    }
}

/// Sets the table of `opts` for the column, with `cache` attached or the
/// block cache disabled, and the readahead tuning that goes with it.
pub fn set_table_options(opts: &mut ColumnOptions, desc: &Descriptor, cache: Option<usize>)
    ensures
        *final(opts) == (ColumnOptions {
            table: table_with_cache(desc, cache),
            table_tuning: READAHEAD_OPTIONS,
            ..*old(opts)
        }),
{
    let mut table = table_options(desc, cache.is_some());
    match cache {
        Some(handle) => {
            table.block_cache = BlockCache::Attached(handle);
        },
        None => {
            table.block_cache = BlockCache::Disabled;
        },
    }
    opts.table_tuning = READAHEAD_OPTIONS;
    opts.table = table;
}

/// The settings of the column: its descriptor, patched from the
/// configuration, with `cache` as its block cache.
pub fn descriptor_cf_options(desc: Descriptor, config: &Config, cache: Option<usize>) -> (r:
    ColumnOptions)
    ensures
        r == cf_options_of(desc, config, cache),
{
    let mut desc = desc;
    set_compression(&mut desc, config);
    let mut opts = ColumnOptions {
        table: table_options(&desc, cache.is_some()),
        table_tuning: READAHEAD_OPTIONS,
        min_write_buffer_number: 1,
        max_write_buffer_number: 2,
        write_buffer_size: desc.write_size,
        target_file_size_base: desc.file_size,
        target_file_size_multiplier: desc.file_shape[0],
        level_zero_file_num_compaction_trigger: desc.level0_width,
        level_compaction_dynamic_level_bytes: false,
        ttl: desc.ttl,
        max_bytes_for_level_base: desc.level_size,
        max_bytes_for_level_multiplier: 1,
        max_bytes_for_level_multiplier_additional: desc.level_shape,
        compaction_style: desc.compaction,
        compaction_pri: desc.compaction_pri,
        universal_compaction: uc_options(&desc),
        compression_type: desc.compression,
        compression_options: CompressionOptions {
            window_bits: WINDOW_BITS,
            level: desc.compression_level,
            strategy: 0,
            max_dict_bytes: 0,
        },
        bottommost: match desc.bottommost_level {
            Some(level) => Some(
                BottommostCompression {
                    compression: desc.compression,
                    options: CompressionOptions {
                        window_bits: WINDOW_BITS,
                        level,
                        strategy: 0,
                        max_dict_bytes: 0,
                    },
                    zstd_max_train_bytes: 0,
                },
            ),
            None => None,
        },
        arena_tuning: ARENA_OPTIONS,
    };
    set_table_options(&mut opts, &desc, cache);
    opts
}

/// Provisions the column's cache and lays out its options. Returns the
/// options together with the cache that the column uses.
pub fn cf_options(registry: &mut CacheRegistry, config: &Config, desc: &Descriptor) -> (r: Result<
    (ColumnOptions, CacheUse),
    ErrorKind,
>)
    requires
        needs_shared(desc, config) ==> old(registry)@.names.contains_key(SHARED@),
    ensures
        final(registry)@ == provision(old(registry)@, desc, config).0,
        match provision(old(registry)@, desc, config).1 {
            Ok(cache) => r == Ok::<(ColumnOptions, CacheUse), ErrorKind>(
                (cf_options_of(*desc, config, cache.spec_handle()), cache),
            ),
            Err(e) => r == Err::<(ColumnOptions, CacheUse), ErrorKind>(e),
        },
{
    let cache = match get_cache(registry, desc, config) {
        Ok(cache) => cache,
        Err(e) => {
            return Err(e);
        },
    };
    Ok((descriptor_cf_options(*desc, config, cache.handle()), cache))
}

/// The outcome of applying an options string, in the library's own error
/// kinds: a rejection by the engine becomes `EngineOptions`.
pub fn engine_outcome<T, E>(r: Result<T, E>) -> (out: Result<(), ErrorKind>)
    ensures
        r is Ok ==> out == Ok::<(), ErrorKind>(()),
        r is Err ==> out == Err::<(), ErrorKind>(ErrorKind::EngineOptions),
{
    match r {
        Ok(_) => Ok(()),
        Err(_) => Err(ErrorKind::EngineOptions),
    }
}

} // verus!

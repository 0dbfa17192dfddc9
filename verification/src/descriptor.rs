//! Per-column tuning records.

use crate::text::str_eq;
use vstd::prelude::*;

verus! {

/// How a column's block cache is provisioned.
#[derive(Clone, Copy, Debug)]
pub enum CacheDisp {
    /// The column gets a cache of its own.
    Unique,
    /// The column uses the global pool.
    Shared,
    /// The column uses the cache registered under another column's name.
    SharedWith(&'static str),
}

/// Compaction style of a column.
#[derive(Clone, Copy, Debug, PartialEq, Eq, Structural)]
pub enum CompactionStyle {
    Level,
    Universal,
    Fifo,
}

/// Which files a level compaction picks first.
#[derive(Clone, Copy, Debug, PartialEq, Eq, Structural)]
pub enum CompactionPri {
    ByCompensatedSize,
    OldestLargestSeqFirst,
    OldestSmallestSeqFirst,
    MinOverlappingRatio,
    RoundRobin,
}

/// Compression applied to a column's blocks.
#[derive(Clone, Copy, Debug, PartialEq, Eq, Structural)]
pub enum CompressionType {
    /// Blocks are stored as they are.
    Uncompressed,
    Snappy,
    Zlib,
    Bz2,
    Lz4,
    Lz4hc,
    Zstd,
}

/// Two to the power `n`.
pub open spec fn pow2(n: nat) -> nat
    decreases n,
{
    if n == 0 {
        1
    } else {
        2 * pow2((n - 1) as nat)
    }
}

/// True when `n` is one of 1, 2, 4, 8, 16, 32, 64.
pub open spec fn valid_shards(n: u32) -> bool {
    exists|k: nat| k <= 6 && n == #[trigger] pow2(k)
}

/// The powers of two up to 64, one by one.
pub proof fn lemma_valid_shards(n: u32)
    ensures
        valid_shards(n) <==> (n == 1 || n == 2 || n == 4 || n == 8 || n == 16 || n == 32 || n
            == 64),
        pow2(0) == 1,
        pow2(1) == 2,
        pow2(2) == 4,
        pow2(3) == 8,
        pow2(4) == 16,
        pow2(5) == 32,
        pow2(6) == 64,
{
    reveal_with_fuel(pow2, 8);
    if n == 1 {
        assert(n == pow2(0));
    }
    if n == 2 {
        assert(n == pow2(1));
    }
    if n == 4 {
        assert(n == pow2(2));
    }
    if n == 8 {
        assert(n == pow2(3));
    }
    if n == 16 {
        assert(n == pow2(4));
    }
    if n == 32 {
        assert(n == pow2(5));
    }
    if n == 64 {
        assert(n == pow2(6));
    }
}

/// A shard count of a block cache: a power of two, at most 64.
#[derive(Clone, Copy, Debug)]
pub struct Shards {
    count: u32,
}

impl Shards {
    #[verifier::type_invariant]
    spec fn inv(self) -> bool {
        valid_shards(self.count)
    }

    /// The count as a number.
    pub closed spec fn value(self) -> u32 {
        self.count
    }

    /// The base-2 logarithm of the count.
    pub open spec fn log2(self) -> i32 {
        let n = self.value();
        if n == 1 {
            0
        } else if n == 2 {
            1
        } else if n == 4 {
            2
        } else if n == 8 {
            3
        } else if n == 16 {
            4
        } else if n == 32 {
            5
        } else {
            6
        }
    }

    /// A shard count of `count`, where that is a power of two up to 64.
    pub fn new(count: u32) -> (r: Option<Shards>)
        ensures
            r.is_some() == valid_shards(count),
            r matches Some(s) ==> s.value() == count,
    {
        proof {
            lemma_valid_shards(count);
        }
        if count == 1 || count == 2 || count == 4 || count == 8 || count == 16 || count == 32
            || count == 64 {
            Some(Shards { count })
        } else {
            None
        }
    }

    /// A single shard.
    pub fn one() -> (r: Shards)
        ensures
            r.value() == 1,
    {
        proof {
            lemma_valid_shards(1);
        }
        Shards { count: 1 }
    }

    /// The count; always a power of two and at most 64.
    pub fn count(&self) -> (r: u32)
        ensures
            r == self.value(),
            valid_shards(r),
            r <= 64,
    {
        proof {
            use_type_invariant(self);
            lemma_valid_shards(self.count);
        }
        self.count
    }

    /// The base-2 logarithm of the count, which the cache constructor takes.
    pub fn bits(&self) -> (r: i32)
        ensures
            r == self.log2(),
            0 <= r <= 6,
            pow2(r as nat) == self.value(),
    {
        proof {
            use_type_invariant(self);
            lemma_valid_shards(self.count);
        }
        let n: u32 = self.count;
        if n == 1 {
            0
        } else if n == 2 {
            1
        } else if n == 4 {
            2
        } else if n == 8 {
            3
        } else if n == 16 {
            4
        } else if n == 32 {
            5
        } else {
            6
        }
    }
}

/// The tuning record of one column.
#[derive(Clone, Copy, Debug)]
pub struct Descriptor {
    /// Name of the column.
    pub name: &'static str,
    /// A dropped column is not opened and gets no cache.
    pub dropped: bool,
    /// How the block cache is provisioned.
    pub cache_disp: CacheDisp,
    /// Expected size of a key in bytes.
    pub key_size_hint: Option<usize>,
    /// Expected size of a value in bytes.
    pub val_size_hint: Option<usize>,
    /// Size of a data block.
    pub block_size: usize,
    /// Size of a metadata block.
    pub index_size: usize,
    /// Size of a write buffer, where the column sets one.
    pub write_size: Option<usize>,
    /// Capacity of a cache of the column's own, in bytes; zero for none.
    pub cache_size: usize,
    /// Bytes of the base level.
    pub level_size: u64,
    /// Additional size multipliers, level by level.
    pub level_shape: [i32; 7],
    /// Target size of a file.
    pub file_size: u64,
    /// Multipliers of the file size per level.
    pub file_shape: [i32; 1],
    /// Number of files at level zero that triggers compaction.
    pub level0_width: i32,
    /// Fewest and most files merged by one universal compaction.
    pub merge_width: (i32, i32),
    /// Seconds after which a file is compacted in any case.
    pub ttl: u64,
    pub compaction: CompactionStyle,
    pub compaction_pri: CompactionPri,
    /// Set from the configuration before the column is opened.
    pub compression: CompressionType,
    /// Set from the configuration before the column is opened.
    pub compression_level: i32,
    /// Set from the configuration before the column is opened.
    pub bottommost_level: Option<i32>,
    /// Whether data blocks carry a hash index.
    pub block_index_hashing: bool,
    /// Number of shards of the block cache.
    pub cache_shards: Shards,
}

/// The place in `table` of the first column named `name`.
pub fn find(table: &[Descriptor], name: &str) -> (r: Option<usize>)
    ensures
        match r {
            Some(i) => i < table@.len() && table@[i as int].name@ == name@ && forall|j: int|
                0 <= j < i ==> (#[trigger] table@[j]).name@ != name@,
            None => forall|j: int| 0 <= j < table@.len() ==> (#[trigger] table@[j]).name@ != name@,
        },
{
    let mut i: usize = 0;
    while i < table.len()
        invariant
            i <= table@.len(),
            forall|j: int| 0 <= j < i ==> (#[trigger] table@[j]).name@ != name@,
        decreases table@.len() - i,
    {
        if str_eq(table[i].name, name) {
            return Some(i);
        }
        i += 1;
    }
    None
}

/// The global settings that column provisioning reads.
pub struct Config {
    /// Name of the compression algorithm.
    pub rocksdb_compression_algo: String,
    pub rocksdb_compression_level: i32,
    pub rocksdb_bottommost_compression: bool,
    pub rocksdb_bottommost_compression_level: i32,
    /// Entity counts of the legacy capacity overrides, each with the global
    /// capacity modifier already applied and rounded down.
    pub eventid_pdu_cache_capacity: usize,
    pub eventidshort_cache_capacity: usize,
    pub shorteventid_cache_capacity: usize,
    pub auth_chain_cache_capacity: usize,
    pub shortstatekey_cache_capacity: usize,
    pub statekeyshort_cache_capacity: usize,
    pub servernameevent_data_cache_capacity: usize,
    pub pdu_cache_capacity: usize,
}

} // verus!

use record_columns::cache::{
    cache_capacity, cache_size, capacity_for, entity_bytes, get_cache, get_caches,
    needs_shared_pool, CacheOptions, CacheRegistry, CacheUse, SHARED,
};
use record_columns::cf_opts::{
    cf_options, descriptor_cf_options, engine_outcome, set_compression, set_table_options,
    table_options, uc_options, BlockCache, CompressionOptions, DataBlockIndexType, IndexType,
    PinningTier, StopStyle, ARENA_OPTIONS, READAHEAD_OPTIONS,
};
use record_columns::descriptor::{
    find, CacheDisp, CompactionPri, CompactionStyle, CompressionType, Config, Descriptor, Shards,
};
use record_columns::error::ErrorKind;
use record_columns::text::{str_eq, str_from_bytes, string_from_bytes};

fn descriptor(name: &'static str, disp: CacheDisp, cache_size: usize) -> Descriptor {
    Descriptor {
        name,
        dropped: false,
        cache_disp: disp,
        key_size_hint: Some(16),
        val_size_hint: Some(48),
        block_size: 1024,
        index_size: 512,
        write_size: Some(1 << 20),
        cache_size,
        level_size: 1 << 30,
        level_shape: [1, 1, 1, 3, 7, 15, 31],
        file_size: 1 << 26,
        file_shape: [2],
        level0_width: 2,
        merge_width: (2, 16),
        ttl: 60 * 60 * 24 * 21,
        compaction: CompactionStyle::Level,
        compaction_pri: CompactionPri::MinOverlappingRatio,
        compression: CompressionType::Zstd,
        compression_level: 32767,
        bottommost_level: Some(32767),
        block_index_hashing: false,
        cache_shards: Shards::new(64).unwrap(),
    }
}

fn config(algo: &str) -> Config {
    Config {
        rocksdb_compression_algo: algo.to_owned(),
        rocksdb_compression_level: 3,
        rocksdb_bottommost_compression: false,
        rocksdb_bottommost_compression_level: 9,
        eventid_pdu_cache_capacity: 11,
        eventidshort_cache_capacity: 12,
        shorteventid_cache_capacity: 13,
        auth_chain_cache_capacity: 14,
        shortstatekey_cache_capacity: 15,
        statekeyshort_cache_capacity: 16,
        servernameevent_data_cache_capacity: 17,
        pdu_cache_capacity: 18,
    }
}

#[test]
fn cache_sharing() {
    let cfg = config("zstd");
    let mut reg = CacheRegistry::new();
    let a = descriptor("A", CacheDisp::Unique, 4096);
    let b = descriptor("B", CacheDisp::SharedWith("A"), 1);
    let c = descriptor("C", CacheDisp::SharedWith("A"), 2);
    let ra = get_cache(&mut reg, &a, &cfg).unwrap();
    let rb = get_cache(&mut reg, &b, &cfg).unwrap();
    let rc = get_cache(&mut reg, &c, &cfg).unwrap();
    let options = CacheOptions { shard_bits: 6, capacity: 4096 };
    assert_eq!(ra, CacheUse::Fresh { handle: 0, options });
    assert_eq!(rb, CacheUse::Existing { handle: 0 });
    assert_eq!(rc, CacheUse::Existing { handle: 0 });
    assert_eq!(ra.handle(), rb.handle());
    assert_eq!(rb.handle(), rc.handle());
    assert_eq!(reg.created(), 1);
    assert_eq!(reg.options(0), Some(options));
    assert_eq!(reg.lookup("A"), Some(0));
    assert_eq!(reg.lookup("B"), None);
    assert!(!reg.contains("C"));
}

#[test]
fn sharers_of_a_registered_name_agree() {
    let cfg = config("zstd");
    let mut reg = CacheRegistry::new();
    reg.create("first", CacheOptions { shard_bits: 0, capacity: 1 });
    let handle = reg.create("x", CacheOptions { shard_bits: 2, capacity: 77 });
    assert_eq!(handle, 1);
    let one = descriptor("one", CacheDisp::SharedWith("x"), 5);
    let two = descriptor("two", CacheDisp::SharedWith("x"), 6);
    let r1 = get_cache(&mut reg, &one, &cfg).unwrap();
    let r2 = get_cache(&mut reg, &two, &cfg).unwrap();
    assert_eq!(r1, CacheUse::Existing { handle: 1 });
    assert_eq!(r1, r2);
    assert_eq!(reg.created(), 2);
}

#[test]
fn sharing_is_order_sensitive() {
    let cfg = config("zstd");
    let mut reg = CacheRegistry::new();
    let b = descriptor("B", CacheDisp::SharedWith("A"), 10);
    let a = descriptor("A", CacheDisp::Unique, 20);
    let c = descriptor("C", CacheDisp::SharedWith("B"), 30);
    let rb = get_cache(&mut reg, &b, &cfg).unwrap();
    assert_eq!(
        rb,
        CacheUse::Fresh { handle: 0, options: CacheOptions { shard_bits: 6, capacity: 10 } }
    );
    assert_eq!(reg.lookup("B"), Some(0));
    let ra = get_cache(&mut reg, &a, &cfg).unwrap();
    assert_eq!(ra.handle(), Some(1));
    let rc = get_cache(&mut reg, &c, &cfg).unwrap();
    assert_eq!(rc, CacheUse::Existing { handle: 0 });
}

#[test]
fn sharers_of_an_uncached_owner_differ() {
    let cfg = config("zstd");
    let mut reg = CacheRegistry::new();
    let a = descriptor("A", CacheDisp::Unique, 0);
    let b = descriptor("B", CacheDisp::SharedWith("A"), 1);
    let c = descriptor("C", CacheDisp::SharedWith("A"), 2);
    assert_eq!(get_cache(&mut reg, &a, &cfg), Ok(CacheUse::Uncached));
    let rb = get_cache(&mut reg, &b, &cfg).unwrap();
    let rc = get_cache(&mut reg, &c, &cfg).unwrap();
    assert_eq!(rb.handle(), Some(0));
    assert_eq!(rc.handle(), Some(1));
}

#[test]
fn unique_replaces_an_earlier_registration() {
    let cfg = config("zstd");
    let mut reg = CacheRegistry::new();
    let a = descriptor("A", CacheDisp::Unique, 100);
    assert_eq!(get_cache(&mut reg, &a, &cfg).unwrap().handle(), Some(0));
    assert_eq!(get_cache(&mut reg, &a, &cfg).unwrap().handle(), Some(1));
    assert_eq!(reg.lookup("A"), Some(1));
    assert_eq!(reg.created(), 2);
    assert_eq!(reg.options(2), None);
}

#[test]
fn dropped_and_uncached_columns() {
    let cfg = config("zstd");
    let mut reg = CacheRegistry::new();
    let mut d = descriptor("gone", CacheDisp::Unique, 100);
    d.dropped = true;
    d.key_size_hint = Some(usize::MAX);
    d.val_size_hint = Some(usize::MAX);
    let r = get_cache(&mut reg, &d, &cfg).unwrap();
    assert_eq!(r, CacheUse::Uncached);
    assert!(!r.is_cached());
    assert_eq!(r.handle(), None);
    let tiny = descriptor("tiny", CacheDisp::Unique, 0);
    assert_eq!(get_cache(&mut reg, &tiny, &cfg), Ok(CacheUse::Uncached));
    assert_eq!(reg.created(), 0);
    assert!(!reg.contains("tiny"));
}

#[test]
fn global_pool_is_looked_up() {
    let cfg = config("zstd");
    let mut reg = CacheRegistry::new();
    assert_eq!(SHARED, "Shared");
    let pool = reg.create(SHARED, CacheOptions { shard_bits: 4, capacity: 1 << 20 });
    let d = descriptor("roomid_shortroomid", CacheDisp::Shared, 0);
    assert!(reg.contains(SHARED));
    let r = get_cache(&mut reg, &d, &cfg).unwrap();
    assert_eq!(r, CacheUse::Existing { handle: pool });
    assert!(r.is_cached());
    assert_eq!(reg.created(), 1);
}

#[test]
fn legacy_capacities_override_by_name() {
    let cfg = config("zstd");
    assert_eq!(capacity_for("eventid_pduid", &cfg), Some(11));
    assert_eq!(capacity_for("eventid_shorteventid", &cfg), Some(12));
    assert_eq!(capacity_for("shorteventid_eventid", &cfg), Some(13));
    assert_eq!(capacity_for("shorteventid_authchain", &cfg), Some(14));
    assert_eq!(capacity_for("shortstatekey_statekey", &cfg), Some(15));
    assert_eq!(capacity_for("statekey_shortstatekey", &cfg), Some(16));
    assert_eq!(capacity_for("servernameevent_data", &cfg), Some(17));
    assert_eq!(capacity_for("pduid_pdu", &cfg), Some(18));
    assert_eq!(capacity_for("eventid_outlierpdu", &cfg), Some(18));
    assert_eq!(capacity_for("alias_roomid", &cfg), None);
    assert_eq!(capacity_for("", &cfg), None);

    let mut reg = CacheRegistry::new();
    let d = descriptor("pduid_pdu", CacheDisp::Unique, 5);
    let r = get_cache(&mut reg, &d, &cfg).unwrap();
    let options = CacheOptions { shard_bits: 6, capacity: 18 * 64 };
    assert_eq!(r, CacheUse::Fresh { handle: 0, options });
    let mut hintless = descriptor("eventid_pduid", CacheDisp::Unique, 5);
    hintless.key_size_hint = None;
    hintless.val_size_hint = None;
    let r = get_cache(&mut reg, &hintless, &cfg).unwrap();
    let options = CacheOptions { shard_bits: 6, capacity: 0 };
    assert_eq!(r, CacheUse::Fresh { handle: 1, options });
}

#[test]
fn cache_sizing_overflow() {
    assert_eq!(cache_size(3, 5), Ok(15));
    assert_eq!(cache_size(0, usize::MAX), Ok(0));
    assert_eq!(cache_size(usize::MAX, 1), Ok(usize::MAX));
    assert_eq!(cache_size(usize::MAX, 2), Err(ErrorKind::ConfigOverflow));
    assert_eq!(cache_size(1 << (usize::BITS / 2), 1 << (usize::BITS / 2)), Err(ErrorKind::ConfigOverflow));

    let mut cfg = config("zstd");
    cfg.pdu_cache_capacity = usize::MAX;
    let mut reg = CacheRegistry::new();
    let d = descriptor("pduid_pdu", CacheDisp::Unique, 5);
    assert_eq!(get_cache(&mut reg, &d, &cfg), Err(ErrorKind::ConfigOverflow));
    assert_eq!(reg.created(), 0);
    let mut wide = descriptor("alias_roomid", CacheDisp::SharedWith("pduid_pdu"), 5);
    wide.key_size_hint = Some(usize::MAX);
    wide.val_size_hint = Some(1);
    assert_eq!(get_cache(&mut reg, &wide, &cfg), Err(ErrorKind::ConfigOverflow));
    assert_eq!(cf_options(&mut reg, &cfg, &wide).err(), Some(ErrorKind::ConfigOverflow));
}

#[test]
fn shard_counts_are_powers_of_two_up_to_64() {
    let mut valid = Vec::new();
    for n in 0u32..=200 {
        if let Some(s) = Shards::new(n) {
            assert_eq!(s.count(), n);
            assert!(n.is_power_of_two() && n <= 64);
            assert_eq!(s.bits(), n.ilog2() as i32);
            valid.push(n);
        }
    }
    assert_eq!(valid, vec![1, 2, 4, 8, 16, 32, 64]);
    assert!(Shards::new(128).is_none());
    assert!(Shards::new(u32::MAX).is_none());
    assert_eq!(Shards::one().count(), 1);
    assert_eq!(Shards::one().bits(), 0);
    let mut reg = CacheRegistry::new();
    let mut d = descriptor("A", CacheDisp::Unique, 9);
    d.cache_shards = Shards::new(8).unwrap();
    let r = get_cache(&mut reg, &d, &config("zstd")).unwrap();
    assert_eq!(
        r,
        CacheUse::Fresh { handle: 0, options: CacheOptions { shard_bits: 3, capacity: 9 } }
    );
}

#[test]
fn compression_comes_from_the_configuration() {
    let names = [
        ("snappy", CompressionType::Snappy),
        ("zlib", CompressionType::Zlib),
        ("bz2", CompressionType::Bz2),
        ("lz4", CompressionType::Lz4),
        ("lz4hc", CompressionType::Lz4hc),
        ("none", CompressionType::Uncompressed),
        ("zstd", CompressionType::Zstd),
        ("ZLIB", CompressionType::Zstd),
        ("", CompressionType::Zstd),
        ("brotli", CompressionType::Zstd),
    ];
    for (algo, expected) in names {
        let mut d = descriptor("A", CacheDisp::Unique, 1);
        d.compression = CompressionType::Bz2;
        let cfg = config(algo);
        set_compression(&mut d, &cfg);
        assert_eq!(d.compression, expected);
        assert_eq!(d.compression_level, 3);
        assert_eq!(d.bottommost_level, None);
        assert_eq!(d.name, "A");
        assert_eq!(d.block_size, 1024);
    }
    let mut cfg = config("lz4");
    cfg.rocksdb_bottommost_compression = true;
    let mut d = descriptor("A", CacheDisp::Unique, 1);
    d.bottommost_level = None;
    set_compression(&mut d, &cfg);
    assert_eq!(d.bottommost_level, Some(9));
}

#[test]
fn table_options_follow_the_descriptor() {
    let mut d = descriptor("A", CacheDisp::Unique, 1);
    let t = table_options(&d, true);
    assert_eq!(t.block_size, 1024);
    assert_eq!(t.metadata_block_size, 512);
    assert!(t.cache_index_and_filter_blocks);
    assert!(!t.pin_top_level_index_and_filter);
    assert!(!t.pin_l0_filter_and_index_blocks_in_cache);
    assert_eq!(t.partition_pinning_tier, PinningTier::Unpinned);
    assert_eq!(t.unpartitioned_pinning_tier, PinningTier::Unpinned);
    assert_eq!(t.top_level_index_pinning_tier, PinningTier::Unpinned);
    assert!(t.partition_filters);
    assert!(!t.use_delta_encoding);
    assert_eq!(t.index_type, IndexType::TwoLevelIndexSearch);
    assert_eq!(t.data_block_index_type, DataBlockIndexType::BinarySearch);
    assert_eq!(t.block_cache, BlockCache::Unset);
    d.block_index_hashing = true;
    let t = table_options(&d, false);
    assert!(!t.cache_index_and_filter_blocks);
    assert_eq!(t.data_block_index_type, DataBlockIndexType::BinaryAndHash);
}

#[test]
fn universal_compaction_tunables() {
    let mut d = descriptor("A", CacheDisp::Unique, 1);
    d.merge_width = (3, 9);
    let u = uc_options(&d);
    assert_eq!(u.stop_style, StopStyle::Total);
    assert_eq!(u.min_merge_width, 3);
    assert_eq!(u.max_merge_width, 9);
    assert_eq!(u.max_size_amplification_percent, 10000);
    assert_eq!(u.compression_size_percent, -1);
    assert_eq!(u.size_ratio, 1);
}

#[test]
fn column_options_are_assembled() {
    let mut cfg = config("zlib");
    cfg.rocksdb_bottommost_compression = true;
    let mut d = descriptor("A", CacheDisp::Unique, 1);
    d.compaction = CompactionStyle::Universal;
    d.compaction_pri = CompactionPri::OldestSmallestSeqFirst;
    let o = descriptor_cf_options(d, &cfg, Some(4));
    assert_eq!(o.table.block_cache, BlockCache::Attached(4));
    assert!(o.table.cache_index_and_filter_blocks);
    assert_eq!(o.table.block_size, 1024);
    assert_eq!(o.table_tuning, READAHEAD_OPTIONS);
    assert_eq!(
        READAHEAD_OPTIONS,
        "{{block_based_table_factory={num_file_reads_for_auto_readahead=0;max_auto_readahead_size=524288;initial_auto_readahead_size=16384}}}"
    );
    assert_eq!(o.min_write_buffer_number, 1);
    assert_eq!(o.max_write_buffer_number, 2);
    assert_eq!(o.write_buffer_size, Some(1 << 20));
    assert_eq!(o.target_file_size_base, 1 << 26);
    assert_eq!(o.target_file_size_multiplier, 2);
    assert_eq!(o.level_zero_file_num_compaction_trigger, 2);
    assert!(!o.level_compaction_dynamic_level_bytes);
    assert_eq!(o.ttl, 60 * 60 * 24 * 21);
    assert_eq!(o.max_bytes_for_level_base, 1 << 30);
    assert_eq!(o.max_bytes_for_level_multiplier, 1);
    assert_eq!(o.max_bytes_for_level_multiplier_additional, [1, 1, 1, 3, 7, 15, 31]);
    assert_eq!(o.compaction_style, CompactionStyle::Universal);
    assert_eq!(o.compaction_pri, CompactionPri::OldestSmallestSeqFirst);
    assert_eq!(o.universal_compaction, uc_options(&d));
    assert_eq!(o.compression_type, CompressionType::Zlib);
    let level3 = CompressionOptions { window_bits: -14, level: 3, strategy: 0, max_dict_bytes: 0 };
    assert_eq!(o.compression_options, level3);
    let bottom = o.bottommost.unwrap();
    assert_eq!(bottom.compression, CompressionType::Zlib);
    assert_eq!(bottom.zstd_max_train_bytes, 0);
    let level9 = CompressionOptions { window_bits: -14, level: 9, strategy: 0, max_dict_bytes: 0 };
    assert_eq!(bottom.options, level9);
    assert_eq!(o.arena_tuning, ARENA_OPTIONS);
    assert_eq!(ARENA_OPTIONS, "{{arena_block_size=2097152;}}");

    cfg.rocksdb_bottommost_compression = false;
    d.write_size = None;
    let o = descriptor_cf_options(d, &cfg, None);
    assert_eq!(o.table.block_cache, BlockCache::Disabled);
    assert!(!o.table.cache_index_and_filter_blocks);
    assert_eq!(o.write_buffer_size, None);
    assert_eq!(o.bottommost, None);
}

#[test]
fn table_is_set_with_its_cache() {
    let cfg = config("none");
    let d = descriptor("A", CacheDisp::Unique, 1);
    let mut o = descriptor_cf_options(d, &cfg, None);
    let mut other = d;
    other.block_size = 4096;
    other.block_index_hashing = true;
    o.table_tuning = "";
    set_table_options(&mut o, &other, Some(2));
    assert_eq!(o.table.block_size, 4096);
    assert_eq!(o.table.data_block_index_type, DataBlockIndexType::BinaryAndHash);
    assert_eq!(o.table.block_cache, BlockCache::Attached(2));
    assert!(o.table.cache_index_and_filter_blocks);
    assert_eq!(o.table_tuning, READAHEAD_OPTIONS);
    assert_eq!(o.compression_type, CompressionType::Uncompressed);
    assert_eq!(o.ttl, d.ttl);
}

#[test]
fn column_options_with_provisioned_cache() {
    let cfg = config("lz4hc");
    let mut reg = CacheRegistry::new();
    let a = descriptor("A", CacheDisp::Unique, 4096);
    let (opts, cache) = cf_options(&mut reg, &cfg, &a).unwrap();
    assert_eq!(cache.handle(), Some(0));
    assert_eq!(opts.table.block_cache, BlockCache::Attached(0));
    assert_eq!(opts.compression_type, CompressionType::Lz4hc);
    let b = descriptor("B", CacheDisp::SharedWith("A"), 0);
    let (opts, cache) = cf_options(&mut reg, &cfg, &b).unwrap();
    assert_eq!(cache, CacheUse::Existing { handle: 0 });
    assert_eq!(opts.table.block_cache, BlockCache::Attached(0));
    let c = descriptor("C", CacheDisp::Unique, 0);
    let (opts, cache) = cf_options(&mut reg, &cfg, &c).unwrap();
    assert_eq!(cache, CacheUse::Uncached);
    assert_eq!(opts.table.block_cache, BlockCache::Disabled);
    assert!(!opts.table.cache_index_and_filter_blocks);
}

#[test]
fn engine_rejections_become_errors() {
    assert_eq!(engine_outcome(Ok::<(), String>(())), Ok(()));
    assert_eq!(engine_outcome(Ok::<u8, String>(3)), Ok(()));
    assert_eq!(
        engine_outcome(Err::<(), String>("Invalid argument".to_owned())),
        Err(ErrorKind::EngineOptions)
    );
}

#[test]
fn nested_json_outcomes() {
    let bad = serde_json::from_str::<serde_json::Value>("{").unwrap_err();
    assert_eq!(record_columns::json::nested(Err::<u8, _>(bad)), Err(ErrorKind::DecodeNestedJson));
    assert_eq!(record_columns::json::nested(Ok::<u8, serde_json::Error>(7)), Ok(7));
}

#[test]
fn strings_from_bytes() {
    assert_eq!(str_from_bytes(b"abc"), Ok("abc"));
    assert_eq!(str_from_bytes(&[0xC3, 0xA9]), Ok("\u{e9}"));
    assert_eq!(str_from_bytes(&[]), Ok(""));
    assert_eq!(str_from_bytes(&[0xFF]), Err(ErrorKind::DecodeUtf8));
    assert_eq!(str_from_bytes(&[0xC3]), Err(ErrorKind::DecodeUtf8));
    assert_eq!(string_from_bytes(b"abc"), Ok("abc".to_owned()));
    assert_eq!(string_from_bytes(&[0xED, 0xA0, 0x80]), Err(ErrorKind::DecodeUtf8));
    assert!(str_eq("abc", "abc"));
    assert!(str_eq("", ""));
    assert!(!str_eq("abc", "abd"));
    assert!(!str_eq("abc", "ab"));
    assert!(!str_eq("Ignore", "IgnoreAll"));
}

#[test]
fn tables_are_provisioned_in_declaration_order() {
    let cfg = config("zstd");
    let table = [
        descriptor("A", CacheDisp::Unique, 4096),
        descriptor("other", CacheDisp::Unique, 10),
        descriptor("B", CacheDisp::SharedWith("A"), 1),
        descriptor("tiny", CacheDisp::Unique, 0),
        descriptor("C", CacheDisp::SharedWith("A"), 2),
        descriptor("D", CacheDisp::SharedWith("C"), 3),
    ];
    let mut reg = CacheRegistry::new();
    let uses = get_caches(&mut reg, &table, &cfg).unwrap();
    assert_eq!(uses.len(), 6);
    assert_eq!(uses[0].handle(), Some(0));
    assert_eq!(uses[1].handle(), Some(1));
    assert_eq!(uses[2], CacheUse::Existing { handle: 0 });
    assert_eq!(uses[3], CacheUse::Uncached);
    assert_eq!(uses[4], uses[2]);
    assert_eq!(
        uses[5],
        CacheUse::Fresh { handle: 2, options: CacheOptions { shard_bits: 6, capacity: 3 } }
    );
    assert_eq!(reg.created(), 3);
    assert_eq!(reg.lookup("D"), Some(2));

    let mut reg = CacheRegistry::new();
    assert_eq!(get_caches(&mut reg, &[], &cfg), Ok(Vec::new()));
    assert_eq!(reg.created(), 0);
}

#[test]
fn a_failing_column_stops_the_table() {
    let cfg = config("zstd");
    let mut wide = descriptor("wide", CacheDisp::Unique, 1);
    wide.key_size_hint = Some(usize::MAX);
    let table = [
        descriptor("A", CacheDisp::Unique, 4096),
        wide,
        descriptor("B", CacheDisp::Unique, 7),
    ];
    let mut reg = CacheRegistry::new();
    assert_eq!(get_caches(&mut reg, &table, &cfg), Err(ErrorKind::ConfigOverflow));
    assert_eq!(reg.created(), 1);
    assert!(reg.contains("A"));
    assert!(!reg.contains("B"));
}

#[test]
fn sizing_helpers() {
    let cfg = config("zstd");
    let mut d = descriptor("statekey_shortstatekey", CacheDisp::Shared, 77);
    assert_eq!(entity_bytes(&d), Some(64));
    assert_eq!(cache_capacity(&d, &cfg), Ok(16 * 64));
    assert!(needs_shared_pool(&d, &cfg));
    d.name = "roomid_shortroomid";
    assert_eq!(cache_capacity(&d, &cfg), Ok(77));
    d.val_size_hint = None;
    assert_eq!(entity_bytes(&d), Some(16));
    d.key_size_hint = Some(usize::MAX);
    d.val_size_hint = Some(1);
    assert_eq!(entity_bytes(&d), None);
    assert_eq!(cache_capacity(&d, &cfg), Err(ErrorKind::ConfigOverflow));
    assert!(!needs_shared_pool(&d, &cfg));
    let mut gone = descriptor("gone", CacheDisp::Shared, 1);
    gone.dropped = true;
    assert!(!needs_shared_pool(&gone, &cfg));
    assert!(!needs_shared_pool(&descriptor("A", CacheDisp::Unique, 1), &cfg));
}

#[test]
fn columns_are_found_by_name() {
    let table = [
        descriptor("alias_roomid", CacheDisp::Unique, 1),
        descriptor("pduid_pdu", CacheDisp::Unique, 2),
        descriptor("alias_roomid", CacheDisp::Shared, 3),
    ];
    assert_eq!(find(&table, "alias_roomid"), Some(0));
    assert_eq!(find(&table, "pduid_pdu"), Some(1));
    assert_eq!(find(&table, "pduid"), None);
    assert_eq!(find(&[], "pduid_pdu"), None);
}

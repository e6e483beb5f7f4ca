use finch::KmerCount;
use finch::binary::BinarySketch;
use finch::json::JSONSketch;
use finch::multi::JSONMultiSketch;
use murmurhash3::murmurhash3_x64_128;

fn three_records() -> Vec<KmerCount> {
    vec![
        KmerCount { hash: 10, kmer: (27, 4), count: 2, extra_count: 1 },
        KmerCount { hash: 20, kmer: (255, 4), count: 1, extra_count: 0 },
        KmerCount { hash: 5, kmer: (170, 4), count: 5, extra_count: 2 },
    ]
}

#[test]
fn json_encode_scenario() {
    let sk = JSONSketch::new("test", 42, three_records(), Vec::new());
    assert_eq!(sk.name, "test");
    assert_eq!(sk.seqLength, Some(42));
    assert_eq!(sk.comment.as_deref(), Some(""));
    assert_eq!(sk.filters, Some(Vec::new()));
    assert_eq!(sk.hashes, vec!["10", "20", "5"]);
    assert_eq!(sk.kmers, Some(vec!["ACGT".to_string(), "TTTT".to_string(), "GGGG".to_string()]));
    assert_eq!(sk.counts, Some(vec![2, 1, 5]));
}

#[test]
fn json_round_trip_scenario() {
    let records = three_records();
    let sk = JSONSketch::new("test", 42, records.clone(), Vec::new());
    let decoded = sk.get_kmers().expect("decode must succeed");
    assert_eq!(decoded.len(), 3);
    for (d, r) in decoded.iter().zip(records.iter()) {
        assert_eq!(d.hash, r.hash);
        assert_eq!(d.kmer, r.kmer);
        assert_eq!(d.count, r.count);
    }
}

#[test]
fn json_len_counts_records() {
    assert_eq!(JSONSketch::new("a", 0, three_records(), Vec::new()).len(), 3);
    assert_eq!(JSONSketch::new("b", 0, Vec::new(), Vec::new()).len(), 0);
    let one = vec![KmerCount { hash: 1, kmer: (3, 1), count: 1, extra_count: 0 }];
    assert_eq!(JSONSketch::new("c", 0, one, Vec::new()).len(), 1);
}

#[test]
fn json_decode_rejects_non_numeric_hash() {
    let sk = JSONSketch {
        name: "bad".to_string(),
        seqLength: None,
        comment: None,
        filters: None,
        hashes: vec!["10".to_string(), "x".to_string(), "5".to_string()],
        kmers: Some(vec!["ACGT".to_string(), "TTTT".to_string(), "GGGG".to_string()]),
        counts: Some(vec![2, 1, 5]),
    };
    assert!(sk.get_kmers().is_none());
}

#[test]
fn json_decode_rejects_overflowing_hash() {
    let sk = JSONSketch {
        name: "big".to_string(),
        seqLength: None,
        comment: None,
        filters: None,
        hashes: vec!["18446744073709551616".to_string()],
        kmers: None,
        counts: None,
    };
    assert!(sk.get_kmers().is_none());
}

#[test]
fn json_decode_defaults_missing_lists() {
    let sk = JSONSketch {
        name: "sparse".to_string(),
        seqLength: None,
        comment: None,
        filters: None,
        hashes: vec!["7".to_string(), "8".to_string()],
        kmers: None,
        counts: None,
    };
    let decoded = sk.get_kmers().expect("hashes alone decode");
    assert_eq!(decoded.len(), 2);
    assert_eq!(decoded[0], KmerCount { hash: 7, kmer: (0, 0), count: 1, extra_count: 0 });
    assert_eq!(decoded[1], KmerCount { hash: 8, kmer: (0, 0), count: 1, extra_count: 0 });
}

#[test]
fn json_decode_rejects_overlong_kmer_text() {
    let sk = JSONSketch {
        name: "long".to_string(),
        seqLength: None,
        comment: None,
        filters: None,
        hashes: vec!["1".to_string()],
        kmers: Some(vec!["A".repeat(33)]),
        counts: None,
    };
    assert!(sk.get_kmers().is_none());
}

#[test]
fn json_decode_takes_counts_without_kmers() {
    let sk = JSONSketch {
        name: "counted".to_string(),
        seqLength: None,
        comment: None,
        filters: None,
        hashes: vec!["9".to_string()],
        kmers: None,
        counts: Some(vec![6]),
    };
    let decoded = sk.get_kmers().expect("hashes and counts decode");
    assert_eq!(decoded[0], KmerCount { hash: 9, kmer: (0, 0), count: 6, extra_count: 3 });
}

#[test]
fn json_decode_rejects_length_mismatch() {
    let sk = JSONSketch {
        name: "short".to_string(),
        seqLength: None,
        comment: None,
        filters: None,
        hashes: vec!["1".to_string(), "2".to_string()],
        kmers: Some(vec!["ACGT".to_string()]),
        counts: None,
    };
    assert!(sk.get_kmers().is_none());
}

#[test]
fn apply_filtering_replaces_records_and_metadata() {
    let initial_meta = vec![("source".to_string(), "reads".to_string())];
    let mut sk = JSONSketch::new("filtered", 42, three_records(), initial_meta);
    let decoded = sk.get_kmers().expect("decode must succeed");
    // The filtering pass is an outside capability; keep counts of at least 2.
    let kept: Vec<KmerCount> = decoded.into_iter().filter(|r| r.count >= 2).collect();
    assert_eq!(kept.len(), 2);
    let stats = vec![("minCopies".to_string(), "2".to_string())];
    assert!(sk.apply_filtering(&kept, stats.clone()));
    assert_eq!(sk.len(), 2);
    assert_eq!(sk.filters, Some(stats));
    assert_eq!(sk.hashes, vec!["10", "5"]);
    assert_eq!(sk.kmers, Some(vec!["ACGT".to_string(), "GGGG".to_string()]));
    assert_eq!(sk.counts, Some(vec![2, 5]));
    assert_eq!(sk.name, "filtered");
    assert_eq!(sk.seqLength, Some(42));
}

#[test]
fn apply_filtering_fails_without_mutating_on_bad_sketch() {
    let mut sk = JSONSketch {
        name: "bad".to_string(),
        seqLength: None,
        comment: None,
        filters: Some(vec![("kept".to_string(), "yes".to_string())]),
        hashes: vec!["x".to_string()],
        kmers: None,
        counts: None,
    };
    let stats = vec![("minCopies".to_string(), "2".to_string())];
    assert!(!sk.apply_filtering(&Vec::new(), stats));
    assert_eq!(sk.hashes, vec!["x"]);
    assert_eq!(sk.filters, Some(vec![("kept".to_string(), "yes".to_string())]));
}

#[test]
fn binary_round_trip_scenario() {
    let records = three_records();
    let sk = BinarySketch::new(records.clone()).expect("non-empty records encode");
    let decoded = sk.get_kmers(0).expect("fixed layout always decodes");
    assert_eq!(decoded.len(), 3);
    for (d, r) in decoded.iter().zip(records.iter()) {
        assert_eq!(d.kmer, r.kmer);
        assert_eq!(d.count, r.count);
        assert_eq!(d.extra_count, 0);
    }
    assert_eq!(decoded[0].hash, murmurhash3_x64_128(b"ACGT", 0).0);
    assert_eq!(decoded[1].hash, murmurhash3_x64_128(b"TTTT", 0).0);
    assert_eq!(decoded[2].hash, murmurhash3_x64_128(b"GGGG", 0).0);
}

#[test]
fn binary_rejects_empty_records() {
    assert!(BinarySketch::new(Vec::new()).is_none());
}

#[test]
fn binary_hashes_depend_on_seed() {
    // Records whose hashes were taken at seed 0.
    let records: Vec<KmerCount> = [(27u64, b"ACGT" as &[u8]), (255, b"TTTT"), (170, b"GGGG")]
        .iter()
        .map(|(packed, text)| KmerCount {
            hash: murmurhash3_x64_128(text, 0).0,
            kmer: (*packed, 4),
            count: 1,
            extra_count: 0,
        })
        .collect();
    let sk = BinarySketch::new(records.clone()).expect("non-empty records encode");
    // Decoding at the same seed reproduces every hash.
    let at_zero = sk.get_kmers(0).expect("fixed layout always decodes");
    for (d, r) in at_zero.iter().zip(records.iter()) {
        assert_eq!(d.hash, r.hash);
    }
    // Decoding at another seed silently diverges from every stored hash.
    let at_five = sk.get_kmers(5).expect("fixed layout always decodes");
    for (d, r) in at_five.iter().zip(records.iter()) {
        assert_ne!(d.hash, r.hash);
    }
}

#[test]
fn wire_bytes_exact_layout() {
    let sk = BinarySketch::new(three_records()).expect("non-empty records encode");
    let mut expected: Vec<u8> = Vec::new();
    expected.extend_from_slice(&3u32.to_le_bytes());
    expected.push(4);
    for kmer in [27u64, 255, 170] {
        expected.extend_from_slice(&kmer.to_le_bytes());
    }
    for count in [2u16, 1, 5] {
        expected.extend_from_slice(&count.to_le_bytes());
    }
    assert_eq!(sk.to_bytes(), expected);
}

#[test]
fn wire_bytes_round_trip() {
    let sk = BinarySketch::new(three_records()).expect("non-empty records encode");
    let read = BinarySketch::from_bytes(&sk.to_bytes()).expect("own wire form parses");
    assert_eq!(read.len, sk.len);
    assert_eq!(read.kmer_size, sk.kmer_size);
    assert_eq!(read.kmers, sk.kmers);
    assert_eq!(read.counts, sk.counts);
}

#[test]
fn wire_bytes_rejects_bad_lengths() {
    assert!(BinarySketch::from_bytes(&[]).is_none());
    assert!(BinarySketch::from_bytes(&[3, 0, 0, 0]).is_none());
    let sk = BinarySketch::new(three_records()).expect("non-empty records encode");
    let mut bytes = sk.to_bytes();
    bytes.pop();
    assert!(BinarySketch::from_bytes(&bytes).is_none());
    let mut counted_wrong = sk.to_bytes();
    counted_wrong[0] = 4;
    assert!(BinarySketch::from_bytes(&counted_wrong).is_none());
}

#[test]
fn multi_sketch_aggregates_and_checks_lengths() {
    let ms = JSONMultiSketch {
        kmer: 4,
        alphabet: "ACGT".to_string(),
        preserveCase: false,
        canonical: true,
        sketchSize: 1000,
        hashType: "MurmurHash3_x64_128".to_string(),
        hashBits: 64,
        hashSeed: 0,
        sketches: vec![
            JSONSketch::new("one", 42, three_records(), Vec::new()),
            JSONSketch::new("two", 7, Vec::new(), Vec::new()),
        ],
    };
    assert_eq!(ms.sketches.len(), 2);
    assert!(ms.kmer_lengths_ok());

    let mut mismatched = ms;
    mismatched.kmer = 5;
    assert!(!mismatched.kmer_lengths_ok());
}

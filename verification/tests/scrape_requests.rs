use load_tester::scrape::{
    create_scrape_requests, InfoHash, ScrapeDraw, SourceAddress, SCRAPE_NUM_HASHES, SCRAPE_REQUESTS,
};

fn hash(byte: u8) -> InfoHash {
    InfoHash([byte; 20])
}

/// Deterministic draws of the benchmark's shape over `hash_count` hashes.
fn draws(hash_count: usize) -> Vec<ScrapeDraw> {
    (0..SCRAPE_REQUESTS)
        .map(|i| ScrapeDraw {
            hash_indices: (0..SCRAPE_NUM_HASHES).map(|j| (i * 7 + j) % hash_count).collect(),
            connection_id: i as i64 - 500_000,
            transaction_id: (i % 1000) as i32,
            source: SourceAddress { ip: [10, (i % 256) as u8, 0, 1], port: (i % 65536) as u16 },
        })
        .collect()
}

#[test]
fn requests_take_the_drawn_hashes_ids_and_sources() {
    let info_hashes: Vec<InfoHash> = (0..=255u8).map(hash).collect();
    let draws = draws(info_hashes.len());
    let requests = create_scrape_requests(&info_hashes, &draws);
    assert_eq!(requests.len(), SCRAPE_REQUESTS);

    let (first, first_source) = &requests[0];
    assert_eq!(first.connection_id, -500_000);
    assert_eq!(first.transaction_id, 0);
    assert_eq!(first.info_hashes, (0..10u8).map(hash).collect::<Vec<_>>());
    assert_eq!(*first_source, SourceAddress { ip: [10, 0, 0, 1], port: 0 });

    let (third, third_source) = &requests[2];
    assert_eq!(third.connection_id, -499_998);
    assert_eq!(third.info_hashes[0], hash(14));
    assert_eq!(third_source.ip, [10, 2, 0, 1]);

    assert!(requests.iter().all(|(request, _)| request.info_hashes.len() == SCRAPE_NUM_HASHES));
}

#[test]
fn single_hash_list_repeats_the_hash() {
    let info_hashes = vec![hash(42)];
    let requests = create_scrape_requests(&info_hashes, &draws(1));
    assert_eq!(requests.len(), SCRAPE_REQUESTS);
    assert!(requests.iter().all(|(request, _)| request.info_hashes == vec![hash(42); SCRAPE_NUM_HASHES]));
}

#[test]
fn equal_draws_give_equal_requests() {
    let info_hashes: Vec<InfoHash> = (0..3u8).map(hash).collect();
    let a = create_scrape_requests(&info_hashes, &draws(3));
    let b = create_scrape_requests(&info_hashes, &draws(3));
    assert!(a.iter().zip(b.iter()).all(|((ra, sa), (rb, sb))| ra.connection_id == rb.connection_id
        && ra.transaction_id == rb.transaction_id
        && ra.info_hashes == rb.info_hashes
        && sa == sb));
}

#[test]
fn benchmark_shape() {
    assert_eq!(SCRAPE_REQUESTS, 1_000_000);
    assert_eq!(SCRAPE_NUM_HASHES, 10);
}

use vstd::prelude::*;

verus! {

/// How many scrape requests the scrape benchmark sends.
pub const SCRAPE_REQUESTS: usize = 1_000_000;

/// How many info hashes each scrape request asks about.
pub const SCRAPE_NUM_HASHES: usize = 10;

/// The scrape benchmark sends a million requests, each about ten torrents.
pub proof fn lemma_scrape_benchmark_size()
    ensures
        SCRAPE_REQUESTS == 1_000_000,
        SCRAPE_NUM_HASHES == 10,
{
}

/// The 20-byte info hash of a torrent.
#[derive(Debug, Clone, Copy, PartialEq, Eq)]
pub struct InfoHash(pub [u8; 20]);

/// A scrape request: which torrents a client asks about, on which connection.
pub struct ScrapeRequest {
    pub connection_id: i64,
    pub transaction_id: i32,
    pub info_hashes: Vec<InfoHash>,
}

/// An IPv4 address and port that a request claims to come from.
#[derive(Debug, Clone, Copy, PartialEq, Eq)]
pub struct SourceAddress {
    pub ip: [u8; 4],
    pub port: u16,
}

/// The random choices behind one scrape request: the positions of the info
/// hashes it asks about (drawn so that popular torrents are asked about
/// more), its connection and transaction ids, and its source address.
pub struct ScrapeDraw {
    pub hash_indices: Vec<usize>,
    pub connection_id: i64,
    pub transaction_id: i32,
    pub source: SourceAddress,
}

/// The request built from `draw`: the info hashes at the drawn positions, in
/// the drawn order, and the drawn ids and source.
pub open spec fn request_matches_draw(
    request: (ScrapeRequest, SourceAddress),
    draw: ScrapeDraw,
    info_hashes: Seq<InfoHash>,
) -> bool {
    &&& request.0.connection_id == draw.connection_id
    &&& request.0.transaction_id == draw.transaction_id
    &&& request.0.info_hashes@ == draw.hash_indices@.map_values(|k: usize| info_hashes[k as int])
    &&& request.1 == draw.source
}

/// Every drawn position lies within `info_hashes`.
pub open spec fn draws_within(draws: Seq<ScrapeDraw>, hash_count: nat) -> bool {
    forall|i: int, j: int|
        0 <= i < draws.len() && 0 <= j < draws[i].hash_indices@.len() ==> #[trigger] draws[i].hash_indices@[j]
            < hash_count
}

/// A request built from a draw of `SCRAPE_NUM_HASHES` positions asks about
/// that many info hashes, each one of `info_hashes`.
pub proof fn lemma_request_hashes(
    request: (ScrapeRequest, SourceAddress),
    draw: ScrapeDraw,
    info_hashes: Seq<InfoHash>,
)
    requires
        request_matches_draw(request, draw, info_hashes),
        draws_within(seq![draw], info_hashes.len()),
        draw.hash_indices@.len() == SCRAPE_NUM_HASHES,
    ensures
        request.0.info_hashes@.len() == SCRAPE_NUM_HASHES,
        forall|j: int|
            0 <= j < request.0.info_hashes@.len() ==> info_hashes.contains(#[trigger] request.0.info_hashes@[j]),
{
    assert forall|j: int| 0 <= j < request.0.info_hashes@.len() implies info_hashes.contains(
        #[trigger] request.0.info_hashes@[j],
    ) by {
        assert(seq![draw][0] == draw);
        assert(draw.hash_indices@[j] < info_hashes.len());
        assert(info_hashes[draw.hash_indices@[j] as int] == request.0.info_hashes@[j]);
    }
}

/// The info hashes at the drawn positions, in the drawn order.
fn pick_info_hashes(info_hashes: &Vec<InfoHash>, indices: &Vec<usize>) -> (picked: Vec<InfoHash>)
    requires
        forall|j: int| 0 <= j < indices@.len() ==> #[trigger] indices@[j] < info_hashes@.len(),
    ensures
        picked@ == indices@.map_values(|k: usize| info_hashes@[k as int]),
{
    let mut picked: Vec<InfoHash> = Vec::new();
    for j in 0..indices.len()
        invariant
            forall|j: int| 0 <= j < indices@.len() ==> #[trigger] indices@[j] < info_hashes@.len(),
            picked@ =~= indices@.take(j as int).map_values(|k: usize| info_hashes@[k as int]),
    {
        picked.push(info_hashes[indices[j]]);
        assert(indices@.take(j + 1) =~= indices@.take(j as int).push(indices@[j as int]));
    }
    assert(indices@.take(indices@.len() as int) =~= indices@);
    picked
}

/// The draws of one run of the scrape benchmark: `SCRAPE_REQUESTS` draws of
/// `SCRAPE_NUM_HASHES` positions each, every position within a list of
/// `hash_count` info hashes (the draws pick the last position at most).
pub open spec fn benchmark_draws(draws: Seq<ScrapeDraw>, hash_count: nat) -> bool {
    &&& draws.len() == SCRAPE_REQUESTS
    &&& forall|i: int| 0 <= i < draws.len() ==> (#[trigger] draws[i]).hash_indices@.len() == SCRAPE_NUM_HASHES
    &&& draws_within(draws, hash_count)
}

/// The scrape benchmark's requests: one request (with its source address) for
/// each draw, in order, asking about the info hashes at the drawn positions.
/// There must be at least one info hash to draw from.
pub fn create_scrape_requests(info_hashes: &Vec<InfoHash>, draws: &Vec<ScrapeDraw>) -> (requests: Vec<
    (ScrapeRequest, SourceAddress),
>)
    requires
        info_hashes@.len() >= 1,
        benchmark_draws(draws@, info_hashes@.len()),
    ensures
        requests@.len() == SCRAPE_REQUESTS,
        forall|i: int|
            0 <= i < requests@.len() ==> (#[trigger] requests@[i]).0.info_hashes@.len() == SCRAPE_NUM_HASHES,
        forall|i: int|
            0 <= i < draws@.len() ==> request_matches_draw(#[trigger] requests@[i], draws@[i], info_hashes@),
        forall|i: int| 0 <= i < requests@.len() ==> carries_draw(#[trigger] requests@[i], draws@[i], info_hashes@),
{
    let mut requests: Vec<(ScrapeRequest, SourceAddress)> = Vec::new();
    for i in 0..draws.len()
        invariant
            benchmark_draws(draws@, info_hashes@.len()),
            requests@.len() == i,
            forall|k: int| 0 <= k < i ==> request_matches_draw(#[trigger] requests@[k], draws@[k], info_hashes@),
    {
        let draw = &draws[i];
        assert forall|j: int| 0 <= j < draw.hash_indices@.len() implies #[trigger] draw.hash_indices@[j]
            < info_hashes@.len() by {
            assert(draws@[i as int].hash_indices@[j] < info_hashes@.len());
        }
        let request = ScrapeRequest {
            connection_id: draw.connection_id,
            transaction_id: draw.transaction_id,
            info_hashes: pick_info_hashes(info_hashes, &draw.hash_indices),
        };
        requests.push((request, draw.source));
    }
    assert forall|i: int| 0 <= i < requests@.len() implies (#[trigger] requests@[i]).0.info_hashes@.len()
        == SCRAPE_NUM_HASHES by {
        assert(request_matches_draw(requests@[i], draws@[i], info_hashes@));
        assert(draws@[i].hash_indices@.len() == SCRAPE_NUM_HASHES);
    }
    assert forall|i: int| 0 <= i < requests@.len() implies carries_draw(
        #[trigger] requests@[i],
        draws@[i],
        info_hashes@,
    ) by {
        lemma_matching_request_carries_draw(requests@[i], draws@[i], info_hashes@);
    }
    requests
}

/// A request carries its draw unchanged: the drawn connection id, transaction
/// id and source address as they are, and, at each position of the request,
/// the info hash at the drawn position of the list.
pub open spec fn carries_draw(
    request: (ScrapeRequest, SourceAddress),
    draw: ScrapeDraw,
    info_hashes: Seq<InfoHash>,
) -> bool {
    &&& draw.connection_id == request.0.connection_id
    &&& draw.transaction_id == request.0.transaction_id
    &&& request.1.ip == draw.source.ip
    &&& request.1.port == draw.source.port
    &&& request.0.info_hashes@.len() == draw.hash_indices@.len()
    &&& forall|j: int|
        0 <= j < draw.hash_indices@.len() ==> request.0.info_hashes@[j] == info_hashes[
            #[trigger] draw.hash_indices@[j] as int
        ]
}

/// A request built from a draw carries the draw unchanged.
pub proof fn lemma_matching_request_carries_draw(
    request: (ScrapeRequest, SourceAddress),
    draw: ScrapeDraw,
    info_hashes: Seq<InfoHash>,
)
    requires
        request_matches_draw(request, draw, info_hashes),
    ensures
        carries_draw(request, draw, info_hashes),
{
    assert forall|j: int| 0 <= j < draw.hash_indices@.len() implies request.0.info_hashes@[j] == info_hashes[
        #[trigger] draw.hash_indices@[j] as int
    ] by {
        assert(draw.hash_indices@.map_values(|k: usize| info_hashes[k as int])[j] == info_hashes[
            draw.hash_indices@[j] as int
        ]);
    }
}

/// The requests are determined by the info hashes and the draws: two request
/// lists that both match the same draws agree in every id, every info hash and
/// every source address.
pub proof fn lemma_requests_determined(
    a: Seq<(ScrapeRequest, SourceAddress)>,
    b: Seq<(ScrapeRequest, SourceAddress)>,
    draws: Seq<ScrapeDraw>,
    info_hashes: Seq<InfoHash>,
)
    requires
        a.len() == draws.len(),
        b.len() == draws.len(),
        forall|i: int| 0 <= i < draws.len() ==> request_matches_draw(#[trigger] a[i], draws[i], info_hashes),
        forall|i: int| 0 <= i < draws.len() ==> request_matches_draw(#[trigger] b[i], draws[i], info_hashes),
    ensures
        forall|i: int|
            0 <= i < a.len() ==> {
                &&& (#[trigger] a[i]).0.connection_id == b[i].0.connection_id
                &&& a[i].0.transaction_id == b[i].0.transaction_id
                &&& a[i].0.info_hashes@ == b[i].0.info_hashes@
                &&& a[i].1 == b[i].1
            },
{
    assert forall|i: int| 0 <= i < a.len() implies {
        &&& (#[trigger] a[i]).0.connection_id == b[i].0.connection_id
        &&& a[i].0.transaction_id == b[i].0.transaction_id
        &&& a[i].0.info_hashes@ == b[i].0.info_hashes@
        &&& a[i].1 == b[i].1
    } by {
        assert(request_matches_draw(a[i], draws[i], info_hashes));
        assert(request_matches_draw(b[i], draws[i], info_hashes));
    }
}

} // verus!

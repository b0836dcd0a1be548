//! Per-stream fingerprints of packet payloads and packet timing.
use vstd::prelude::*;
use vstd::string::*;
use sha2::Digest;

verus! {

/// The SHA-256 digest of `data`.
pub uninterp spec fn sha256_of(data: Seq<u8>) -> Seq<u8>;

/// Calls `sha2::Sha256::digest` (through the `Digest` trait) on `data` and converts
/// the 32-byte output to an array. The contract claims only that the result is the
/// SHA-256 digest of exactly the bytes given; nothing is stated about its value.
#[verifier::external_body]
fn sha256(data: &[u8]) -> (d: [u8; 32])
    ensures
        d@ == sha256_of(data@),
{
    sha2::Sha256::digest(data).into()
}

/// How many packets of a stream were seen and the digests of their payload hashes
/// and of their presentation times and durations.
#[derive(Debug, PartialEq, Eq)]
pub struct PacketFingerprint {
    pub packets: u64,
    pub sha256: [u8; 32],
    pub timing_sha256: [u8; 32],
}

/// What is collected for one stream: its index, packet count, and the bytes that
/// are digested for payload and timing.
struct StreamHashes {
    index: usize,
    packets: u64,
    data: Vec<u8>,
    timing: Vec<u8>,
}

/// A stream's collected state as plain values.
pub type StreamState = (usize, u64, Seq<u8>, Seq<u8>);

spec fn stream_state(h: StreamHashes) -> StreamState {
    (h.index, h.packets, h.data@, h.timing@)
}

/// The UTF-8 bytes of an optional text, empty when absent.
pub open spec fn text_bytes(t: Option<&str>) -> Seq<u8> {
    match t {
        Some(s) => s.spec_bytes(),
        None => Seq::empty(),
    }
}

/// One packet's effect on a stream: one more packet, its payload hash and a newline
/// appended to the payload bytes, its presentation time and duration (empty when
/// unknown) each followed by a newline appended to the timing bytes.
pub open spec fn fed(st: StreamState, data_hash: Seq<u8>, pts: Seq<u8>, duration: Seq<u8>) -> StreamState {
    (
        st.0,
        if st.1 < u64::MAX {
            (st.1 + 1) as u64
        } else {
            0
        },
        st.2 + data_hash + seq![10u8],
        st.3 + pts + seq![10u8] + duration + seq![10u8],
    )
}

/// The states after one packet of stream `index`: that stream's state takes the
/// packet, every other state stays.
pub open spec fn fed_states(states: Seq<StreamState>, index: usize, data_hash: Seq<u8>, pts: Seq<u8>, duration: Seq<u8>) -> Seq<
    StreamState,
> {
    Seq::new(
        states.len(),
        |k: int|
            if states[k].0 == index {
                fed(states[k], data_hash, pts, duration)
            } else {
                states[k]
            },
    )
}

/// Whether `v` is strictly increasing.
pub open spec fn increasing(v: Seq<usize>) -> bool {
    forall|i: int, j: int| 0 <= i < j < v.len() ==> v[i] < v[j]
}

/// Whether no value occurs twice in `v`.
pub open spec fn distinct(v: Seq<usize>) -> bool {
    forall|i: int, j: int| 0 <= i < j < v.len() ==> v[i] != v[j]
}

proof fn lemma_push_contains(s: Seq<usize>, x: usize)
    ensures
        forall|y: usize| #[trigger] s.push(x).contains(y) <==> (s.contains(y) || y == x),
{
    assert forall|y: usize| #[trigger] s.push(x).contains(y) <==> (s.contains(y) || y == x) by {
        if s.push(x).contains(y) {
            let w = choose|w: int| 0 <= w < s.push(x).len() && s.push(x)[w] == y;
            if w < s.len() {
                assert(s[w] == y);
            }
        }
        if s.contains(y) {
            let w = choose|w: int| 0 <= w < s.len() && s[w] == y;
            assert(s.push(x)[w] == y);
        }
        if y == x {
            assert(s.push(x)[s.len() as int] == y);
        }
    }
}

/// Packet fingerprints of the selected streams, collected packet by packet.
pub struct FingerprintFold {
    streams: Vec<StreamHashes>,
}

fn append(v: &mut Vec<u8>, b: &[u8])
    ensures
        final(v)@ == old(v)@ + b@,
{
    let mut i: usize = 0;
    while i < b.len()
        invariant
            i <= b@.len(),
            v@ == old(v)@ + b@.take(i as int),
        decreases b@.len() - i,
    {
        v.push(b[i]);
        assert(b@.take(i + 1) =~= b@.take(i as int).push(b@[i as int]));
        assert(old(v)@ + b@.take(i + 1) =~= (old(v)@ + b@.take(i as int)).push(b@[i as int]));
        i += 1;
    }
    assert(b@.take(b@.len() as int) =~= b@);
}

proof fn lemma_insert_contains(s: Seq<usize>, p: int, x: usize)
    requires
        0 <= p <= s.len(),
    ensures
        forall|y: usize| #[trigger] s.insert(p, x).contains(y) <==> (s.contains(y) || y == x),
{
    assert forall|y: usize| #[trigger] s.insert(p, x).contains(y) <==> (s.contains(y) || y == x) by {
        let t = s.insert(p, x);
        if t.contains(y) {
            let w = choose|w: int| 0 <= w < t.len() && t[w] == y;
            if w < p {
                assert(s[w] == y);
            } else if w > p {
                assert(s[w - 1] == y);
            }
        }
        if s.contains(y) {
            let w = choose|w: int| 0 <= w < s.len() && s[w] == y;
            if w < p {
                assert(t[w] == y);
            } else {
                assert(t[w + 1] == y);
            }
        }
        if y == x {
            assert(t[p] == y);
        }
    }
}

impl FingerprintFold {
    /// The collected state of each selected stream, in increasing index order.
    pub closed spec fn states(&self) -> Seq<StreamState> {
        self.streams@.map_values(|h: StreamHashes| stream_state(h))
    }

    /// The selected stream indices.
    pub open spec fn indices(&self) -> Seq<usize> {
        self.states().map_values(|s: StreamState| s.0)
    }

    /// A fold over the streams `stream_indices`, each once, in increasing index
    /// order, with nothing collected yet.
    pub fn new(stream_indices: &[usize]) -> (f: FingerprintFold)
        ensures
            increasing(f.indices()),
            distinct(f.indices()),
            forall|x: usize| f.indices().contains(x) <==> stream_indices@.contains(x),
            forall|k: int| 0 <= k < f.states().len() ==> (#[trigger] f.states()[k]).1 == 0 && f.states()[k].2
                == Seq::<u8>::empty() && f.states()[k].3 == Seq::<u8>::empty(),
    {
        let mut streams: Vec<StreamHashes> = Vec::new();
        let ghost mut ids: Seq<usize> = seq![];
        let mut i: usize = 0;
        while i < stream_indices.len()
            invariant
                i <= stream_indices@.len(),
                ids.len() == streams@.len(),
                forall|k: int| 0 <= k < ids.len() ==> #[trigger] ids[k] == streams@[k].index,
                increasing(ids),
                forall|x: usize| ids.contains(x) <==> stream_indices@.take(i as int).contains(x),
                forall|k: int| 0 <= k < streams@.len() ==> (#[trigger] streams@[k]).packets == 0
                    && streams@[k].data@ == Seq::<u8>::empty() && streams@[k].timing@ == Seq::<u8>::empty(),
            decreases stream_indices@.len() - i,
        {
            let x = stream_indices[i];
            let mut p: usize = 0;
            while p < streams.len() && streams[p].index < x
                invariant
                    p <= streams@.len(),
                    forall|k: int| 0 <= k < p ==> streams@[k].index < x,
                decreases streams@.len() - p,
            {
                p += 1;
            }
            assert(stream_indices@.take(i + 1) =~= stream_indices@.take(i as int).push(x));
            proof {
                lemma_push_contains(stream_indices@.take(i as int), x);
            }
            if p < streams.len() && streams[p].index == x {
                assert(ids[p as int] == x);
                assert(ids.contains(x));
            } else {
                proof {
                    assert forall|k: int| 0 <= k < ids.len() implies ids[k] != x by {
                        if k >= p {
                            assert(ids[p as int] > x);
                        }
                    }
                    lemma_insert_contains(ids, p as int, x);
                }
                streams.insert(p, StreamHashes { index: x, packets: 0, data: Vec::new(), timing: Vec::new() });
                proof {
                    let old_ids = ids;
                    ids = ids.insert(p as int, x);
                    assert forall|a: int, b: int| 0 <= a < b < ids.len() implies ids[a] < ids[b] by {
                        if b < p {
                        } else if b == p {
                        } else if a < p {
                            assert(ids[b] == old_ids[b - 1]);
                            assert(old_ids[b - 1] >= old_ids[p as int]);
                        } else if a == p {
                            assert(ids[b] == old_ids[b - 1]);
                            assert(old_ids[b - 1] >= old_ids[p as int]);
                        } else {
                            assert(ids[a] == old_ids[a - 1]);
                            assert(ids[b] == old_ids[b - 1]);
                        }
                    }
                }
            }
            i += 1;
        }
        assert(stream_indices@.take(stream_indices@.len() as int) =~= stream_indices@);
        let f = FingerprintFold { streams };
        assert(f.indices() =~= ids);
        f
    }

    /// Adds one packet of stream `stream_index`; packets of other streams are ignored.
    pub fn feed(&mut self, stream_index: usize, data_hash: &str, pts_time: Option<&str>, duration_time: Option<&str>)
        requires
            distinct(old(self).indices()),
        ensures
            final(self).indices() == old(self).indices(),
            final(self).states() == fed_states(
                old(self).states(),
                stream_index,
                data_hash.spec_bytes(),
                text_bytes(pts_time),
                text_bytes(duration_time),
            ),
            (forall|k: int| 0 <= k < old(self).states().len() ==> old(self).states()[k].0 != stream_index)
                ==> final(self).states() == old(self).states(),
            forall|k: int|
                0 <= k < old(self).states().len() && old(self).states()[k].0 == stream_index ==> final(self).states()
                    == old(self).states().update(
                    k,
                    fed(
                        old(self).states()[k],
                        data_hash.spec_bytes(),
                        text_bytes(pts_time),
                        text_bytes(duration_time),
                    ),
                ),
    {
        let mut k: usize = 0;
        while k < self.streams.len()
            invariant
                k <= self.streams@.len(),
                self.streams@ == old(self).streams@,
                forall|j: int| 0 <= j < k ==> self.streams@[j].index != stream_index,
            ensures
                k <= self.streams@.len(),
                self.streams@ == old(self).streams@,
                forall|j: int| 0 <= j < k ==> self.streams@[j].index != stream_index,
                k < self.streams@.len() ==> self.streams@[k as int].index == stream_index,
            decreases self.streams@.len() - k,
        {
            if self.streams[k].index == stream_index {
                break;
            }
            k += 1;
        }
        if k == self.streams.len() {
            proof {
                assert forall|j: int| 0 <= j < old(self).states().len() implies old(self).states()[j].0 != stream_index by {
                    assert(old(self).states()[j].0 == old(self).streams@[j].index);
                }
                assert(self.states() =~= fed_states(
                    old(self).states(),
                    stream_index,
                    data_hash.spec_bytes(),
                    text_bytes(pts_time),
                    text_bytes(duration_time),
                ));
            }
            return;
        }
        assert(old(self).states()[k as int].0 == stream_index);
        assert forall|j: int| 0 <= j < old(self).states().len() && old(self).states()[j].0 == stream_index
            implies j == k by {
            assert(old(self).indices()[j] == old(self).states()[j].0);
            assert(old(self).indices()[k as int] == old(self).states()[k as int].0);
        }
        let ghost old_states = self.states();
        let mut h = self.streams.remove(k);
        h.packets = if h.packets < u64::MAX {
            h.packets + 1
        } else {
            0
        };
        append(&mut h.data, data_hash.as_bytes());
        append(&mut h.data, &[10u8]);
        match pts_time {
            Some(t) => append(&mut h.timing, t.as_bytes()),
            None => {},
        }
        append(&mut h.timing, &[10u8]);
        match duration_time {
            Some(t) => append(&mut h.timing, t.as_bytes()),
            None => {},
        }
        append(&mut h.timing, &[10u8]);
        let ghost hv = stream_state(h);
        assert(hv == fed(old_states[k as int], data_hash.spec_bytes(), text_bytes(pts_time), text_bytes(duration_time)));
        self.streams.insert(k, h);
        assert(self.streams@ =~= old(self).streams@.update(k as int, h));
        assert(self.states() =~= old_states.update(k as int, fed(old_states[k as int], data_hash.spec_bytes(), text_bytes(pts_time), text_bytes(duration_time))));
        assert(self.indices() =~= old(self).indices());
        assert(self.states() =~= fed_states(
            old_states,
            stream_index,
            data_hash.spec_bytes(),
            text_bytes(pts_time),
            text_bytes(duration_time),
        ));
    }

    /// The fingerprint of each selected stream, in increasing index order.
    pub fn finish(self) -> (r: Vec<(usize, PacketFingerprint)>)
        ensures
            r@.len() == self.states().len(),
            forall|k: int|
                0 <= k < r@.len() ==> {
                    &&& (#[trigger] r@[k]).0 == self.states()[k].0
                    &&& r@[k].1.packets == self.states()[k].1
                    &&& r@[k].1.sha256@ == sha256_of(self.states()[k].2)
                    &&& r@[k].1.timing_sha256@ == sha256_of(self.states()[k].3)
                },
    {
        let mut r: Vec<(usize, PacketFingerprint)> = Vec::new();
        let mut k: usize = 0;
        while k < self.streams.len()
            invariant
                k <= self.streams@.len(),
                r@.len() == k,
                forall|j: int|
                    0 <= j < k ==> {
                        &&& (#[trigger] r@[j]).0 == self.states()[j].0
                        &&& r@[j].1.packets == self.states()[j].1
                        &&& r@[j].1.sha256@ == sha256_of(self.states()[j].2)
                        &&& r@[j].1.timing_sha256@ == sha256_of(self.states()[j].3)
                    },
            decreases self.streams@.len() - k,
        {
            let h = &self.streams[k];
            let fp = PacketFingerprint {
                packets: h.packets,
                sha256: sha256(h.data.as_slice()),
                timing_sha256: sha256(h.timing.as_slice()),
            };
            r.push((h.index, fp));
            k += 1;
        }
        r
    }
}

/// One packet as ffprobe lists it: its stream, its payload hash and its times.
#[derive(Debug)]
pub struct PacketRecord {
    pub stream_index: usize,
    pub data_hash: Option<String>,
    pub pts_time: Option<String>,
    pub duration_time: Option<String>,
}

/// The UTF-8 bytes of an optional owned text, empty when absent.
pub open spec fn owned_bytes(t: Option<String>) -> Seq<u8> {
    match t {
        Some(s) => vstd::utf8::encode_utf8(s@),
        None => Seq::empty(),
    }
}

/// What stream `index` collects from `packets`: a fresh state fed, in order, with
/// each packet of that stream; packets of other streams leave it as it is.
pub open spec fn stream_fold(index: usize, packets: Seq<PacketRecord>) -> StreamState
    decreases packets.len(),
{
    if packets.len() == 0 {
        (index, 0u64, Seq::empty(), Seq::empty())
    } else {
        let s = stream_fold(index, packets.drop_last());
        let p = packets.last();
        if p.stream_index == index {
            fed(s, owned_bytes(p.data_hash), owned_bytes(p.pts_time), owned_bytes(p.duration_time))
        } else {
            s
        }
    }
}

/// The position of the first packet without a payload hash, or `packets.len()`.
pub open spec fn first_unhashed(packets: Seq<PacketRecord>) -> nat
    decreases packets.len(),
{
    if packets.len() == 0 {
        0
    } else if packets[0].data_hash is None {
        0
    } else {
        1 + first_unhashed(packets.drop_first())
    }
}

proof fn lemma_first_unhashed(packets: Seq<PacketRecord>)
    ensures
        first_unhashed(packets) <= packets.len(),
        first_unhashed(packets) < packets.len() ==> packets[first_unhashed(packets) as int].data_hash is None,
        forall|j: int| 0 <= j < first_unhashed(packets) ==> (#[trigger] packets[j]).data_hash is Some,
    decreases packets.len(),
{
    if packets.len() > 0 && packets[0].data_hash is Some {
        lemma_first_unhashed(packets.drop_first());
        assert forall|j: int| 0 <= j < first_unhashed(packets) implies (#[trigger] packets[j]).data_hash is Some by {
            if j > 0 {
                assert(packets[j] == packets.drop_first()[j - 1]);
            }
        }
    }
}

fn text_of_owned(t: &Option<String>) -> (r: Option<&str>)
    ensures
        text_bytes(r) == owned_bytes(*t),
{
    match t {
        Some(s) => Some(s.as_str()),
        None => None,
    }
}

/// Whether `v` holds the fingerprints of the streams `stream_indices` over `packets`:
/// one per selected stream, in increasing index order, each over that stream's packets.
pub open spec fn fingerprints_of(
    v: Seq<(usize, PacketFingerprint)>,
    stream_indices: Seq<usize>,
    packets: Seq<PacketRecord>,
) -> bool {
        &&& increasing(v.map_values(|e: (usize, PacketFingerprint)| e.0))
        &&& forall|x: usize|
            v.map_values(|e: (usize, PacketFingerprint)| e.0).contains(x)
                <==> stream_indices.contains(x)
        &&& forall|k: int|
            0 <= k < v.len() ==> {
                let st = stream_fold((#[trigger] v[k]).0, packets);
                &&& v[k].1.packets == st.1
                &&& v[k].1.sha256@ == sha256_of(st.2)
                &&& v[k].1.timing_sha256@ == sha256_of(st.3)
            }
}

/// The fingerprints of the streams `stream_indices` over the packet list `packets`:
/// one per selected stream, in increasing index order, each over that stream's
/// packets in the order listed. A packet without a payload hash refuses the list;
/// the error is its position.
pub fn packet_fingerprints(stream_indices: &[usize], packets: &Vec<PacketRecord>) -> (r: Result<
    Vec<(usize, PacketFingerprint)>,
    usize,
>)
    ensures
        first_unhashed(packets@) < packets@.len() ==> r == Err::<Vec<(usize, PacketFingerprint)>, usize>(
            first_unhashed(packets@) as usize,
        ),
        first_unhashed(packets@) == packets@.len() ==> (r matches Ok(v) && fingerprints_of(v@, stream_indices@, packets@)),
{
    proof {
        lemma_first_unhashed(packets@);
    }
    let mut fold = FingerprintFold::new(stream_indices);
    let ghost ids = fold.indices();
    let mut i: usize = 0;
    while i < packets.len()
        invariant
            i <= packets@.len(),
            fold.indices() == ids,
            distinct(ids),
            forall|j: int| 0 <= j < i ==> (#[trigger] packets@[j]).data_hash is Some,
            forall|k: int|
                0 <= k < fold.states().len() ==> #[trigger] fold.states()[k] == stream_fold(
                    fold.states()[k].0,
                    packets@.take(i as int),
                ),
        decreases packets@.len() - i,
    {
        let p = &packets[i];
        let hash = match &p.data_hash {
            Some(h) => h,
            None => {
                proof {
                    lemma_first_unhashed(packets@);
                    let f = first_unhashed(packets@);
                    if f < i {
                        assert(packets@[f as int].data_hash is Some);
                    }
                    if f > i {
                        assert(packets@[i as int].data_hash is Some);
                    }
                }
                return Err(i);
            },
        };
        let ghost before = fold.states();
        fold.feed(p.stream_index, hash.as_str(), text_of_owned(&p.pts_time), text_of_owned(&p.duration_time));
        proof {
            assert(packets@.take(i + 1).drop_last() =~= packets@.take(i as int));
            assert(packets@.take(i + 1).last() == packets@[i as int]);
            assert forall|k: int| 0 <= k < fold.states().len() implies #[trigger] fold.states()[k] == stream_fold(
                fold.states()[k].0,
                packets@.take(i + 1),
            ) by {
                assert(fold.states()[k].0 == before[k].0);
            }
        }
        i += 1;
    }
    proof {
        assert(packets@.take(packets@.len() as int) =~= packets@);
        assert(first_unhashed(packets@) == packets@.len());
    }
    let ghost last = fold.states();
    let v = fold.finish();
    proof {
        assert(v@.map_values(|e: (usize, PacketFingerprint)| e.0) =~= ids);
    }
    Ok(v)
}

} // verus!

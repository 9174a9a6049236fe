//! The top-level aggregate: an ordered list of parsed top-level nodes, one
//! or more per recording chunk, with their originating sources; search,
//! filtering, merging with timestamp rebasing, and device identification.

use vstd::prelude::*;

use crate::errors::GpmfError;
use crate::chars::{
    distinct_strs, holds_str, holds_view, insert_sorted, lemma_lex_antisym, lemma_lex_refl,
    lex_le, sorted_strs, trimmed,
};
use crate::data_types::DataType;
use crate::device_name::{known_device, DeviceName};
use crate::gps::{spec_from_gps5, spec_from_gps9, GoProPoint, Gps};
use crate::sensor::{
    sensor_data_ok, sensor_ready, spec_sensor_datatype, SensorData, SensorType,
};
use crate::device_id::Dvid;
use crate::fourcc::{tag_eq, FourCC};
use crate::stream::{
    all_matching, forest_decoded, named_matching, scan_error, Matched, Stream, StreamType,
};
use crate::value::{spec_string_of, Value};
use crate::timestamp::Timestamp;

verus! {

/// One externally delimited chunk of telemetry bytes, with the chunk's
/// duration as the container metadata reports it.
pub struct Chunk {
    /// The chunk's raw bytes.
    pub data: Vec<u8>,
    /// The chunk's duration in milliseconds.
    pub duration_ms: u32,
}

/// Recursion allowance for the tree builder: nesting in this format is
/// shallow by design, so a tree this deep marks corrupt input rather than
/// real data.
pub const DEPTH_CEILING: usize = 32;

/// The sum of the durations in milliseconds.
pub open spec fn sum_ms(durations: Seq<u32>) -> int
    decreases durations.len(),
{
    if durations.len() == 0 {
        0
    } else {
        sum_ms(durations.drop_last()) + durations.last()
    }
}

/// The timestamps the chunk durations synthesize: each chunk starts where
/// the previous durations end and lasts its own duration.
pub open spec fn spec_timestamps(durations: Seq<u32>) -> Seq<Timestamp> {
    Seq::new(
        durations.len(),
        |i: int|
            Timestamp { relative: sum_ms(durations.take(i)) as i64, duration: durations[i] as i64 },
    )
}

/// The stream with its timestamp replaced; nothing else changes.
pub open spec fn timed(s: Stream, t: Option<Timestamp>) -> Stream {
    Stream { header: s.header, streams: s.streams, time: t }
}

/// A timestamp shifted by the end of a preceding aggregate: with no
/// preceding timestamp it is kept; otherwise its relative part moves by the
/// preceding relative time.
pub open spec fn rebased(t: Option<Timestamp>, last: Option<Timestamp>) -> Option<Timestamp> {
    match (t, last) {
        (Some(t0), Some(l)) => Some(
            Timestamp { relative: (t0.relative + l.relative) as i64, duration: t0.duration },
        ),
        (Some(t0), None) => Some(t0),
        (None, _) => None,
    }
}

pub proof fn lemma_sum_ms_bound(durations: Seq<u32>)
    ensures
        0 <= sum_ms(durations) <= durations.len() * 0xffff_ffff,
    decreases durations.len(),
{
    if durations.len() > 0 {
        lemma_sum_ms_bound(durations.drop_last());
        assert((durations.len() - 1) * 0xffff_ffff + 0xffff_ffff == durations.len()
            * 0xffff_ffff) by (nonlinear_arith);
    }
}

/// Timestamp synthesis: one timestamp per chunk duration, each chunk
/// starting where the previous durations end.
pub fn timestamps_for(durations: &Vec<u32>) -> (r: Vec<Timestamp>)
    requires
        durations@.len() * 0xffff_ffff <= i64::MAX,
    ensures
        r@ == spec_timestamps(durations@),
{
    let mut out: Vec<Timestamp> = Vec::new();
    let mut rel: i64 = 0;
    let mut i: usize = 0;
    let m = durations.len();
    while i < m
        invariant
            m == durations@.len(),
            m * 0xffff_ffff <= i64::MAX,
            i <= m,
            out@.len() == i,
            rel == sum_ms(durations@.take(i as int)),
            forall|j: int| 0 <= j < i ==> out@[j] == spec_timestamps(durations@)[j],
        decreases m - i,
    {
        proof {
            lemma_sum_ms_bound(durations@.take(i as int));
            assert(durations@.take(i as int).len() * 0xffff_ffff <= m * 0xffff_ffff) by (nonlinear_arith)
                requires
                    durations@.take(i as int).len() <= m,
            ;
            assert(durations@.take(i as int + 1).drop_last() =~= durations@.take(i as int));
            assert(durations@.take(i as int + 1).last() == durations@[i as int]);
        }
        out.push(Timestamp { relative: rel, duration: durations[i] as i64 });
        rel = rel + durations[i] as i64;
        i = i + 1;
    }
    proof {
        assert(out@ =~= spec_timestamps(durations@));
    }
    out
}

/// The aggregate: the parsed top-level nodes of one or more recording
/// chunks, and the names of the sources they came from.
#[derive(Debug)]
pub struct Gpmf {
    /// Top-level parsed nodes, in chunk order.
    pub streams: Vec<Stream>,
    /// Originating source names, one per merged source.
    pub source: Vec<String>,
}

/// The first chunk whose bytes fail to scan decides the whole recording's
/// error; `None` when every chunk scans.
pub open spec fn first_chunk_error(chunks: Seq<Chunk>) -> Option<GpmfError>
    decreases chunks.len(),
{
    if chunks.len() == 0 {
        None
    } else {
        match scan_error(
            chunks[0].data@,
            0,
            chunks[0].data@.len() as int,
            DEPTH_CEILING as int,
            None,
        ) {
            Some(e) => Some(e),
            None => first_chunk_error(chunks.skip(1)),
        }
    }
}

/// What parsing one chunk yields: the forest its bytes describe, each node
/// carrying the chunk's timestamp.
pub open spec fn chunk_parsed(part: Seq<Stream>, data: Seq<u8>, time: Option<Timestamp>) -> bool {
    exists|f: Seq<Stream>|
        {
            &&& #[trigger] forest_decoded(f, data, 0, data.len() as int, None)
            &&& part.len() == f.len()
            &&& forall|i: int| 0 <= i < f.len() ==> part[i] == timed(#[trigger] f[i], time)
        }
}

impl Gpmf {
    /// An empty aggregate.
    pub fn new() -> (r: Gpmf)
        ensures
            r.streams@.len() == 0,
            r.source@.len() == 0,
    {
        Gpmf { streams: Vec::new(), source: Vec::new() }
    }

    /// Parse one chunk's bytes into its top-level nodes, each carrying the
    /// given timestamp.
    pub fn parse_chunk(data: &[u8], time: Option<&Timestamp>) -> (r: Result<
        Vec<Stream>,
        GpmfError,
    >)
        ensures
            r matches Ok(part) ==> chunk_parsed(
                part@,
                data@,
                match time {
                    Some(t) => Some(*t),
                    None => None,
                },
            ),
            match scan_error(data@, 0, data@.len() as int, DEPTH_CEILING as int, None) {
                Some(e) => r == Err::<Vec<Stream>, GpmfError>(e),
                None => r is Ok,
            },
    {
        let (mut forest, _end) = match Stream::new(data, 0, data.len(), DEPTH_CEILING, None) {
            Ok(t) => t,
            Err(e) => {
                return Err(e);
            },
        };
        let ghost f = forest@;
        let ghost gt = match time {
            Some(t) => Some(*t),
            None => None,
        };
        match time {
            Some(ts) => {
                let mut out: Vec<Stream> = Vec::new();
                let m = forest.len();
                let mut i: usize = 0;
                while i < m
                    invariant
                        m == f.len(),
                        forest@ == f.skip(i as int),
                        i <= m,
                        out@.len() == i,
                        gt == Some(*ts),
                        forall|j: int| 0 <= j < i ==> out@[j] == timed(#[trigger] f[j], gt),
                    decreases m - i,
                {
                    proof {
                        assert(f.skip(i as int)[0] == f[i as int]);
                        assert(f.skip(i as int).skip(1) =~= f.skip(i as int + 1));
                    }
                    let mut s = forest.remove(0);
                    s.set_time(ts);
                    out.push(s);
                    i = i + 1;
                }
                proof {
                    assert(chunk_parsed(out@, data@, gt));
                }
                Ok(out)
            },
            None => {
                proof {
                    crate::stream::lemma_forest_times_none(
                        f,
                        data@,
                        0,
                        data@.len() as int,
                        None,
                    );
                    assert forall|i: int| 0 <= i < f.len() implies f[i] == timed(
                        #[trigger] f[i],
                        gt,
                    ) by {
                        assert(f[i].time is None);
                    }
                    assert(chunk_parsed(forest@, data@, gt));
                }
                Ok(forest)
            },
        }
    }

    /// Parse a whole recording: one aggregate from the ordered chunks, each
    /// chunk's nodes carrying the timestamp its position in the recording
    /// synthesizes. Fails on the first chunk that does not parse, returning
    /// no partial aggregate.
    pub fn from_chunks(chunks: &Vec<Chunk>) -> (r: Result<Gpmf, GpmfError>)
        requires
            chunks@.len() * 0xffff_ffff <= i64::MAX,
        ensures
            match first_chunk_error(chunks@) {
                Some(e) => r == Err::<Gpmf, GpmfError>(e),
                None => r is Ok,
            },
            r matches Ok(g) ==> {
                &&& g.source@.len() == 0
                &&& exists|parts: Seq<Seq<Stream>>|
                    {
                        &&& parts.len() == chunks@.len()
                        &&& #[trigger] g.streams@ == parts.flatten()
                        &&& forall|i: int|
                            0 <= i < parts.len() ==> chunk_parsed(
                                #[trigger] parts[i],
                                chunks@[i].data@,
                                Some(
                                    spec_timestamps(
                                        chunks@.map_values(|c: Chunk| c.duration_ms),
                                    )[i],
                                ),
                            )
                    }
                },
    {
        let ghost durs = chunks@.map_values(|c: Chunk| c.duration_ms);
        let mut durations: Vec<u32> = Vec::new();
        let m = chunks.len();
        let mut i: usize = 0;
        while i < m
            invariant
                m == chunks@.len(),
                i <= m,
                durations@.len() == i,
                durs == chunks@.map_values(|c: Chunk| c.duration_ms),
                forall|j: int| 0 <= j < i ==> durations@[j] == durs[j],
            decreases m - i,
        {
            durations.push(chunks[i].duration_ms);
            i = i + 1;
        }
        proof {
            assert(durations@ =~= durs);
        }
        let times = timestamps_for(&durations);

        let mut streams: Vec<Stream> = Vec::new();
        let ghost mut parts: Seq<Seq<Stream>> = Seq::empty();
        let mut k: usize = 0;
        proof {
            assert(chunks@.skip(0) =~= chunks@);
        }
        while k < m
            invariant
                m == chunks@.len(),
                first_chunk_error(chunks@) == first_chunk_error(chunks@.skip(k as int)),
                k <= m,
                times@ == spec_timestamps(durs),
                durs == chunks@.map_values(|c: Chunk| c.duration_ms),
                parts.len() == k,
                streams@ == parts.flatten(),
                forall|i: int|
                    0 <= i < k ==> chunk_parsed(
                        #[trigger] parts[i],
                        chunks@[i].data@,
                        Some(spec_timestamps(durs)[i]),
                    ),
            decreases m - k,
        {
            proof {
                assert(chunks@.skip(k as int)[0] == chunks@[k as int]);
                assert(chunks@.skip(k as int).skip(1) =~= chunks@.skip(k as int + 1));
            }
            let part = match Self::parse_chunk(chunks[k].data.as_slice(), Some(&times[k])) {
                Ok(p) => p,
                Err(e) => {
                    proof {
                        assert(first_chunk_error(chunks@.skip(k as int)) == Some(e));
                    }
                    return Err(e);
                },
            };
            proof {
                broadcast use Seq::lemma_flatten_push;

                parts = parts.push(part@);
            }
            let mut part_mut = part;
            streams.append(&mut part_mut);
            k = k + 1;
        }
        proof {
            assert(chunks@.skip(m as int).len() == 0);
        }
        Ok(Gpmf { streams, source: Vec::new() })
    }

    /// Number of top-level nodes.
    pub fn len(&self) -> (r: usize)
        ensures
            r == self.streams@.len(),
    {
        self.streams.len()
    }

    /// The first top-level node.
    pub fn first(&self) -> (r: Option<&Stream>)
        ensures
            if self.streams@.len() > 0 {
                r matches Some(s) && *s == self.streams@[0]
            } else {
                r is None
            },
    {
        if self.streams.len() > 0 {
            Some(&self.streams[0])
        } else {
            None
        }
    }

    /// The last top-level node.
    pub fn last(&self) -> (r: Option<&Stream>)
        ensures
            if self.streams@.len() > 0 {
                r matches Some(s) && *s == self.streams@.last()
            } else {
                r is None
            },
    {
        if self.streams.len() > 0 {
            Some(&self.streams[self.streams.len() - 1])
        } else {
            None
        }
    }

    /// The first timestamp in the aggregate, if the first node carries one.
    pub fn first_timestamp(&self) -> (r: Option<Timestamp>)
        ensures
            r == if self.streams@.len() > 0 {
                self.streams@[0].time
            } else {
                None::<Timestamp>
            },
    {
        if self.streams.len() > 0 {
            self.streams[0].time
        } else {
            None
        }
    }

    /// The last timestamp in the aggregate, if the last node carries one.
    pub fn last_timestamp(&self) -> (r: Option<Timestamp>)
        ensures
            r == spec_last_timestamp(self),
    {
        if self.streams.len() > 0 {
            self.streams[self.streams.len() - 1].time
        } else {
            None
        }
    }

    /// Record the name of a source this aggregate came from.
    pub fn add_source(&mut self, source: String)
        ensures
            final(self).streams@ == old(self).streams@,
            final(self).source@ == old(self).source@.push(source),
    {
        self.source.push(source);
    }

    /// Shift every node's timestamp by the given time; nodes without a
    /// timestamp stay without one.
    pub fn offset_time(&mut self, time: &Timestamp)
        requires
            forall|i: int|
                0 <= i < old(self).streams@.len() ==> match (#[trigger] old(
                    self,
                ).streams@[i]).time {
                    Some(t) => i64::MIN <= t.relative + time.relative <= i64::MAX,
                    None => true,
                },
        ensures
            final(self).source@ == old(self).source@,
            final(self).streams@.len() == old(self).streams@.len(),
            forall|i: int|
                0 <= i < old(self).streams@.len() ==> final(self).streams@[i] == timed(
                    #[trigger] old(self).streams@[i],
                    rebased(old(self).streams@[i].time, Some(*time)),
                ),
    {
        let ghost olds = self.streams@;
        let ghost oldsource = self.source@;
        let m = self.streams.len();
        let mut out: Vec<Stream> = Vec::new();
        let mut i: usize = 0;
        while i < m
            invariant
                m == olds.len(),
                self.source@ == oldsource,
                i <= m,
                self.streams@ == olds.skip(i as int),
                out@.len() == i,
                forall|j: int|
                    0 <= j < m ==> match (#[trigger] olds[j]).time {
                        Some(t) => i64::MIN <= t.relative + time.relative <= i64::MAX,
                        None => true,
                    },
                forall|j: int|
                    0 <= j < i ==> out@[j] == timed(
                        #[trigger] olds[j],
                        rebased(olds[j].time, Some(*time)),
                    ),
            decreases m - i,
        {
            proof {
                assert(olds.skip(i as int)[0] == olds[i as int]);
                assert(olds.skip(i as int).skip(1) =~= olds.skip(i as int + 1));
            }
            let mut s = self.streams.remove(0);
            match &s.time {
                Some(t) => {
                    let shifted = t.add(time);
                    s.set_time(&shifted);
                },
                None => {},
            }
            out.push(s);
            i = i + 1;
        }
        self.streams = out;
    }

    /// Merge another aggregate that chronologically follows this one: the
    /// other's timestamps are all rebased by this aggregate's last
    /// timestamp, then its nodes and sources are appended in order. Whether
    /// the other aggregate really follows this one is the caller's
    /// assumption, not checked here.
    pub fn merge_mut(&mut self, other: Gpmf)
        requires
            forall|i: int|
                0 <= i < other.streams@.len() ==> match (
                    (#[trigger] other.streams@[i]).time,
                    spec_last_timestamp(&*old(self)),
                ) {
                    (Some(t), Some(l)) => i64::MIN <= t.relative + l.relative <= i64::MAX,
                    _ => true,
                },
        ensures
            final(self).streams@.len() == old(self).streams@.len() + other.streams@.len(),
            forall|i: int|
                0 <= i < old(self).streams@.len() ==> final(self).streams@[i] == old(
                    self,
                ).streams@[i],
            forall|i: int|
                0 <= i < other.streams@.len() ==> final(self).streams@[old(self).streams@.len()
                    + i] == timed(
                    #[trigger] other.streams@[i],
                    rebased(other.streams@[i].time, spec_last_timestamp(&*old(self))),
                ),
            final(self).source@ == old(self).source@ + other.source@,
    {
        let ghost lastts = spec_last_timestamp(&*old(self));
        let last = self.last_timestamp();
        let ghost oldstreams = self.streams@;
        let ghost others = other.streams@;
        let ghost oldsource = self.source@;
        let mut rest = other.streams;
        let m = rest.len();
        let mut i: usize = 0;
        while i < m
            invariant
                m == others.len(),
                self.source@ == oldsource,
                i <= m,
                rest@ == others.skip(i as int),
                last == lastts,
                self.streams@.len() == oldstreams.len() + i,
                forall|j: int|
                    0 <= j < oldstreams.len() ==> #[trigger] self.streams@[j] == oldstreams[j],
                forall|j: int|
                    0 <= j < m ==> match ((#[trigger] others[j]).time, lastts) {
                        (Some(t), Some(l)) => i64::MIN <= t.relative + l.relative <= i64::MAX,
                        _ => true,
                    },
                forall|j: int|
                    0 <= j < i ==> #[trigger] self.streams@[oldstreams.len() + j] == timed(
                        others[j],
                        rebased(others[j].time, lastts),
                    ),
            decreases m - i,
        {
            proof {
                assert(others.skip(i as int)[0] == others[i as int]);
                assert(others.skip(i as int).skip(1) =~= others.skip(i as int + 1));
            }
            let mut s = rest.remove(0);
            match (&s.time, &last) {
                (Some(t), Some(l)) => {
                    let shifted = t.add(l);
                    s.set_time(&shifted);
                },
                _ => {},
            }
            self.streams.push(s);
            i = i + 1;
        }
        let mut osource = other.source;
        self.source.append(&mut osource);
    }
}

/// The aggregate's final timestamp: the last node's, if it carries one.
pub open spec fn spec_last_timestamp(g: &Gpmf) -> Option<Timestamp> {
    if g.streams@.len() > 0 {
        g.streams@.last().time
    } else {
        None
    }
}

/// A node's direct children; a terminal node has none.
pub open spec fn children_of(s: Stream) -> Seq<Stream> {
    match s.streams {
        StreamType::Nested(ch) => ch@,
        StreamType::Values(_) => Seq::empty(),
    }
}

/// The first node among the top-level nodes matching the tag, itself or one
/// level down, in document order.
pub open spec fn gpmf_find(streams: Seq<Stream>, fourcc: &FourCC) -> Option<Stream>
    decreases streams.len(),
{
    if streams.len() == 0 {
        None
    } else {
        match streams[0].spec_find(fourcc) {
            Some(s) => Some(s),
            None => gpmf_find(streams.skip(1), fourcc),
        }
    }
}

/// The named sub-streams matching a content-type name across all top-level
/// nodes, each paired with its parent's timestamp.
pub open spec fn matched_with_time(streams: Seq<Stream>, name: Seq<char>) -> Seq<
    (Stream, Option<Timestamp>),
>
    decreases streams.len(),
{
    if streams.len() == 0 {
        Seq::empty()
    } else {
        matched_with_time(streams.drop_last(), name) + named_matching(
            children_of(streams.last()),
            name,
        ).map_values(|s: Stream| (s, streams.last().time))
    }
}

/// A top-level node's device name, if it carries one.
pub open spec fn stream_device_name(s: Stream) -> Option<Seq<char>> {
    match s.spec_tagged_value(FourCC::DVNM) {
        Some(v) => spec_string_of(&v),
        None => None,
    }
}

/// Every device name the aggregate's nodes report.
pub open spec fn device_names_of(streams: Seq<Stream>) -> Set<Seq<char>> {
    Set::new(
        |n: Seq<char>|
            exists|i: int|
                0 <= i < streams.len() && stream_device_name(#[trigger] streams[i]) == Some(n),
    )
}

/// Every display name of a named sub-stream among the top-level nodes'
/// direct children.
pub open spec fn type_names_of(streams: Seq<Stream>) -> Set<Seq<char>> {
    Set::new(
        |n: Seq<char>|
            exists|i: int, j: int|
                {
                    &&& 0 <= i < streams.len()
                    &&& 0 <= j < children_of(#[trigger] streams[i]).len()
                    &&& tag_eq(&(#[trigger] children_of(streams[i])[j]).header.fourcc, &FourCC::STRM)
                    &&& children_of(streams[i])[j].spec_name() == Some(n)
                },
    )
}

/// Whether the node stands among the children and carries the tag.
pub open spec fn matching_child(s: Stream, ch: Seq<Stream>, fourcc: &FourCC) -> bool {
    exists|j: int|
        0 <= j < ch.len() && s == #[trigger] ch[j] && tag_eq(&ch[j].header.fourcc, fourcc)
}

/// Whether the node stands in the list.
pub open spec fn in_list(s: Stream, l: Seq<Stream>) -> bool {
    exists|k: int| 0 <= k < l.len() && s == #[trigger] l[k]
}

/// Membership of the matching-children list: its entries are exactly the
/// children with the tag.
pub proof fn lemma_all_matching_membership(ch: Seq<Stream>, fourcc: &FourCC)
    ensures
        forall|k: int|
            0 <= k < all_matching(ch, fourcc).len() ==> matching_child(
                #[trigger] all_matching(ch, fourcc)[k],
                ch,
                fourcc,
            ),
        forall|j: int|
            0 <= j < ch.len() && tag_eq(&(#[trigger] ch[j]).header.fourcc, fourcc) ==> in_list(
                ch[j],
                all_matching(ch, fourcc),
            ),
    decreases ch.len(),
{
    if ch.len() > 0 {
        lemma_all_matching_membership(ch.drop_last(), fourcc);
        let prior = ch.drop_last();
        let rest = all_matching(prior, fourcc);
        let whole = all_matching(ch, fourcc);
        let last_matches = tag_eq(&ch.last().header.fourcc, fourcc);
        assert(whole == if last_matches {
            rest.push(ch.last())
        } else {
            rest
        });
        assert forall|k: int| 0 <= k < whole.len() implies matching_child(
            #[trigger] whole[k],
            ch,
            fourcc,
        ) by {
            if k < rest.len() {
                assert(whole[k] == rest[k]);
                assert(matching_child(rest[k], prior, fourcc));
                let j = choose|j: int|
                    0 <= j < prior.len() && rest[k] == #[trigger] prior[j] && tag_eq(
                        &prior[j].header.fourcc,
                        fourcc,
                    );
                assert(ch[j] == prior[j]);
                assert(whole[k] == ch[j] && tag_eq(&ch[j].header.fourcc, fourcc));
            } else {
                assert(last_matches && k == rest.len());
                let j = ch.len() - 1;
                assert(whole[k] == ch[j] && tag_eq(&ch[j].header.fourcc, fourcc));
            }
        }
        assert forall|j: int|
            0 <= j < ch.len() && tag_eq(&(#[trigger] ch[j]).header.fourcc, fourcc) implies in_list(
            ch[j],
            whole,
        ) by {
            if j < ch.len() - 1 {
                assert(prior[j] == ch[j]);
                assert(in_list(prior[j], rest));
                let k = choose|k: int| 0 <= k < rest.len() && prior[j] == #[trigger] rest[k];
                assert(ch[j] == whole[k]);
            } else {
                assert(ch[j] == ch.last());
                assert(last_matches);
                let k = whole.len() - 1;
                assert(ch[j] == whole[k]);
            }
        }
    }
}

impl Gpmf {
    /// The first node matching the tag: each top-level node is checked,
    /// then its direct children, in document order. Not deep-recursive.
    pub fn find<'a>(&'a self, fourcc: &FourCC) -> (r: Option<&'a Stream>)
        ensures
            match r {
                Some(s) => gpmf_find(self.streams@, fourcc) == Some(*s),
                None => gpmf_find(self.streams@, fourcc) is None,
            },
    {
        let m = self.streams.len();
        let mut i: usize = 0;
        proof {
            assert(self.streams@.skip(0) =~= self.streams@);
        }
        while i < m
            invariant
                m == self.streams@.len(),
                i <= m,
                gpmf_find(self.streams@, fourcc) == gpmf_find(
                    self.streams@.skip(i as int),
                    fourcc,
                ),
            decreases m - i,
        {
            proof {
                assert(self.streams@.skip(i as int)[0] == self.streams@[i as int]);
                assert(self.streams@.skip(i as int).skip(1) =~= self.streams@.skip(i as int + 1));
            }
            match self.streams[i].find(fourcc) {
                Some(s) => {
                    return Some(s);
                },
                None => {},
            }
            i = i + 1;
        }
        proof {
            assert(self.streams@.skip(m as int).len() == 0);
        }
        None
    }

    /// The named sub-streams matching the content type among every
    /// top-level node's direct children, each carrying its parent's
    /// timestamp. Not recursive.
    pub fn filter<'a>(&'a self, data_type: &DataType) -> (r: Vec<Matched<'a>>)
        ensures
            r@.map_values(|m: Matched<'a>| (*m.stream, m.time)) == matched_with_time(
                self.streams@,
                data_type.spec_render(),
            ),
    {
        let ghost name = data_type.spec_render();
        let mut out: Vec<Matched<'a>> = Vec::new();
        let m = self.streams.len();
        let mut i: usize = 0;
        while i < m
            invariant
                m == self.streams@.len(),
                i <= m,
                name == data_type.spec_render(),
                out@.map_values(|x: Matched<'a>| (*x.stream, x.time)) == matched_with_time(
                    self.streams@.take(i as int),
                    name,
                ),
            decreases m - i,
        {
            let sub = self.streams[i].filter(data_type);
            let k = sub.len();
            let mut j: usize = 0;
            while j < k
                invariant
                    i < m == self.streams@.len(),
                    j <= k == sub@.len(),
                    name == data_type.spec_render(),
                    sub@.map_values(|x: Matched<'a>| *x.stream) == named_matching(
                        children_of(self.streams@[i as int]),
                        name,
                    ),
                    forall|p: int|
                        0 <= p < sub@.len() ==> (#[trigger] sub@[p]).time
                            == self.streams@[i as int].time,
                    out@.map_values(|x: Matched<'a>| (*x.stream, x.time)) == matched_with_time(
                        self.streams@.take(i as int),
                        name,
                    ) + named_matching(children_of(self.streams@[i as int]), name).map_values(
                        |s: Stream| (s, self.streams@[i as int].time),
                    ).take(j as int),
                decreases k - j,
            {
                let ghost outpre = out@;
                out.push(Matched { stream: sub[j].stream, time: sub[j].time });
                proof {
                    let whole = named_matching(
                        children_of(self.streams@[i as int]),
                        name,
                    ).map_values(|s: Stream| (s, self.streams@[i as int].time));
                    let f = |x: Matched<'a>| (*x.stream, x.time);
                    assert(out@.map_values(f) =~= outpre.map_values(f).push(
                        (*sub@[j as int].stream, sub@[j as int].time),
                    ));
                    assert(whole[j as int] == (*sub@[j as int].stream, sub@[j as int].time));
                    assert(outpre.map_values(f).push((*sub@[j as int].stream, sub@[j as int].time))
                        =~= matched_with_time(self.streams@.take(i as int), name) + whole.take(
                        j as int + 1,
                    ));
                }
                j = j + 1;
            }
            proof {
                let whole = named_matching(children_of(self.streams@[i as int]), name).map_values(
                    |s: Stream| (s, self.streams@[i as int].time),
                );
                assert(whole.take(k as int) =~= whole);
                assert(self.streams@.take(i as int + 1).drop_last() =~= self.streams@.take(
                    i as int,
                ));
                assert(self.streams@.take(i as int + 1).last() == self.streams@[i as int]);
                assert(out@.map_values(|x: Matched<'a>| (*x.stream, x.time)) =~= matched_with_time(
                    self.streams@.take(i as int + 1),
                    name,
                ));
            }
            i = i + 1;
        }
        proof {
            assert(self.streams@.take(m as int) =~= self.streams@);
        }
        out
    }

    /// The device identifier reported by the first top-level node, read
    /// exactly as one node's identifier record is.
    pub fn device_id(&self) -> (r: Option<Dvid>)
        ensures
            self.streams@.len() == 0 ==> r is None,
            self.streams@.len() > 0 ==> match self.streams@[0].spec_tagged_value(FourCC::DVID) {
                Some(Value::Uint32(ns)) => if ns@.len() > 0 {
                    r matches Some(Dvid::Uint32(x)) && x == ns@[0]
                } else {
                    r is None
                },
                Some(Value::FourCC(s)) => if s@.len() == 4 {
                    r matches Some(Dvid::FourCC(f)) && crate::fourcc::parsed_tag(
                        f,
                        s@[0],
                        s@[1],
                        s@[2],
                        s@[3],
                    )
                } else {
                    r is None
                },
                _ => r is None,
            },
    {
        if self.streams.len() > 0 {
            self.streams[0].device_id()
        } else {
            None
        }
    }

    /// Every device name the nodes report, each once, in lexicographic
    /// order. A rig of several devices reports one entry per device.
    pub fn device_name(&self) -> (r: Vec<String>)
        ensures
            sorted_strs(r@),
            distinct_strs(r@),
            forall|i: int|
                0 <= i < r@.len() ==> device_names_of(self.streams@).contains((#[trigger] r@[i])@),
            forall|n: Seq<char>| device_names_of(self.streams@).contains(n) ==> holds_view(r@, n),
    {
        let mut out: Vec<String> = Vec::new();
        let m = self.streams.len();
        let mut i: usize = 0;
        while i < m
            invariant
                m == self.streams@.len(),
                i <= m,
                sorted_strs(out@),
                distinct_strs(out@),
                forall|y: Seq<char>|
                    holds_view(out@, y) <==> exists|j: int|
                        0 <= j < i && stream_device_name(#[trigger] self.streams@[j]) == Some(y),
            decreases m - i,
        {
            match self.streams[i].device_name() {
                Some(nm) => {
                    if !holds_str(&out, nm.as_str()) {
                        insert_sorted(&mut out, nm);
                    }
                },
                None => {},
            }
            i = i + 1;
        }
        proof {
            assert forall|i2: int| 0 <= i2 < out@.len() implies device_names_of(
                self.streams@,
            ).contains((#[trigger] out@[i2])@) by {
                assert(holds_view(out@, out@[i2]@));
            }
        }
        out
    }

    /// Every free-text stream description among the nodes' named
    /// sub-streams, each once, in lexicographic order.
    pub fn types(&self) -> (r: Vec<String>)
        ensures
            sorted_strs(r@),
            distinct_strs(r@),
            forall|i: int|
                0 <= i < r@.len() ==> type_names_of(self.streams@).contains((#[trigger] r@[i])@),
            forall|n: Seq<char>| type_names_of(self.streams@).contains(n) ==> holds_view(r@, n),
    {
        let mut out: Vec<String> = Vec::new();
        let m = self.streams.len();
        let mut i: usize = 0;
        while i < m
            invariant
                m == self.streams@.len(),
                i <= m,
                sorted_strs(out@),
                distinct_strs(out@),
                forall|y: Seq<char>|
                    holds_view(out@, y) <==> exists|i2: int, j: int|
                        {
                            &&& 0 <= i2 < i
                            &&& 0 <= j < children_of(#[trigger] self.streams@[i2]).len()
                            &&& tag_eq(
                                &(#[trigger] children_of(self.streams@[i2])[j]).header.fourcc,
                                &FourCC::STRM,
                            )
                            &&& children_of(self.streams@[i2])[j].spec_name() == Some(y)
                        },
            decreases m - i,
        {
            let subs = self.streams[i].find_all(&FourCC::STRM);
            proof {
                lemma_all_matching_membership(children_of(self.streams@[i as int]), &FourCC::STRM);
            }
            let k = subs.len();
            let mut j: usize = 0;
            while j < k
                invariant
                    i < m == self.streams@.len(),
                    j <= k == subs@.len(),
                    sorted_strs(out@),
                    distinct_strs(out@),
                    subs@.map_values(|s: &Stream| *s) == all_matching(
                        children_of(self.streams@[i as int]),
                        &FourCC::STRM,
                    ),
                    forall|y: Seq<char>|
                        holds_view(out@, y) <==> (exists|i2: int, j2: int|
                            {
                                &&& 0 <= i2 < i
                                &&& 0 <= j2 < children_of(#[trigger] self.streams@[i2]).len()
                                &&& tag_eq(
                                    &(#[trigger] children_of(self.streams@[i2])[j2]).header.fourcc,
                                    &FourCC::STRM,
                                )
                                &&& children_of(self.streams@[i2])[j2].spec_name() == Some(y)
                            } || exists|p: int|
                            {
                                &&& 0 <= p < j
                                &&& (#[trigger] subs@[p]).spec_name() == Some(y)
                            }),
                decreases k - j,
            {
                match subs[j].name() {
                    Some(nm) => {
                        if !holds_str(&out, nm.as_str()) {
                            insert_sorted(&mut out, nm);
                        }
                    },
                    None => {},
                }
                j = j + 1;
            }
            proof {
                lemma_all_matching_membership(children_of(self.streams@[i as int]), &FourCC::STRM);
                assert forall|y: Seq<char>| holds_view(out@, y) implies (exists|i2: int, j2: int|
                    {
                        &&& 0 <= i2 < i + 1
                        &&& 0 <= j2 < children_of(#[trigger] self.streams@[i2]).len()
                        &&& tag_eq(
                            &(#[trigger] children_of(self.streams@[i2])[j2]).header.fourcc,
                            &FourCC::STRM,
                        )
                        &&& children_of(self.streams@[i2])[j2].spec_name() == Some(y)
                    }) by {
                    if exists|p: int| 0 <= p < subs@.len() && (#[trigger] subs@[p]).spec_name()
                        == Some(y) {
                        let p = choose|p: int|
                            0 <= p < subs@.len() && (#[trigger] subs@[p]).spec_name() == Some(y);
                        assert(*subs@[p] == all_matching(
                            children_of(self.streams@[i as int]),
                            &FourCC::STRM,
                        )[p]);
                        assert(matching_child(
                            *subs@[p],
                            children_of(self.streams@[i as int]),
                            &FourCC::STRM,
                        ));
                        let q = choose|q: int|
                            0 <= q < children_of(self.streams@[i as int]).len() && *subs@[p]
                                == #[trigger] children_of(self.streams@[i as int])[q] && tag_eq(
                                &children_of(self.streams@[i as int])[q].header.fourcc,
                                &FourCC::STRM,
                            );
                        assert(children_of(self.streams@[i as int])[q].spec_name() == Some(y));
                    }
                }
                assert forall|y: Seq<char>|
                    (exists|i2: int, j2: int|
                        {
                            &&& 0 <= i2 < i + 1
                            &&& 0 <= j2 < children_of(#[trigger] self.streams@[i2]).len()
                            &&& tag_eq(
                                &(#[trigger] children_of(self.streams@[i2])[j2]).header.fourcc,
                                &FourCC::STRM,
                            )
                            &&& children_of(self.streams@[i2])[j2].spec_name() == Some(y)
                        }) implies holds_view(out@, y) by {
                    let (i2, j2) = choose|i2: int, j2: int|
                        {
                            &&& 0 <= i2 < i + 1
                            &&& 0 <= j2 < children_of(#[trigger] self.streams@[i2]).len()
                            &&& tag_eq(
                                &(#[trigger] children_of(self.streams@[i2])[j2]).header.fourcc,
                                &FourCC::STRM,
                            )
                            &&& children_of(self.streams@[i2])[j2].spec_name() == Some(y)
                        };
                    if i2 == i {
                        assert(in_list(
                            children_of(self.streams@[i as int])[j2],
                            all_matching(children_of(self.streams@[i as int]), &FourCC::STRM),
                        ));
                        let p = choose|p: int|
                            0 <= p < all_matching(
                                children_of(self.streams@[i as int]),
                                &FourCC::STRM,
                            ).len() && children_of(self.streams@[i as int])[j2]
                                == #[trigger] all_matching(
                                children_of(self.streams@[i as int]),
                                &FourCC::STRM,
                            )[p];
                        assert(*subs@[p] == children_of(self.streams@[i as int])[j2]);
                        assert(subs@[p].spec_name() == Some(y));
                    }
                }
            }
            i = i + 1;
        }
        proof {
            assert forall|i2: int| 0 <= i2 < out@.len() implies type_names_of(
                self.streams@,
            ).contains((#[trigger] out@[i2])@) by {
                assert(holds_view(out@, out@[i2]@));
            }
        }
        out
    }
}

/// Whether `n` is the lexicographically first of the given names.
pub open spec fn is_least_name(n: Seq<char>, names: Set<Seq<char>>) -> bool {
    names.contains(n) && forall|m: Seq<char>| names.contains(m) ==> lex_le(n, m)
}

/// Whether the aggregate's first device name (lexicographically) names the
/// one model generation that logs the newer GPS layout.
pub open spec fn gps9_selected(streams: Seq<Stream>) -> bool {
    exists|n: Seq<char>|
        is_least_name(n, device_names_of(streams)) && known_device(trimmed(n)) == Some(
            DeviceName::Hero11Black,
        )
}

/// Whether `n` is the first device name, in lexicographic order, that
/// names a known model — the device the extractors decode for.
pub open spec fn is_selected_device(streams: Seq<Stream>, n: Seq<char>, d: DeviceName) -> bool {
    &&& device_names_of(streams).contains(n)
    &&& known_device(trimmed(n)) == Some(d)
    &&& forall|m: Seq<char>|
        device_names_of(streams).contains(m) && lex_le(m, n) && m != n ==> known_device(
            trimmed(m),
        ) is None
}

/// The averaged points of the older GPS layout, one per matched named
/// stream that yields one, in order.
pub open spec fn gps5_points(ms: Seq<(Stream, Option<Timestamp>)>) -> Seq<GoProPoint>
    decreases ms.len(),
{
    if ms.len() == 0 {
        Seq::empty()
    } else {
        let rest = gps5_points(ms.drop_last());
        match spec_from_gps5(ms.last().0, ms.last().1) {
            Some(p) => rest.push(p),
            None => rest,
        }
    }
}

/// The per-point records of the newer GPS layout across all matched named
/// streams, in order.
pub open spec fn gps9_points(ms: Seq<(Stream, Option<Timestamp>)>) -> Seq<GoProPoint>
    decreases ms.len(),
{
    if ms.len() == 0 {
        Seq::empty()
    } else {
        let rest = gps9_points(ms.drop_last());
        match spec_from_gps9(ms.last().0, ms.last().1) {
            Some(ps) => rest + ps,
            None => rest,
        }
    }
}

impl Gpmf {
    /// The GPS track of the older layout: one averaged point per matched
    /// named stream.
    pub fn gps5(&self) -> (r: Gps)
        ensures
            r.0@ == gps5_points(matched_with_time(self.streams@, DataType::Gps5.spec_render())),
    {
        let ghost name = DataType::Gps5.spec_render();
        let matches = self.filter(&DataType::Gps5);
        let ghost ms = matched_with_time(self.streams@, name);
        let mut out: Vec<GoProPoint> = Vec::new();
        let m = matches.len();
        let mut i: usize = 0;
        while i < m
            invariant
                m == matches@.len(),
                matches@.map_values(|x: crate::stream::Matched<'_>| (*x.stream, x.time)) == ms,
                out@ == gps5_points(ms.take(i as int)),
                i <= m,
            decreases m - i,
        {
            proof {
                assert(ms.take(i as int + 1).drop_last() =~= ms.take(i as int));
                assert(ms.take(i as int + 1).last() == ms[i as int]);
                assert(ms[i as int] == (*matches@[i as int].stream, matches@[i as int].time));
            }
            match crate::gps::from_gps5(&matches[i]) {
                Some(p) => out.push(p),
                None => {},
            }
            i = i + 1;
        }
        proof {
            assert(ms.take(m as int) =~= ms);
        }
        Gps(out)
    }

    /// The GPS track of the newer layout: every logged point of every
    /// matched named stream.
    pub fn gps9(&self) -> (r: Gps)
        ensures
            r.0@ == gps9_points(matched_with_time(self.streams@, DataType::Gps9.spec_render())),
    {
        let ghost name = DataType::Gps9.spec_render();
        let matches = self.filter(&DataType::Gps9);
        let ghost ms = matched_with_time(self.streams@, name);
        let mut out: Vec<GoProPoint> = Vec::new();
        let m = matches.len();
        let mut i: usize = 0;
        while i < m
            invariant
                m == matches@.len(),
                matches@.map_values(|x: crate::stream::Matched<'_>| (*x.stream, x.time)) == ms,
                out@ == gps9_points(ms.take(i as int)),
                i <= m,
            decreases m - i,
        {
            proof {
                assert(ms.take(i as int + 1).drop_last() =~= ms.take(i as int));
                assert(ms.take(i as int + 1).last() == ms[i as int]);
                assert(ms[i as int] == (*matches@[i as int].stream, matches@[i as int].time));
            }
            match crate::gps::from_gps9(&matches[i]) {
                Some(mut ps) => {
                    out.append(&mut ps);
                },
                None => {},
            }
            i = i + 1;
        }
        proof {
            assert(ms.take(m as int) =~= ms);
        }
        Gps(out)
    }

    /// The GPS track, from whichever layout the device logs: when the
    /// aggregate's first device name (lexicographically) is the one model
    /// generation that writes the newer layout, its per-point records;
    /// otherwise — any other device, or no identifiable device at all —
    /// the older layout's averaged points.
    pub fn gps(&self) -> (r: Gps)
        ensures
            gps9_selected(self.streams@) ==> r.0@ == gps9_points(
                matched_with_time(self.streams@, DataType::Gps9.spec_render()),
            ),
            !gps9_selected(self.streams@) ==> r.0@ == gps5_points(
                matched_with_time(self.streams@, DataType::Gps5.spec_render()),
            ),
    {
        let names = self.device_name();
        let is_gps9_device = if names.len() > 0 {
            match DeviceName::from_str(names[0].as_str()) {
                Some(DeviceName::Hero11Black) => true,
                _ => false,
            }
        } else {
            false
        };
        proof {
            let set = device_names_of(self.streams@);
            if names@.len() > 0 {
                // The first held name is the least of the set.
                assert forall|m: Seq<char>| set.contains(m) implies lex_le(
                    names@[0]@,
                    m,
                ) by {
                    assert(holds_view(names@, m));
                    let i = choose|i: int| 0 <= i < names@.len() && names@[i]@ == m;
                    if i == 0 {
                        lemma_lex_refl(names@[0]@);
                    }
                }
                assert(is_least_name(names@[0]@, set));
                // And the least name is unique.
                assert forall|n: Seq<char>| is_least_name(n, set) implies n == names@[0]@ by {
                    lemma_lex_antisym(n, names@[0]@);
                }
                assert(is_gps9_device == gps9_selected(self.streams@));
            } else {
                // No names at all: nothing is in the set, so nothing selects
                // the newer layout.
                assert forall|n: Seq<char>| !is_least_name(n, set) by {
                    if set.contains(n) {
                        assert(holds_view(names@, n));
                    }
                }
                assert(!gps9_selected(self.streams@));
            }
        }
        if is_gps9_device {
            self.gps9()
        } else {
            self.gps5()
        }
    }
}

/// What extracting one sensor kind across matched named streams yields:
/// each stream that provides its records contributes one record, in order.
pub open spec fn sensor_items_ok(
    ms: Seq<(Stream, Option<Timestamp>)>,
    sensor: SensorType,
    device: DeviceName,
    out: Seq<SensorData>,
) -> bool
    decreases ms.len(),
{
    if ms.len() == 0 {
        out.len() == 0
    } else {
        match sensor.fourcc_spec() {
            Some(tag) => match sensor_ready(ms.last().0, tag) {
                Some(ready) => {
                    &&& out.len() >= 1
                    &&& sensor_data_ok(
                        &out.last(),
                        ms.last().0,
                        ms.last().1,
                        sensor,
                        device,
                        ready.0,
                        ready.1,
                        ready.2,
                    )
                    &&& sensor_items_ok(ms.drop_last(), sensor, device, out.drop_last())
                },
                None => sensor_items_ok(ms.drop_last(), sensor, device, out),
            },
            None => out.len() == 0,
        }
    }
}

impl Gpmf {
    /// The readings of one sensor kind, one record per matched named
    /// stream, decoded for the given device's stream naming.
    pub fn sensor_with_device(&self, sensor_type: &SensorType, device: &DeviceName) -> (r: Vec<
        SensorData,
    >)
        ensures
            sensor_type matches SensorType::Unknown ==> r@.len() == 0,
            !(sensor_type matches SensorType::Unknown) ==> sensor_items_ok(
                matched_with_time(
                    self.streams@,
                    spec_sensor_datatype(*sensor_type, *device).spec_render(),
                ),
                *sensor_type,
                *device,
                r@,
            ),
    {
        let mut out: Vec<SensorData> = Vec::new();
        match sensor_type {
            SensorType::Unknown => {
                return out;
            },
            _ => {},
        }
        let dt = sensor_type.as_datatype(device);
        let ghost name = spec_sensor_datatype(*sensor_type, *device).spec_render();
        let matches = self.filter(&dt);
        let ghost ms = matched_with_time(self.streams@, name);
        let m = matches.len();
        let mut i: usize = 0;
        while i < m
            invariant
                m == matches@.len(),
                matches@.map_values(|x: crate::stream::Matched<'_>| (*x.stream, x.time)) == ms,
                !(sensor_type matches SensorType::Unknown),
                sensor_items_ok(ms.take(i as int), *sensor_type, *device, out@),
                i <= m,
            decreases m - i,
        {
            proof {
                assert(ms.take(i as int + 1).drop_last() =~= ms.take(i as int));
                assert(ms.take(i as int + 1).last() == ms[i as int]);
                assert(ms[i as int] == (*matches@[i as int].stream, matches@[i as int].time));
            }
            let ghost outpre = out@;
            match SensorData::new(&matches[i], sensor_type, device) {
                Some(sd) => {
                    out.push(sd);
                    proof {
                        assert(out@.drop_last() =~= outpre);
                    }
                },
                None => {},
            }
            i = i + 1;
        }
        proof {
            assert(ms.take(m as int) =~= ms);
        }
        out
    }

    /// Merge, consuming both aggregates: the other's timestamps are rebased
    /// by this aggregate's last timestamp, then its nodes and sources follow
    /// in order. The other aggregate is assumed to follow chronologically.
    pub fn merge(self, other: Gpmf) -> (r: Gpmf)
        requires
            forall|i: int|
                0 <= i < other.streams@.len() ==> match (
                    (#[trigger] other.streams@[i]).time,
                    spec_last_timestamp(&self),
                ) {
                    (Some(t), Some(l)) => i64::MIN <= t.relative + l.relative <= i64::MAX,
                    _ => true,
                },
        ensures
            r.streams@.len() == self.streams@.len() + other.streams@.len(),
            forall|i: int|
                0 <= i < self.streams@.len() ==> r.streams@[i] == self.streams@[i],
            forall|i: int|
                0 <= i < other.streams@.len() ==> r.streams@[self.streams@.len() + i] == timed(
                    #[trigger] other.streams@[i],
                    rebased(other.streams@[i].time, spec_last_timestamp(&self)),
                ),
            r.source@ == self.source@ + other.source@,
    {
        let mut merged = self;
        merged.merge_mut(other);
        merged
    }

    /// The readings of one sensor kind, decoded for the device the
    /// aggregate itself reports: the first device name, in lexicographic
    /// order, that names a known model decides the stream naming. With no
    /// name that names a known model there are no readings, never an
    /// error; the unknown sensor kind likewise yields none.
    pub fn sensor(&self, sensor_type: &SensorType) -> (r: Vec<SensorData>)
        ensures
            forall|n: Seq<char>, d: DeviceName|
                is_selected_device(self.streams@, n, d) ==> (match sensor_type {
                    SensorType::Unknown => r@.len() == 0,
                    _ => sensor_items_ok(
                        matched_with_time(
                            self.streams@,
                            spec_sensor_datatype(*sensor_type, d).spec_render(),
                        ),
                        *sensor_type,
                        d,
                        r@,
                    ),
                }),
            (forall|n: Seq<char>, d: DeviceName| !is_selected_device(self.streams@, n, d))
                ==> r@.len() == 0,
    {
        let names = self.device_name();
        let ghost set = device_names_of(self.streams@);
        let m = names.len();
        let mut i: usize = 0;
        while i < m
            invariant
                m == names@.len(),
                i <= m,
                sorted_strs(names@),
                distinct_strs(names@),
                forall|k: int| 0 <= k < m ==> set.contains((#[trigger] names@[k])@),
                forall|y: Seq<char>| set.contains(y) ==> holds_view(names@, y),
                set == device_names_of(self.streams@),
                forall|k: int| 0 <= k < i ==> known_device(trimmed((#[trigger] names@[k])@)) is None,
            decreases m - i,
        {
            match DeviceName::from_str(names[i].as_str()) {
                Some(device) => {
                    proof {
                        // This name is the selected device: every earlier
                        // (hence lexicographically smaller) held name names
                        // no known model, and every smaller name of the set
                        // is an earlier held name.
                        assert forall|y: Seq<char>|
                            set.contains(y) && lex_le(y, names@[i as int]@) && y != names@[
                                i as int
                            ]@ implies known_device(trimmed(y)) is None by {
                            let k = choose|k: int|
                                0 <= k < names@.len() && (#[trigger] names@[k])@ == y;
                            if k > i {
                                lemma_lex_antisym(y, names@[i as int]@);
                            }
                            if k == i {
                            } else {
                                assert(k < i);
                            }
                        }
                        assert(is_selected_device(self.streams@, names@[i as int]@, device));
                        // And it is the only one.
                        assert forall|n2: Seq<char>, d2: DeviceName|
                            is_selected_device(self.streams@, n2, d2) implies n2 == names@[
                            i as int
                        ]@ && d2 == device by {
                            let k = choose|k: int|
                                0 <= k < names@.len() && (#[trigger] names@[k])@ == n2;
                            if k < i {
                                assert(false);
                            } else if k > i {
                                // The earlier parseable name refutes the
                                // later one's minimality.
                                assert(lex_le(names@[i as int]@, n2));
                                assert(names@[i as int]@ != n2);
                            }
                        }
                    }
                    let r = self.sensor_with_device(sensor_type, &device);
                    proof {
                        assert(is_selected_device(self.streams@, names@[i as int]@, device));
                    }
                    return r;
                },
                None => {},
            }
            i = i + 1;
        }
        proof {
            assert forall|n2: Seq<char>, d2: DeviceName|
                !is_selected_device(self.streams@, n2, d2) by {
                if is_selected_device(self.streams@, n2, d2) {
                    assert(holds_view(names@, n2));
                    let k = choose|k: int| 0 <= k < names@.len() && (#[trigger] names@[k])@ == n2;
                    assert(known_device(trimmed(n2)) is None);
                }
            }
        }
        Vec::new()
    }
}

} // verus!

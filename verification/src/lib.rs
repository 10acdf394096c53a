//! Offline analysis of a captured packet stream: parse each link-layer
//! frame, fold the parsed records into running counters and a
//! destination-address frequency table, rank the addresses by
//! frequency, and render the plain-text report.
//!
//! The capture-file reader, the command-line flags and the output
//! destination are external collaborators: they hand this library raw
//! frame bytes with their recorded original lengths, and take the
//! finished report bytes back.

pub mod aggregator;
pub mod parser;
pub mod rank;
pub mod report;
pub mod table;

use vstd::prelude::*;
use crate::aggregator::Aggregator;
use crate::parser::{ParseError, parse_packet, spec_parse};

verus! {

/// The sum of the declared original lengths of a run of frames.
pub open spec fn sum_orig_lens(frames: Seq<(Vec<u8>, u32)>) -> int
    decreases frames.len(),
{
    if frames.len() == 0 {
        0
    } else {
        sum_orig_lens(frames.drop_last()) + frames.last().1
    }
}

/// Every frame of the run parses successfully.
pub open spec fn all_parse(frames: Seq<(Vec<u8>, u32)>) -> bool {
    forall|i: int| 0 <= i < frames.len() ==> spec_parse((#[trigger] frames[i]).0@) is Ok
}

/// The frame parses to a record with this protocol identifier.
pub open spec fn has_protocol(f: (Vec<u8>, u32), p: u8) -> bool {
    spec_parse(f.0@) is Ok && spec_parse(f.0@)->Ok_0.protocol == p
}

/// How many frames of the run carry protocol 17 (UDP).
pub open spec fn udp_frames(frames: Seq<(Vec<u8>, u32)>) -> int
    decreases frames.len(),
{
    if frames.len() == 0 {
        0
    } else {
        udp_frames(frames.drop_last()) + (if has_protocol(frames.last(), 17) {
            1int
        } else {
            0int
        })
    }
}

/// How many frames of the run carry protocol 6 (TCP).
pub open spec fn tcp_frames(frames: Seq<(Vec<u8>, u32)>) -> int
    decreases frames.len(),
{
    if frames.len() == 0 {
        0
    } else {
        tcp_frames(frames.drop_last()) + (if has_protocol(frames.last(), 6) {
            1int
        } else {
            0int
        })
    }
}

/// How many frames of the run carry neither protocol 17 nor 6.
pub open spec fn other_frames(frames: Seq<(Vec<u8>, u32)>) -> int
    decreases frames.len(),
{
    if frames.len() == 0 {
        0
    } else {
        other_frames(frames.drop_last()) + (
        if spec_parse(frames.last().0@) is Ok && !has_protocol(frames.last(), 17)
            && !has_protocol(frames.last(), 6) {
            1int
        } else {
            0int
        })
    }
}

/// The destination-address frequency over a run of frames: each
/// successfully parsed frame counts once for its destination address.
pub open spec fn freq_of(frames: Seq<(Vec<u8>, u32)>) -> Map<u32, u64>
    decreases frames.len(),
{
    if frames.len() == 0 {
        crate::table::no_counts()
    } else {
        let m = freq_of(frames.drop_last());
        if spec_parse(frames.last().0@) is Ok {
            let a = spec_parse(frames.last().0@)->Ok_0.dest_address;
            m.insert(
                a,
                (if m.dom().contains(a) {
                    m[a] + 1
                } else {
                    1
                }) as u64,
            )
        } else {
            m
        }
    }
}

/// A prefix of a run never sums to more than the whole run.
proof fn lemma_sum_lens_prefix(frames: Seq<(Vec<u8>, u32)>, i: int)
    requires
        0 <= i <= frames.len(),
    ensures
        sum_orig_lens(frames.take(i)) <= sum_orig_lens(frames),
    decreases frames.len() - i,
{
    if i == frames.len() {
        assert(frames.take(i) =~= frames);
    } else {
        assert(frames.take(i + 1).drop_last() =~= frames.take(i));
        lemma_sum_lens_prefix(frames, i + 1);
    }
}

/// Parse one raw frame and fold it into the aggregate; on a parse
/// failure the aggregate is left untouched and the error is passed on.
pub fn process_frame(agg: &mut Aggregator, data: &[u8], original_length: u32) -> (r: Result<
    (),
    ParseError,
>)
    requires
        old(agg).wf(),
        old(agg).packet_count < u64::MAX,
        old(agg).total_volume + original_length <= u64::MAX,
    ensures
        final(agg).wf(),
        r is Ok <==> spec_parse(data@) is Ok,
        r is Err ==> r->Err_0 == spec_parse(data@)->Err_0 && *final(agg) == *old(agg),
        r is Ok ==> {
            let rec = spec_parse(data@)->Ok_0;
            &&& final(agg).packet_count == old(agg).packet_count + 1
            &&& final(agg).total_volume == old(agg).total_volume + original_length
            &&& final(agg).udp == old(agg).udp + (if rec.protocol == 17 { 1int } else { 0int })
            &&& final(agg).tcp == old(agg).tcp + (if rec.protocol == 6 { 1int } else { 0int })
            &&& final(agg).other == old(agg).other + (
            if rec.protocol != 17 && rec.protocol != 6 { 1int } else { 0int })
            &&& final(agg).counts() == old(agg).counts().insert(
                rec.dest_address,
                (if old(agg).counts().dom().contains(rec.dest_address) {
                    old(agg).counts()[rec.dest_address] + 1
                } else {
                    1
                }) as u64,
            )
        },
{
    match parse_packet(data) {
        Ok(rec) => {
            agg.record(rec, original_length);
            Ok(())
        },
        Err(e) => Err(e),
    }
}

/// One whole pass: fold every frame of the run into a fresh aggregate,
/// stopping at the first frame that does not parse. On success the
/// aggregate holds exactly the run's counts: the packet count is the
/// number of frames, the volume the sum of their declared original
/// lengths, each protocol bucket the number of its frames, and the
/// frequency table each address's occurrences.
pub fn aggregate_frames(frames: &Vec<(Vec<u8>, u32)>) -> (r: Result<Aggregator, ParseError>)
    requires
        frames@.len() < u64::MAX,
        sum_orig_lens(frames@) <= u64::MAX,
    ensures
        r is Ok <==> all_parse(frames@),
        r is Ok ==> {
            let agg = r->Ok_0;
            &&& agg.wf()
            &&& agg.packet_count == frames@.len()
            &&& agg.total_volume == sum_orig_lens(frames@)
            &&& agg.udp == udp_frames(frames@)
            &&& agg.tcp == tcp_frames(frames@)
            &&& agg.other == other_frames(frames@)
            &&& agg.counts() == freq_of(frames@)
        },
        r is Err ==> exists|k: int|
            0 <= k < frames@.len() && spec_parse((#[trigger] frames@[k]).0@) == Err::<
                crate::parser::ParsedRecord,
                ParseError,
            >(r->Err_0) && (forall|j: int| 0 <= j < k ==> spec_parse((#[trigger] frames@[j]).0@) is Ok),
{
    let mut agg = Aggregator::new();
    let mut i: usize = 0;
    proof {
        assert(frames@.take(0int) =~= Seq::empty());
    }
    while i < frames.len()
        invariant
            i <= frames@.len(),
            frames@.len() < u64::MAX,
            sum_orig_lens(frames@) <= u64::MAX,
            agg.wf(),
            agg.packet_count == i,
            agg.total_volume == sum_orig_lens(frames@.take(i as int)),
            agg.udp == udp_frames(frames@.take(i as int)),
            agg.tcp == tcp_frames(frames@.take(i as int)),
            agg.other == other_frames(frames@.take(i as int)),
            agg.counts() == freq_of(frames@.take(i as int)),
            forall|j: int| 0 <= j < i ==> spec_parse((#[trigger] frames@[j]).0@) is Ok,
        decreases frames@.len() - i,
    {
        let frame = &frames[i];
        proof {
            assert(frames@.take(i + 1).drop_last() =~= frames@.take(i as int));
            assert(frames@.take(i + 1).last() == frames@[i as int]);
            lemma_sum_lens_prefix(frames@, i + 1);
        }
        match process_frame(&mut agg, frame.0.as_slice(), frame.1) {
            Ok(()) => {},
            Err(e) => {
                return Err(e);
            },
        }
        i = i + 1;
    }
    proof {
        assert(frames@.take(frames@.len() as int) =~= frames@);
    }
    Ok(agg)
}

} // verus!

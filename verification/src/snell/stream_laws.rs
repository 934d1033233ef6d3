//! What becomes of the records of a stream.

use vstd::prelude::*;

use crate::snell::error::SnellError;
use crate::snell::record::{step_matches, Incoming, Mode, ReadStep, Reading};
use crate::snell::writer::{carried, flat, sending, Outgoing, Pace, RecordWriter};

verus! {

/// A reader tells what stands at the front of its input: that bytes are missing,
/// a payload with the bytes that it took, the end, or what is wrong. It moves on
/// unless bytes are missing.
pub proof fn readers_tell_what_they_read(
    before: Incoming,
    input: Seq<u8>,
    step: Result<ReadStep, SnellError>,
    after: Incoming,
)
    requires
        step_matches(before, input, step, after),
    ensures
        ({
            let reading = before.read_spec(input);
            &&& step == Ok::<ReadStep, SnellError>(ReadStep::More) <==> reading is More
            &&& reading is More ==> after == before
            &&& step is Err <==> reading is Bad
            &&& step matches Err(error) ==> reading == Reading::Bad(error, after)
            &&& step matches Ok(ReadStep::End(taken)) ==> reading == Reading::End(
                taken as int,
                after,
            )
            &&& step matches Ok(ReadStep::Record(payload, taken)) ==> reading == Reading::Record(
                payload@,
                taken as int,
                after,
            )
        }),
{
}

/// A record that was appended is what a reader takes from the bytes, whatever
/// follows them: its payload, or the end of the stream where it carries none. A
/// cipher that is in place stays, and where none can be made nothing is written.
pub proof fn records_are_delivered(
    before: Outgoing,
    payload: Seq<u8>,
    done: Result<(), SnellError>,
    after: Outgoing,
    written: Seq<u8>,
    rest: Seq<u8>,
)
    requires
        RecordWriter::appended(before, payload, done, after, written),
    ensures
        done is Ok && payload.len() > 0 ==> before.reader().read_spec(written + rest)
            == Reading::Record(payload, written.len() as int, after.reader()),
        done is Ok && payload.len() == 0 ==> before.reader().read_spec(written + rest)
            == Reading::End(written.len() as int, after.reader()),
        done is Ok && before.key is Some ==> after.key == before.key && after.salt == before.salt,
        done is Ok ==> after.mode == before.mode && after.psk == before.psk && after.profile
            == before.profile,
        done matches Err(error) ==> error == SnellError::KeyDerivation && after == before
            && written.len() == 0,
{
    if done is Ok {
        let stream = before.with_cipher(after.key, after.salt);
        assert(before.reader().read_spec(written + rest) == stream.delivered(payload));
    }
}

/// A datagram travels in one record: where it is empty or too large for one, or
/// where no key can be made, nothing is sent.
pub proof fn datagrams_travel_whole(
    before: Outgoing,
    pace: Pace,
    payload: Seq<u8>,
    now: i128,
    sent: Result<Seq<u8>, SnellError>,
    after: Outgoing,
    after_pace: Pace,
    rest: Seq<u8>,
)
    requires
        RecordWriter::packet_sent(before, pace, payload, now, sent, after, after_pace),
    ensures
        ({
            let fits = 0 < payload.len() <= pace.limit(now);
            let keyed = before.mode == Mode::UnsafeRaw || before.psk.len() <= 0xffff_ffff;
            &&& sent is Ok <==> fits && keyed
            &&& !fits ==> sent == Err::<Seq<u8>, SnellError>(SnellError::PacketTooLarge)
            &&& fits && !keyed ==> sent == Err::<Seq<u8>, SnellError>(SnellError::KeyDerivation)
            &&& sent is Err ==> after == before && after_pace == pace.asked(now)
            &&& sent matches Ok(bytes) ==> {
                &&& before.reader().read_spec(bytes + rest) == Reading::Record(
                    payload,
                    bytes.len() as int,
                    after.reader(),
                )
                &&& after_pace == pace.asked(now).sent()
            }
        }),
{
    if sent is Ok {
        records_are_delivered(before, payload, Ok(()), after, sent->Ok_0, rest);
    }
}

/// The bytes of a row of records are those of its records, one behind the other.
pub proof fn records_follow_each_other(stream: Outgoing, parts: Seq<Seq<u8>>, part: Seq<u8>)
    ensures
        stream.wire(Seq::empty()).len() == 0,
        stream.after_records(Seq::empty()) == stream,
        stream.wire(parts.push(part)) == stream.wire(parts) + stream.after_records(
            parts,
        ).record_bytes(part),
        stream.after_records(parts.push(part)) == stream.after_records(parts).after_record(part),
        flat(parts.push(part)) == flat(parts) + part,
        flat(Seq::empty()).len() == 0,
{
    assert(parts.push(part).drop_last() =~= parts);
}

/// A payload is cut into parts that make it up, none of them empty: each fills
/// its record, as the pace allows when its turn comes, but for the last.
pub proof fn payloads_are_cut_at_the_pace(
    before: Outgoing,
    pace: Pace,
    payload: Seq<u8>,
    sent: Seq<u8>,
    after: Outgoing,
    after_pace: Pace,
)
    requires
        carried(before, pace, payload, sent, after, after_pace),
    ensures
        exists|parts: Seq<Seq<u8>>, moments: Seq<i128>|
            {
                &&& flat(parts) == payload
                &&& moments.len() == parts.len()
                &&& after_pace == #[trigger] pace.after(moments, parts.len())
                &&& sent == before.with_cipher(after.key, after.salt).wire(parts)
                &&& forall|i: int|
                    0 <= i < parts.len() ==> 0 < (#[trigger] parts[i]).len() <= pace.after(
                        moments,
                        i as nat,
                    ).limit(moments[i])
                &&& forall|i: int|
                    0 <= i < parts.len() - 1 ==> (#[trigger] parts[i]).len() == pace.after(
                        moments,
                        i as nat,
                    ).limit(moments[i])
            },
{
    reveal(sending);
    let (parts, moments) = choose|parts: Seq<Seq<u8>>, moments: Seq<i128>| #[trigger]
        sending(before, pace, payload, false, sent, after, after_pace, parts, moments);
    assert(after_pace == pace.after(moments, parts.len()));
}

/// The pace after a row of records is that after each of them in turn.
pub proof fn paces_go_record_by_record(pace: Pace, moments: Seq<i128>, count: nat)
    ensures
        pace.after(moments, 0) == pace,
        pace.after(moments, count + 1) == pace.after(moments, count).asked(
            moments[count as int],
        ).sent(),
{
}

} // verus!

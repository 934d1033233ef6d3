//! The sending side of a record stream.

use vstd::prelude::*;

use crate::num::{max_int, min_int, min_usize};
use crate::snell::cipher::{
    aes128gcm_open, aes128gcm_seal, encrypt, make_cipher, next_nonce, stream_key, PASSWORD_MAX,
};
use crate::snell::clock::{seconds_between, seconds_since, unix_now};
use crate::snell::error::SnellError;
use crate::snell::mixing::mixing_twice_is_identity;
use crate::snell::profile::Profile;
use crate::snell::record::{
    header, header_round_trip, header_spec, Incoming, MAX_PAYLOAD, Mode, Reading,
};
use crate::snell::salt::salt_round_trip;
use crate::text::bytes_between;

verus! {

/// `rand::random` fills a salt from the thread's generator: nothing is
/// claimed of the bytes.
#[verifier::external_body]
fn random_salt() -> (salt: [u8; 16]) {
    rand::random::<[u8; 16]>()
}

/// One direction of a stream, as its writer sees it.
#[verifier::ext_equal]
pub struct Outgoing {
    pub mode: Mode,
    pub psk: Seq<u8>,
    pub profile: Option<Profile>,
    pub key: Option<Seq<u8>>,
    pub nonce: Seq<u8>,
    pub sequence: u32,
    pub salt: Option<Seq<u8>>,
    pub salt_sent: bool,
}

/// How fast records may grow.
#[verifier::ext_equal]
pub struct Pace {
    pub mode: Mode,
    pub profile: Option<Profile>,
    pub sequence: u32,
    pub chunk_size: usize,
    pub last_write: Option<i128>,
}

impl Pace {
    /// Whole seconds since the last write; none if there was none, or if the
    /// clock has gone backwards since.
    pub open spec fn elapsed(self, now: i128) -> Option<u64> {
        match self.last_write {
            Some(moment) => seconds_between(moment, now),
            None => None,
        }
    }

    /// The chunk size in force at the moment `now`: it starts over after a pause.
    pub open spec fn chunk_in_force(self, now: i128) -> usize {
        let idle = match self.elapsed(now) {
            Some(seconds) => seconds > self.profile->0.idle_reset_secs,
            None => true,
        };
        if idle || self.chunk_size == 0 {
            self.profile->0.chunk_initial
        } else {
            self.chunk_size
        }
    }

    /// The largest payload of the next record, at the moment `now`.
    pub open spec fn limit(self, now: i128) -> int {
        if self.mode != Mode::Default {
            MAX_PAYLOAD as int
        } else {
            let shaped = self.profile->0.payload_limit_spec(
                self.sequence,
                self.chunk_in_force(now),
            );
            let capped = if self.sequence == 0 {
                min_int(shaped, self.profile->0.first_record_cap as int)
            } else {
                shaped
            };
            min_int(max_int(capped, 1), MAX_PAYLOAD as int)
        }
    }

    /// The pace once a limit has been asked for at the moment `now`, which is
    /// then that of the last write.
    pub open spec fn asked(self, now: i128) -> Pace {
        if self.mode != Mode::Default {
            self
        } else {
            Pace {
                chunk_size: self.profile->0.next_chunk_size_spec(
                    self.chunk_in_force(now),
                ) as usize,
                last_write: Some(now),
                ..self
            }
        }
    }

    /// The pace once a record has been sent.
    pub open spec fn sent(self) -> Pace {
        if self.mode == Mode::Default {
            Pace { sequence: self.sequence.wrapping_add(1), ..self }
        } else {
            self
        }
    }

    /// The pace after `count` records, asked for at `moments`.
    pub open spec fn after(self, moments: Seq<i128>, count: nat) -> Pace
        decreases count,
    {
        if count == 0 {
            self
        } else {
            self.after(moments, (count - 1) as nat).asked(moments[count - 1]).sent()
        }
    }

    /// Every part fills its record, but for the last, which may be shorter.
    pub open spec fn cuts(self, parts: Seq<Seq<u8>>, moments: Seq<i128>) -> bool {
        &&& moments.len() == parts.len()
        &&& forall|i: int|
            0 <= i < parts.len() ==> {
                let limit = self.after(moments, i as nat).limit(moments[i]);
                &&& 0 < (#[trigger] parts[i]).len() <= limit
                &&& i + 1 < parts.len() ==> parts[i].len() == limit
            }
    }
}

/// Without a pause the chunk grows by a step with every record, up to the
/// profile's largest.
pub proof fn chunk_grows_without_pause(pace: Pace, now: i128, later: i128)
    requires
        pace.mode == Mode::Default,
        pace.profile is Some,
        pace.profile->0.wf(),
        now <= later,
        (later - now) / 1_000_000_000 <= pace.profile->0.idle_reset_secs,
    ensures
        ({
            let profile = pace.profile->0;
            let next = pace.asked(now).sent();
            &&& next.elapsed(later) == Some(((later - now) / 1_000_000_000) as u64)
            &&& next.chunk_in_force(later) == min_int(
                pace.chunk_in_force(now) + profile.chunk_step,
                profile.chunk_max as int,
            )
        }),
{
}

/// After a pause, before the first record, and where the clock has gone
/// backwards, the chunk starts over.
pub proof fn chunk_starts_over_after_pause(pace: Pace, now: i128)
    requires
        pace.elapsed(now) matches Some(seconds) ==> seconds > pace.profile->0.idle_reset_secs,
    ensures
        pace.chunk_in_force(now) == pace.profile->0.chunk_initial,
{
}

/// Where a profile neither jitters its chunks nor draws them from buckets, the
/// limit of every record but the first follows the chunk, and so never falls
/// without a pause.
pub proof fn limit_never_falls_without_pause(pace: Pace, now: i128, later: i128)
    requires
        pace.mode == Mode::Default,
        pace.profile is Some,
        pace.profile->0.wf(),
        pace.profile->0.chunk_policy == 0,
        pace.chunk_size <= pace.profile->0.chunk_max,
        pace.sent().sequence != 0,
        now <= later,
        (later - now) / 1_000_000_000 <= pace.profile->0.idle_reset_secs,
    ensures
        pace.asked(now).sent().limit(later) >= pace.limit(now),
{
    chunk_grows_without_pause(pace, now, later);
}

proof fn after_ignores_later_moments(
    pace: Pace,
    moments: Seq<i128>,
    moment: i128,
    count: nat,
)
    requires
        count <= moments.len(),
    ensures
        pace.after(moments.push(moment), count) == pace.after(moments, count),
    decreases count,
{
    if count > 0 {
        after_ignores_later_moments(pace, moments, moment, (count - 1) as nat);
        assert(moments.push(moment)[count - 1] == moments[count - 1]);
    }
}

impl Outgoing {
    pub open spec fn wf(self) -> bool {
        &&& self.mode == Mode::Default ==> self.profile is Some
        &&& self.profile matches Some(profile) ==> profile.wf()
        &&& self.nonce.len() == 12
        &&& self.key is Some <==> self.salt is Some
        &&& self.salt matches Some(salt) ==> {
            &&& salt.len() == 16
            &&& self.key->0.len() == 16
            &&& stream_key(self.psk, salt) == self.key
        }
        &&& self.salt_sent ==> self.key is Some
        &&& self.mode == Mode::UnsafeRaw ==> self.key is None
    }

    /// The reader that has read all that this writer has written.
    pub open spec fn reader(self) -> Incoming {
        Incoming {
            mode: self.mode,
            psk: self.psk,
            profile: self.profile,
            key: if self.salt_sent {
                self.key
            } else {
                None
            },
            nonce: self.nonce,
            sequence: self.sequence,
        }
    }

    /// The stream with its cipher in place, as a salt and a key fix it.
    pub open spec fn with_cipher(self, key: Option<Seq<u8>>, salt: Option<Seq<u8>>) -> Outgoing {
        Outgoing { key, salt, ..self }
    }

    /// Bytes in front of the first record: the salt, hidden if the stream is shaped.
    pub open spec fn opening(self) -> Seq<u8> {
        if self.salt_sent || self.mode == Mode::UnsafeRaw {
            Seq::empty()
        } else if self.mode == Mode::Unshaped {
            self.salt->0
        } else {
            let profile = self.profile->0;
            profile.with_salt(
                self.salt->0,
                profile.padding_bytes(u32::MAX, profile.salt_block_len as nat),
            )
        }
    }

    pub open spec fn prefix(self) -> Seq<u8> {
        if self.mode == Mode::Default {
            self.profile->0.padding_bytes(
                self.sequence,
                self.profile->0.prefix_len_spec(self.sequence) as nat,
            )
        } else {
            Seq::empty()
        }
    }

    pub open spec fn padding_len(self, payload: Seq<u8>) -> int {
        if self.mode == Mode::Default {
            let profile = self.profile->0;
            let block_len: usize = if self.salt_sent {
                0
            } else {
                profile.salt_block_len
            };
            let salt_prefix_len: usize = if self.salt_sent {
                0
            } else {
                (profile.salt_block_len - 16) as usize
            };
            profile.padding_len_spec(
                self.sequence,
                payload.len() as usize,
                profile.prefix_len_spec(self.sequence) as usize,
                salt_prefix_len,
                block_len,
            )
        } else {
            0
        }
    }

    pub open spec fn padding(self, payload: Seq<u8>) -> Seq<u8> {
        if self.mode == Mode::Default {
            self.profile->0.padding_bytes(self.sequence, self.padding_len(payload) as nat)
        } else {
            Seq::empty()
        }
    }

    pub open spec fn plain_header(self, payload: Seq<u8>) -> Seq<u8> {
        header_spec(self.padding_len(payload), payload.len() as int)
    }

    pub open spec fn sealed_header(self, payload: Seq<u8>) -> Seq<u8> {
        aes128gcm_seal(self.key->0, self.nonce, self.prefix(), self.plain_header(payload))
    }

    pub open spec fn sealed_body(self, payload: Seq<u8>) -> Seq<u8> {
        aes128gcm_seal(self.key->0, next_nonce(self.nonce), self.padding(payload), payload)
    }

    /// The bytes of one record, with the opening of the stream if it is the first.
    #[verifier::opaque]
    pub open spec fn record_bytes(self, payload: Seq<u8>) -> Seq<u8> {
        match self.mode {
            Mode::UnsafeRaw => self.plain_header(payload) + payload,
            Mode::Unshaped => self.opening() + self.sealed_header(payload) + (if payload.len()
                == 0 {
                Seq::empty()
            } else {
                self.sealed_body(payload)
            }),
            Mode::Default => {
                let padding = self.padding(payload);
                let body = self.sealed_body(payload);
                self.opening() + self.prefix() + self.sealed_header(payload) + (if payload.len()
                    == 0 {
                    padding
                } else {
                    self.profile->0.mixed(self.sequence, padding, body) + self.profile->0.mixed(
                        self.sequence,
                        body,
                        padding,
                    )
                })
            },
        }
    }

    /// The stream once a record has been written.
    pub open spec fn after_record(self, payload: Seq<u8>) -> Outgoing {
        match self.mode {
            Mode::UnsafeRaw => self,
            _ => Outgoing {
                nonce: if payload.len() == 0 {
                    next_nonce(self.nonce)
                } else {
                    next_nonce(next_nonce(self.nonce))
                },
                sequence: if self.mode == Mode::Default {
                    self.sequence.wrapping_add(1)
                } else {
                    self.sequence
                },
                salt_sent: true,
                ..self
            },
        }
    }

    /// What a reader makes of a record that carries `payload`.
    pub open spec fn delivered(self, payload: Seq<u8>) -> Reading {
        let len = self.record_bytes(payload).len() as int;
        let reader = self.after_record(payload).reader();
        if payload.len() == 0 {
            Reading::End(len, reader)
        } else {
            Reading::Record(payload, len, reader)
        }
    }

    /// The cipher opens what it sealed for this record, and its tag takes 16 bytes.
    pub open spec fn seals_open(self, payload: Seq<u8>) -> bool {
        self.mode != Mode::UnsafeRaw ==> {
            &&& self.sealed_header(payload).len() == 23
            &&& aes128gcm_open(
                self.key->0,
                self.nonce,
                self.prefix(),
                self.sealed_header(payload),
            ) == Some(self.plain_header(payload))
            &&& payload.len() > 0 ==> {
                &&& self.sealed_body(payload).len() == payload.len() + 16
                &&& aes128gcm_open(
                    self.key->0,
                    next_nonce(self.nonce),
                    self.padding(payload),
                    self.sealed_body(payload),
                ) == Some(payload)
            }
        }
    }

    /// The bytes of several records.
    pub open spec fn wire(self, parts: Seq<Seq<u8>>) -> Seq<u8>
        decreases parts.len(),
    {
        if parts.len() == 0 {
            Seq::empty()
        } else {
            self.wire(parts.drop_last()) + self.after_records(parts.drop_last()).record_bytes(
                parts.last(),
            )
        }
    }

    /// The stream once several records have been written.
    pub open spec fn after_records(self, parts: Seq<Seq<u8>>) -> Outgoing
        decreases parts.len(),
    {
        if parts.len() == 0 {
            self
        } else {
            self.after_records(parts.drop_last()).after_record(parts.last())
        }
    }
}

/// Reading `input` from `before` gives the payloads `parts` in order, and then
/// leaves the reader in `after` in front of `rest`.
pub open spec fn reads(
    before: Incoming,
    input: Seq<u8>,
    parts: Seq<Seq<u8>>,
    after: Incoming,
    rest: Seq<u8>,
) -> bool
    decreases parts.len(),
{
    if parts.len() == 0 {
        before == after && input == rest
    } else {
        match before.read_spec(input) {
            Reading::Record(payload, len, next) => {
                &&& payload == parts[0]
                &&& 0 <= len <= input.len()
                &&& reads(next, input.skip(len), parts.drop_first(), after, rest)
            },
            _ => false,
        }
    }
}

proof fn reads_one_more(
    before: Incoming,
    input: Seq<u8>,
    parts: Seq<Seq<u8>>,
    middle: Incoming,
    middle_rest: Seq<u8>,
    part: Seq<u8>,
    len: int,
    after: Incoming,
)
    requires
        reads(before, input, parts, middle, middle_rest),
        middle.read_spec(middle_rest) == Reading::Record(part, len, after),
        0 <= len <= middle_rest.len(),
    ensures
        reads(before, input, parts.push(part), after, middle_rest.skip(len)),
    decreases parts.len(),
{
    let longer = parts.push(part);
    if parts.len() == 0 {
        assert(longer.drop_first() =~= Seq::<Seq<u8>>::empty());
        reveal_with_fuel(reads, 2);
    } else {
        match before.read_spec(input) {
            Reading::Record(payload, consumed, next) => {
                reads_one_more(
                    next,
                    input.skip(consumed),
                    parts.drop_first(),
                    middle,
                    middle_rest,
                    part,
                    len,
                    after,
                );
                assert(longer.drop_first() =~= parts.drop_first().push(part));
                assert(longer[0] == parts[0]);
            },
            _ => {},
        }
    }
}

/// The parts of a payload, put together again.
pub open spec fn flat(parts: Seq<Seq<u8>>) -> Seq<u8>
    decreases parts.len(),
{
    if parts.len() == 0 {
        Seq::empty()
    } else {
        flat(parts.drop_last()) + parts.last()
    }
}

proof fn raw_round_trip(stream: Outgoing, payload: Seq<u8>, rest: Seq<u8>)
    requires
        stream.wf(),
        stream.mode == Mode::UnsafeRaw,
        payload.len() <= MAX_PAYLOAD,
    ensures
        stream.reader().read_spec(stream.record_bytes(payload) + rest) == stream.delivered(payload),
{
    reveal(Incoming::read_spec);
    reveal(Outgoing::record_bytes);
    let input = stream.record_bytes(payload) + rest;
    let len = payload.len() as int;
    header_round_trip(0, len, true);
    assert(input.take(7) =~= header_spec(0, len));
    if len > 0 {
        assert(input.subrange(7, 7 + len) =~= payload);
    }
}

proof fn unshaped_round_trip(stream: Outgoing, payload: Seq<u8>, rest: Seq<u8>)
    requires
        stream.wf(),
        stream.mode == Mode::Unshaped,
        stream.key is Some,
        payload.len() <= MAX_PAYLOAD,
        stream.seals_open(payload),
    ensures
        stream.reader().read_spec(stream.record_bytes(payload) + rest) == stream.delivered(payload),
{
    reveal(Incoming::read_spec);
    reveal(Outgoing::record_bytes);
    let reader = stream.reader();
    let input = stream.record_bytes(payload) + rest;
    let len = payload.len() as int;
    let start = reader.opening_len();
    header_round_trip(0, len, true);
    assert(stream.opening().len() == start);
    if !stream.salt_sent {
        assert(input.take(start) =~= stream.salt->0);
    }
    assert(reader.key_for(input) == stream.key);
    assert(input.subrange(start, start + 23) =~= stream.sealed_header(payload));
    assert(stream.prefix() =~= Seq::<u8>::empty());
    if len > 0 {
        assert(input.subrange(start + 23, start + 23 + len + 16) =~= stream.sealed_body(payload));
        assert(stream.padding(payload) =~= Seq::<u8>::empty());
    }
    assert(stream.after_record(payload).reader() =~= (Incoming {
        key: stream.key,
        nonce: stream.after_record(payload).nonce,
        ..reader
    }));
}

proof fn shaped_round_trip(stream: Outgoing, payload: Seq<u8>, rest: Seq<u8>)
    requires
        stream.wf(),
        stream.mode == Mode::Default,
        stream.key is Some,
        payload.len() <= MAX_PAYLOAD,
        0 <= stream.padding_len(payload) <= 0xffff,
        stream.profile->0.prefix_len_spec(stream.sequence) >= 0,
        stream.seals_open(payload),
    ensures
        stream.reader().read_spec(stream.record_bytes(payload) + rest) == stream.delivered(payload),
{
    reveal(Incoming::read_spec);
    reveal(Outgoing::record_bytes);
    let reader = stream.reader();
    let profile = stream.profile->0;
    let input = stream.record_bytes(payload) + rest;
    let len = payload.len() as int;
    let start = reader.opening_len();
    let header_start = start + profile.prefix_len_spec(stream.sequence);
    let padding_len = stream.padding_len(payload);
    let padding_start = header_start + 23;
    let body_start = padding_start + padding_len;
    let padding = stream.padding(payload);
    header_round_trip(padding_len, len, false);
    if !stream.salt_sent {
        let block = profile.padding_bytes(u32::MAX, profile.salt_block_len as nat);
        salt_round_trip(profile, stream.salt->0, block);
        assert(stream.opening().len() == start);
        assert(input.take(start) =~= stream.opening());
    }
    assert(stream.opening().len() == start);
    assert(reader.key_for(input) == stream.key);
    assert(input.subrange(start, header_start) =~= stream.prefix());
    assert(input.subrange(header_start, padding_start) =~= stream.sealed_header(payload));
    if len > 0 {
        let body = stream.sealed_body(payload);
        let end = body_start + len + 16;
        let mixed_padding = profile.mixed(stream.sequence, padding, body);
        let mixed_body = profile.mixed(stream.sequence, body, padding);
        assert(input.subrange(padding_start, body_start) =~= mixed_padding);
        assert(input.subrange(body_start, end) =~= mixed_body);
        mixing_twice_is_identity(profile, stream.sequence, padding, body);
    }
    assert(stream.after_record(payload).reader() =~= (Incoming {
        key: stream.key,
        nonce: stream.after_record(payload).nonce,
        sequence: stream.sequence.wrapping_add(1),
        ..reader
    }));
}

/// How far sending has come: `payload` has been cut at the pace of the stream,
/// every part travels in one record, and a reader that has followed the stream
/// gets the parts in order. With `more` to come, every record is full.
#[verifier::opaque]
pub open spec fn sending(
    before: Outgoing,
    pace: Pace,
    payload: Seq<u8>,
    more: bool,
    sent: Seq<u8>,
    after: Outgoing,
    after_pace: Pace,
    parts: Seq<Seq<u8>>,
    moments: Seq<i128>,
) -> bool {
    let stream = before.with_cipher(after.key, after.salt);
    &&& flat(parts) == payload
    &&& pace.cuts(parts, moments)
    &&& more ==> forall|i: int|
        0 <= i < parts.len() ==> (#[trigger] parts[i]).len() == pace.after(moments, i as nat).limit(
            moments[i],
        )
    &&& after_pace == pace.after(moments, parts.len())
    &&& before.key is Some || before.mode == Mode::UnsafeRaw || parts.len() == 0 ==> stream
        == before
    &&& parts.len() > 0 ==> after.key is Some || after.mode == Mode::UnsafeRaw
    &&& sent == stream.wire(parts)
    &&& after == stream.after_records(parts)
    &&& forall|rest: Seq<u8>|
        #![trigger sent + rest]
        reads(before.reader(), sent + rest, parts, after.reader(), rest)
}

/// `sent` carries the whole of `payload`, in parts that the clock has fixed.
pub open spec fn carried(
    before: Outgoing,
    pace: Pace,
    payload: Seq<u8>,
    sent: Seq<u8>,
    after: Outgoing,
    after_pace: Pace,
) -> bool {
    exists|parts: Seq<Seq<u8>>, moments: Seq<i128>| #[trigger]
        sending(before, pace, payload, false, sent, after, after_pace, parts, moments)
}

/// What was written is read back: a reader that has followed the stream so far
/// takes parts from the bytes that were sent, in order, and these parts make up
/// the payload; it then stands in front of whatever follows.
pub proof fn payloads_are_read_back(
    before: Outgoing,
    pace: Pace,
    payload: Seq<u8>,
    sent: Seq<u8>,
    after: Outgoing,
    after_pace: Pace,
    rest: Seq<u8>,
)
    requires
        carried(before, pace, payload, sent, after, after_pace),
    ensures
        exists|parts: Seq<Seq<u8>>|
            flat(parts) == payload && #[trigger] reads(
                before.reader(),
                sent + rest,
                parts,
                after.reader(),
                rest,
            ),
{
    reveal(sending);
    let (parts, moments) = choose|parts: Seq<Seq<u8>>, moments: Seq<i128>| #[trigger]
        sending(before, pace, payload, false, sent, after, after_pace, parts, moments);
    assert(reads(before.reader(), sent + rest, parts, after.reader(), rest));
}

proof fn nothing_sent(before: Outgoing, pace: Pace, more: bool)
    ensures
        sending(
            before,
            pace,
            Seq::empty(),
            more,
            Seq::empty(),
            before,
            pace,
            Seq::empty(),
            Seq::empty(),
        ),
{
    reveal(sending);
    let none = Seq::<u8>::empty();
    assert(before.with_cipher(before.key, before.salt) =~= before);
    assert forall|rest: Seq<u8>|
        #![trigger none + rest]
        reads(before.reader(), none + rest, Seq::empty(), before.reader(), rest) by {
        assert(none + rest =~= rest);
    }
}

proof fn sending_one_more(
    before: Outgoing,
    pace: Pace,
    payload: Seq<u8>,
    sent: Seq<u8>,
    current: Outgoing,
    pace_now: Pace,
    parts: Seq<Seq<u8>>,
    moments: Seq<i128>,
    part: Seq<u8>,
    now: i128,
    written: Seq<u8>,
    after: Outgoing,
    after_pace: Pace,
    more: bool,
)
    requires
        sending(before, pace, payload, true, sent, current, pace_now, parts, moments),
        0 < part.len() <= pace_now.limit(now),
        more ==> part.len() == pace_now.limit(now),
        RecordWriter::appended(current, part, Ok::<(), SnellError>(()), after, written),
        after_pace == pace_now.asked(now).sent(),
    ensures
        sending(
            before,
            pace,
            payload + part,
            more,
            sent + written,
            after,
            after_pace,
            parts.push(part),
            moments.push(now),
        ),
{
    reveal(sending);
    let stream = before.with_cipher(after.key, after.salt);
    let longer = parts.push(part);
    assert(longer.drop_last() =~= parts);
    assert(longer.last() == part);
    cuts_one_more(pace, parts, moments, part, now, more);
    after_records_keep_cipher(before.with_cipher(current.key, current.salt), parts);
    if parts.len() > 0 {
        assert(current.with_cipher(after.key, after.salt) == current);
        assert(stream == before.with_cipher(current.key, current.salt));
    } else {
        assert(current == before);
    }
    assert(stream.after_records(parts) == current.with_cipher(after.key, after.salt));
    assert(stream.wire(parts) =~= sent);
    assert(stream.wire(longer) =~= sent + written);
    assert(stream.after_records(longer) == after);
    let output = sent + written;
    assert forall|rest: Seq<u8>|
        #![trigger output + rest]
        reads(before.reader(), output + rest, longer, after.reader(), rest) by {
        let middle_rest = written + rest;
        assert(sent + middle_rest =~= output + rest);
        assert(middle_rest.skip(written.len() as int) =~= rest);
        reads_one_more(
            before.reader(),
            output + rest,
            parts,
            current.reader(),
            middle_rest,
            part,
            written.len() as int,
            after.reader(),
        );
    }
}

proof fn cuts_one_more(
    pace: Pace,
    parts: Seq<Seq<u8>>,
    moments: Seq<i128>,
    part: Seq<u8>,
    now: i128,
    more: bool,
)
    requires
        pace.cuts(parts, moments),
        forall|i: int|
            0 <= i < parts.len() ==> (#[trigger] parts[i]).len() == pace.after(
                moments,
                i as nat,
            ).limit(moments[i]),
        0 < part.len() <= pace.after(moments, parts.len()).limit(now),
        more ==> part.len() == pace.after(moments, parts.len()).limit(now),
    ensures
        pace.cuts(parts.push(part), moments.push(now)),
        more ==> forall|i: int|
            0 <= i <= parts.len() ==> (#[trigger] parts.push(part)[i]).len() == pace.after(
                moments.push(now),
                i as nat,
            ).limit(moments.push(now)[i]),
        pace.after(moments.push(now), (parts.len() + 1) as nat) == pace.after(
            moments,
            parts.len(),
        ).asked(now).sent(),
{
    let longer = parts.push(part);
    let longer_moments = moments.push(now);
    assert forall|i: nat| i <= parts.len() implies #[trigger] pace.after(longer_moments, i)
        == pace.after(moments, i) by {
        after_ignores_later_moments(pace, moments, now, i);
    }
    let count = parts.len();
    assert(longer_moments[count as int] == now);
    assert(pace.after(longer_moments, count) == pace.after(moments, count));
    assert(((count + 1) - 1) as nat == count);
    assert(pace.after(longer_moments, (count + 1) as nat) == pace.after(longer_moments, count).asked(
        longer_moments[count as int],
    ).sent());
    assert forall|i: int| 0 <= i < longer.len() implies ({
        let bound = pace.after(longer_moments, i as nat).limit(longer_moments[i]);
        &&& 0 < (#[trigger] longer[i]).len() <= bound
        &&& i + 1 < longer.len() || more ==> longer[i].len() == bound
    }) by {
        if i < parts.len() {
            assert(longer[i] == parts[i]);
            assert(longer_moments[i] == moments[i]);
        }
    }
}

proof fn after_records_keep_cipher(stream: Outgoing, parts: Seq<Seq<u8>>)
    ensures
        stream.after_records(parts).key == stream.key,
        stream.after_records(parts).salt == stream.salt,
        stream.after_records(parts).mode == stream.mode,
    decreases parts.len(),
{
    if parts.len() > 0 {
        after_records_keep_cipher(stream, parts.drop_last());
    }
}

/// A result with its bytes by their view.
pub open spec fn bytes_or_error(sent: Result<Vec<u8>, SnellError>) -> Result<
    Seq<u8>,
    SnellError,
> {
    match sent {
        Ok(bytes) => Ok(bytes@),
        Err(error) => Err(error),
    }
}

pub struct RecordWriter {
    pub mode: Mode,
    pub psk: Vec<u8>,
    pub profile: Option<Profile>,
    pub key: Option<[u8; 16]>,
    pub nonce: [u8; 12],
    pub sequence: u32,
    pub salt: Option<[u8; 16]>,
    pub salt_sent: bool,
    pub chunk_size: usize,
    /// Nanoseconds since the start of 1970.
    pub last_write: Option<i128>,
}

impl View for RecordWriter {
    type V = Outgoing;

    open spec fn view(&self) -> Outgoing {
        Outgoing {
            mode: self.mode,
            psk: self.psk@,
            profile: self.profile,
            key: match self.key {
                Some(key) => Some(key@),
                None => None,
            },
            nonce: self.nonce@,
            sequence: self.sequence,
            salt: match self.salt {
                Some(salt) => Some(salt@),
                None => None,
            },
            salt_sent: self.salt_sent,
        }
    }
}

impl RecordWriter {
    pub open spec fn wf(&self) -> bool {
        &&& self@.wf()
        &&& self.profile matches Some(profile) ==> self.chunk_size <= profile.chunk_max
    }

    pub open spec fn pace(&self) -> Pace {
        Pace {
            mode: self.mode,
            profile: self.profile,
            sequence: self.sequence,
            chunk_size: self.chunk_size,
            last_write: self.last_write,
        }
    }

    pub fn new(mode: Mode, psk: Vec<u8>, profile: Option<Profile>) -> (writer: Self)
        requires
            mode == Mode::Default ==> profile is Some,
            profile matches Some(p) ==> p.wf(),
        ensures
            writer.wf(),
            writer@ == (Outgoing {
                mode,
                psk: psk@,
                profile,
                key: None,
                nonce: Seq::new(12, |i: int| 0u8),
                sequence: 0,
                salt: None,
                salt_sent: false,
            }),
            writer.chunk_size == 0,
            writer.last_write is None,
    {
        let writer = Self {
            mode,
            psk,
            profile,
            key: None,
            nonce: [0; 12],
            sequence: 0,
            salt: None,
            salt_sent: false,
            chunk_size: 0,
            last_write: None,
        };
        assert(writer.nonce@ =~= Seq::new(12, |i: int| 0u8));
        writer
    }

    /// The largest payload of the next record, where the clock stands at `now`.
    pub fn payload_limit_at(&mut self, now: i128) -> (limit: usize)
        requires
            old(self).wf(),
        ensures
            limit == old(self).pace().limit(now),
            1 <= limit <= MAX_PAYLOAD,
            final(self).wf(),
            final(self)@ == old(self)@,
            final(self).pace() == old(self).pace().asked(now),
    {
        if self.mode != Mode::Default {
            return MAX_PAYLOAD;
        }
        let profile: Profile = match self.profile {
            Some(profile) => profile,
            None => {
                return MAX_PAYLOAD;
            },
        };
        let idle = match seconds_since(now, self.last_write) {
            Some(seconds) => seconds > profile.idle_reset_secs as u64,
            None => true,
        };
        if idle || self.chunk_size == 0 {
            self.chunk_size = profile.chunk_initial;
        }
        let mut limit: usize = profile.payload_limit(self.sequence, self.chunk_size);
        if self.sequence == 0 {
            limit = min_usize(limit, profile.first_record_cap);
        }
        self.chunk_size = profile.next_chunk_size(self.chunk_size);
        self.last_write = Some(now);
        limit
    }

    /// The moment that a limit is asked for at; the clock is read only where
    /// the limit depends on it.
    fn moment(&self) -> i128 {
        if self.mode == Mode::Default {
            unix_now()
        } else {
            0
        }
    }

    /// Puts the cipher of `salt` in place.
    pub fn use_salt(&mut self, salt: [u8; 16]) -> (done: Result<(), SnellError>)
        requires
            old(self).wf(),
            old(self).key is None,
            old(self).mode != Mode::UnsafeRaw,
        ensures
            done is Ok <==> old(self).psk@.len() <= PASSWORD_MAX,
            done is Ok ==> final(self)@ == old(self)@.with_cipher(
                stream_key(old(self).psk@, salt@),
                Some(salt@),
            ),
            done matches Err(error) ==> error == SnellError::KeyDerivation && final(self)@ == old(
                self,
            )@,
            final(self).wf(),
            final(self).pace() == old(self).pace(),
    {
        match make_cipher(self.psk.as_slice(), &salt) {
            Ok(key) => {
                self.key = Some(key);
                self.salt = Some(salt);
                Ok(())
            },
            Err(error) => Err(error),
        }
    }

    fn ensure_cipher(&mut self) -> (done: Result<(), SnellError>)
        requires
            old(self).wf(),
            old(self).mode != Mode::UnsafeRaw,
        ensures
            done is Ok <==> old(self).psk@.len() <= PASSWORD_MAX,
            done is Ok ==> {
                &&& final(self).key is Some
                &&& final(self)@ == old(self)@.with_cipher(final(self)@.key, final(self)@.salt)
                &&& old(self).key is Some ==> final(self)@ == old(self)@
            },
            done matches Err(error) ==> error == SnellError::KeyDerivation && final(self)@ == old(
                self,
            )@,
            final(self).wf(),
            final(self).pace() == old(self).pace(),
    {
        match self.key {
            Some(_) => Ok(()),
            None => {
                let salt = random_salt();
                self.use_salt(salt)
            },
        }
    }

    /// Whether `done`, `after` and `written` are what appending a record to
    /// this stream may come to.
    pub open spec fn appended(
        before: Outgoing,
        payload: Seq<u8>,
        done: Result<(), SnellError>,
        after: Outgoing,
        written: Seq<u8>,
    ) -> bool {
        match done {
            Ok(()) => {
                let stream = before.with_cipher(after.key, after.salt);
                &&& before.key is Some || before.mode == Mode::UnsafeRaw ==> stream == before
                &&& stream.wf()
                &&& after.key is Some || after.mode == Mode::UnsafeRaw
                &&& written == stream.record_bytes(payload)
                &&& after == stream.after_record(payload)
                &&& forall|rest: Seq<u8>|
                    #![trigger written + rest]
                    before.reader().read_spec(written + rest) == stream.delivered(payload)
            },
            Err(error) => {
                &&& error == SnellError::KeyDerivation
                &&& after == before
                &&& written.len() == 0
            },
        }
    }

    /// Appends one record to `output`. A reader that has followed the stream
    /// so far takes exactly the payload from the bytes appended, whatever
    /// follows them.
    pub fn append_record(&mut self, payload: &[u8], output: &mut Vec<u8>) -> (done: Result<
        (),
        SnellError,
    >)
        requires
            old(self).wf(),
            payload@.len() <= MAX_PAYLOAD,
        ensures
            done is Err <==> old(self).mode != Mode::UnsafeRaw && old(self).psk@.len()
                > PASSWORD_MAX,
            final(output)@.len() >= old(output)@.len(),
            final(output)@.take(old(output)@.len() as int) == old(output)@,
            Self::appended(
                old(self)@,
                payload@,
                done,
                final(self)@,
                final(output)@.skip(old(output)@.len() as int),
            ),
            final(self).wf(),
            final(self).pace() == if done is Ok {
                old(self).pace().sent()
            } else {
                old(self).pace()
            },
    {
        match self.mode {
            Mode::UnsafeRaw => {
                let plain = header(0, payload.len());
                output.extend_from_slice(&plain);
                output.extend_from_slice(payload);
                proof {
                    reveal(Outgoing::record_bytes);
                }
                let ghost written = self@.record_bytes(payload@);
                assert(output@ =~= old(output)@ + written);
                assert(output@.skip(old(output)@.len() as int) =~= written);
                assert(output@.take(old(output)@.len() as int) =~= old(output)@);
                proof {
                    assert(self@.with_cipher(self@.key, self@.salt) =~= self@);
                    assert forall|rest: Seq<u8>|
                        #![trigger written + rest]
                        old(self)@.reader().read_spec(written + rest) == self@.delivered(
                            payload@,
                        ) by {
                        raw_round_trip(self@, payload@, rest);
                    }
                }
                Ok(())
            },
            Mode::Unshaped => self.append_unshaped(payload, output),
            Mode::Default => self.append_shaped(payload, output),
        }
    }

    fn append_unshaped(&mut self, payload: &[u8], output: &mut Vec<u8>) -> (done: Result<
        (),
        SnellError,
    >)
        requires
            old(self).wf(),
            old(self).mode == Mode::Unshaped,
            payload@.len() <= MAX_PAYLOAD,
        ensures
            done is Err <==> old(self).psk@.len() > PASSWORD_MAX,
            final(output)@.len() >= old(output)@.len(),
            final(output)@.take(old(output)@.len() as int) == old(output)@,
            Self::appended(
                old(self)@,
                payload@,
                done,
                final(self)@,
                final(output)@.skip(old(output)@.len() as int),
            ),
            final(self).wf(),
            final(self).pace() == if done is Ok {
                old(self).pace().sent()
            } else {
                old(self).pace()
            },
    {
        proof {
            reveal(Outgoing::record_bytes);
        }
        let ghost output0 = output@;
        assert(output0.skip(output0.len() as int).len() == 0);
        assert(output0.take(output0.len() as int) =~= output0);
        match self.ensure_cipher() {
            Ok(()) => {},
            Err(error) => {
                return Err(error);
            },
        }
        let ghost stream = self@;
        let key: [u8; 16] = match self.key {
            Some(key) => key,
            None => {
                return Err(SnellError::KeyDerivation);
            },
        };
        let salt: [u8; 16] = match self.salt {
            Some(salt) => salt,
            None => {
                return Err(SnellError::KeyDerivation);
            },
        };
        if !self.salt_sent {
            output.extend_from_slice(&salt);
            self.salt_sent = true;
        }
        assert(output@ =~= output0 + stream.opening());
        let no_aad: [u8; 0] = [];
        assert(no_aad@ =~= Seq::<u8>::empty());
        let plain = header(0, payload.len());
        let sealed_header = encrypt(&key, &mut self.nonce, &no_aad, &plain);
        output.extend_from_slice(sealed_header.as_slice());
        assert(output@ =~= output0 + stream.opening() + stream.sealed_header(payload@));
        if payload.len() > 0 {
            let sealed_body = encrypt(&key, &mut self.nonce, &no_aad, payload);
            output.extend_from_slice(sealed_body.as_slice());
        }
        let ghost written = stream.record_bytes(payload@);
        assert(output@ =~= output0 + written);
        assert(output@.skip(output0.len() as int) =~= written);
        assert(output@.take(output0.len() as int) =~= output0);
        assert(self@ =~= stream.after_record(payload@));
        assert(old(self)@.with_cipher(self@.key, self@.salt) =~= stream);
        proof {
            assert forall|rest: Seq<u8>|
                #![trigger written + rest]
                old(self)@.reader().read_spec(written + rest) == stream.delivered(payload@) by {
                unshaped_round_trip(stream, payload@, rest);
                assert(old(self)@.reader() =~= stream.reader());
            }
        }
        Ok(())
    }

    #[verifier::rlimit(60)]
    fn append_shaped(&mut self, payload: &[u8], output: &mut Vec<u8>) -> (done: Result<
        (),
        SnellError,
    >)
        requires
            old(self).wf(),
            old(self).mode == Mode::Default,
            payload@.len() <= MAX_PAYLOAD,
        ensures
            done is Err <==> old(self).psk@.len() > PASSWORD_MAX,
            final(output)@.len() >= old(output)@.len(),
            final(output)@.take(old(output)@.len() as int) == old(output)@,
            Self::appended(
                old(self)@,
                payload@,
                done,
                final(self)@,
                final(output)@.skip(old(output)@.len() as int),
            ),
            final(self).wf(),
            final(self).pace() == if done is Ok {
                old(self).pace().sent()
            } else {
                old(self).pace()
            },
    {
        proof {
            reveal(Outgoing::record_bytes);
        }
        let ghost output0 = output@;
        assert(output0.skip(output0.len() as int).len() == 0);
        assert(output0.take(output0.len() as int) =~= output0);
        match self.ensure_cipher() {
            Ok(()) => {},
            Err(error) => {
                return Err(error);
            },
        }
        let ghost stream = self@;
        let key: [u8; 16] = match self.key {
            Some(key) => key,
            None => {
                return Err(SnellError::KeyDerivation);
            },
        };
        let salt: [u8; 16] = match self.salt {
            Some(salt) => salt,
            None => {
                return Err(SnellError::KeyDerivation);
            },
        };
        let profile: Profile = match self.profile {
            Some(profile) => profile,
            None => {
                return Err(SnellError::KeyDerivation);
            },
        };
        let sequence: u32 = self.sequence;
        let prefix_len: usize = profile.prefix_len(sequence);
        let salt_block_len: usize = if self.salt_sent {
            0
        } else {
            profile.salt_block_len
        };
        let salt_prefix_len: usize = salt_block_len.saturating_sub(16);
        let padding_len: usize = profile.padding_len(
            sequence,
            payload.len(),
            prefix_len,
            salt_prefix_len,
            salt_block_len,
        );
        assert(padding_len == stream.padding_len(payload@));

        if !self.salt_sent {
            let mut block: Vec<u8> = Vec::new();
            block.resize(salt_block_len, 0);
            profile.fill_padding(u32::MAX, block.as_mut_slice());
            profile.write_salt(&salt, block.as_mut_slice());
            output.extend_from_slice(block.as_slice());
            self.salt_sent = true;
        }
        assert(output@ =~= output0 + stream.opening());
        let mut prefix: Vec<u8> = Vec::new();
        prefix.resize(prefix_len, 0);
        profile.fill_padding(sequence, prefix.as_mut_slice());
        assert(prefix@ == stream.prefix());
        output.extend_from_slice(prefix.as_slice());

        let plain = header(padding_len, payload.len());
        let sealed_header = encrypt(&key, &mut self.nonce, prefix.as_slice(), &plain);
        output.extend_from_slice(sealed_header.as_slice());
        assert(output@ =~= output0 + stream.opening() + stream.prefix() + stream.sealed_header(
            payload@,
        ));

        let mut padding: Vec<u8> = Vec::new();
        padding.resize(padding_len, 0);
        profile.fill_padding(sequence, padding.as_mut_slice());
        assert(padding@ == stream.padding(payload@));
        if payload.len() == 0 {
            output.extend_from_slice(padding.as_slice());
        } else {
            let mut body = encrypt(&key, &mut self.nonce, padding.as_slice(), payload);
            profile.mix_payload(sequence, padding.as_mut_slice(), body.as_mut_slice());
            output.extend_from_slice(padding.as_slice());
            output.extend_from_slice(body.as_slice());
        }
        self.sequence = sequence.wrapping_add(1);
        let ghost written = stream.record_bytes(payload@);
        assert(output@ =~= output0 + written);
        assert(output@.skip(output0.len() as int) =~= written);
        assert(output@.take(output0.len() as int) =~= output0);
        assert(self@ =~= stream.after_record(payload@));
        assert(old(self)@.with_cipher(self@.key, self@.salt) =~= stream);
        proof {
            assert forall|rest: Seq<u8>|
                #![trigger written + rest]
                old(self)@.reader().read_spec(written + rest) == stream.delivered(payload@) by {
                shaped_round_trip(stream, payload@, rest);
                assert(old(self)@.reader() =~= stream.reader());
            }
        }
        Ok(())
    }

    /// The bytes that carry `payload`. An empty payload takes none.
    #[verifier::rlimit(60)]
    pub fn write_payload(&mut self, payload: &[u8]) -> (sent: Result<Vec<u8>, SnellError>)
        requires
            old(self).wf(),
        ensures
            final(self).wf(),
            sent is Err <==> payload@.len() > 0 && old(self).mode != Mode::UnsafeRaw && old(
                self,
            ).psk@.len() > PASSWORD_MAX,
            match sent {
                Ok(bytes) => carried(
                    old(self)@,
                    old(self).pace(),
                    payload@,
                    bytes@,
                    final(self)@,
                    final(self).pace(),
                ),
                Err(error) => {
                    &&& error == SnellError::KeyDerivation
                    &&& final(self)@ == old(self)@
                    &&& exists|now: i128|
                        final(self).pace() == #[trigger] old(self).pace().asked(now)
                },
            },
    {
        let mut output: Vec<u8> = Vec::new();
        let mut start: usize = 0;
        let ghost before = self@;
        let ghost pace = self.pace();
        let ghost mut parts: Seq<Seq<u8>> = Seq::empty();
        let ghost mut moments: Seq<i128> = Seq::empty();
        proof {
            assert(payload@.take(0) =~= Seq::<u8>::empty());
            nothing_sent(before, pace, 0 < payload@.len());
        }
        while start < payload.len()
            invariant
                self.wf(),
                self.mode == before.mode,
                self.psk@ == before.psk,
                before == old(self)@,
                pace == old(self).pace(),
                start <= payload@.len(),
                start == 0 ==> self@ == before && self.pace() == pace,
                start > 0 ==> before.mode == Mode::UnsafeRaw || before.psk.len() <= PASSWORD_MAX,
                sending(
                    before,
                    pace,
                    payload@.take(start as int),
                    start < payload@.len(),
                    output@,
                    self@,
                    self.pace(),
                    parts,
                    moments,
                ),
            decreases payload@.len() - start,
        {
            let ghost pace_now = self.pace();
            let ghost stream_now = self@;
            let ghost output_now = output@;
            let now: i128 = self.moment();
            let limit: usize = self.payload_limit_at(now);
            let count: usize = min_usize(limit, payload.len() - start);
            let part = bytes_between(payload, start, start + count);
            match self.append_record(part.as_slice(), &mut output) {
                Ok(()) => {},
                Err(error) => {
                    return Err(error);
                },
            }
            proof {
                let written = output@.skip(output_now.len() as int);
                sending_one_more(
                    before,
                    pace,
                    payload@.take(start as int),
                    output_now,
                    stream_now,
                    pace_now,
                    parts,
                    moments,
                    part@,
                    now,
                    written,
                    self@,
                    self.pace(),
                    start + count < payload@.len(),
                );
                assert(output@ =~= output_now + written);
                assert(payload@.take(start + count) =~= payload@.take(start as int) + part@);
                parts = parts.push(part@);
                moments = moments.push(now);
            }
            start += count;
        }
        proof {
            assert(payload@.take(start as int) =~= payload@);
            assert(sending(
                before,
                pace,
                payload@,
                false,
                output@,
                self@,
                self.pace(),
                parts,
                moments,
            ));
        }
        Ok(output)
    }

    /// Whether `sent`, with the stream and its pace afterwards, is what sending
    /// a datagram as one record at the moment `now` may come to.
    pub open spec fn packet_sent(
        before: Outgoing,
        pace: Pace,
        payload: Seq<u8>,
        now: i128,
        sent: Result<Seq<u8>, SnellError>,
        after: Outgoing,
        after_pace: Pace,
    ) -> bool {
        if payload.len() == 0 || payload.len() > pace.limit(now) {
            &&& sent == Err::<Seq<u8>, SnellError>(SnellError::PacketTooLarge)
            &&& after == before
            &&& after_pace == pace.asked(now)
        } else if before.mode != Mode::UnsafeRaw && before.psk.len() > PASSWORD_MAX {
            &&& sent == Err::<Seq<u8>, SnellError>(SnellError::KeyDerivation)
            &&& after == before
            &&& after_pace == pace.asked(now)
        } else {
            &&& sent is Ok
            &&& Self::appended(before, payload, Ok::<(), SnellError>(()), after, sent->Ok_0)
            &&& after_pace == pace.asked(now).sent()
        }
    }

    /// The bytes of one record that carries a whole datagram, where the clock
    /// stands at `now`.
    pub fn write_packet_at(&mut self, payload: &[u8], now: i128) -> (sent: Result<
        Vec<u8>,
        SnellError,
    >)
        requires
            old(self).wf(),
        ensures
            final(self).wf(),
            Self::packet_sent(
                old(self)@,
                old(self).pace(),
                payload@,
                now,
                bytes_or_error(sent),
                final(self)@,
                final(self).pace(),
            ),
    {
        let limit: usize = self.payload_limit_at(now);
        if payload.len() == 0 || payload.len() > limit {
            return Err(SnellError::PacketTooLarge);
        }
        let mut output: Vec<u8> = Vec::new();
        match self.append_record(payload, &mut output) {
            Ok(()) => {
                assert(output@.skip(0) =~= output@);
                Ok(output)
            },
            Err(error) => Err(error),
        }
    }

    /// The bytes of one record that carries a whole datagram. The clock fixes
    /// the moment, which becomes that of the last write.
    pub fn write_packet(&mut self, payload: &[u8]) -> (sent: Result<Vec<u8>, SnellError>)
        requires
            old(self).wf(),
        ensures
            final(self).wf(),
            exists|now: i128| #[trigger]
                Self::packet_sent(
                    old(self)@,
                    old(self).pace(),
                    payload@,
                    now,
                    bytes_or_error(sent),
                    final(self)@,
                    final(self).pace(),
                ),
    {
        let now: i128 = self.moment();
        self.write_packet_at(payload, now)
    }

    /// The bytes of the record that ends the stream.
    pub fn write_eof(&mut self) -> (sent: Result<Vec<u8>, SnellError>)
        requires
            old(self).wf(),
        ensures
            final(self).wf(),
            sent is Err <==> old(self).mode != Mode::UnsafeRaw && old(self).psk@.len()
                > PASSWORD_MAX,
            match sent {
                Ok(bytes) => Self::appended(
                    old(self)@,
                    Seq::empty(),
                    Ok::<(), SnellError>(()),
                    final(self)@,
                    bytes@,
                ),
                Err(error) => error == SnellError::KeyDerivation && final(self)@ == old(self)@,
            },
            final(self).pace() == if sent is Ok {
                old(self).pace().sent()
            } else {
                old(self).pace()
            },
    {
        let mut output: Vec<u8> = Vec::new();
        let nothing: [u8; 0] = [];
        assert(nothing@ =~= Seq::<u8>::empty());
        match self.append_record(&nothing, &mut output) {
            Ok(()) => {
                assert(output@.skip(0) =~= output@);
                Ok(output)
            },
            Err(error) => Err(error),
        }
    }
}

} // verus!

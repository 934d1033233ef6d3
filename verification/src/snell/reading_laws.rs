//! How records are told apart from what is none.

use vstd::prelude::*;

use crate::snell::cipher::{aes128gcm_open, next_nonce, stream_key};
use crate::snell::error::SnellError;
use crate::snell::record::{Incoming, Mode, Reading};

verus! {

/// The reader behind a header: by one nonce further.
pub open spec fn one_on(reader: Incoming) -> Incoming {
    Incoming { nonce: next_nonce(reader.nonce), ..reader }
}

/// The reader of a shaped stream behind a header: by one record further as well.
pub open spec fn counted_on(reader: Incoming) -> Incoming {
    Incoming {
        nonce: next_nonce(reader.nonce),
        sequence: reader.sequence.wrapping_add(1),
        ..reader
    }
}

/// The plain header of a record.
pub open spec fn head_of(padding: u16, payload: u16) -> Seq<u8> {
    seq![
        4u8,
        0u8,
        0u8,
        (padding / 256) as u8,
        (padding % 256) as u8,
        (payload / 256) as u8,
        (payload % 256) as u8,
    ]
}

/// A reader whose key is known waits for 23 bytes, which must open as a header.
/// Behind a header without padding that announces a payload it waits for that
/// payload and its tag, which must open in turn. Only the payload comes out.
pub proof fn unshaped_records_are_read(
    reader: Incoming,
    head: Seq<u8>,
    body: Seq<u8>,
    rest: Seq<u8>,
    padding: u16,
    payload: u16,
)
    requires
        reader.mode == Mode::Unshaped,
        reader.key is Some,
        head.len() == 23,
        body.len() == payload + 16,
    ensures
        ({
            let key = reader.key->0;
            let none = Seq::<u8>::empty();
            let opened = aes128gcm_open(key, reader.nonce, none, head);
            let second = next_nonce(reader.nonce);
            let inner = aes128gcm_open(key, second, none, body);
            let whole = reader.read_spec(head + body + rest);
            let short = reader.read_spec(head + body.drop_last());
            &&& opened is None ==> whole == Reading::Bad(SnellError::RecordAuthentication, reader)
            &&& opened == Some(head_of(padding, payload)) && padding > 0 ==> whole == Reading::Bad(
                SnellError::UnshapedPadding,
                one_on(reader),
            )
            &&& opened == Some(head_of(0, 0)) ==> whole == Reading::End(23, one_on(reader))
            &&& opened == Some(head_of(0, payload)) && payload > 0 ==> {
                &&& short == Reading::More
                &&& inner is None ==> whole == Reading::Bad(
                    SnellError::RecordAuthentication,
                    one_on(reader),
                )
                &&& inner is Some ==> whole == Reading::Record(
                    inner->0,
                    39 + payload,
                    one_on(one_on(reader)),
                )
            }
        }),
        forall|part: Seq<u8>| part.len() < 23 ==> #[trigger] reader.read_spec(part) == Reading::More,
{
    reveal(Incoming::read_spec);
    let whole = head + body + rest;
    let short = head + body.drop_last();
    assert(whole.subrange(0, 23) =~= head);
    assert(short.subrange(0, 23) =~= head);
    assert(whole.subrange(23, 39 + payload) =~= body);
    assert((Incoming { key: Some(reader.key->0), ..reader }) == reader);
}

/// A shaped record starts with its prefix, which the header is sealed with;
/// what is announced behind the header is the padding, and the payload with its
/// tag, both mixed. Only the payload comes out.
pub proof fn shaped_records_are_read(
    reader: Incoming,
    prefix: Seq<u8>,
    head: Seq<u8>,
    pad: Seq<u8>,
    body: Seq<u8>,
    rest: Seq<u8>,
)
    requires
        reader.mode == Mode::Default,
        reader.key is Some,
        reader.profile is Some,
        prefix.len() == reader.profile->0.prefix_len_spec(reader.sequence),
        head.len() == 23,
        pad.len() <= 65535,
        body.len() == 0 || 16 < body.len() <= 65535 + 16,
    ensures
        ({
            let key = reader.key->0;
            let opened = aes128gcm_open(key, reader.nonce, prefix, head);
            let whole = reader.read_spec(prefix + head + pad + body + rest);
            let size = prefix.len() + 23 + pad.len() + body.len();
            let mixed = |own: Seq<u8>, other: Seq<u8>|
                reader.profile->0.mixed(reader.sequence, own, other);
            &&& opened is None ==> whole == Reading::Bad(SnellError::RecordAuthentication, reader)
            &&& body.len() == 0 && opened == Some(head_of(pad.len() as u16, 0)) ==> {
                &&& whole == Reading::End(size as int, counted_on(reader))
                &&& pad.len() > 0 ==> reader.read_spec(prefix + head + pad.drop_last())
                    == Reading::More
            }
            &&& body.len() > 0 && opened == Some(
                head_of(pad.len() as u16, (body.len() - 16) as u16),
            ) ==> {
                let inner = aes128gcm_open(
                    key,
                    next_nonce(reader.nonce),
                    mixed(pad, body),
                    mixed(body, pad),
                );
                &&& reader.read_spec(prefix + head + pad + body.drop_last()) == Reading::More
                &&& inner is None ==> whole == Reading::Bad(
                    SnellError::RecordAuthentication,
                    counted_on(reader),
                )
                &&& inner is Some ==> whole == Reading::Record(
                    inner->0,
                    size as int,
                    one_on(counted_on(reader)),
                )
            }
        }),
        forall|part: Seq<u8>|
            part.len() < prefix.len() + 23 ==> #[trigger] reader.read_spec(part) == Reading::More,
{
    assert((Incoming { key: Some(reader.key->0), ..reader }) == reader);
    let whole = prefix + head + pad + body + rest;
    shaped_read_is_this(reader, whole);
    shaped_front(prefix, head, whole);
    if body.len() == 0 && pad.len() > 0 {
        let short = prefix + head + pad.drop_last();
        shaped_read_is_this(reader, short);
        shaped_front(prefix, head, short);
    }
    if body.len() > 0 {
        let p = prefix.len() as int;
        assert(whole.subrange(p + 23, p + 23 + pad.len()) =~= pad);
        assert(whole.subrange(p + 23 + pad.len(), p + 23 + pad.len() + body.len()) =~= body);
        let short = prefix + head + pad + body.drop_last();
        shaped_read_is_this(reader, short);
        shaped_front(prefix, head, short);
    }
    assert forall|part: Seq<u8>| part.len() < prefix.len() + 23 implies #[trigger] reader.read_spec(
        part,
    ) == Reading::More by {
        shaped_read_is_this(reader, part);
    }
}

proof fn shaped_read_is_this(reader: Incoming, input: Seq<u8>)
    requires
        reader.mode == Mode::Default,
        reader.key is Some,
    ensures
        reader.read_spec(input) == reader.read_shaped_spec(reader.key->0, 0, input),
{
    reveal(Incoming::read_spec);
}

proof fn shaped_front(prefix: Seq<u8>, head: Seq<u8>, whole: Seq<u8>)
    requires
        head.len() == 23,
        prefix.len() + 23 <= whole.len(),
        forall|i: int| 0 <= i < prefix.len() + 23 ==> whole[i] == (prefix + head)[i],
    ensures
        whole.subrange(0, prefix.len() as int) == prefix,
        whole.subrange(prefix.len() as int, prefix.len() as int + 23) == head,
{
    assert(whole.subrange(0, prefix.len() as int) =~= prefix) by {
        assert forall|i: int| 0 <= i < prefix.len() implies whole[i] == prefix[i] by {
            assert(whole[i] == (prefix + head)[i]);
        }
    }
    assert(whole.subrange(prefix.len() as int, prefix.len() as int + 23) =~= head) by {
        assert forall|i: int| 0 <= i < 23 implies whole[prefix.len() + i] == head[i] by {
            assert(whole[prefix.len() + i] == (prefix + head)[prefix.len() + i]);
        }
    }
}

/// A reader that knows no key yet takes it from the salt in the bytes in front
/// of the first record, and reads on behind them. It waits for all of them; and
/// where no key comes out, the stream is refused.
pub proof fn keys_come_from_the_opening(reader: Incoming, opening: Seq<u8>, rest: Seq<u8>)
    requires
        reader.mode != Mode::UnsafeRaw,
        reader.mode == Mode::Default ==> reader.profile is Some && reader.profile->0.wf(),
        reader.key is None,
        opening.len() == if reader.mode == Mode::Unshaped {
            16
        } else {
            reader.profile->0.salt_block_len as nat
        },
    ensures
        ({
            let salt = if reader.mode == Mode::Unshaped {
                opening
            } else {
                reader.profile->0.salt_of(opening)
            };
            let key = stream_key(reader.psk, salt);
            let first = reader.read_spec(opening + rest);
            let later = (Incoming { key, ..reader }).read_spec(rest);
            &&& key is None ==> first == Reading::Bad(SnellError::KeyDerivation, reader)
            &&& key is Some ==> {
                &&& later is More ==> first is More
                &&& later matches Reading::Record(payload, len, after) ==> first
                    == Reading::Record(payload, opening.len() + len, after)
                &&& later matches Reading::End(len, after) ==> first == Reading::End(
                    opening.len() + len,
                    after,
                )
                &&& later matches Reading::Bad(error, after) ==> first == Reading::Bad(error, after)
            }
        }),
        forall|part: Seq<u8>|
            part.len() < opening.len() ==> #[trigger] reader.read_spec(part) == Reading::More,
{
    reveal(Incoming::read_spec);
    let input = opening + rest;
    let start = opening.len() as int;
    assert(input.take(start) =~= opening);
    let salt = if reader.mode == Mode::Unshaped {
        opening
    } else {
        reader.profile->0.salt_of(opening)
    };
    let key = stream_key(reader.psk, salt);
    if key is Some {
        let later = Incoming { key, ..reader };
        assert forall|from: int, to: int| 0 <= from <= to <= rest.len() implies #[trigger] rest.subrange(
            from,
            to,
        ) == input.subrange(start + from, start + to) by {
            assert(rest.subrange(from, to) =~= input.subrange(start + from, start + to));
        }
        if reader.mode == Mode::Unshaped {
            unshaped_moves_on(reader, key->0, opening, rest);
        } else {
            shaped_moves_on(reader, key->0, opening, rest);
        }
    }
}

proof fn unshaped_moves_on(reader: Incoming, key: Seq<u8>, opening: Seq<u8>, rest: Seq<u8>)
    ensures
        ({
            let first = reader.read_unshaped_spec(key, opening.len() as int, opening + rest);
            let later = (Incoming { key: Some(key), ..reader }).read_unshaped_spec(key, 0, rest);
            match later {
                Reading::More => first is More,
                Reading::Record(payload, len, after) => first == Reading::Record(
                    payload,
                    opening.len() + len,
                    after,
                ),
                Reading::End(len, after) => first == Reading::End(opening.len() + len, after),
                Reading::Bad(error, after) => first == Reading::Bad(error, after),
            }
        }),
{
    let input = opening + rest;
    let start = opening.len() as int;
    if rest.len() >= 23 {
        assert(rest.subrange(0, 23) =~= input.subrange(start, start + 23));
    }
    assert forall|end: int| 23 <= end <= rest.len() implies #[trigger] rest.subrange(23, end)
        == input.subrange(start + 23, start + end) by {
        assert(rest.subrange(23, end) =~= input.subrange(start + 23, start + end));
    }
}

proof fn shaped_moves_on(reader: Incoming, key: Seq<u8>, opening: Seq<u8>, rest: Seq<u8>)
    requires
        reader.profile->0.prefix_len_spec(reader.sequence) >= 0,
    ensures
        ({
            let first = reader.read_shaped_spec(key, opening.len() as int, opening + rest);
            let later = (Incoming { key: Some(key), ..reader }).read_shaped_spec(key, 0, rest);
            match later {
                Reading::More => first is More,
                Reading::Record(payload, len, after) => first == Reading::Record(
                    payload,
                    opening.len() + len,
                    after,
                ),
                Reading::End(len, after) => first == Reading::End(opening.len() + len, after),
                Reading::Bad(error, after) => first == Reading::Bad(error, after),
            }
        }),
{
    let input = opening + rest;
    let start = opening.len() as int;
    assert forall|from: int, to: int| 0 <= from <= to <= rest.len() implies #[trigger] rest.subrange(
        from,
        to,
    ) == input.subrange(start + from, start + to) by {
        assert(rest.subrange(from, to) =~= input.subrange(start + from, start + to));
    }
}

} // verus!

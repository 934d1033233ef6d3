//! What shows control over a domain, and how long it may take.

use vstd::prelude::*;
use vstd::utf8::encode_utf8;

use crate::digest::{base64url_text, sha256_digest};
use crate::hysteria2::dns01::{
    first_dns01, is_p256_point, joined_chunks, jwk_text, pause_after, power_of_two, record_holds,
    thumbprint_spec, txt_value_spec, AuthError, AuthStatus, Challenge, Dns01Proof, OrderAction,
    OrderProgress, OrderStatus, ProofAction, ProofEvent, ProofStage,
};

verus! {

/// What the record holds is the digest of the key authorization: a text that
/// starts with the token, goes on with a dot and ends with the thumbprint of the
/// account's key, and holds nothing else.
pub proof fn records_hold_the_key_authorization(public_key: Seq<u8>, token: Seq<char>)
    ensures
        exists|key_authorization: Seq<char>|
            {
                let at = token.len() as int;
                &&& txt_value_spec(public_key, token) == base64url_text(
                    sha256_digest(#[trigger] encode_utf8(key_authorization)),
                )
                &&& key_authorization.len() == at + 1 + thumbprint_spec(public_key).len()
                &&& key_authorization.take(at) == token
                &&& key_authorization[at] == '.'
                &&& key_authorization.skip(at + 1) == thumbprint_spec(public_key)
            },
{
    reveal_strlit(".");
    let at = token.len() as int;
    let whole = token + "."@ + thumbprint_spec(public_key);
    assert(whole.take(at) =~= token);
    assert(whole[at] == '.');
    assert(whole.skip(at + 1) =~= thumbprint_spec(public_key));
    assert(txt_value_spec(public_key, token) == base64url_text(sha256_digest(encode_utf8(whole))));
}

/// The thumbprint is the digest of an object that names the curve, the kind of
/// key and the two coordinates, the first 32 bytes behind the tag and then the
/// other 32.
pub proof fn thumbprints_name_both_coordinates(tag: u8, x: Seq<u8>, y: Seq<u8>)
    requires
        x.len() == 32,
        y.len() == 32,
    ensures
        jwk_text(seq![tag] + x + y) == "{\"crv\":\"P-256\",\"kty\":\"EC\",\"x\":\""@
            + base64url_text(x) + "\",\"y\":\""@ + base64url_text(y) + "\"}"@,
        thumbprint_spec(seq![tag] + x + y) == base64url_text(
            sha256_digest(encode_utf8(jwk_text(seq![tag] + x + y))),
        ),
{
    let key = seq![tag] + x + y;
    assert(key.subrange(1, 33) =~= x);
    assert(key.subrange(33, 65) =~= y);
}

/// The pieces of a text record count together as well as each alone.
pub proof fn records_count_in_pieces(
    front: Seq<Seq<u8>>,
    piece: Seq<u8>,
    rest: Seq<Seq<u8>>,
    expected: Seq<u8>,
)
    ensures
        record_holds(front + seq![piece] + rest, piece),
        record_holds(front + seq![piece] + rest, joined_chunks(front) + piece + joined_chunks(rest)),
        joined_chunks(Seq::empty()).len() == 0,
        record_holds(front, expected) ==> joined_chunks(front) == expected || exists|i: int|
            0 <= i < front.len() && #[trigger] front[i] == expected,
{
    let chunks = front + seq![piece] + rest;
    assert(chunks[front.len() as int] == piece);
    assert(joined_chunks(seq![piece]) =~= piece) by {
        reveal_with_fuel(joined_chunks, 2);
        assert(seq![piece].drop_last() =~= Seq::<Seq<u8>>::empty());
        assert(seq![piece].last() == piece);
    }
    chunks_are_joined(front, seq![piece]);
    chunks_are_joined(front + seq![piece], rest);
}

proof fn chunks_are_joined(a: Seq<Seq<u8>>, b: Seq<Seq<u8>>)
    ensures
        joined_chunks(a + b) == joined_chunks(a) + joined_chunks(b),
    decreases b.len(),
{
    if b.len() == 0 {
        assert(a + b =~= a);
        assert(joined_chunks(a) + joined_chunks(b) =~= joined_chunks(a));
    } else {
        chunks_are_joined(a, b.drop_last());
        assert((a + b).drop_last() =~= a + b.drop_last());
        assert((a + b).last() == b.last());
        assert(joined_chunks(a + b) =~= joined_chunks(a) + joined_chunks(b));
    }
}

/// The first challenge that a record answers is the one that is taken.
pub proof fn the_first_challenge_is_taken(challenges: Seq<Challenge>)
    ensures
        match first_dns01(challenges, 0) {
            Some(at) => {
                &&& 0 <= at < challenges.len()
                &&& challenges[at].is_dns01
                &&& forall|i: int| 0 <= i < at ==> !(#[trigger] challenges[i]).is_dns01
            },
            None => forall|i: int|
                0 <= i < challenges.len() ==> !(#[trigger] challenges[i]).is_dns01,
        },
{
    first_from(challenges, 0);
}

proof fn first_from(challenges: Seq<Challenge>, from: int)
    requires
        0 <= from <= challenges.len(),
    ensures
        match first_dns01(challenges, from) {
            Some(at) => {
                &&& from <= at < challenges.len()
                &&& challenges[at].is_dns01
                &&& forall|i: int| from <= i < at ==> !(#[trigger] challenges[i]).is_dns01
            },
            None => forall|i: int|
                from <= i < challenges.len() ==> !(#[trigger] challenges[i]).is_dns01,
        },
    decreases challenges.len() - from,
{
    if from < challenges.len() {
        first_from(challenges, from + 1);
    }
}

/// The seconds that a doubling wait lasts the first time, and the next time.
pub proof fn waits_double(times: nat)
    ensures
        power_of_two(0) == 1,
        power_of_two(times + 1) == power_of_two(times) + power_of_two(times),
{
}

proof fn small_powers()
    ensures
        power_of_two(0) == 1,
        power_of_two(1) == 2,
        power_of_two(2) == 4,
        power_of_two(3) == 8,
        power_of_two(4) == 16,
        power_of_two(5) == 32,
        power_of_two(6) == 64,
        power_of_two(7) == 128,
        power_of_two(8) == 256,
        power_of_two(9) == 512,
{
    reveal_with_fuel(power_of_two, 10);
}

/// An order that is processed is waited for ten times in a row, for one second
/// and then twice as long each time; after that it is given up. What else it
/// can be has one answer each.
pub proof fn orders_are_waited_for(order: OrderProgress, later: OrderProgress)
    requires
        later.waits == order.waits + 1,
    ensures
        order.action_spec(OrderStatus::Pending) == OrderAction::Authorize,
        order.action_spec(OrderStatus::Ready) == OrderAction::Finalize,
        order.action_spec(OrderStatus::Valid) == OrderAction::Download,
        order.action_spec(OrderStatus::Invalid) == OrderAction::Refused,
        order.waits == 0 ==> order.action_spec(OrderStatus::Processing) == OrderAction::Wait(1),
        order.waits < 9 ==> {
            &&& order.action_spec(OrderStatus::Processing) is Wait
            &&& later.action_spec(OrderStatus::Processing) is Wait
            &&& later.action_spec(OrderStatus::Processing)->Wait_0 == 2 * order.action_spec(
                OrderStatus::Processing,
            )->Wait_0
        },
        order.waits >= 10 ==> order.action_spec(OrderStatus::Processing) == OrderAction::TooLong,
{
    small_powers();
}

/// The pause after a look doubles from one second to 32 and stays there.
pub proof fn pauses_double(attempt: u64)
    ensures
        pause_after(0) == 1,
        attempt < 5 ==> pause_after((attempt + 1) as u64) == 2 * pause_after(attempt),
        attempt >= 5 ==> pause_after(attempt) == 32,
{
    small_powers();
}

/// An attempt goes its way: once the record is published it waits as long as it
/// was told, looks up to eight times, has the record checked, and asks up to six
/// times what came of it, after one second first and after twice as long each
/// time. What goes wrong is told as what it was.
pub proof fn attempts_go_their_way(attempt: Dns01Proof, event: ProofEvent)
    requires
        attempt.wf(),
        attempt.expects_spec(event),
    ensures
        attempt.stage is Creating && event is Done ==> attempt.next_spec(event) == (
            ProofStage::Delaying,
            ProofAction::Sleep(attempt.delay_secs),
        ),
        attempt.stage is Creating && event is Failed ==> attempt.next_spec(event) == (
            ProofStage::Finished,
            ProofAction::Finish(Some(AuthError::Create(event->Failed_0))),
        ),
        attempt.stage is Delaying && event is Done ==> attempt.next_spec(event) == (
            ProofStage::Looking(0),
            ProofAction::Look,
        ),
        attempt.stage is Delaying && event is Failed ==> attempt.next_spec(event).0
            == ProofStage::Deleting(Some(AuthError::Resolver(event->Failed_0))),
        attempt.stage is Looking && event == ProofEvent::Found(true) ==> attempt.next_spec(event)
            == (ProofStage::Triggering, ProofAction::Trigger),
        attempt.stage is Looking && event == ProofEvent::Found(false) ==> attempt.next_spec(event)
            == (
            ProofStage::Pausing(attempt.stage->Looking_0),
            ProofAction::Sleep(pause_after(attempt.stage->Looking_0)),
        ),
        attempt.stage is Pausing && attempt.stage->Pausing_0 < 7 ==> attempt.next_spec(event) == (
            ProofStage::Looking((attempt.stage->Pausing_0 + 1) as u64),
            ProofAction::Look,
        ),
        attempt.stage is Pausing && attempt.stage->Pausing_0 == 7 ==> attempt.next_spec(event).0
            == ProofStage::Deleting(Some(AuthError::NotPropagated(attempt.record_name))),
        attempt.stage is Pausing ==> attempt.stage->Pausing_0 <= 7,
        attempt.stage is Triggering && event is Done ==> attempt.next_spec(event) == (
            ProofStage::Waiting(0),
            ProofAction::Sleep(1),
        ),
        attempt.stage is Triggering && event is Failed ==> attempt.next_spec(event).0
            == ProofStage::Deleting(Some(AuthError::Trigger(event->Failed_0))),
        attempt.stage is Waiting ==> attempt.next_spec(event) == (
            ProofStage::Checking(attempt.stage->Waiting_0),
            ProofAction::Check,
        ),
        attempt.stage is Checking && event is Failed ==> attempt.next_spec(event).0
            == ProofStage::Deleting(Some(AuthError::Check(event->Failed_0))),
        attempt.stage is Checking && event == ProofEvent::Status(AuthStatus::Valid)
            ==> attempt.next_spec(event) == (ProofStage::Deleting(None), ProofAction::Delete),
        attempt.stage is Checking && event is Status && event->Status_0 is Other
            ==> attempt.next_spec(event).0 == ProofStage::Deleting(
            Some(AuthError::Refused(event->Status_0->Other_0)),
        ),
        attempt.stage is Checking && event == ProofEvent::Status(AuthStatus::Pending) ==> {
            let asked = attempt.stage->Checking_0;
            &&& asked <= 5
            &&& asked < 5 ==> attempt.next_spec(event).0 == ProofStage::Waiting((asked + 1) as u64)
            &&& asked == 0 ==> attempt.next_spec(event).1 == ProofAction::Sleep(2)
            &&& asked == 1 ==> attempt.next_spec(event).1 == ProofAction::Sleep(4)
            &&& asked == 2 ==> attempt.next_spec(event).1 == ProofAction::Sleep(8)
            &&& asked == 3 ==> attempt.next_spec(event).1 == ProofAction::Sleep(16)
            &&& asked == 4 ==> attempt.next_spec(event).1 == ProofAction::Sleep(32)
            &&& asked == 5 ==> attempt.next_spec(event) == (
                ProofStage::Deleting(Some(AuthError::TimedOut)),
                ProofAction::Delete,
            )
        },
        attempt.stage is Deleting ==> attempt.next_spec(event) == (
            ProofStage::Finished,
            ProofAction::Finish(attempt.stage->Deleting_0),
        ),
{
    small_powers();
}

/// Each stage of an attempt waits for its own events, and the last for none.
pub proof fn stages_wait_for_their_events(attempt: Dns01Proof, reason: String, there: bool)
    ensures
        ({
            let done = attempt.expects_spec(ProofEvent::Done);
            let failed = attempt.expects_spec(ProofEvent::Failed(reason));
            let found = attempt.expects_spec(ProofEvent::Found(there));
            let status = attempt.expects_spec(ProofEvent::Status(AuthStatus::Pending));
            &&& done <==> !(attempt.stage is Looking || attempt.stage is Checking
                || attempt.stage is Finished)
            &&& failed <==> !(attempt.stage is Looking || attempt.stage is Pausing
                || attempt.stage is Waiting || attempt.stage is Finished)
            &&& found <==> attempt.stage is Looking
            &&& status <==> attempt.stage is Checking
        }),
{
}

/// A record is there from when it was made until it was taken back.
pub proof fn records_are_there_in_between(attempt: Dns01Proof, event: ProofEvent)
    requires
        attempt.wf(),
        attempt.expects_spec(event),
    ensures
        ({
            let after = Dns01Proof { stage: attempt.next_spec(event).0, ..attempt };
            &&& attempt.stage is Creating ==> !attempt.published() && (after.published()
                <==> event is Done)
            &&& attempt.stage is Deleting ==> attempt.published() && !after.published()
            &&& !(attempt.stage is Creating) && !(attempt.stage is Deleting)
                ==> attempt.published() && after.published()
        }),
{
}

/// A public key is a four and two coordinates of 32 bytes each.
pub proof fn public_keys_hold_two_coordinates(kind: u8, x: Seq<u8>, y: Seq<u8>)
    requires
        x.len() == 32,
    ensures
        is_p256_point(seq![kind] + x + y) <==> kind == 4 && y.len() == 32,
{
}

} // verus!

//! Showing control over a domain by a DNS record, and keeping its certificate.

use vstd::prelude::*;
use vstd::string::*;
use vstd::utf8::encode_utf8;

use crate::digest::{base64url_encode, base64url_text, sha256, sha256_digest};
use crate::hysteria2::acme::{base_domain_spec, dns01_record_name};
use crate::text::{byte_rows, bytes_between, joined, same_bytes};

verus! {

pub const DNS01_RETRY_BASE_SECS: u64 = 60;

pub const DNS01_RETRY_MAX_SECS: u64 = 3600;

pub const AUTH_CHECK_ATTEMPTS: u64 = 6;

pub const ORDER_PROCESSING_ATTEMPTS: u64 = 10;

pub const DNS01_PROPAGATION_CHECK_ATTEMPTS: u64 = 8;

/// Why the key of an account cannot be used.
#[derive(Clone, Copy, Debug, PartialEq, Eq, Structural)]
pub enum AccountKeyError {
    UnexpectedFormat,
}

/// An uncompressed point on the curve P-256.
pub open spec fn is_p256_point(public_key: Seq<u8>) -> bool {
    public_key.len() == 65 && public_key[0] == 0x04
}

/// The members of a public key that its thumbprint is made of, in the order of
/// their names.
pub open spec fn jwk_text(public_key: Seq<u8>) -> Seq<char> {
    "{\"crv\":\"P-256\",\"kty\":\"EC\",\"x\":\""@ + base64url_text(public_key.subrange(1, 33))
        + "\",\"y\":\""@ + base64url_text(public_key.subrange(33, 65)) + "\"}"@
}

pub open spec fn thumbprint_spec(public_key: Seq<u8>) -> Seq<char> {
    base64url_text(sha256_digest(encode_utf8(jwk_text(public_key))))
}

/// The thumbprint of an account's public key.
pub fn jwk_thumb_sha256_base64(public_key: &[u8]) -> (thumbprint: Result<String, AccountKeyError>)
    ensures
        match thumbprint {
            Ok(text) => is_p256_point(public_key@) && text@ == thumbprint_spec(public_key@),
            Err(_) => !is_p256_point(public_key@),
        },
        thumbprint is Ok <==> public_key@.len() == 65 && public_key@[0] == 4,
        thumbprint matches Ok(text) ==> text@ == base64url_text(
            sha256_digest(
                encode_utf8(
                    "{\"crv\":\"P-256\",\"kty\":\"EC\",\"x\":\""@ + base64url_text(
                        public_key@.subrange(1, 33),
                    ) + "\",\"y\":\""@ + base64url_text(public_key@.subrange(33, 65)) + "\"}"@,
                ),
            ),
        ),
{
    if public_key.len() != 65 || public_key[0] != 0x04 {
        return Err(AccountKeyError::UnexpectedFormat);
    }
    let x = bytes_between(public_key, 1, 33);
    let y = bytes_between(public_key, 33, 65);
    let mut json = joined(
        "{\"crv\":\"P-256\",\"kty\":\"EC\",\"x\":\"",
        base64url_encode(x.as_slice()).as_str(),
    );
    json.append("\",\"y\":\"");
    json.append(base64url_encode(y.as_slice()).as_str());
    json.append("\"}");
    let digest = sha256(json.as_str().as_bytes());
    Ok(base64url_encode(digest.as_slice()))
}

/// What the record that shows control over a domain holds.
pub fn dns01_txt_value(public_key: &[u8], token: &str) -> (value: Result<String, AccountKeyError>)
    ensures
        match value {
            Ok(text) => {
                &&& is_p256_point(public_key@)
                &&& text@ == txt_value_spec(public_key@, token@)
            },
            Err(_) => !is_p256_point(public_key@),
        },
        value is Ok <==> public_key@.len() == 65 && public_key@[0] == 4,
        value matches Ok(text) ==> text@ == base64url_text(
            sha256_digest(encode_utf8(token@ + "."@ + thumbprint_spec(public_key@))),
        ),
{
    match jwk_thumb_sha256_base64(public_key) {
        Err(error) => Err(error),
        Ok(thumbprint) => {
            let mut key_auth = joined(token, ".");
            key_auth.append(thumbprint.as_str());
            let digest = sha256(key_auth.as_str().as_bytes());
            Ok(base64url_encode(digest.as_slice()))
        },
    }
}

pub open spec fn joined_chunks(chunks: Seq<Seq<u8>>) -> Seq<u8>
    decreases chunks.len(),
{
    if chunks.len() == 0 {
        Seq::empty()
    } else {
        joined_chunks(chunks.drop_last()) + chunks.last()
    }
}

/// Whether a text record holds a value, in one of its pieces or in all of them
/// together.
pub open spec fn record_holds(chunks: Seq<Seq<u8>>, expected: Seq<u8>) -> bool {
    chunks.contains(expected) || joined_chunks(chunks) == expected
}

fn record_has(chunks: &Vec<Vec<u8>>, expected: &[u8]) -> (found: bool)
    ensures
        found == record_holds(byte_rows(chunks@), expected@),
{
    let ghost rows = byte_rows(chunks@);
    let mut whole: Vec<u8> = Vec::new();
    let mut i: usize = 0;
    assert(rows.take(0) =~= Seq::<Seq<u8>>::empty());
    while i < chunks.len()
        invariant
            i <= chunks@.len(),
            rows == byte_rows(chunks@),
            forall|j: int| 0 <= j < i ==> #[trigger] rows[j] != expected@,
            whole@ == joined_chunks(rows.take(i as int)),
        decreases chunks@.len() - i,
    {
        assert(rows[i as int] == chunks@[i as int]@);
        if same_bytes(chunks[i].as_slice(), expected) {
            assert(rows.contains(expected@));
            return true;
        }
        whole.extend_from_slice(chunks[i].as_slice());
        assert(rows.take(i + 1).drop_last() =~= rows.take(i as int));
        assert(rows.take(i + 1).last() == rows[i as int]);
        i += 1;
    }
    assert(rows.take(i as int) =~= rows);
    assert(!rows.contains(expected@));
    same_bytes(whole.as_slice(), expected)
}

/// Whether one of the text records that were found holds a value.
pub fn txt_lookup_contains(records: &Vec<Vec<Vec<u8>>>, expected: &str) -> (found: bool)
    ensures
        found == exists|i: int|
            0 <= i < records@.len() && record_holds(
                byte_rows((#[trigger] records@[i])@),
                encode_utf8(expected@),
            ),
{
    let bytes: &[u8] = expected.as_bytes();
    let mut i: usize = 0;
    while i < records.len()
        invariant
            i <= records@.len(),
            bytes@ == encode_utf8(expected@),
            forall|j: int|
                0 <= j < i ==> !record_holds(byte_rows((#[trigger] records@[j])@), bytes@),
        decreases records@.len() - i,
    {
        if record_has(&records[i], bytes) {
            return true;
        }
        i += 1;
    }
    false
}

/// Two to the power of `exponent`.
pub open spec fn power_of_two(exponent: nat) -> nat
    decreases exponent,
{
    if exponent == 0 {
        1
    } else {
        2 * power_of_two((exponent - 1) as nat)
    }
}

/// A wait that doubles with every attempt.
fn doubling_wait(attempt: u64) -> (seconds: u64)
    requires
        attempt < 16,
    ensures
        seconds == power_of_two(attempt as nat),
        seconds < 0x1_0000,
{
    let mut seconds: u64 = 1;
    let mut i: u64 = 0;
    proof {
        power_bound(attempt as nat);
    }
    while i < attempt
        invariant
            i <= attempt < 16,
            seconds == power_of_two(i as nat),
            power_of_two(attempt as nat) < 0x1_0000,
        decreases attempt - i,
    {
        proof {
            power_grows((i + 1) as nat, attempt as nat);
        }
        seconds = seconds * 2;
        i += 1;
    }
    seconds
}

proof fn power_grows(small: nat, large: nat)
    requires
        small <= large,
    ensures
        power_of_two(small) <= power_of_two(large),
    decreases large - small,
{
    if small < large {
        power_grows(small, (large - 1) as nat);
    }
}

proof fn power_bound(exponent: nat)
    requires
        exponent < 16,
    ensures
        power_of_two(exponent) < 0x1_0000,
{
    power_grows(exponent, 15);
    assert(power_of_two(15) == 0x8000) by {
        reveal_with_fuel(power_of_two, 16);
    }
}

/// How far an order has come.
#[derive(Clone, Copy, Debug, PartialEq, Eq, Structural)]
pub enum OrderStatus {
    Pending,
    Ready,
    Processing,
    Valid,
    Invalid,
}

/// What an order needs next.
#[derive(Clone, Copy, Debug, PartialEq, Eq, Structural)]
pub enum OrderAction {
    /// Show control over every name, then ask for the order again.
    Authorize,
    /// Hand the request for the certificate in.
    Finalize,
    /// Wait that many seconds, then ask for the order again.
    Wait(u64),
    /// Fetch the certificate.
    Download,
    /// Give up: the order was refused.
    Refused,
    /// Give up: the order was processed for too long.
    TooLong,
}

/// An order in progress: how often it was found to be processed in a row.
pub struct OrderProgress {
    pub waits: u64,
}

impl OrderProgress {
    pub fn new() -> (order: Self)
        ensures
            order.waits == 0,
    {
        Self { waits: 0 }
    }

    pub open spec fn action_spec(self, status: OrderStatus) -> OrderAction {
        match status {
            OrderStatus::Pending => OrderAction::Authorize,
            OrderStatus::Ready => OrderAction::Finalize,
            OrderStatus::Processing => if self.waits < ORDER_PROCESSING_ATTEMPTS {
                OrderAction::Wait(power_of_two(self.waits as nat) as u64)
            } else {
                OrderAction::TooLong
            },
            OrderStatus::Valid => OrderAction::Download,
            OrderStatus::Invalid => OrderAction::Refused,
        }
    }

    /// What the order needs next. Waits double, and there are at most ten in a row.
    pub fn next(&mut self, status: OrderStatus) -> (action: OrderAction)
        requires
            old(self).waits <= ORDER_PROCESSING_ATTEMPTS,
        ensures
            action == old(self).action_spec(status),
            final(self).waits <= ORDER_PROCESSING_ATTEMPTS,
            final(self).waits == if status != OrderStatus::Processing {
                0
            } else if old(self).waits < ORDER_PROCESSING_ATTEMPTS {
                old(self).waits + 1
            } else {
                old(self).waits as int
            },
    {
        match status {
            OrderStatus::Processing => {
                if self.waits < ORDER_PROCESSING_ATTEMPTS {
                    let seconds: u64 = doubling_wait(self.waits);
                    self.waits = self.waits + 1;
                    OrderAction::Wait(seconds)
                } else {
                    OrderAction::TooLong
                }
            },
            OrderStatus::Pending => {
                self.waits = 0;
                OrderAction::Authorize
            },
            OrderStatus::Ready => {
                self.waits = 0;
                OrderAction::Finalize
            },
            OrderStatus::Valid => {
                self.waits = 0;
                OrderAction::Download
            },
            OrderStatus::Invalid => {
                self.waits = 0;
                OrderAction::Refused
            },
        }
    }
}

/// How far an authorization has come. The text says what else it is.
#[derive(Debug)]
pub enum AuthStatus {
    Pending,
    Valid,
    Other(String),
}

/// A way to show control over a domain.
#[derive(Debug)]
pub struct Challenge {
    pub is_dns01: bool,
    pub url: String,
    pub token: String,
}

/// Why control over a domain could not be shown.
#[derive(Debug)]
pub enum AuthError {
    NotPending(String),
    NoChallenge,
    Key,
    Create(String),
    Resolver(String),
    NotPropagated(String),
    Trigger(String),
    Check(String),
    Refused(String),
    TimedOut,
}

impl AuthError {
    pub open spec fn message_spec(self) -> Seq<char> {
        match self {
            AuthError::NotPending(status) => "acme authorization is not pending or valid: "@
                + status@,
            AuthError::NoChallenge => "no dns-01 challenge found"@,
            AuthError::Key => "unexpected ACME account public key format"@,
            AuthError::Create(cause) => "create cloudflare dns-01 TXT record: "@ + cause@,
            AuthError::Resolver(cause) => cause@,
            AuthError::NotPropagated(name) => "dns-01 TXT record "@ + name@
                + " did not propagate"@,
            AuthError::Trigger(cause) => "trigger acme dns-01 challenge: "@ + cause@,
            AuthError::Check(cause) => cause@,
            AuthError::Refused(status) => "acme dns-01 authorization failed: "@ + status@,
            AuthError::TimedOut => "acme dns-01 authorization timed out"@,
        }
    }

    pub fn message(&self) -> (text: String)
        ensures
            text@ == self.message_spec(),
    {
        match self {
            AuthError::NotPending(status) => joined(
                "acme authorization is not pending or valid: ",
                status.as_str(),
            ),
            AuthError::NoChallenge => "no dns-01 challenge found".to_owned(),
            AuthError::Key => "unexpected ACME account public key format".to_owned(),
            AuthError::Create(cause) => joined(
                "create cloudflare dns-01 TXT record: ",
                cause.as_str(),
            ),
            AuthError::Resolver(cause) => cause.as_str().to_owned(),
            AuthError::NotPropagated(name) => {
                let mut text = joined("dns-01 TXT record ", name.as_str());
                text.append(" did not propagate");
                text
            },
            AuthError::Trigger(cause) => joined("trigger acme dns-01 challenge: ", cause.as_str()),
            AuthError::Check(cause) => cause.as_str().to_owned(),
            AuthError::Refused(status) => joined(
                "acme dns-01 authorization failed: ",
                status.as_str(),
            ),
            AuthError::TimedOut => "acme dns-01 authorization timed out".to_owned(),
        }
    }
}

/// Where showing control over a domain has come to.
#[derive(Debug)]
pub enum ProofStage {
    /// The record is being published.
    Creating,
    /// The record is there; the first pause runs.
    Delaying,
    /// The record is looked for, for the given time counted from zero.
    Looking(u64),
    /// The pause after a look that did not find it.
    Pausing(u64),
    /// The directory is told to check.
    Triggering,
    /// The pause before a check.
    Waiting(u64),
    /// The authorization is checked.
    Checking(u64),
    /// The record is taken back; what came of it all is known.
    Deleting(Option<AuthError>),
    Finished,
}

/// What came of the work that was asked for.
#[derive(Debug)]
pub enum ProofEvent {
    Done,
    Failed(String),
    Found(bool),
    Status(AuthStatus),
}

/// Work to be done.
#[derive(Debug)]
pub enum ProofAction {
    Sleep(u64),
    Look,
    Trigger,
    Check,
    Delete,
    Finish(Option<AuthError>),
}

/// The pause after look number `attempt`: twice as long each time, up to 32 seconds.
pub open spec fn pause_after(attempt: u64) -> u64 {
    power_of_two(
        if attempt < 5 {
            attempt as nat
        } else {
            5
        },
    ) as u64
}

/// An attempt to show control over a domain.
#[derive(Debug)]
pub struct Dns01Proof {
    pub record_name: String,
    pub txt_value: String,
    pub challenge_url: String,
    pub delay_secs: u64,
    pub stage: ProofStage,
}

/// What an authorization needs.
#[derive(Debug)]
pub enum AuthStart {
    /// Nothing: control was shown before.
    Done,
    /// Publish the record of this attempt.
    Prove(Dns01Proof),
}

/// The first challenge that is answered by a record, from `from` on.
pub open spec fn first_dns01(challenges: Seq<Challenge>, from: int) -> Option<int>
    decreases challenges.len() - from,
{
    if from >= challenges.len() {
        None
    } else if challenges[from].is_dns01 {
        Some(from)
    } else {
        first_dns01(challenges, from + 1)
    }
}

fn find_dns01(challenges: &Vec<Challenge>) -> (found: Option<usize>)
    ensures
        match found {
            Some(i) => i < challenges@.len() && first_dns01(challenges@, 0) == Some(i as int),
            None => first_dns01(challenges@, 0) is None,
        },
{
    let mut i: usize = 0;
    while i < challenges.len()
        invariant
            i <= challenges@.len(),
            first_dns01(challenges@, 0) == first_dns01(challenges@, i as int),
        decreases challenges@.len() - i,
    {
        if challenges[i].is_dns01 {
            return Some(i);
        }
        i += 1;
    }
    None
}

/// What the record that answers a challenge holds.
pub open spec fn txt_value_spec(public_key: Seq<u8>, token: Seq<char>) -> Seq<char> {
    base64url_text(sha256_digest(encode_utf8(token + "."@ + thumbprint_spec(public_key))))
}

/// Looks at an authorization and says what it needs.
pub fn start_authorization(
    status: AuthStatus,
    challenges: &Vec<Challenge>,
    identifier: &str,
    public_key: &[u8],
    delay_secs: u64,
) -> (start: Result<AuthStart, AuthError>)
    ensures
        match status {
            AuthStatus::Valid => start == Ok::<AuthStart, AuthError>(AuthStart::Done),
            AuthStatus::Other(text) => start == Err::<AuthStart, AuthError>(
                AuthError::NotPending(text),
            ),
            AuthStatus::Pending => match first_dns01(challenges@, 0) {
                None => start == Err::<AuthStart, AuthError>(AuthError::NoChallenge),
                Some(i) => if !is_p256_point(public_key@) {
                    start == Err::<AuthStart, AuthError>(AuthError::Key)
                } else {
                    &&& start matches Ok(AuthStart::Prove(attempt))
                    &&& attempt.record_name@ == "_acme-challenge."@ + base_domain_spec(identifier@)
                    &&& attempt.txt_value@ == txt_value_spec(public_key@, challenges@[i].token@)
                    &&& attempt.txt_value@ == base64url_text(
                        sha256_digest(
                            encode_utf8(
                                challenges@[i].token@ + "."@ + thumbprint_spec(public_key@),
                            ),
                        ),
                    )
                    &&& attempt.challenge_url@ == challenges@[i].url@
                    &&& attempt.delay_secs == delay_secs
                    &&& attempt.stage is Creating
                },
            },
        },
{
    match status {
        AuthStatus::Valid => Ok(AuthStart::Done),
        AuthStatus::Other(text) => Err(AuthError::NotPending(text)),
        AuthStatus::Pending => {
            let i: usize = match find_dns01(challenges) {
                None => {
                    return Err(AuthError::NoChallenge);
                },
                Some(i) => i,
            };
            let txt_value = match dns01_txt_value(public_key, challenges[i].token.as_str()) {
                Err(_) => {
                    return Err(AuthError::Key);
                },
                Ok(value) => value,
            };
            Ok(
                AuthStart::Prove(
                    Dns01Proof {
                        record_name: dns01_record_name(identifier),
                        txt_value,
                        challenge_url: challenges[i].url.as_str().to_owned(),
                        delay_secs,
                        stage: ProofStage::Creating,
                    },
                ),
            )
        },
    }
}

impl Dns01Proof {
    /// At most eight looks and six checks.
    pub open spec fn wf(&self) -> bool {
        match self.stage {
            ProofStage::Looking(i) => i < DNS01_PROPAGATION_CHECK_ATTEMPTS,
            ProofStage::Pausing(i) => i < DNS01_PROPAGATION_CHECK_ATTEMPTS,
            ProofStage::Waiting(i) => i < AUTH_CHECK_ATTEMPTS,
            ProofStage::Checking(i) => i < AUTH_CHECK_ATTEMPTS,
            _ => true,
        }
    }

    /// Whether the record is there and not taken back.
    pub open spec fn published(&self) -> bool {
        !(self.stage is Creating) && !(self.stage is Finished)
    }

    /// Whether an event can come of the work that is under way.
    pub open spec fn expects_spec(&self, event: ProofEvent) -> bool {
        match self.stage {
            ProofStage::Creating => event is Done || event is Failed,
            ProofStage::Delaying => event is Done || event is Failed,
            ProofStage::Looking(_) => event is Found,
            ProofStage::Pausing(_) => event is Done,
            ProofStage::Triggering => event is Done || event is Failed,
            ProofStage::Waiting(_) => event is Done,
            ProofStage::Checking(_) => event is Status || event is Failed,
            ProofStage::Deleting(_) => event is Done || event is Failed,
            ProofStage::Finished => false,
        }
    }

    pub fn expects(&self, event: &ProofEvent) -> (expected: bool)
        ensures
            expected == self.expects_spec(*event),
    {
        match (&self.stage, event) {
            (ProofStage::Creating, ProofEvent::Done) => true,
            (ProofStage::Creating, ProofEvent::Failed(_)) => true,
            (ProofStage::Delaying, ProofEvent::Done) => true,
            (ProofStage::Delaying, ProofEvent::Failed(_)) => true,
            (ProofStage::Looking(_), ProofEvent::Found(_)) => true,
            (ProofStage::Pausing(_), ProofEvent::Done) => true,
            (ProofStage::Triggering, ProofEvent::Done) => true,
            (ProofStage::Triggering, ProofEvent::Failed(_)) => true,
            (ProofStage::Waiting(_), ProofEvent::Done) => true,
            (ProofStage::Checking(_), ProofEvent::Status(_)) => true,
            (ProofStage::Checking(_), ProofEvent::Failed(_)) => true,
            (ProofStage::Deleting(_), ProofEvent::Done) => true,
            (ProofStage::Deleting(_), ProofEvent::Failed(_)) => true,
            _ => false,
        }
    }

    /// Where an event leads, and what is to be done there.
    pub open spec fn next_spec(&self, event: ProofEvent) -> (ProofStage, ProofAction) {
        match (self.stage, event) {
            (ProofStage::Creating, ProofEvent::Failed(cause)) => (
                ProofStage::Finished,
                ProofAction::Finish(Some(AuthError::Create(cause))),
            ),
            (ProofStage::Creating, _) => (
                ProofStage::Delaying,
                ProofAction::Sleep(self.delay_secs),
            ),
            (ProofStage::Delaying, ProofEvent::Failed(cause)) => (
                ProofStage::Deleting(Some(AuthError::Resolver(cause))),
                ProofAction::Delete,
            ),
            (ProofStage::Delaying, _) => (ProofStage::Looking(0), ProofAction::Look),
            (ProofStage::Looking(i), ProofEvent::Found(found)) => if found {
                (ProofStage::Triggering, ProofAction::Trigger)
            } else {
                (ProofStage::Pausing(i), ProofAction::Sleep(pause_after(i)))
            },
            (ProofStage::Pausing(i), _) => if i + 1 < DNS01_PROPAGATION_CHECK_ATTEMPTS {
                (ProofStage::Looking((i + 1) as u64), ProofAction::Look)
            } else {
                (
                    ProofStage::Deleting(Some(AuthError::NotPropagated(self.record_name))),
                    ProofAction::Delete,
                )
            },
            (ProofStage::Triggering, ProofEvent::Failed(cause)) => (
                ProofStage::Deleting(Some(AuthError::Trigger(cause))),
                ProofAction::Delete,
            ),
            (ProofStage::Triggering, _) => (ProofStage::Waiting(0), ProofAction::Sleep(1)),
            (ProofStage::Waiting(i), _) => (ProofStage::Checking(i), ProofAction::Check),
            (ProofStage::Checking(_), ProofEvent::Failed(cause)) => (
                ProofStage::Deleting(Some(AuthError::Check(cause))),
                ProofAction::Delete,
            ),
            (ProofStage::Checking(_), ProofEvent::Status(AuthStatus::Valid)) => (
                ProofStage::Deleting(None),
                ProofAction::Delete,
            ),
            (ProofStage::Checking(_), ProofEvent::Status(AuthStatus::Other(text))) => (
                ProofStage::Deleting(Some(AuthError::Refused(text))),
                ProofAction::Delete,
            ),
            (ProofStage::Checking(i), _) => if i + 1 < AUTH_CHECK_ATTEMPTS {
                (
                    ProofStage::Waiting((i + 1) as u64),
                    ProofAction::Sleep(power_of_two((i + 1) as nat) as u64),
                )
            } else {
                (ProofStage::Deleting(Some(AuthError::TimedOut)), ProofAction::Delete)
            },
            (ProofStage::Deleting(outcome), _) => (
                ProofStage::Finished,
                ProofAction::Finish(outcome),
            ),
            (stage, _) => (stage, ProofAction::Delete),
        }
    }

    /// Goes on after the work that was asked for.
    pub fn next(self, event: ProofEvent) -> (next: (Self, ProofAction))
        requires
            self.wf(),
            self.expects_spec(event),
        ensures
            next.0.wf(),
            next.0.challenge_url == self.challenge_url,
            next.0.delay_secs == self.delay_secs,
            next.0.txt_value == self.txt_value,
            next.0.record_name@ == self.record_name@,
            match self.next_spec(event) {
                (
                    ProofStage::Deleting(Some(AuthError::NotPropagated(name))),
                    action,
                ) => (next.0.stage matches ProofStage::Deleting(
                    Some(AuthError::NotPropagated(told)),
                ) && told@ == name@) && next.1 == action,
                (stage, action) => next.0.stage == stage && next.1 == action,
            },
    {
        let Dns01Proof { record_name, txt_value, challenge_url, delay_secs, stage } = self;
        let (stage, action) = match (stage, event) {
            (ProofStage::Creating, ProofEvent::Failed(cause)) => (
                ProofStage::Finished,
                ProofAction::Finish(Some(AuthError::Create(cause))),
            ),
            (ProofStage::Creating, _) => (ProofStage::Delaying, ProofAction::Sleep(delay_secs)),
            (ProofStage::Delaying, ProofEvent::Failed(cause)) => (
                ProofStage::Deleting(Some(AuthError::Resolver(cause))),
                ProofAction::Delete,
            ),
            (ProofStage::Delaying, _) => (ProofStage::Looking(0), ProofAction::Look),
            (ProofStage::Looking(i), ProofEvent::Found(found)) => {
                if found {
                    (ProofStage::Triggering, ProofAction::Trigger)
                } else {
                    let seconds: u64 = doubling_wait(
                        if i < 5 {
                            i
                        } else {
                            5
                        },
                    );
                    (ProofStage::Pausing(i), ProofAction::Sleep(seconds))
                }
            },
            (ProofStage::Pausing(i), _) => {
                if i + 1 < DNS01_PROPAGATION_CHECK_ATTEMPTS {
                    (ProofStage::Looking(i + 1), ProofAction::Look)
                } else {
                    let name = record_name.as_str().to_owned();
                    (
                        ProofStage::Deleting(Some(AuthError::NotPropagated(name))),
                        ProofAction::Delete,
                    )
                }
            },
            (ProofStage::Triggering, ProofEvent::Failed(cause)) => (
                ProofStage::Deleting(Some(AuthError::Trigger(cause))),
                ProofAction::Delete,
            ),
            (ProofStage::Triggering, _) => (ProofStage::Waiting(0), ProofAction::Sleep(1)),
            (ProofStage::Waiting(i), _) => (ProofStage::Checking(i), ProofAction::Check),
            (ProofStage::Checking(_), ProofEvent::Failed(cause)) => (
                ProofStage::Deleting(Some(AuthError::Check(cause))),
                ProofAction::Delete,
            ),
            (ProofStage::Checking(_), ProofEvent::Status(AuthStatus::Valid)) => (
                ProofStage::Deleting(None),
                ProofAction::Delete,
            ),
            (ProofStage::Checking(_), ProofEvent::Status(AuthStatus::Other(text))) => (
                ProofStage::Deleting(Some(AuthError::Refused(text))),
                ProofAction::Delete,
            ),
            (ProofStage::Checking(i), _) => {
                if i + 1 < AUTH_CHECK_ATTEMPTS {
                    let seconds: u64 = doubling_wait(i + 1);
                    (ProofStage::Waiting(i + 1), ProofAction::Sleep(seconds))
                } else {
                    (ProofStage::Deleting(Some(AuthError::TimedOut)), ProofAction::Delete)
                }
            },
            (ProofStage::Deleting(outcome), _) => (
                ProofStage::Finished,
                ProofAction::Finish(outcome),
            ),
            (stage, _) => (stage, ProofAction::Delete),
        };
        (Dns01Proof { record_name, txt_value, challenge_url, delay_secs, stage }, action)
    }
}

/// A record that was published is taken back: once it is there, no event ends
/// the attempt before the record was to be deleted, whatever came of it; and
/// where it could not be published there is nothing to take back.
pub proof fn published_records_are_taken_back(attempt: Dns01Proof, event: ProofEvent)
    requires
        attempt.wf(),
        attempt.expects_spec(event),
    ensures
        attempt.next_spec(event).1 is Finish ==> attempt.stage is Deleting || (
        attempt.stage is Creating && event is Failed),
        attempt.next_spec(event).0 is Deleting ==> attempt.next_spec(event).1 is Delete,
        attempt.next_spec(event).1 is Delete ==> attempt.published(),
{
}

/// Control counts as shown only where the directory said so.
pub proof fn success_was_said(attempt: Dns01Proof, event: ProofEvent)
    requires
        attempt.wf(),
        attempt.expects_spec(event),
    ensures
        attempt.next_spec(event).0 == ProofStage::Deleting(None) ==> attempt.stage is Checking
            && event == ProofEvent::Status(AuthStatus::Valid),
        attempt.next_spec(event).1 == ProofAction::Finish(None) ==> attempt.stage
            == ProofStage::Deleting(None),
{
}

/// How many more steps an attempt can take.
pub open spec fn steps_left(stage: ProofStage) -> int {
    match stage {
        ProofStage::Creating => 33,
        ProofStage::Delaying => 32,
        ProofStage::Looking(i) => 31 - 2 * i,
        ProofStage::Pausing(i) => 30 - 2 * i,
        ProofStage::Triggering => 15,
        ProofStage::Waiting(i) => 14 - 2 * i,
        ProofStage::Checking(i) => 13 - 2 * i,
        ProofStage::Deleting(_) => 1,
        ProofStage::Finished => 0,
    }
}

/// An attempt comes to an end: every event brings it closer.
pub proof fn attempts_end(attempt: Dns01Proof, event: ProofEvent)
    requires
        attempt.wf(),
        attempt.expects_spec(event),
    ensures
        0 <= steps_left(attempt.next_spec(event).0) < steps_left(attempt.stage),
{
}

/// The key and the certificates in one text.
pub fn certificate_bundle(key_pem: &str, chain_pem: &str) -> (bundle: String)
    ensures
        bundle@ == key_pem@ + "\n"@ + chain_pem@,
{
    let mut bundle = joined(key_pem, "\n");
    bundle.append(chain_pem);
    bundle
}

/// The keeper of a certificate: how long it waits after a failed order.
pub struct CertKeeper {
    pub retry: u64,
}

/// What the keeper of a certificate does next.
#[derive(Clone, Copy, Debug, PartialEq, Eq, Structural)]
pub enum KeeperStep {
    /// Sleep that many seconds: the certificate is good until then.
    Sleep(u64),
    /// Order a certificate.
    Order,
}

impl CertKeeper {
    pub open spec fn wf(&self) -> bool {
        DNS01_RETRY_BASE_SECS <= self.retry <= DNS01_RETRY_MAX_SECS
    }

    pub fn new() -> (keeper: Self)
        ensures
            keeper.wf(),
            keeper.retry == DNS01_RETRY_BASE_SECS == 60,
    {
        Self { retry: DNS01_RETRY_BASE_SECS }
    }

    /// What to do, given the seconds until the cached certificate is due;
    /// `None` where there is none or it cannot be used.
    pub fn next(&self, due_in: Option<u64>) -> (step: KeeperStep)
        ensures
            step == match due_in {
                Some(seconds) => if seconds > 0 {
                    KeeperStep::Sleep(seconds)
                } else {
                    KeeperStep::Order
                },
                None => KeeperStep::Order,
            },
    {
        match due_in {
            Some(seconds) => {
                if seconds > 0 {
                    KeeperStep::Sleep(seconds)
                } else {
                    KeeperStep::Order
                }
            },
            None => KeeperStep::Order,
        }
    }

    /// A certificate was deployed.
    pub fn deployed(&mut self)
        ensures
            final(self).wf(),
            final(self).retry == DNS01_RETRY_BASE_SECS == 60,
    {
        self.retry = DNS01_RETRY_BASE_SECS;
    }

    /// An order failed: gives the seconds to wait before the next, and doubles
    /// them for the time after that, up to an hour.
    pub fn failed(&mut self) -> (seconds: u64)
        requires
            old(self).wf(),
        ensures
            final(self).wf(),
            seconds == old(self).retry,
            final(self).retry == if 2 * old(self).retry <= DNS01_RETRY_MAX_SECS {
                2 * old(self).retry
            } else {
                DNS01_RETRY_MAX_SECS as int
            },
            seconds <= 3600,
            final(self).retry == 2 * seconds || (final(self).retry == 3600 && 2 * seconds > 3600),
    {
        let seconds: u64 = self.retry;
        self.retry = if seconds * 2 <= DNS01_RETRY_MAX_SECS {
            seconds * 2
        } else {
            DNS01_RETRY_MAX_SECS
        };
        seconds
    }
}

} // verus!

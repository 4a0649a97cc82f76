use vstd::prelude::*;
use vstd::string::StringSliceAdditionalSpecFns;

use crate::models::WebhookResponse;

verus! {

/// The bytes of the word `gzip`.
pub open spec fn gzip_bytes() -> Seq<u8> {
    seq![0x67u8, 0x7au8, 0x69u8, 0x70u8]
}

/// Whether `pat` occurs in `s` starting at position `i`.
pub open spec fn occurs_at(s: Seq<u8>, pat: Seq<u8>, i: int) -> bool {
    0 <= i && i + pat.len() <= s.len() && s.subrange(i, i + pat.len()) == pat
}

pub open spec fn occurs_in(s: Seq<u8>, pat: Seq<u8>) -> bool {
    exists|i: int| occurs_at(s, pat, i)
}

/// Whether a `content-encoding` header value names gzip: it holds the word
/// `gzip` anywhere.
pub fn is_gzip_encoding(value: &str) -> (b: bool)
    ensures
        b == occurs_in(value.spec_bytes(), gzip_bytes()),
{
    let bytes = value.as_bytes();
    let n = bytes.len();
    if n < 4 {
        assert forall|i: int| !occurs_at(bytes@, gzip_bytes(), i) by {}
        return false;
    }
    let mut i: usize = 0;
    while i <= n - 4
        invariant
            bytes@ == value.spec_bytes(),
            n == bytes@.len(),
            n >= 4,
            i <= n - 3,
            forall|j: int| 0 <= j < i ==> !#[trigger] occurs_at(bytes@, gzip_bytes(), j),
        decreases n - i,
    {
        if bytes[i] == 0x67u8 && bytes[i + 1] == 0x7au8 && bytes[i + 2] == 0x69u8 && bytes[i + 3] == 0x70u8 {
            assert(bytes@.subrange(i as int, i + 4) =~= gzip_bytes());
            assert(occurs_at(bytes@, gzip_bytes(), i as int));
            return true;
        }
        assert(bytes@.subrange(i as int, i + 4)[0] == bytes@[i as int]);
        assert(bytes@.subrange(i as int, i + 4)[1] == bytes@[i + 1]);
        assert(bytes@.subrange(i as int, i + 4)[2] == bytes@[i + 2]);
        assert(bytes@.subrange(i as int, i + 4)[3] == bytes@[i + 3]);
        i = i + 1;
    }
    false
}

/// The decimal digit for `d`.
pub open spec fn digit_char(d: nat) -> char {
    seq!['0', '1', '2', '3', '4', '5', '6', '7', '8', '9'][d as int]
}

/// The decimal text of `n`, without sign or leading zeros.
pub open spec fn decimal_text(n: nat) -> Seq<char>
    decreases n,
{
    if n < 10 {
        seq![digit_char(n)]
    } else {
        decimal_text(n / 10) + seq![digit_char(n % 10)]
    }
}

/// Relies on `ToString` for `usize` (std's `Display`): the decimal digits of
/// `n`, without sign or leading zeros.
#[verifier::external_body]
fn usize_text(n: usize) -> (s: String)
    ensures
        s@ == decimal_text(n as nat),
{
    n.to_string()
}

/// HTTP status of a call that was served.
pub const STATUS_OK: u16 = 200;
/// HTTP status of a call whose body was unusable.
pub const STATUS_BAD_REQUEST: u16 = 400;
/// HTTP status of a call whose records could not all be queued.
pub const STATUS_INTERNAL_ERROR: u16 = 500;

impl WebhookResponse {
    /// The reply to a health probe.
    pub fn healthy() -> (r: WebhookResponse)
        ensures
            r.success,
            r.message@ == "Webhook endpoint is healthy"@,
            r.count is None,
    {
        WebhookResponse { success: true, message: String::from_str("Webhook endpoint is healthy"), count: None }
    }

    /// A failed reply with the given message.
    pub fn failure(message: String) -> (r: WebhookResponse)
        ensures
            !r.success,
            r.message@ == message@,
            r.count is None,
    {
        WebhookResponse { success: false, message, count: None }
    }
}

/// The reply to a webhook call whose body held `received` records, of which
/// `failed` could not be handed to the queue: no records is a bad request;
/// any failure is an internal error that says how many failed; otherwise
/// success, with the count.
pub fn intake_reply(received: usize, failed: usize) -> (r: (u16, WebhookResponse))
    requires
        failed <= received,
    ensures
        received == 0 ==> {
            &&& r.0 == STATUS_BAD_REQUEST
            &&& !r.1.success
            &&& r.1.message@ == "No logs provided"@
            &&& r.1.count is None
        },
        received > 0 && failed > 0 ==> {
            &&& r.0 == STATUS_INTERNAL_ERROR
            &&& !r.1.success
            &&& r.1.message@ == "Failed to queue "@ + decimal_text(failed as nat) + " out of "@
                + decimal_text(received as nat) + " logs"@
            &&& r.1.count is None
        },
        received > 0 && failed == 0 ==> {
            &&& r.0 == STATUS_OK
            &&& r.1.success
            &&& r.1.message@ == "Queued "@ + decimal_text(received as nat) + " logs for processing"@
            &&& r.1.count == Some(received)
        },
{
    if received == 0 {
        return (STATUS_BAD_REQUEST, WebhookResponse::failure(String::from_str("No logs provided")));
    }
    if failed > 0 {
        let mut message = String::from_str("Failed to queue ");
        message.append(usize_text(failed).as_str());
        message.append(" out of ");
        message.append(usize_text(received).as_str());
        message.append(" logs");
        (STATUS_INTERNAL_ERROR, WebhookResponse::failure(message))
    } else {
        let mut message = String::from_str("Queued ");
        message.append(usize_text(received).as_str());
        message.append(" logs for processing");
        (STATUS_OK, WebhookResponse { success: true, message, count: Some(received) })
    }
}

} // verus!

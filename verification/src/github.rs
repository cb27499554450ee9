//! The webhook that asks for a redeploy.
//!
//! A push notification is accepted only if it carries the signature that
//! the shared secret gives its body.

use crate::text::{chars_of, matches_at, occurs_at, same_text, string_of, tail_from};
use hmac::Mac;
use vstd::prelude::*;

verus! {

/// The body of a push notification, as far as it is read.
#[derive(Debug)]
pub struct APIRequest {
    /// The reference that was pushed to.
    pub refs: String,
}

/// A commit of a push notification. Nothing of it is read.
#[derive(Debug)]
pub struct Commit {}

/// The answer to a push notification.
#[derive(Clone, Copy, Debug, PartialEq, Eq, Structural)]
pub enum HookReply {
    /// The notification carries no signature.
    MissingSignature,
    /// The signature is not the one that the secret gives the body.
    BadSignature,
    /// The signature is right, but the body cannot be read.
    UnreadablePayload,
    /// The notification is accepted; `redeploy` says whether it asks for a
    /// redeploy.
    Accepted { redeploy: bool },
}

/// The text that introduces the signature in its header.
pub open spec fn signature_marker() -> Seq<char> {
    seq!['s', 'h', 'a', '2', '5', '6', '=']
}

/// The index of the first occurrence of `pat` in `s`.
pub open spec fn first_occurrence(s: Seq<char>, pat: Seq<char>) -> Option<int>
    decreases s.len(),
{
    if occurs_at(s, pat, 0) {
        Some(0)
    } else if s.len() == 0 {
        None
    } else {
        match first_occurrence(s.drop_first(), pat) {
            Some(k) => Some(k + 1),
            None => None,
        }
    }
}

/// The signature that a header carries: what stands between the first
/// marker and the next one, or the header's end.
pub open spec fn signature_text(header: Seq<char>) -> Option<Seq<char>> {
    match first_occurrence(header, signature_marker()) {
        None => None,
        Some(i) => {
            let rest = header.skip(i + signature_marker().len());
            match first_occurrence(rest, signature_marker()) {
                None => Some(rest),
                Some(j) => Some(rest.take(j)),
            }
        },
    }
}

/// Whether `c` is a hexadecimal digit.
pub open spec fn is_hex_digit(c: char) -> bool {
    ('0' <= c && c <= '9') || ('a' <= c && c <= 'f') || ('A' <= c && c <= 'F')
}

/// The value of a hexadecimal digit.
pub open spec fn hex_digit_value(c: char) -> int {
    if '0' <= c && c <= '9' {
        c as int - '0' as int
    } else if 'a' <= c && c <= 'f' {
        c as int - 'a' as int + 10
    } else {
        c as int - 'A' as int + 10
    }
}

/// The bytes that a text of hexadecimal digits spells, two digits to a
/// byte; nothing where the text has an odd length or holds anything else.
pub open spec fn hex_bytes(text: Seq<char>) -> Option<Seq<u8>> {
    if text.len() % 2 == 0 && forall|i: int| 0 <= i < text.len() ==> is_hex_digit(#[trigger] text[i]) {
        Some(
            Seq::new(
                text.len() / 2,
                |i: int| (16 * hex_digit_value(text[2 * i]) + hex_digit_value(text[2 * i + 1])) as u8,
            ),
        )
    } else {
        None
    }
}

/// Whether `tag` is the HMAC-SHA256 code that `key` gives `message`, as
/// `hmac` and `sha2` compute it.
pub uninterp spec fn hmac_sha256_accepts(key: Seq<u8>, message: Seq<u8>, tag: Seq<u8>) -> bool;

/// The reference whose pushes ask for a redeploy.
pub open spec fn deployed_reference() -> Seq<char> {
    "refs/heads/master"@
}

/// The answer to a push notification with this signature header, body and
/// readable payload, under the shared secret `secret`.
pub open spec fn reply_to(
    signature_header: Option<Seq<char>>,
    secret: Seq<u8>,
    body: Seq<u8>,
    payload: Option<Seq<char>>,
) -> HookReply {
    match signature_header {
        None => HookReply::MissingSignature,
        Some(header) => match signature_text(header) {
            None => HookReply::BadSignature,
            Some(text) => match hex_bytes(text) {
                None => HookReply::BadSignature,
                Some(tag) => if !hmac_sha256_accepts(secret, body, tag) {
                    HookReply::BadSignature
                } else {
                    match payload {
                        None => HookReply::UnreadablePayload,
                        Some(refs) => HookReply::Accepted {
                            redeploy: refs == deployed_reference(),
                        },
                    }
                },
            },
        },
    }
}

/// Calls `hex::decode`. Both cases of the letters are read; a text of odd
/// length, or one that holds anything but hexadecimal digits, gives
/// nothing.
#[verifier::external_body]
pub(crate) fn hex_decode(text: &str) -> (out: Option<Vec<u8>>)
    ensures
        out.is_some() == hex_bytes(text@).is_some(),
        out matches Some(bytes) ==> hex_bytes(text@) == Some(bytes@),
{
    match hex::decode(text) {
        Ok(bytes) => Some(bytes),
        Err(_) => None,
    }
}

/// Computes the HMAC-SHA256 code of `message` under `key` with
/// `hmac::Hmac<sha2::Sha256>` and compares it with `tag` by
/// `Mac::verify_slice`.
#[verifier::external_body]
pub(crate) fn hmac_sha256_verify(key: &[u8], message: &[u8], tag: &[u8]) -> (ok: bool)
    ensures
        ok == hmac_sha256_accepts(key@, message@, tag@),
{
    match hmac::Hmac::<sha2::Sha256>::new_from_slice(key) {
        Ok(mut mac) => {
            mac.update(message);
            mac.verify_slice(tag).is_ok()
        },
        Err(_) => false,
    }
}

/// The index of the first occurrence of `pat` in `s` at or behind `from`.
fn find_first(s: &Vec<char>, pat: &Vec<char>, from: usize) -> (r: Option<usize>)
    requires
        from <= s.len(),
    ensures
        match r {
            Some(i) => from <= i && i + pat.len() <= s.len() && first_occurrence(
                s@.skip(from as int),
                pat@,
            ) == Some(i - from),
            None => first_occurrence(s@.skip(from as int), pat@) is None,
        },
{
    let mut i: usize = from;
    while i < s.len()
        invariant
            from <= i <= s.len(),
            match first_occurrence(s@.skip(i as int), pat@) {
                Some(k) => first_occurrence(s@.skip(from as int), pat@) == Some(k + i - from),
                None => first_occurrence(s@.skip(from as int), pat@) is None,
            },
        decreases s.len() - i,
    {
        let hit = matches_at(s, pat, i);
        proof {
            let rest = s@.skip(i as int);
            assert(occurs_at(s@, pat@, i as int) == occurs_at(rest, pat@, 0)) by {
                if i + pat.len() <= s.len() {
                    assert(rest.subrange(0, pat.len() as int) =~= s@.subrange(
                        i as int,
                        i + pat.len(),
                    ));
                }
            }
            assert(rest.drop_first() =~= s@.skip(i + 1));
        }
        if hit {
            return Some(i);
        }
        i += 1;
    }
    let hit = matches_at(s, pat, i);
    proof {
        let rest = s@.skip(i as int);
        assert(rest.len() == 0);
        assert(occurs_at(s@, pat@, i as int) == occurs_at(rest, pat@, 0)) by {
            if pat.len() == 0 {
                assert(rest.subrange(0, 0) =~= s@.subrange(i as int, i as int));
            }
        }
    }
    if hit {
        Some(i)
    } else {
        None
    }
}

/// The signature that the header carries.
pub fn signature_of(header: &str) -> (r: Option<String>)
    ensures
        match r {
            Some(text) => signature_text(header@) == Some(text@),
            None => signature_text(header@) is None,
        },
{
    let chars = chars_of(header);
    let mut marker: Vec<char> = Vec::new();
    marker.push('s');
    marker.push('h');
    marker.push('a');
    marker.push('2');
    marker.push('5');
    marker.push('6');
    marker.push('=');
    proof {
        assert(marker@ =~= signature_marker());
        assert(chars@.skip(0) =~= chars@);
    }
    match find_first(&chars, &marker, 0) {
        None => None,
        Some(i) => {
            let rest = tail_from(&chars, i + 7);
            proof {
                assert(rest@ =~= chars@.skip(i + 7));
                assert(rest@.skip(0) =~= rest@);
            }
            match find_first(&rest, &marker, 0) {
                None => Some(string_of(&rest)),
                Some(j) => {
                    let mut text: Vec<char> = Vec::new();
                    let mut k: usize = 0;
                    while k < j
                        invariant
                            k <= j <= rest.len(),
                            text@ == rest@.take(k as int),
                        decreases j - k,
                    {
                        text.push(rest[k]);
                        assert(rest@.take(k + 1) =~= rest@.take(k as int).push(rest@[k as int]));
                        k += 1;
                    }
                    Some(string_of(&text))
                },
            }
        },
    }
}

/// Whether a push to `data.refs` asks for a redeploy.
pub fn update(data: &APIRequest) -> (redeploy: bool)
    ensures
        redeploy == (data.refs@ == deployed_reference()),
{
    same_text(data.refs.as_str(), "refs/heads/master")
}

/// The answer to a push notification, once the signature that was handed
/// in has been judged.
pub fn reply_after_check(accepted: bool, payload: Option<&APIRequest>) -> (reply: HookReply)
    ensures
        reply == if !accepted {
            HookReply::BadSignature
        } else {
            match payload {
                None => HookReply::UnreadablePayload,
                Some(data) => HookReply::Accepted { redeploy: data.refs@ == deployed_reference() },
            }
        },
{
    if !accepted {
        return HookReply::BadSignature;
    }
    match payload {
        None => HookReply::UnreadablePayload,
        Some(data) => HookReply::Accepted { redeploy: update(data) },
    }
}

/// The answer to a push notification.
///
/// `signature_header` is the signature header, where the request has one;
/// `payload` is the body as it was read, where it could be read.
pub fn github_hook(
    signature_header: Option<&str>,
    secret: &str,
    body: &str,
    payload: Option<&APIRequest>,
) -> (reply: HookReply)
    ensures
        reply == reply_to(
            match signature_header {
                Some(header) => Some(header@),
                None => None,
            },
            vstd::utf8::encode_utf8(secret@),
            vstd::utf8::encode_utf8(body@),
            match payload {
                Some(data) => Some(data.refs@),
                None => None,
            },
        ),
{
    match signature_header {
        None => HookReply::MissingSignature,
        Some(header) => match signature_of(header) {
            None => HookReply::BadSignature,
            Some(text) => match hex_decode(text.as_str()) {
                None => HookReply::BadSignature,
                Some(tag) => {
                    let accepted = hmac_sha256_verify(
                        secret.as_bytes(),
                        body.as_bytes(),
                        tag.as_slice(),
                    );
                    reply_after_check(accepted, payload)
                },
            },
        },
    }
}

/// The answer to a request that only looks at the webhook: a temporary
/// redirect to the front page.
pub fn redirect() -> (r: (u16, String))
    ensures
        r.0 == 307,
        r.1@ == "/"@,
{
    (307, "/".to_owned())
}

/// The status code of a reply: accepted, or not found.
pub fn reply_status(reply: HookReply) -> (code: u16)
    ensures
        code == if reply is Accepted {
            202u16
        } else {
            404u16
        },
{
    match reply {
        HookReply::Accepted { .. } => 202,
        _ => 404,
    }
}

/// The text that goes with a reply.
pub fn reply_text(reply: HookReply) -> (text: String)
    ensures
        text@ == match reply {
            HookReply::MissingSignature => "Could not find GitHub Signature Header."@,
            HookReply::BadSignature => "GitHub header secret didn't match config secret."@,
            HookReply::UnreadablePayload => "Could not read payload body."@,
            HookReply::Accepted { .. } => ""@,
        },
{
    match reply {
        HookReply::MissingSignature => "Could not find GitHub Signature Header.".to_owned(),
        HookReply::BadSignature => "GitHub header secret didn't match config secret.".to_owned(),
        HookReply::UnreadablePayload => "Could not read payload body.".to_owned(),
        HookReply::Accepted { .. } => "".to_owned(),
    }
}

} // verus!

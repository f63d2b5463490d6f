//! Sign-up requests that are under way.
//!
//! A sign-up begins with a random token that travels through the OAuth
//! provider as the `state` parameter. The redirect is honoured only if it
//! brings back a token that was handed out and not used since.

use crate::utils::decimal_spec;
use crate::utils::generate_secret_key;
use crate::utils::is_alphanumeric;
use crate::utils::push_decimal;
use serenity::all::Permissions;
use vstd::hash_set::StringHashSet;
use vstd::prelude::*;
use vstd::string::StringExecFns;
use vstd::string::StringSliceAdditionalSpecFns;
use vstd::utf8::encode_utf8;

verus! {

/// Number of characters of a sign-up token.
pub const SIGNUP_TOKEN_LEN: usize = 16;

/// The tokens of the sign-ups that are under way.
pub struct SignupManager {
    signup_requests: StringHashSet,
}

impl View for SignupManager {
    type V = Set<Seq<char>>;

    closed spec fn view(&self) -> Set<Seq<char>> {
        self.signup_requests@
    }
}

impl SignupManager {
    /// A manager with no sign-up under way.
    pub fn new() -> (manager: SignupManager)
        ensures
            manager@ == Set::<Seq<char>>::empty(),
    {
        SignupManager { signup_requests: StringHashSet::new() }
    }

    /// Begins a sign-up: draws a token of `SIGNUP_TOKEN_LEN` letters and
    /// digits, notes it, and returns it.
    pub fn add_request(&mut self) -> (digest: String)
        ensures
            final(self)@ == old(self)@.insert(digest@),
            digest@.len() == SIGNUP_TOKEN_LEN,
            forall|i: int| 0 <= i < digest@.len() ==> is_alphanumeric(#[trigger] digest@[i]),
    {
        let digest = generate_secret_key(SIGNUP_TOKEN_LEN);
        self.signup_requests.insert(digest.clone());
        digest
    }

    /// Ends the sign-up that `digest` belongs to. Says whether there was one:
    /// a token is good once.
    pub fn consume_request(&mut self, digest: &str) -> (known: bool)
        ensures
            known == old(self)@.contains(digest@),
            final(self)@ == old(self)@.remove(digest@),
    {
        self.signup_requests.remove(digest)
    }
}

impl Default for SignupManager {
    fn default() -> (manager: SignupManager)
        ensures
            manager@ == Set::<Seq<char>>::empty(),
    {
        SignupManager::new()
    }
}

/// A token is good once: after it has been consumed, it is unknown.
pub proof fn lemma_token_good_once(requests: Set<Seq<char>>, digest: Seq<char>)
    ensures
        !requests.remove(digest).contains(digest),
        !requests.insert(digest).remove(digest).contains(digest),
        requests.insert(digest).contains(digest),
{
}

/// Permission to send messages, as the OAuth provider numbers it.
pub const SEND_MESSAGES: u64 = 0x800;

/// Permission to attach files.
pub const ATTACH_FILES: u64 = 0x8000;

/// Permission to send messages in threads.
pub const SEND_MESSAGES_IN_THREADS: u64 = 0x40_0000_0000;

/// The permissions that the bot asks for, as one number.
pub const BOT_PERMISSIONS: u64 = 0x40_0000_8800;

/// The sixteen upper-case hexadecimal digits.
pub open spec fn hex_digits_upper() -> Seq<char> {
    seq!['0', '1', '2', '3', '4', '5', '6', '7', '8', '9', 'A', 'B', 'C', 'D', 'E', 'F']
}

/// Whether a byte stands for itself in a URL: an ASCII letter or digit, or
/// one of `-`, `.`, `_`, `~`.
pub open spec fn is_unreserved(byte: u8) -> bool {
    ||| 0x30 <= byte <= 0x39
    ||| 0x41 <= byte <= 0x5a
    ||| 0x61 <= byte <= 0x7a
    ||| byte == 0x2d
    ||| byte == 0x2e
    ||| byte == 0x5f
    ||| byte == 0x7e
}

/// One byte as it stands in a URL: itself, or `%` and two upper-case
/// hexadecimal digits.
pub open spec fn percent_encode_byte(byte: u8) -> Seq<char> {
    if is_unreserved(byte) {
        seq![byte as char]
    } else {
        seq!['%', hex_digits_upper()[byte as int / 16], hex_digits_upper()[byte as int % 16]]
    }
}

/// Bytes as they stand in a URL, each encoded by itself.
pub open spec fn percent_encode_spec(bytes: Seq<u8>) -> Seq<char>
    decreases bytes.len(),
{
    if bytes.len() == 0 {
        Seq::<char>::empty()
    } else {
        percent_encode_byte(bytes[0]) + percent_encode_spec(bytes.drop_first())
    }
}

/// The URL at which an account is linked.
pub open spec fn auth_url_spec(
    client_id: Seq<char>,
    redirect_uri: Seq<char>,
    digest: Seq<char>,
) -> Seq<char> {
    "https://discord.com/oauth2/authorize?client_id="@ + client_id + "&permissions="@
        + decimal_spec(BOT_PERMISSIONS as nat) + "&response_type=code&redirect_uri="@
        + percent_encode_spec(encode_utf8(redirect_uri)) + "&integration_type=0&scope=identify+bot&state="@
        + percent_encode_spec(encode_utf8(digest))
}

/// `Permissions::bits` of serenity, of its constants `SEND_MESSAGES`,
/// `SEND_MESSAGES_IN_THREADS` and `ATTACH_FILES`, in this order: bits 11, 38
/// and 15.
#[verifier::external_body]
fn requested_permission_bits() -> (bits: (u64, u64, u64))
    ensures
        bits.0 == SEND_MESSAGES,
        bits.1 == SEND_MESSAGES_IN_THREADS,
        bits.2 == ATTACH_FILES,
{
    (
        Permissions::SEND_MESSAGES.bits(),
        Permissions::SEND_MESSAGES_IN_THREADS.bits(),
        Permissions::ATTACH_FILES.bits(),
    )
}

/// `Permissions::from_bits_truncate` of serenity, and the bits of what it
/// returns: bits that name no permission are dropped. Claimed here: no bit is
/// added, and the three that the bot asks for are kept as they are.
#[verifier::external_body]
fn known_permission_bits(bits: u64) -> (known: u64)
    ensures
        known & bits == known,
        known & BOT_PERMISSIONS == bits & BOT_PERMISSIONS,
{
    Permissions::from_bits_truncate(bits).bits()
}

/// `urlencoding::encode`: percent-encodes every byte of the text's UTF-8 form
/// but ASCII letters, digits, `-`, `.`, `_` and `~`.
#[verifier::external_body]
fn percent_encode(text: &str) -> (encoded: String)
    ensures
        encoded@ == percent_encode_spec(text.spec_bytes()),
{
    urlencoding::encode(text).into_owned()
}

/// The permissions that the bot asks for, as one number.
pub fn bot_permissions() -> (bits: u64)
    ensures
        bits == BOT_PERMISSIONS,
{
    let (send, threads, attach) = requested_permission_bits();
    let asked = send | threads | attach;
    assert(0x800u64 | 0x40_0000_0000u64 | 0x8000u64 == 0x40_0000_8800u64) by (bit_vector);
    let known = known_permission_bits(asked);
    assert(known == asked) by (bit_vector)
        requires
            asked == 0x40_0000_8800u64,
            known & asked == known,
            known & 0x40_0000_8800u64 == asked & 0x40_0000_8800u64,
    ;
    known
}

/// The URL to which a sign-up is sent: the OAuth provider's authorisation
/// page, for this application and the permissions of the bot, which comes
/// back to `redirect_uri` with `digest` as its `state`.
pub fn get_auth_url(client_id: String, redirect_uri: String, digest: String) -> (url: String)
    ensures
        url@ == auth_url_spec(client_id@, redirect_uri@, digest@),
{
    let mut url = String::from_str("https://discord.com/oauth2/authorize?client_id=");
    url.append(client_id.as_str());
    url.append("&permissions=");
    push_decimal(&mut url, bot_permissions());
    url.append("&response_type=code&redirect_uri=");
    url.append(percent_encode(redirect_uri.as_str()).as_str());
    url.append("&integration_type=0&scope=identify+bot&state=");
    url.append(percent_encode(digest.as_str()).as_str());
    url
}

} // verus!

//! Microsoft account sign-in for the launcher: the stored accounts, the
//! OAuth browser callback, PKCE and the request texts. The network calls and
//! the keyring are left to the caller.
use vstd::prelude::*;

use crate::crypto::{
    base64_url_nopad, digest_sha256, lemma_base64_url_len, encode_base64_url, percent_encoded, random_byte, sha256,
    url_encode,
};
use crate::clock::unix_now;
use crate::search::{first_where, lemma_first_where, lemma_first_where_is};
use crate::text::{
    chars_of, first_line, first_line_of, index_of_from, lemma_index_of_from, nth_word, nth_word_from,
    same_chars, same_text, slice_chars, split_chars, split_on, string_of, views, find_char,
    decimal, decimal_string, hex_lower, hex_string,
};

verus! {

use vstd::string::StringSliceAdditionalSpecFns;
use vstd::string::StringExecFns;
use vstd::utf8::encode_utf8;

/// The launcher's application id with Microsoft.
pub const CLIENT_ID: &'static str = "b2dd2c0f-8a09-4549-9d76-ab43b8572695";

/// Where the browser is sent back after sign-in.
pub const REDIRECT_URI: &'static str = "http://localhost:25585";

/// The permissions asked for.
pub const SCOPE: &'static str = "XboxLive.signin offline_access";

/// How long a Minecraft access token is taken to stay valid, in seconds.
pub const TOKEN_LIFETIME_SECS: u64 = 86400;

/// A signed-in Minecraft account.
pub struct AuthAccount {
    pub username: String,
    pub uuid: String,
    pub access_token: String,
    pub expires_at: u64,
}

impl Clone for AuthAccount {
    fn clone(&self) -> (r: Self)
        ensures
            r == *self,
    {
        AuthAccount {
            username: self.username.clone(),
            uuid: self.uuid.clone(),
            access_token: self.access_token.clone(),
            expires_at: self.expires_at,
        }
    }
}

/// An account that can be used without signing in again at time `now`.
pub open spec fn restorable(uuid: Seq<char>, now: u64) -> spec_fn(AuthAccount) -> bool {
    |a: AuthAccount| a.uuid@ == uuid && a.expires_at > now
}

/// The stored accounts other than those with the given uuid, in order.
pub open spec fn without_uuid(accounts: Seq<AuthAccount>, uuid: Seq<char>) -> Seq<AuthAccount> {
    accounts.filter(|a: AuthAccount| a.uuid@ != uuid)
}

/// The first stored account with the given uuid whose token has not expired at `now`.
pub fn try_restore(accounts: &Vec<AuthAccount>, uuid: &str, now: u64) -> (r: Option<AuthAccount>)
    ensures
        first_where(accounts@, restorable(uuid@, now)) matches Some(k) ==> r == Some(accounts@[k]),
        first_where(accounts@, restorable(uuid@, now)) is None ==> r is None,
{
    let ghost p = restorable(uuid@, now);
    let mut i: usize = 0;
    while i < accounts.len()
        invariant
            i <= accounts.len(),
            p == restorable(uuid@, now),
            forall|j: int| 0 <= j < i ==> !p(accounts@[j]),
        decreases accounts.len() - i,
    {
        if same_text(accounts[i].uuid.as_str(), uuid) && accounts[i].expires_at > now {
            proof {
                lemma_first_where_is(accounts@, p, i as int);
            }
            return Some(accounts[i].clone());
        }
        i = i + 1;
    }
    proof {
        lemma_first_where(accounts@, p);
    }
    None
}

/// What `try_restore` gives at time `now`: the first stored account with the
/// uuid whose token has not expired at `now`, if any.
pub open spec fn restored_at(accounts: Seq<AuthAccount>, uuid: Seq<char>, now: u64) -> Option<AuthAccount> {
    match first_where(accounts, restorable(uuid, now)) {
        Some(k) => Some(accounts[k]),
        None => None,
    }
}

/// The first stored account with the given uuid whose token has not expired
/// by the system clock's current reading. The reading is not known, so the
/// result is stated as what `try_restore` gives at some time: an account
/// comes back only from the list and with that uuid, and none when no stored
/// account has that uuid.
pub fn restore_now(accounts: &Vec<AuthAccount>, uuid: &str) -> (r: Option<AuthAccount>)
    ensures
        exists|now: u64| r == #[trigger] restored_at(accounts@, uuid@, now),
        r matches Some(a) ==> accounts@.contains(a) && a.uuid@ == uuid@,
        (forall|j: int| 0 <= j < accounts@.len() ==> accounts@[j].uuid@ != uuid@) ==> r is None,
{
    let now = unix_now();
    let r = try_restore(accounts, uuid, now);
    proof {
        let p = restorable(uuid@, now);
        lemma_first_where(accounts@, p);
        if let Some(k) = first_where(accounts@, p) {
            lemma_first_where(accounts@, p);
            assert(accounts@.contains(accounts@[k]));
        }
        assert(r == restored_at(accounts@, uuid@, now));
    }
    r
}

/// The accounts without those sharing the given uuid.
fn filter_uuid(accounts: &Vec<AuthAccount>, uuid: &str) -> (r: Vec<AuthAccount>)
    ensures
        r@ == without_uuid(accounts@, uuid@),
{
    let mut kept: Vec<AuthAccount> = Vec::new();
    let mut i: usize = 0;
    while i < accounts.len()
        invariant
            i <= accounts.len(),
            kept@ == without_uuid(accounts@.take(i as int), uuid@),
        decreases accounts.len() - i,
    {
        proof {
            reveal_with_fuel(Seq::filter, 1);
            assert(accounts@.take(i + 1).drop_last() =~= accounts@.take(i as int));
        }
        if !same_text(accounts[i].uuid.as_str(), uuid) {
            kept.push(accounts[i].clone());
        }
        i = i + 1;
    }
    assert(accounts@.take(accounts.len() as int) =~= accounts@);
    kept
}

/// Stores an account, replacing any stored account with the same uuid; the
/// new account goes last.
pub fn save_account(accounts: &mut Vec<AuthAccount>, account: AuthAccount)
    ensures
        final(accounts)@ == without_uuid(old(accounts)@, account.uuid@).push(account),
{
    let uuid = account.uuid.clone();
    let mut kept = filter_uuid(accounts, uuid.as_str());
    kept.push(account);
    *accounts = kept;
}

/// Forgets every stored account with the given uuid.
pub fn remove_account(accounts: &mut Vec<AuthAccount>, uuid: &str)
    ensures
        final(accounts)@ == without_uuid(old(accounts)@, uuid@),
{
    let kept = filter_uuid(accounts, uuid);
    *accounts = kept;
}

/// The account made from a Minecraft profile and access token obtained at
/// `now`; it expires `TOKEN_LIFETIME_SECS` later.
pub fn new_account(username: String, uuid: String, access_token: String, now: u64) -> (a: AuthAccount)
    requires
        now <= u64::MAX - TOKEN_LIFETIME_SECS,
    ensures
        a.username == username,
        a.uuid == uuid,
        a.access_token == access_token,
        a.expires_at == now + TOKEN_LIFETIME_SECS,
{
    AuthAccount { username, uuid, access_token, expires_at: now + TOKEN_LIFETIME_SECS }
}

// ---------------------------------------------------------------------------
// The browser callback

/// Why a browser callback was not accepted.
#[derive(PartialEq, Eq, Structural, Clone, Copy, Debug)]
pub enum CallbackError {
    /// The request has no request line with a path.
    InvalidRequest,
    /// The path has no query.
    NoQuery,
    /// The query has no `state`.
    MissingState,
    /// The `state` is not the one sent.
    StateMismatch,
    /// The query has no `code`.
    MissingCode,
}

/// What a browser callback carries.
pub enum CallbackOutcome {
    /// The authorization code.
    Code(String),
    /// Microsoft reported an error; the description it gave.
    Denied(String),
    /// The callback is not usable.
    Rejected(CallbackError),
}

/// The contents of a `CallbackOutcome`.
pub enum CallbackView {
    Code(Seq<char>),
    Denied(Seq<char>),
    Rejected(CallbackError),
}

impl View for CallbackOutcome {
    type V = CallbackView;

    open spec fn view(&self) -> CallbackView {
        match self {
            CallbackOutcome::Code(c) => CallbackView::Code(c@),
            CallbackOutcome::Denied(d) => CallbackView::Denied(d@),
            CallbackOutcome::Rejected(e) => CallbackView::Rejected(*e),
        }
    }
}

/// The value of the last `key=value` piece with the given key, as a map
/// collected from the pieces in order holds it.
pub open spec fn param_value(pieces: Seq<Seq<char>>, key: Seq<char>) -> Option<Seq<char>>
    decreases pieces.len(),
{
    if pieces.len() == 0 {
        None
    } else {
        let p = pieces.last();
        let j = index_of_from(p, '=', 0);
        if j < p.len() && p.take(j) == key {
            Some(p.skip(j + 1))
        } else {
            param_value(pieces.drop_last(), key)
        }
    }
}

/// What a browser callback request carries, given the `state` that was sent:
/// the path is the second word of the first line, the query follows its first
/// `?` up to the next one, and the query's `&`-separated `key=value` pieces
/// are looked up by key, later pieces winning. An `error` key means denial,
/// described by `error_description` or else by the error itself.
pub open spec fn callback_view(request: Seq<char>, expected_state: Seq<char>) -> CallbackView {
    match first_line(request) {
        None => CallbackView::Rejected(CallbackError::InvalidRequest),
        Some(line) => match nth_word_from(line, 0, 1) {
            None => CallbackView::Rejected(CallbackError::InvalidRequest),
            Some(path) => {
                let parts = split_on(path, '?');
                if parts.len() < 2 {
                    CallbackView::Rejected(CallbackError::NoQuery)
                } else {
                    let q = split_on(parts[1], '&');
                    match param_value(q, "error"@) {
                        Some(e) => CallbackView::Denied(
                            match param_value(q, "error_description"@) {
                                Some(d) => d,
                                None => e,
                            },
                        ),
                        None => match param_value(q, "state"@) {
                            None => CallbackView::Rejected(CallbackError::MissingState),
                            Some(st) => if st != expected_state {
                                CallbackView::Rejected(CallbackError::StateMismatch)
                            } else {
                                match param_value(q, "code"@) {
                                    None => CallbackView::Rejected(CallbackError::MissingCode),
                                    Some(c) => CallbackView::Code(c),
                                }
                            },
                        },
                    }
                }
            },
        },
    }
}

/// `param_value`, computed.
fn lookup_param(pieces: &Vec<Vec<char>>, key: &[char]) -> (r: Option<Vec<char>>)
    ensures
        match param_value(views(pieces@), key@) {
            Some(v) => r is Some && r->0@ == v,
            None => r is None,
        },
{
    let mut found: Option<Vec<char>> = None;
    let mut k: usize = 0;
    while k < pieces.len()
        invariant
            k <= pieces.len(),
            match param_value(views(pieces@).take(k as int), key@) {
                Some(v) => found is Some && found->0@ == v,
                None => found is None,
            },
        decreases pieces.len() - k,
    {
        let p = &pieces[k];
        let j = find_char(p.as_slice(), '=', 0);
        proof {
            lemma_index_of_from(p@, '=', 0);
            assert(views(pieces@).take(k + 1).drop_last() =~= views(pieces@).take(k as int));
            assert(views(pieces@).take(k + 1).last() == p@);
        }
        if j < p.len() {
            let name = slice_chars(p.as_slice(), 0, j);
            assert(name@ == p@.take(j as int));
            if same_chars(name.as_slice(), key) {
                let value = slice_chars(p.as_slice(), j + 1, p.len());
                assert(value@ == p@.skip(j + 1));
                found = Some(value);
            }
        }
        k = k + 1;
    }
    assert(views(pieces@).take(pieces.len() as int) =~= views(pieces@));
    found
}

/// Reads a browser callback request: the authorization code, a denial, or
/// the reason it is not usable.
pub fn parse_callback(request: &str, expected_state: &str) -> (r: CallbackOutcome)
    ensures
        r@ == callback_view(request@, expected_state@),
{
    let chars = chars_of(request);
    let line = match first_line_of(chars.as_slice()) {
        None => return CallbackOutcome::Rejected(CallbackError::InvalidRequest),
        Some(l) => l,
    };
    let path = match nth_word(line.as_slice(), 1) {
        None => return CallbackOutcome::Rejected(CallbackError::InvalidRequest),
        Some(p) => p,
    };
    let parts = split_chars(path.as_slice(), '?');
    if parts.len() < 2 {
        return CallbackOutcome::Rejected(CallbackError::NoQuery);
    }
    assert(views(parts@)[1] == parts@[1]@);
    let q = split_chars(parts[1].as_slice(), '&');
    let error_key = chars_of("error");
    if let Some(e) = lookup_param(&q, error_key.as_slice()) {
        let desc_key = chars_of("error_description");
        let desc = match lookup_param(&q, desc_key.as_slice()) {
            Some(d) => d,
            None => e,
        };
        return CallbackOutcome::Denied(string_of(desc.as_slice()));
    }
    let state_key = chars_of("state");
    let state = match lookup_param(&q, state_key.as_slice()) {
        None => return CallbackOutcome::Rejected(CallbackError::MissingState),
        Some(s) => s,
    };
    let expected = chars_of(expected_state);
    if !same_chars(state.as_slice(), expected.as_slice()) {
        return CallbackOutcome::Rejected(CallbackError::StateMismatch);
    }
    let code_key = chars_of("code");
    match lookup_param(&q, code_key.as_slice()) {
        None => CallbackOutcome::Rejected(CallbackError::MissingCode),
        Some(c) => CallbackOutcome::Code(string_of(c.as_slice())),
    }
}

impl CallbackError {
    /// The error text the sign-in reports for this reason.
    pub fn message(&self) -> (m: String)
        ensures
            m@ == match *self {
                CallbackError::InvalidRequest => "Invalid HTTP request"@,
                CallbackError::NoQuery => "No query params"@,
                CallbackError::MissingState => "Missing state"@,
                CallbackError::StateMismatch => "State mismatch"@,
                CallbackError::MissingCode => "Missing auth code"@,
            },
    {
        match self {
            CallbackError::InvalidRequest => String::from_str("Invalid HTTP request"),
            CallbackError::NoQuery => String::from_str("No query params"),
            CallbackError::MissingState => String::from_str("Missing state"),
            CallbackError::StateMismatch => String::from_str("State mismatch"),
            CallbackError::MissingCode => String::from_str("Missing auth code"),
        }
    }
}

/// The page shown in the browser when Microsoft denied the sign-in.
pub fn denial_page(description: &str) -> (p: String)
    ensures
        p@ == "Authentication failed: "@ + description@,
{
    let mut p = String::from_str("Authentication failed: ");
    p.append(description);
    p
}

/// The error text of a sign-in that Microsoft denied.
pub fn denial_error(description: &str) -> (e: String)
    ensures
        e@ == "OAuth error: "@ + description@,
{
    let mut e = String::from_str("OAuth error: ");
    e.append(description);
    e
}

/// The page shown in the browser after a successful sign-in.
pub fn success_page() -> (p: String)
    ensures
        p@ == "Signed in successfully! You can close this tab."@,
{
    String::from_str("Signed in successfully! You can close this tab.")
}

/// The reason phrase sent with a status code: `OK` for 200, otherwise `Bad Request`.
pub open spec fn status_text(status: u16) -> Seq<char> {
    if status == 200 {
        "OK"@
    } else {
        "Bad Request"@
    }
}

/// The HTTP response the callback listener writes back to the browser.
pub open spec fn http_response_text(status: u16, body: Seq<char>, body_len: nat) -> Seq<char> {
    "HTTP/1.1 "@ + decimal(status as nat) + " "@ + status_text(status)
        + "\r\nContent-Type: text/html\r\nContent-Length: "@ + decimal(body_len)
        + "\r\nConnection: close\r\n\r\n"@ + body
}

/// The complete HTTP response for a status and an HTML body; the length
/// header counts the body's UTF-8 bytes.
pub fn http_response(status: u16, body: &str) -> (r: String)
    ensures
        r@ == http_response_text(status, body@, body.len() as nat),
{
    let mut r = String::from_str("HTTP/1.1 ");
    let code = decimal_string(status as u64);
    r.append(code.as_str());
    r.append(" ");
    if status == 200 {
        r.append("OK");
    } else {
        r.append("Bad Request");
    }
    r.append("\r\nContent-Type: text/html\r\nContent-Length: ");
    let len = decimal_string(body.len() as u64);
    r.append(len.as_str());
    r.append("\r\nConnection: close\r\n\r\n");
    r.append(body);
    r
}

/// The Microsoft sign-in address that the browser is sent to.
pub open spec fn authorize_url_text(state: Seq<char>, challenge: Seq<char>) -> Seq<char> {
    "https://login.microsoftonline.com/consumers/oauth2/v2.0/authorize?client_id="@ + CLIENT_ID@
        + "&response_type=code&redirect_uri="@ + REDIRECT_URI@ + "&scope="@
        + percent_encoded(SCOPE.spec_bytes()) + "&state="@ + state + "&code_challenge="@ + challenge
        + "&code_challenge_method=S256"@
}

/// The Microsoft sign-in address for a state and PKCE challenge.
pub fn authorize_url(state: &str, challenge: &str) -> (u: String)
    ensures
        u@ == authorize_url_text(state@, challenge@),
{
    let mut u = String::from_str("https://login.microsoftonline.com/consumers/oauth2/v2.0/authorize?client_id=");
    u.append(CLIENT_ID);
    u.append("&response_type=code&redirect_uri=");
    u.append(REDIRECT_URI);
    u.append("&scope=");
    let scope = url_encode(SCOPE);
    u.append(scope.as_str());
    u.append("&state=");
    u.append(state);
    u.append("&code_challenge=");
    u.append(challenge);
    u.append("&code_challenge_method=S256");
    u
}

/// The PKCE challenge for a verifier: the URL-safe base64 of the SHA-256 of its UTF-8 bytes.
pub open spec fn challenge_of(verifier: Seq<char>) -> Seq<char> {
    base64_url_nopad(sha256(encode_utf8(verifier)))
}

/// The PKCE challenge for a verifier.
pub fn pkce_challenge(verifier: &str) -> (c: String)
    ensures
        c@ == challenge_of(verifier@),
{
    let digest = digest_sha256(verifier.as_bytes());
    encode_base64_url(digest.as_slice())
}

fn random_bytes(n: usize) -> (v: Vec<u8>)
    ensures
        v@.len() == n,
{
    let mut v: Vec<u8> = Vec::new();
    let mut i: usize = 0;
    while i < n
        invariant
            i <= n,
            v@.len() == i,
        decreases n - i,
    {
        v.push(random_byte());
        i = i + 1;
    }
    v
}

/// A fresh PKCE pair `(verifier, challenge)`: the verifier is the URL-safe
/// base64 of 32 random bytes and the challenge is derived from it.
pub fn generate_pkce() -> (r: (String, String))
    ensures
        exists|b: Seq<u8>| b.len() == 32 && #[trigger] base64_url_nopad(b) == r.0@,
        r.0@.len() == 43,
        r.1@ == challenge_of(r.0@),
{
    let bytes = random_bytes(32);
    let verifier = encode_base64_url(bytes.as_slice());
    proof {
        lemma_base64_url_len(bytes@);
    }
    let challenge = pkce_challenge(verifier.as_str());
    (verifier, challenge)
}

/// A fresh OAuth `state`: 16 random bytes as 32 lower-case hex digits.
pub fn random_state() -> (s: String)
    ensures
        exists|b: Seq<u8>| b.len() == 16 && #[trigger] hex_lower(b) == s@,
{
    let bytes = random_bytes(16);
    hex_string(bytes.as_slice())
}

/// The Xbox Live ticket made from a Microsoft access token.
pub fn rps_ticket(msa_token: &str) -> (t: String)
    ensures
        t@ == "d="@ + msa_token@,
{
    let mut t = String::from_str("d=");
    t.append(msa_token);
    t
}

/// The identity token that logs in to Minecraft with Xbox credentials.
pub fn identity_token(user_hash: &str, xsts_token: &str) -> (t: String)
    ensures
        t@ == "XBL3.0 x="@ + user_hash@ + ";"@ + xsts_token@,
{
    let mut t = String::from_str("XBL3.0 x=");
    t.append(user_hash);
    t.append(";");
    t.append(xsts_token);
    t
}

/// A saved account whose token is still valid at `now` is the one restored by its uuid.
pub proof fn law_save_then_restore(accounts: Seq<AuthAccount>, account: AuthAccount, now: u64)
    requires
        account.expires_at > now,
    ensures
        ({
            let saved = without_uuid(accounts, account.uuid@).push(account);
            first_where(saved, restorable(account.uuid@, now)) == Some(saved.len() - 1)
        }),
{
    let kept = without_uuid(accounts, account.uuid@);
    let saved = kept.push(account);
    let p = restorable(account.uuid@, now);
    assert forall|j: int| 0 <= j < saved.len() - 1 implies !p(saved[j]) by {
        assert(saved[j] == kept[j]);
        assert(kept.contains(kept[j]));
    }
    lemma_first_where_is(saved, p, saved.len() - 1);
}

/// After saving, exactly one stored account has the saved account's uuid.
pub proof fn law_save_keeps_one_per_uuid(accounts: Seq<AuthAccount>, account: AuthAccount)
    ensures
        ({
            let saved = without_uuid(accounts, account.uuid@).push(account);
            forall|j: int| 0 <= j < saved.len() && saved[j].uuid@ == account.uuid@ ==> j == saved.len() - 1
        }),
{
    let kept = without_uuid(accounts, account.uuid@);
    let saved = kept.push(account);
    assert forall|j: int| 0 <= j < saved.len() && saved[j].uuid@ == account.uuid@ implies j == saved.len() - 1 by {
        if j < saved.len() - 1 {
            assert(saved[j] == kept[j]);
            assert(kept.contains(kept[j]));
        }
    }
}

/// A removed account is never restored.
pub proof fn law_remove_then_restore(accounts: Seq<AuthAccount>, uuid: Seq<char>, now: u64)
    ensures
        first_where(without_uuid(accounts, uuid), restorable(uuid, now)) is None,
{
    let kept = without_uuid(accounts, uuid);
    let p = restorable(uuid, now);
    assert forall|i: int| 0 <= i < kept.len() implies !p(kept[i]) by {
        assert(kept.contains(kept[i]));
    }
    lemma_first_where(kept, p);
}

/// A callback yields an authorization code only when it carries the state
/// that was sent and no error.
pub proof fn law_code_needs_matching_state(request: Seq<char>, expected_state: Seq<char>)
    ensures
        callback_view(request, expected_state) is Code ==> ({
            let line = first_line(request)->0;
            let path = nth_word_from(line, 0, 1)->0;
            let q = split_on(split_on(path, '?')[1], '&');
            &&& param_value(q, "state"@) == Some(expected_state)
            &&& param_value(q, "error"@) is None
        }),
{
}

} // verus!

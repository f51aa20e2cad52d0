//! Browser OAuth (PKCE) login: the authorize URL, the in-flight login table
//! keyed by the CSRF `state`, the token requests and how their answers update
//! the config.

use vstd::prelude::*;
use vstd::utf8::encode_utf8;
use crate::ai::{auth_oauth, AiConfig, AiOAuthMeta};
use crate::registry::Registry;
use crate::crypto::{
    b64_url, b64_url_encode, random_bytes, sha256, sha256_digest, url_safe_char, url_safe_text,
};
use crate::text::{
    concat, contains, is_blank, opt_view, push_ch, push_str, str_contains, str_eq, to_chars, trim,
    trim_str,
};

verus! {

// ---------------------------------------------------------------------------
// percent-encoding
// ---------------------------------------------------------------------------

/// RFC 3986 unreserved bytes: `A-Z a-z 0-9 - _ . ~`.
pub open spec fn unreserved(b: u8) -> bool {
    (65 <= b && b <= 90) || (97 <= b && b <= 122) || (48 <= b && b <= 57) || b == 45 || b == 95
        || b == 46 || b == 126
}

/// Upper-case hexadecimal digit for `d < 16`.
pub open spec fn hex_digit(d: u8) -> char {
    if d < 10 {
        (48 + d) as char
    } else {
        (55 + d) as char
    }
}

/// One byte percent-encoded: unreserved bytes stand for themselves, others
/// become `%XX`.
pub open spec fn enc_byte(b: u8) -> Seq<char> {
    if unreserved(b) {
        seq![b as char]
    } else {
        seq!['%', hex_digit(b / 16), hex_digit(b % 16)]
    }
}

/// Percent-encoding of a byte sequence.
pub open spec fn qenc_bytes(bs: Seq<u8>) -> Seq<char>
    decreases bs.len(),
{
    if bs.len() == 0 {
        Seq::empty()
    } else {
        qenc_bytes(bs.drop_last()) + enc_byte(bs.last())
    }
}

/// Percent-encoding of a string's UTF-8 bytes.
pub open spec fn qenc_spec(s: Seq<char>) -> Seq<char> {
    qenc_bytes(encode_utf8(s))
}

/// URL-safe base64 characters are single UTF-8 bytes of the same value.
proof fn lemma_encode_url_safe(s: Seq<char>)
    requires
        url_safe_text(s),
    ensures
        encode_utf8(s) =~= s.map_values(|c: char| c as u8),
    decreases s.len(),
{
    if s.len() > 0 {
        let c = s[0];
        assert(url_safe_char(c));
        let v = c as u32;
        assert(v <= 0x7F);
        assert(v & 0x7F == v) by (bit_vector)
            requires
                v <= 0x7F,
        ;
        let t = s.drop_first();
        assert forall|i: int| 0 <= i < t.len() implies url_safe_char(#[trigger] t[i]) by {
            assert(t[i] == s[i + 1]);
        }
        lemma_encode_url_safe(t);
    }
}

/// Percent-encoding leaves unreserved bytes as they are.
proof fn lemma_qenc_unreserved(bs: Seq<u8>)
    requires
        forall|i: int| 0 <= i < bs.len() ==> unreserved(#[trigger] bs[i]),
    ensures
        qenc_bytes(bs) =~= bs.map_values(|b: u8| b as char),
    decreases bs.len(),
{
    if bs.len() > 0 {
        let t = bs.drop_last();
        assert forall|i: int| 0 <= i < t.len() implies unreserved(#[trigger] t[i]) by {
            assert(t[i] == bs[i]);
        }
        lemma_qenc_unreserved(t);
        assert(unreserved(bs.last()));
    }
}

/// Percent-encoding leaves URL-safe base64 text unchanged.
pub proof fn lemma_qenc_url_safe(s: Seq<char>)
    requires
        url_safe_text(s),
    ensures
        qenc_spec(s) == s,
{
    lemma_encode_url_safe(s);
    let bs = s.map_values(|c: char| c as u8);
    assert forall|i: int| 0 <= i < bs.len() implies unreserved(#[trigger] bs[i]) by {
        assert(url_safe_char(s[i]));
    }
    lemma_qenc_unreserved(bs);
    assert forall|i: int| 0 <= i < s.len() implies #[trigger] qenc_spec(s)[i] == s[i] by {
        assert(url_safe_char(s[i]));
        assert(bs[i] == s[i] as u8);
    }
    assert(qenc_spec(s) =~= s);
}

fn hex_char(d: u8) -> (c: char)
    requires
        d < 16,
    ensures
        c == hex_digit(d),
{
    if d < 10 {
        (48 + d) as char
    } else {
        (55 + d) as char
    }
}

/// Minimal percent-encoding for OAuth query parameters.
pub fn qenc(s: &str) -> (r: String)
    ensures
        r@ == qenc_spec(s@),
{
    let bytes = s.as_bytes();
    let mut o = String::new();
    let mut i: usize = 0;
    while i < bytes.len()
        invariant
            i <= bytes@.len(),
            bytes@ == encode_utf8(s@),
            o@ == qenc_bytes(bytes@.take(i as int)),
        decreases bytes@.len() - i,
    {
        let b = bytes[i];
        let ghost t1 = bytes@.take(i as int + 1);
        assert(t1.drop_last() == bytes@.take(i as int));
        if (65 <= b && b <= 90) || (97 <= b && b <= 122) || (48 <= b && b <= 57) || b == 45 || b
            == 95 || b == 46 || b == 126 {
            push_ch(&mut o, b as char);
        } else {
            push_ch(&mut o, '%');
            push_ch(&mut o, hex_char(b / 16));
            push_ch(&mut o, hex_char(b % 16));
            assert(seq!['%', hex_digit(b / 16), hex_digit(b % 16)] =~= seq!['%'].push(
                hex_digit(b / 16),
            ).push(hex_digit(b % 16)));
        }
        i = i + 1;
    }
    assert(bytes@.take(bytes@.len() as int) == bytes@);
    o
}

// ---------------------------------------------------------------------------
// in-flight logins
// ---------------------------------------------------------------------------

/// An in-flight OAuth login, remembered until the provider redirects back.
pub struct PendingOAuth {
    pub verifier: String,
    pub client_id: String,
    pub client_secret: String,
    pub token_url: String,
    pub redirect_uri: String,
    pub scope: String,
    /// `standard` or `openrouter`.
    pub flow: String,
}

/// In-flight logins keyed by their CSRF `state`.
pub struct PendingOAuthStore {
    entries: Registry<PendingOAuth>,
}

impl PendingOAuthStore {
    /// The pending logins by state.
    pub closed spec fn view(&self) -> Map<Seq<char>, PendingOAuth> {
        self.entries.view()
    }

    /// The table is well formed.
    pub closed spec fn wf(&self) -> bool {
        self.entries.wf()
    }

    /// An empty table.
    pub fn new() -> (r: Self)
        ensures
            r.wf(),
            r.view() == Map::<Seq<char>, PendingOAuth>::empty(),
    {
        PendingOAuthStore { entries: Registry::new() }
    }

    /// Number of pending logins.
    pub fn len(&self) -> (n: usize)
        requires
            self.wf(),
        ensures
            n == self.view().dom().len(),
    {
        self.entries.len()
    }

    /// Remember a login under `state`, replacing one with the same state.
    pub fn insert(&mut self, state: String, p: PendingOAuth)
        requires
            old(self).wf(),
        ensures
            final(self).wf(),
            final(self).view() == old(self).view().insert(state@, p),
    {
        self.entries.insert(state, p);
    }

    /// Take the login a callback completes: the one under `state`; when the
    /// state is unknown but exactly one login is in flight (OpenRouter does
    /// not echo `state`), that one; otherwise an error. A taken login is gone.
    pub fn take(&mut self, state: &str) -> (r: Result<PendingOAuth, String>)
        requires
            old(self).wf(),
        ensures
            final(self).wf(),
            old(self).view().contains_key(state@) ==> r == Ok::<PendingOAuth, String>(old(self).view()[state@])
                && final(self).view() == old(self).view().remove(state@),
            !old(self).view().contains_key(state@) && old(self).view().dom().len() == 1 ==> (r matches Ok(p) && exists|k: Seq<char>|
                old(self).view().dom() == set![k] && old(self).view()[k] == p) && final(self).view().dom().len() == 0,
            !old(self).view().contains_key(state@) && old(self).view().dom().len() != 1 ==> (r matches Err(e) && e@ == "unknown or expired OAuth state"@)
                && final(self).view() == old(self).view(),
    {
        match self.entries.remove(state) {
            Some(p) => Ok(p),
            None => {
                assert(old(self).view().remove(state@) =~= old(self).view());
                match self.entries.take_single() {
                    Some(kv) => {
                        let (k, p) = kv;
                        proof {
                            assert(old(self).view().remove(state@) =~= old(self).view());
                            assert(old(self).view().dom() == set![k@] && old(self).view()[k@] == p);
                            assert(self.view().dom() =~= Set::<Seq<char>>::empty());
                        }
                        Ok(p)
                    },
                    None => Err("unknown or expired OAuth state".to_owned()),
                }
            },
        }
    }
}

/// A login remembered by `begin_oauth` is what the callback with its state
/// takes, and it can be taken only once.
pub proof fn law_callback_takes_its_login(
    before: Map<Seq<char>, PendingOAuth>,
    state: Seq<char>,
    p: PendingOAuth,
)
    ensures
        before.insert(state, p).contains_key(state),
        before.insert(state, p)[state] == p,
        !before.insert(state, p).remove(state).contains_key(state),
{
}

// ---------------------------------------------------------------------------
// starting a login
// ---------------------------------------------------------------------------

/// Why a login cannot start, if it cannot.
pub open spec fn oauth_setup_error(o: AiOAuthMeta) -> Option<Seq<char>> {
    let need_client_id = trim(o.flow@) != "openrouter"@;
    if trim(o.auth_url@).len() == 0 || trim(o.token_url@).len() == 0 || (need_client_id && trim(
        o.client_id@,
    ).len() == 0) {
        Some("OAuth not configured: set Auth URL, Token URL and Client ID in AI settings first"@)
    } else if trim(o.redirect_uri@).len() == 0 {
        Some("OAuth redirect URI is required (use the auto-filled one in settings)"@)
    } else {
        None
    }
}

/// The provider authorize URL for a login with this challenge and state.
pub open spec fn authorize_url(o: AiOAuthMeta, challenge: Seq<char>, state: Seq<char>) -> Seq<char> {
    let sep = if o.auth_url@.contains('?') {
        "&"@
    } else {
        "?"@
    };
    if trim(o.flow@) == "openrouter"@ {
        o.auth_url@ + sep + "callback_url="@ + qenc_spec(o.redirect_uri@) + "&code_challenge="@
            + qenc_spec(challenge) + "&code_challenge_method=S256"@
    } else {
        o.auth_url@ + sep + "response_type=code&client_id="@ + qenc_spec(o.client_id@)
            + "&redirect_uri="@ + qenc_spec(o.redirect_uri@) + "&state="@ + qenc_spec(state)
            + "&code_challenge="@ + qenc_spec(challenge) + "&code_challenge_method=S256"@ + (if trim(
            o.scope@,
        ).len() > 0 {
            "&scope="@ + qenc_spec(o.scope@)
        } else {
            Seq::empty()
        }) + if contains(o.auth_url@, "accounts.google.com"@) {
            "&access_type=offline&prompt=consent"@
        } else {
            Seq::empty()
        }
    }
}

/// The PKCE challenge for a verifier: URL-safe base64 of its SHA-256.
pub open spec fn pkce_challenge_spec(verifier: Seq<char>) -> Seq<char> {
    b64_url(sha256(encode_utf8(verifier)))
}

/// The PKCE challenge for a verifier: 43 URL-safe characters.
pub fn pkce_challenge(verifier: &str) -> (r: String)
    ensures
        r@ == pkce_challenge_spec(verifier@),
        r@.len() == 43,
        url_safe_text(r@),
{
    let d = sha256_digest(verifier.as_bytes());
    proof {
        crate::crypto::lemma_b64_digits(d@, true);
    }
    b64_url_encode(d.as_slice())
}

/// Result of starting a login: the URL to open and the state to expect back.
pub struct AiOAuthBegin {
    pub authorize_url: String,
    pub state: String,
}

/// Why a login cannot start.
pub fn oauth_setup_check(o: &AiOAuthMeta) -> (r: Option<String>)
    ensures
        opt_view(r) == oauth_setup_error(*o),
{
    let need_client_id = !str_eq(trim_str(o.flow.as_str()).as_str(), "openrouter");
    if is_blank(o.auth_url.as_str()) || is_blank(o.token_url.as_str()) || (need_client_id
        && is_blank(o.client_id.as_str())) {
        return Some(
            "OAuth not configured: set Auth URL, Token URL and Client ID in AI settings first".to_owned(),
        );
    }
    if is_blank(o.redirect_uri.as_str()) {
        return Some("OAuth redirect URI is required (use the auto-filled one in settings)".to_owned());
    }
    None
}

/// The login a successful start remembers.
pub open spec fn pending_for(o: AiOAuthMeta, verifier: Seq<char>, p: PendingOAuth) -> bool {
    &&& p.verifier@ == verifier
    &&& p.client_id@ == o.client_id@
    &&& p.client_secret@ == o.client_secret@
    &&& p.token_url@ == o.token_url@
    &&& p.redirect_uri@ == o.redirect_uri@
    &&& p.scope@ == o.scope@
    &&& p.flow@ == if trim(o.flow@) == "openrouter"@ {
        "openrouter"@
    } else {
        "standard"@
    }
}

/// Start a login with the given random verifier and state bytes: check the
/// OAuth settings, derive the PKCE verifier, challenge and state, build the
/// authorize URL and remember the login under its state.
pub fn begin_oauth_with(
    o: &AiOAuthMeta,
    verifier_bytes: &[u8],
    state_bytes: &[u8],
    store: &mut PendingOAuthStore,
) -> (r: Result<AiOAuthBegin, String>)
    requires
        old(store).wf(),
        verifier_bytes@.len() == 48,
        state_bytes@.len() == 24,
    ensures
        final(store).wf(),
        match oauth_setup_error(*o) {
            Some(e) => r matches Err(x) && x@ == e && final(store).view() == old(store).view(),
            None => r matches Ok(b) && {
                let verifier = b64_url(verifier_bytes@);
                &&& b.state@ == b64_url(state_bytes@)
                &&& b.authorize_url@ == authorize_url(*o, pkce_challenge_spec(verifier), b.state@)
                // state and challenge are URL-safe, so the URL carries them as they are
                &&& b.state@.len() == 32 && url_safe_text(b.state@) && qenc_spec(b.state@) == b.state@
                &&& pkce_challenge_spec(verifier).len() == 43
                &&& qenc_spec(pkce_challenge_spec(verifier)) == pkce_challenge_spec(verifier)
                &&& final(store).view().dom() == old(store).view().dom().insert(b.state@)
                &&& pending_for(*o, verifier, final(store).view()[b.state@])
                &&& forall|k: Seq<char>| k != b.state@ && old(store).view().contains_key(k) ==> #[trigger] final(store).view()[k] == old(store).view()[k]
            },
        },
{
    if let Some(e) = oauth_setup_check(o) {
        return Err(e);
    }
    proof {
        crate::crypto::lemma_b64_digits(verifier_bytes@, true);
        crate::crypto::lemma_b64_digits(state_bytes@, true);
    }
    let verifier = b64_url_encode(verifier_bytes);
    let challenge = pkce_challenge(verifier.as_str());
    let state = b64_url_encode(state_bytes);
    proof {
        lemma_qenc_url_safe(state@);
        lemma_qenc_url_safe(challenge@);
    }
    let openrouter = str_eq(trim_str(o.flow.as_str()).as_str(), "openrouter");
    let sep = if crate::text::find_char(&to_chars(o.auth_url.as_str()), '?').is_some() {
        "&"
    } else {
        "?"
    };
    proof {
        crate::text::lemma_first_index_of(o.auth_url@, '?');
        if o.auth_url@.contains('?') {
            let i = choose|i: int| 0 <= i < o.auth_url@.len() && o.auth_url@[i] == '?';
        }
    }
    let mut url = o.auth_url.clone();
    push_str(&mut url, sep);
    if openrouter {
        push_str(&mut url, "callback_url=");
        push_str(&mut url, qenc(o.redirect_uri.as_str()).as_str());
        push_str(&mut url, "&code_challenge=");
        push_str(&mut url, qenc(challenge.as_str()).as_str());
        push_str(&mut url, "&code_challenge_method=S256");
    } else {
        push_str(&mut url, "response_type=code&client_id=");
        push_str(&mut url, qenc(o.client_id.as_str()).as_str());
        push_str(&mut url, "&redirect_uri=");
        push_str(&mut url, qenc(o.redirect_uri.as_str()).as_str());
        push_str(&mut url, "&state=");
        push_str(&mut url, qenc(state.as_str()).as_str());
        push_str(&mut url, "&code_challenge=");
        push_str(&mut url, qenc(challenge.as_str()).as_str());
        push_str(&mut url, "&code_challenge_method=S256");
        let ghost u0 = url@;
        if !is_blank(o.scope.as_str()) {
            push_str(&mut url, "&scope=");
            push_str(&mut url, qenc(o.scope.as_str()).as_str());
        } else {
            assert(u0 + Seq::<char>::empty() == u0);
        }
        let ghost u1 = url@;
        if str_contains(o.auth_url.as_str(), "accounts.google.com") {
            push_str(&mut url, "&access_type=offline&prompt=consent");
        } else {
            assert(u1 + Seq::<char>::empty() == u1);
        }
    }
    assert(url@ =~= authorize_url(*o, challenge@, state@));
    let pending = PendingOAuth {
        verifier: verifier,
        client_id: o.client_id.clone(),
        client_secret: o.client_secret.clone(),
        token_url: o.token_url.clone(),
        redirect_uri: o.redirect_uri.clone(),
        scope: o.scope.clone(),
        flow: if openrouter {
            "openrouter".to_owned()
        } else {
            "standard".to_owned()
        },
    };
    let ghost pv = pending;
    store.insert(state.clone(), pending);
    assert(store.view().dom() =~= old(store).view().dom().insert(state@));
    Ok(AiOAuthBegin { authorize_url: url, state })
}

/// Start a browser-based OAuth (PKCE) login from the saved OAuth settings:
/// fresh random verifier (48 bytes) and state (24 bytes), then
/// [`begin_oauth_with`]. A failing random source is reported as `rng: ...`.
pub fn begin_oauth(cfg: &AiConfig, store: &mut PendingOAuthStore) -> (r: Result<AiOAuthBegin, String>)
    requires
        old(store).wf(),
    ensures
        final(store).wf(),
        oauth_setup_error(cfg.oauth) matches Some(e) ==> (r matches Err(x) && x@ == e) && final(store).view() == old(store).view(),
        r matches Ok(b) ==> oauth_setup_error(cfg.oauth) is None && exists|vb: Seq<u8>, sb: Seq<u8>|
            vb.len() == 48 && sb.len() == 24 && b.state@ == b64_url(sb) && b.authorize_url@
                == authorize_url(cfg.oauth, pkce_challenge_spec(b64_url(vb)), b.state@)
                && pending_for(cfg.oauth, b64_url(vb), final(store).view()[b.state@])
                && pkce_challenge_spec(b64_url(vb)).len() == 43 && qenc_spec(
                pkce_challenge_spec(b64_url(vb)),
            ) == pkce_challenge_spec(b64_url(vb)),
        // the state is 32 URL-safe characters, which the URL carries unchanged
        r matches Ok(b) ==> b.state@.len() == 32 && url_safe_text(b.state@) && qenc_spec(b.state@)
            == b.state@,
        r matches Ok(b) ==> final(store).view().dom() == old(store).view().dom().insert(b.state@),
        r is Err && oauth_setup_error(cfg.oauth) is None ==> final(store).view() == old(store).view(),
        // with complete settings, only the random source can fail
        oauth_setup_error(cfg.oauth) is None ==> (r matches Err(e) ==> exists|m: Seq<char>| e@ == "rng: "@ + m),
{
    if let Some(e) = oauth_setup_check(&cfg.oauth) {
        return Err(e);
    }
    let vb = match random_bytes(48) {
        Ok(v) => v,
        Err(e) => {
            let msg = concat("rng: ", e.as_str());
            assert(msg@ == "rng: "@ + e@);
            return Err(msg);
        },
    };
    let sb = match random_bytes(24) {
        Ok(v) => v,
        Err(e) => {
            let msg = concat("rng: ", e.as_str());
            assert(msg@ == "rng: "@ + e@);
            return Err(msg);
        },
    };
    begin_oauth_with(&cfg.oauth, vb.as_slice(), sb.as_slice(), store)
}

// ---------------------------------------------------------------------------
// token requests
// ---------------------------------------------------------------------------

/// A name/value pair of a request body.
pub type Field = (String, String);

/// The view of a list of fields.
pub open spec fn fields_view(fs: Seq<Field>) -> Seq<(Seq<char>, Seq<char>)> {
    fs.map_values(|f: Field| (f.0@, f.1@))
}

/// A request to a token endpoint.
pub enum TokenRequest {
    /// POST a JSON object with these members (OpenRouter's key exchange).
    Json { url: String, fields: Vec<Field> },
    /// POST these fields as one URL-encoded form, accepting JSON.
    Form { url: String, fields: Vec<Field> },
}

fn field(k: &str, v: &str) -> (f: Field)
    ensures
        f.0@ == k@,
        f.1@ == v@,
{
    (k.to_owned(), v.to_owned())
}

/// The field that carries a client secret: none when the secret is empty.
pub open spec fn secret_fields(secret: Seq<char>) -> Seq<(Seq<char>, Seq<char>)> {
    if secret.len() > 0 {
        seq![("client_secret"@, secret)]
    } else {
        seq![]
    }
}

/// Append the client secret to a form when one is configured.
fn push_secret(fields: &mut Vec<Field>, secret: &String)
    ensures
        fields_view(final(fields)@) == fields_view(old(fields)@) + secret_fields(secret@),
{
    let ghost before = fields_view(fields@);
    if !secret.as_str().is_empty() {
        fields.push(field("client_secret", secret.as_str()));
        assert(fields_view(fields@) =~= before + secret_fields(secret@));
    } else {
        assert(fields_view(fields@) =~= before + secret_fields(secret@));
    }
}

/// The authorization-code and PKCE form that completes a standard login.
pub open spec fn exchange_form(p: PendingOAuth, code: Seq<char>) -> Seq<(Seq<char>, Seq<char>)> {
    seq![
        ("grant_type"@, "authorization_code"@),
        ("code"@, code),
        ("redirect_uri"@, p.redirect_uri@),
        ("client_id"@, p.client_id@),
        ("code_verifier"@, p.verifier@),
    ] + secret_fields(p.client_secret@)
}

/// The token request that completes a login with `code`: OpenRouter's JSON
/// key exchange, or the standard authorization-code and PKCE form, with the
/// client secret among its fields when one is configured.
pub fn oauth_exchange_request(p: &PendingOAuth, code: &str) -> (r: TokenRequest)
    ensures
        p.flow@ == "openrouter"@ ==> (r matches TokenRequest::Json { url, fields } && url@
            == p.token_url@ && fields_view(fields@) == seq![
            ("code"@, code@),
            ("code_verifier"@, p.verifier@),
            ("code_challenge_method"@, "S256"@),
        ]),
        p.flow@ != "openrouter"@ ==> (r matches TokenRequest::Form { url, fields }
            && url@ == p.token_url@ && fields_view(fields@) == exchange_form(*p, code@)),
{
    if str_eq(p.flow.as_str(), "openrouter") {
        let mut fields: Vec<Field> = Vec::new();
        fields.push(field("code", code));
        fields.push(field("code_verifier", p.verifier.as_str()));
        fields.push(field("code_challenge_method", "S256"));
        assert(fields_view(fields@) =~= seq![
            ("code"@, code@),
            ("code_verifier"@, p.verifier@),
            ("code_challenge_method"@, "S256"@),
        ]);
        TokenRequest::Json { url: p.token_url.clone(), fields }
    } else {
        let mut fields: Vec<Field> = Vec::new();
        fields.push(field("grant_type", "authorization_code"));
        fields.push(field("code", code));
        fields.push(field("redirect_uri", p.redirect_uri.as_str()));
        fields.push(field("client_id", p.client_id.as_str()));
        fields.push(field("code_verifier", p.verifier.as_str()));
        assert(fields_view(fields@) =~= seq![
            ("grant_type"@, "authorization_code"@),
            ("code"@, code@),
            ("redirect_uri"@, p.redirect_uri@),
            ("client_id"@, p.client_id@),
            ("code_verifier"@, p.verifier@),
        ]);
        push_secret(&mut fields, &p.client_secret);
        TokenRequest::Form { url: p.token_url.clone(), fields }
    }
}

/// The token request that refreshes an expired access token, with the client
/// secret among its fields when one is configured, or why it cannot be made
/// (no token URL or no refresh token).
pub fn refresh_request(cfg: &AiConfig) -> (r: Result<TokenRequest, String>)
    ensures
        trim(cfg.oauth.token_url@).len() == 0 || cfg.refresh_token@.len() == 0 ==> (r matches Err(
            e,
        ) && e@ == "OAuth token expired and cannot be refreshed — please log in again"@),
        trim(cfg.oauth.token_url@).len() > 0 && cfg.refresh_token@.len() > 0 ==> (r matches Ok(
            TokenRequest::Form { url, fields },
        ) && url@ == cfg.oauth.token_url@ && fields_view(fields@) == seq![
            ("grant_type"@, "refresh_token"@),
            ("refresh_token"@, cfg.refresh_token@),
            ("client_id"@, cfg.oauth.client_id@),
        ] + secret_fields(cfg.oauth.client_secret@)),
{
    if is_blank(cfg.oauth.token_url.as_str()) || cfg.refresh_token.as_str().is_empty() {
        return Err("OAuth token expired and cannot be refreshed — please log in again".to_owned());
    }
    let mut fields: Vec<Field> = Vec::new();
    fields.push(field("grant_type", "refresh_token"));
    fields.push(field("refresh_token", cfg.refresh_token.as_str()));
    fields.push(field("client_id", cfg.oauth.client_id.as_str()));
    assert(fields_view(fields@) =~= seq![
        ("grant_type"@, "refresh_token"@),
        ("refresh_token"@, cfg.refresh_token@),
        ("client_id"@, cfg.oauth.client_id@),
    ]);
    push_secret(&mut fields, &cfg.oauth.client_secret);
    Ok(TokenRequest::Form { url: cfg.oauth.token_url.clone(), fields })
}

// ---------------------------------------------------------------------------
// token answers
// ---------------------------------------------------------------------------

/// The config fields a token update leaves alone are unchanged.
pub open spec fn same_settings(a: AiConfig, b: AiConfig) -> bool {
    &&& a.base_url@ == b.base_url@
    &&& a.model@ == b.model@
    &&& a.provider@ == b.provider@
    &&& opt_view(a.api_key_enc) == opt_view(b.api_key_enc)
    &&& crate::ai::same_oauth(a.oauth, b.oauth)
    &&& opt_view(a.refresh_token_enc) == opt_view(b.refresh_token_enc)
}

/// Adopt the long-lived key OpenRouter's exchange returned: it becomes the
/// bearer token, with no refresh token and no expiry.
pub fn apply_openrouter_key(cfg: AiConfig, key: String) -> (r: AiConfig)
    ensures
        r.api_key@ == key@,
        r.auth_method@ == auth_oauth(),
        r.refresh_token@.len() == 0,
        r.token_expires_at is None,
        same_settings(r, cfg),
{
    let mut cfg = cfg;
    cfg.api_key = key;
    cfg.auth_method = "oauth".to_owned();
    cfg.refresh_token = String::new();
    cfg.token_expires_at = None;
    cfg
}

/// Adopt a standard token response: the access token becomes the bearer
/// token, the refresh token (or none) is kept, and the expiry is `now` plus
/// `expires_in` when given.
pub fn apply_token_response(
    cfg: AiConfig,
    access_token: String,
    refresh_token: Option<String>,
    expires_in: Option<u64>,
    now: u64,
) -> (r: AiConfig)
    requires
        expires_in matches Some(s) ==> now + s <= u64::MAX,
    ensures
        r.api_key@ == access_token@,
        r.auth_method@ == auth_oauth(),
        r.refresh_token@ == match refresh_token {
            Some(t) => t@,
            None => Seq::empty(),
        },
        r.token_expires_at == match expires_in {
            Some(s) => Some((now + s) as u64),
            None => None,
        },
        same_settings(r, cfg),
{
    let mut cfg = cfg;
    cfg.api_key = access_token;
    cfg.auth_method = "oauth".to_owned();
    cfg.refresh_token = match refresh_token {
        Some(t) => t,
        None => String::new(),
    };
    cfg.token_expires_at = match expires_in {
        Some(s) => Some(now + s),
        None => None,
    };
    cfg
}

/// Adopt a refreshed token: the new access token, a new refresh token only
/// when a non-empty one came back, and the new expiry (`now` plus
/// `expires_in`, or unknown).
pub fn apply_refreshed_token(
    cfg: AiConfig,
    access_token: String,
    refresh_token: Option<String>,
    expires_in: Option<u64>,
    now: u64,
) -> (r: AiConfig)
    requires
        expires_in matches Some(s) ==> now + s <= u64::MAX,
    ensures
        r.api_key@ == access_token@,
        r.auth_method@ == cfg.auth_method@,
        r.refresh_token@ == match refresh_token {
            Some(t) => if t@.len() > 0 {
                t@
            } else {
                cfg.refresh_token@
            },
            None => cfg.refresh_token@,
        },
        r.token_expires_at == match expires_in {
            Some(s) => Some((now + s) as u64),
            None => None,
        },
        same_settings(r, cfg),
{
    let mut cfg = cfg;
    cfg.api_key = access_token;
    if let Some(rt) = refresh_token {
        if !rt.as_str().is_empty() {
            cfg.refresh_token = rt;
        }
    }
    cfg.token_expires_at = match expires_in {
        Some(s) => Some(now + s),
        None => None,
    };
    cfg
}

/// A standard login completes with the form its start prepared: the code
/// exchange posts the PKCE verifier whose S256 challenge the authorize URL
/// carried, with the client id, redirect URI and client secret of the
/// settings that started it.
pub proof fn law_exchange_matches_login(
    o: AiOAuthMeta,
    verifier: Seq<char>,
    state: Seq<char>,
    p: PendingOAuth,
    code: Seq<char>,
)
    requires
        pending_for(o, verifier, p),
        trim(o.flow@) != "openrouter"@,
        qenc_spec(pkce_challenge_spec(verifier)) == pkce_challenge_spec(verifier),
    ensures
        p.flow@ != "openrouter"@,
        exchange_form(p, code) == seq![
            ("grant_type"@, "authorization_code"@),
            ("code"@, code),
            ("redirect_uri"@, o.redirect_uri@),
            ("client_id"@, o.client_id@),
            ("code_verifier"@, verifier),
        ] + secret_fields(o.client_secret@),
        exists|pre: Seq<char>, post: Seq<char>|
            authorize_url(o, pkce_challenge_spec(verifier), state) == pre + "&code_challenge="@
                + pkce_challenge_spec(p.verifier@) + "&code_challenge_method=S256"@ + post,
{
    assert("standard"@ != "openrouter"@) by {
        reveal_strlit("standard");
        reveal_strlit("openrouter");
        assert("standard"@[0] != "openrouter"@[0]);
    }
    let ch = pkce_challenge_spec(verifier);
    let sep = if o.auth_url@.contains('?') {
        "&"@
    } else {
        "?"@
    };
    let pre = o.auth_url@ + sep + "response_type=code&client_id="@ + qenc_spec(o.client_id@)
        + "&redirect_uri="@ + qenc_spec(o.redirect_uri@) + "&state="@ + qenc_spec(state);
    let post = (if trim(o.scope@).len() > 0 {
        "&scope="@ + qenc_spec(o.scope@)
    } else {
        Seq::<char>::empty()
    }) + if contains(o.auth_url@, "accounts.google.com"@) {
        "&access_type=offline&prompt=consent"@
    } else {
        Seq::<char>::empty()
    };
    assert(authorize_url(o, ch, state) =~= pre + "&code_challenge="@ + ch
        + "&code_challenge_method=S256"@ + post);
}

/// The value of an upper-case hexadecimal digit.
pub open spec fn hex_value(c: char) -> int {
    if '0' <= c && c <= '9' {
        c as int - '0' as int
    } else if 'A' <= c && c <= 'F' {
        c as int - 'A' as int + 10
    } else {
        -1
    }
}

/// Percent-encoding byte by byte: an unreserved byte stands for itself (and
/// is never `%`); any other byte becomes `%` and two upper-case hex digits
/// that decode back to it. Encoding a concatenation concatenates the
/// encodings.
pub proof fn law_percent_encoding(b: u8, xs: Seq<u8>, ys: Seq<u8>)
    ensures
        unreserved(b) ==> enc_byte(b) == seq![b as char] && b as char != '%',
        !unreserved(b) ==> enc_byte(b).len() == 3 && enc_byte(b)[0] == '%' && hex_value(enc_byte(b)[1])
            * 16 + hex_value(enc_byte(b)[2]) == b && 0 <= hex_value(enc_byte(b)[1]) && 0
            <= hex_value(enc_byte(b)[2]),
        qenc_bytes(xs + ys) == qenc_bytes(xs) + qenc_bytes(ys),
    decreases ys.len(),
{
    if ys.len() > 0 {
        law_percent_encoding(b, xs, ys.drop_last());
        assert((xs + ys).drop_last() =~= xs + ys.drop_last());
        assert((xs + ys).last() == ys.last());
        assert(qenc_bytes(xs + ys) =~= qenc_bytes(xs) + qenc_bytes(ys));
    } else {
        assert(xs + ys =~= xs);
        assert(qenc_bytes(xs) + qenc_bytes(ys) =~= qenc_bytes(xs));
    }
}

} // verus!

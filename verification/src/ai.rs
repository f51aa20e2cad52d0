//! AI provider configuration: the stored config and its views, how settings
//! updates merge into it, how secrets are sealed for disk and recovered on
//! load, token freshness, and the endpoints a provider is reached at.

use vstd::prelude::*;
use crate::crypto::{
    decrypt_key,
    encrypt_key,
    key_for,
    machine_id_text,
    no_machine_id,
    opened_text,
    sealed_text,
    storable,
    MachineId,
};
use crate::json::{
    get,
    get_spec,
    Json,
};
use crate::text::{
    starts_with,
    ends_with,
    ends_with_chars,
    from_chars,
    is_blank,
    opt_str_view,
    opt_view,
    push_str,
    slice_string,
    str_eq,
    take_chars,
    to_chars,
    trim,
    trim_str,
    views,
};

verus! {

/// Provider id of a custom OpenAI-compatible endpoint.
pub open spec fn provider_openai() -> Seq<char> {
    "openai"@
}

/// Provider id of DeepSeek.
pub open spec fn provider_deepseek() -> Seq<char> {
    "deepseek"@
}

/// Provider id of Anthropic.
pub open spec fn provider_anthropic() -> Seq<char> {
    "anthropic"@
}

/// Authentication by a static API key.
pub open spec fn auth_key() -> Seq<char> {
    "key"@
}

/// Authentication by a browser OAuth login.
pub open spec fn auth_oauth() -> Seq<char> {
    "oauth"@
}

/// The provider used when none is given: `openai`.
pub fn default_provider() -> (r: String)
    ensures
        r@ == provider_openai(),
{
    "openai".to_owned()
}

/// The authentication method used when none is given: `oauth`.
pub fn default_auth_method() -> (r: String)
    ensures
        r@ == auth_oauth(),
{
    "oauth".to_owned()
}

/// The OAuth flow used when none is given: `standard`.
pub fn default_flow() -> (r: String)
    ensures
        r@ == "standard"@,
{
    "standard".to_owned()
}

/// Non-secret OAuth client metadata.
pub struct AiOAuthMeta {
    pub auth_url: String,
    pub token_url: String,
    pub client_id: String,
    pub client_secret: String,
    pub scope: String,
    pub redirect_uri: String,
    /// `standard` or `openrouter`.
    pub flow: String,
}

impl Default for AiOAuthMeta {
    /// All fields empty.
    fn default() -> (r: Self)
        ensures
            r.auth_url@.len() == 0,
            r.token_url@.len() == 0,
            r.client_id@.len() == 0,
            r.client_secret@.len() == 0,
            r.scope@.len() == 0,
            r.redirect_uri@.len() == 0,
            r.flow@.len() == 0,
    {
        AiOAuthMeta {
            auth_url: String::new(),
            token_url: String::new(),
            client_id: String::new(),
            client_secret: String::new(),
            scope: String::new(),
            redirect_uri: String::new(),
            flow: String::new(),
        }
    }
}

/// AI provider config. `api_key` / `refresh_token` hold plaintext in memory
/// only; `api_key_enc` / `refresh_token_enc` are what is stored.
pub struct AiConfig {
    pub base_url: String,
    pub model: String,
    pub provider: String,
    pub api_key: String,
    pub api_key_enc: Option<String>,
    pub auth_method: String,
    pub oauth: AiOAuthMeta,
    pub refresh_token: String,
    pub refresh_token_enc: Option<String>,
    /// Unix second at which the access token expires, if known.
    pub token_expires_at: Option<u64>,
}

/// Non-secret view of the config for the settings UI.
pub struct AiConfigView {
    pub base_url: String,
    pub model: String,
    pub provider: String,
    pub has_api_key: bool,
}

/// A config with every field empty except the defaults: provider `openai`,
/// authentication `oauth`.
pub open spec fn is_blank_config(c: AiConfig) -> bool {
    &&& c.base_url@.len() == 0
    &&& c.model@.len() == 0
    &&& c.provider@ == provider_openai()
    &&& c.api_key@.len() == 0
    &&& c.api_key_enc is None
    &&& c.auth_method@ == auth_oauth()
    &&& oauth_blank(c.oauth)
    &&& c.refresh_token@.len() == 0
    &&& c.refresh_token_enc is None
    &&& c.token_expires_at is None
}

/// Every OAuth field is empty.
pub open spec fn oauth_blank(o: AiOAuthMeta) -> bool {
    o.auth_url@.len() == 0 && o.token_url@.len() == 0 && o.client_id@.len() == 0
        && o.client_secret@.len() == 0 && o.scope@.len() == 0 && o.redirect_uri@.len() == 0
        && o.flow@.len() == 0
}

/// The config used when none is stored yet.
pub fn blank_config() -> (r: AiConfig)
    ensures
        is_blank_config(r),
{
    AiConfig {
        base_url: String::new(),
        model: String::new(),
        provider: default_provider(),
        api_key: String::new(),
        api_key_enc: None,
        auth_method: default_auth_method(),
        oauth: AiOAuthMeta::default(),
        refresh_token: String::new(),
        refresh_token_enc: None,
        token_expires_at: None,
    }
}

/// The config the `PUPPETTERM_AI_*` variables describe: only when base URL,
/// key and model are all set; provider defaults to `openai`.
pub fn config_from_env(
    base_url: Option<&str>,
    api_key: Option<&str>,
    model: Option<&str>,
    provider: Option<&str>,
) -> (r: Option<AiConfig>)
    ensures
        r is Some <==> (base_url is Some && api_key is Some && model is Some),
        r matches Some(c) ==> {
            &&& c.base_url@ == base_url.unwrap()@
            &&& c.api_key@ == api_key.unwrap()@
            &&& c.model@ == model.unwrap()@
            &&& c.provider@ == match provider {
                Some(p) => p@,
                None => provider_openai(),
            }
            &&& c.api_key_enc is None
            &&& c.auth_method@ == auth_oauth()
            &&& oauth_blank(c.oauth)
            &&& c.refresh_token@.len() == 0
            &&& c.refresh_token_enc is None
            &&& c.token_expires_at is None
        },
{
    match (base_url, api_key, model) {
        (Some(b), Some(k), Some(m)) => Some(
            AiConfig {
                base_url: b.to_owned(),
                model: m.to_owned(),
                provider: match provider {
                    Some(p) => p.to_owned(),
                    None => default_provider(),
                },
                api_key: k.to_owned(),
                api_key_enc: None,
                auth_method: default_auth_method(),
                oauth: AiOAuthMeta::default(),
                refresh_token: String::new(),
                refresh_token_enc: None,
                token_expires_at: None,
            },
        ),
        _ => None,
    }
}

// ---------------------------------------------------------------------------
// settings updates
// ---------------------------------------------------------------------------

/// A blank (after trimming) update keeps the old value; otherwise the trimmed
/// update wins.
pub open spec fn keep_or(new: Seq<char>, old: Seq<char>) -> Seq<char> {
    if trim(new).len() > 0 {
        trim(new)
    } else {
        old
    }
}

/// [`keep_or`] for an optional update.
pub open spec fn keep_or_opt(new: Option<Seq<char>>, old: Seq<char>) -> Seq<char> {
    match new {
        Some(n) => keep_or(n, old),
        None => old,
    }
}

/// A known provider id stays; anything else becomes `openai`.
pub open spec fn normalized_provider(p: Seq<char>) -> Seq<char> {
    if p == provider_anthropic() || p == provider_deepseek() || p == provider_openai() {
        p
    } else {
        provider_openai()
    }
}

/// `oauth` stays; any other method becomes `key`.
pub open spec fn normalized_auth(m: Seq<char>) -> Seq<char> {
    if m == auth_oauth() {
        auth_oauth()
    } else {
        auth_key()
    }
}

/// `openrouter` stays; any other flow becomes `standard`.
pub open spec fn normalized_flow(f: Seq<char>) -> Seq<char> {
    if f == "openrouter"@ {
        "openrouter"@
    } else {
        "standard"@
    }
}

/// A non-blank optional update passed through `norm`, else the old value.
pub open spec fn chosen(new: Option<Seq<char>>, old: Seq<char>, norm: spec_fn(Seq<char>) -> Seq<char>) -> Seq<char> {
    match new {
        Some(n) => if trim(n).len() > 0 {
            norm(trim(n))
        } else {
            old
        },
        None => old,
    }
}

/// The OAuth metadata after a partial update: only non-blank fields are
/// adopted (trimmed); the flow is normalised.
pub open spec fn merged_oauth(old: AiOAuthMeta, new: AiOAuthMeta, r: AiOAuthMeta) -> bool {
    &&& r.auth_url@ == keep_or(new.auth_url@, old.auth_url@)
    &&& r.token_url@ == keep_or(new.token_url@, old.token_url@)
    &&& r.client_id@ == keep_or(new.client_id@, old.client_id@)
    &&& r.client_secret@ == keep_or(new.client_secret@, old.client_secret@)
    &&& r.scope@ == keep_or(new.scope@, old.scope@)
    &&& r.redirect_uri@ == keep_or(new.redirect_uri@, old.redirect_uri@)
    &&& r.flow@ == chosen(Some(new.flow@), old.flow@, |f: Seq<char>| normalized_flow(f))
}

/// Two OAuth metadata records hold the same text.
pub open spec fn same_oauth(a: AiOAuthMeta, b: AiOAuthMeta) -> bool {
    a.auth_url@ == b.auth_url@ && a.token_url@ == b.token_url@ && a.client_id@ == b.client_id@
        && a.client_secret@ == b.client_secret@ && a.scope@ == b.scope@ && a.redirect_uri@
        == b.redirect_uri@ && a.flow@ == b.flow@
}

/// `v.trim()` if it is not blank, else `old` (moved through unchanged).
fn pick(v: &str, old: String) -> (r: String)
    ensures
        r@ == keep_or(v@, old@),
{
    let t = trim_str(v);
    if t.as_str().is_empty() {
        old
    } else {
        t
    }
}

fn normalize_provider(p: String) -> (r: String)
    ensures
        r@ == normalized_provider(p@),
{
    if str_eq(p.as_str(), "anthropic") || str_eq(p.as_str(), "deepseek") || str_eq(
        p.as_str(),
        "openai",
    ) {
        p
    } else {
        "openai".to_owned()
    }
}

/// The stored value of a field, or `default` when nothing was stored.
pub open spec fn old_text(loaded: Option<AiConfig>, field: spec_fn(AiConfig) -> Seq<char>, default: Seq<char>) -> Seq<char> {
    match loaded {
        Some(c) => field(c),
        None => default,
    }
}

/// Update the stored AI config: `loaded` is what is stored (or `None` when
/// nothing could be loaded, which starts from [`blank_config`]). Blank fields
/// keep their current values; a blank key keeps the stored one; unknown
/// providers become `openai`, unknown methods `key`, unknown flows
/// `standard`. The result is what gets saved.
pub fn apply_ai_config(
    loaded: Option<AiConfig>,
    base_url: &str,
    model: &str,
    provider: Option<&str>,
    api_key: Option<&str>,
    auth_method: Option<&str>,
    oauth: Option<AiOAuthMeta>,
) -> (r: AiConfig)
    ensures
        loaded is None ==> r.api_key_enc is None && r.refresh_token@.len() == 0
            && r.refresh_token_enc is None && r.token_expires_at is None,
        r.base_url@ == keep_or(base_url@, old_text(loaded, |c: AiConfig| c.base_url@, Seq::empty())),
        r.model@ == keep_or(model@, old_text(loaded, |c: AiConfig| c.model@, Seq::empty())),
        r.provider@ == chosen(
            opt_str_view(provider),
            old_text(loaded, |c: AiConfig| c.provider@, provider_openai()),
            |p: Seq<char>| normalized_provider(p),
        ),
        r.api_key@ == keep_or_opt(
            opt_str_view(api_key),
            old_text(loaded, |c: AiConfig| c.api_key@, Seq::empty()),
        ),
        r.auth_method@ == chosen(
            opt_str_view(auth_method),
            old_text(loaded, |c: AiConfig| c.auth_method@, auth_oauth()),
            |m: Seq<char>| normalized_auth(m),
        ),
        loaded matches Some(old) ==> opt_view(r.api_key_enc) == opt_view(old.api_key_enc)
            && r.refresh_token@ == old.refresh_token@ && opt_view(r.refresh_token_enc) == opt_view(
            old.refresh_token_enc,
        ) && r.token_expires_at == old.token_expires_at,
        oauth matches Some(o) ==> (loaded matches Some(old) ==> merged_oauth(old.oauth, o, r.oauth))
            && (loaded is None ==> merged_from_blank(o, r.oauth)),
        oauth is None ==> (loaded matches Some(old) ==> same_oauth(r.oauth, old.oauth)) && (
        loaded is None ==> oauth_blank(r.oauth)),
{
    let ghost was_loaded = loaded is Some;
    let ghost old_cfg = loaded;
    let mut cfg = match loaded {
        Some(c) => c,
        None => blank_config(),
    };
    let ghost start = cfg;
    cfg.base_url = pick(base_url, cfg.base_url);
    cfg.model = pick(model, cfg.model);
    if let Some(p) = provider {
        let t = trim_str(p);
        if !t.as_str().is_empty() {
            cfg.provider = normalize_provider(t);
        }
    }
    if let Some(k) = api_key {
        cfg.api_key = pick(k, cfg.api_key);
    }
    if let Some(m) = auth_method {
        let t = trim_str(m);
        if !t.as_str().is_empty() {
            cfg.auth_method = if str_eq(t.as_str(), "oauth") {
                "oauth".to_owned()
            } else {
                "key".to_owned()
            };
        }
    }
    assert(old_cfg matches Some(c) ==> cfg.oauth == c.oauth);
    if let Some(o) = oauth {
        let ghost before = cfg.oauth;
        cfg.oauth.auth_url = pick(o.auth_url.as_str(), cfg.oauth.auth_url);
        cfg.oauth.token_url = pick(o.token_url.as_str(), cfg.oauth.token_url);
        cfg.oauth.client_id = pick(o.client_id.as_str(), cfg.oauth.client_id);
        cfg.oauth.client_secret = pick(o.client_secret.as_str(), cfg.oauth.client_secret);
        cfg.oauth.scope = pick(o.scope.as_str(), cfg.oauth.scope);
        cfg.oauth.redirect_uri = pick(o.redirect_uri.as_str(), cfg.oauth.redirect_uri);
        let f = trim_str(o.flow.as_str());
        if !f.as_str().is_empty() {
            cfg.oauth.flow = if str_eq(f.as_str(), "openrouter") {
                "openrouter".to_owned()
            } else {
                "standard".to_owned()
            };
        }
        assert(merged_oauth(before, o, cfg.oauth));
        assert(old_cfg matches Some(c) ==> merged_oauth(c.oauth, o, cfg.oauth));
        proof {
            if old_cfg is None {
            assert(before.auth_url@ =~= Seq::<char>::empty());
            assert(before.token_url@ =~= Seq::<char>::empty());
            assert(before.client_id@ =~= Seq::<char>::empty());
            assert(before.client_secret@ =~= Seq::<char>::empty());
            assert(before.scope@ =~= Seq::<char>::empty());
            assert(before.redirect_uri@ =~= Seq::<char>::empty());
            assert(before.flow@ =~= Seq::<char>::empty());
            }
        }
    }
    cfg
}

/// The OAuth metadata a partial update leaves when starting from nothing.
pub open spec fn merged_from_blank(new: AiOAuthMeta, r: AiOAuthMeta) -> bool {
    &&& r.auth_url@ == keep_or(new.auth_url@, Seq::empty())
    &&& r.token_url@ == keep_or(new.token_url@, Seq::empty())
    &&& r.client_id@ == keep_or(new.client_id@, Seq::empty())
    &&& r.client_secret@ == keep_or(new.client_secret@, Seq::empty())
    &&& r.scope@ == keep_or(new.scope@, Seq::empty())
    &&& r.redirect_uri@ == keep_or(new.redirect_uri@, Seq::empty())
    &&& r.flow@ == chosen(Some(new.flow@), Seq::empty(), |f: Seq<char>| normalized_flow(f))
}

/// The settings UI view: no secret, only whether a key is present.
pub fn config_view(cfg: &AiConfig) -> (r: AiConfigView)
    ensures
        r.base_url@ == cfg.base_url@,
        r.model@ == cfg.model@,
        r.provider@ == cfg.provider@,
        r.has_api_key == (cfg.api_key@.len() > 0),
{
    AiConfigView {
        base_url: cfg.base_url.clone(),
        model: cfg.model.clone(),
        provider: cfg.provider.clone(),
        has_api_key: !cfg.api_key.as_str().is_empty(),
    }
}

// ---------------------------------------------------------------------------
// secrets at rest
// ---------------------------------------------------------------------------

/// The plaintext a stored secret yields on load: its decryption, or empty
/// when it cannot be decrypted; a config without a stored secret keeps the
/// in-memory value.
pub open spec fn loaded_secret(m: MachineId, enc: Option<String>, plain: Seq<char>) -> Seq<char> {
    match enc {
        Some(e) => match opened_text(m, e@) {
            Ok(p) => p,
            Err(_) => Seq::empty(),
        },
        None => plain,
    }
}

/// `out` is what loading makes of the parsed config `cfg`.
pub open spec fn loaded_config(m: MachineId, cfg: AiConfig, out: AiConfig) -> bool {
    &&& out.api_key@ == loaded_secret(m, cfg.api_key_enc, cfg.api_key@)
    &&& out.refresh_token@ == loaded_secret(m, cfg.refresh_token_enc, cfg.refresh_token@)
    &&& out.provider@ == if cfg.provider@.len() == 0 {
        provider_openai()
    } else {
        cfg.provider@
    }
    &&& out.auth_method@ == if cfg.auth_method@.len() == 0 {
        auth_oauth()
    } else {
        cfg.auth_method@
    }
    &&& out.base_url@ == cfg.base_url@
    &&& out.model@ == cfg.model@
    &&& opt_view(out.api_key_enc) == opt_view(cfg.api_key_enc)
    &&& opt_view(out.refresh_token_enc) == opt_view(cfg.refresh_token_enc)
    &&& same_oauth(out.oauth, cfg.oauth)
    &&& out.token_expires_at == cfg.token_expires_at
    // a secret sealed on this machine comes back as it was
    &&& forall|n: Seq<u8>, k: Seq<char>|
        #![trigger sealed_text(key_for(machine_id_text(m)->0), n, k)]
        machine_id_text(m) is Some && n.len() == 12 && storable(k) && cfg.api_key_enc is Some
            && cfg.api_key_enc->0@ == sealed_text(key_for(machine_id_text(m)->0), n, k) ==> out.api_key@ == k
    &&& forall|n: Seq<u8>, k: Seq<char>|
        #![trigger sealed_text(key_for(machine_id_text(m)->0), n, k)]
        machine_id_text(m) is Some && n.len() == 12 && storable(k)
            && cfg.refresh_token_enc is Some && cfg.refresh_token_enc->0@ == sealed_text(
            key_for(machine_id_text(m)->0),
            n,
            k,
        ) ==> out.refresh_token@ == k
}

fn open_or_empty(m: &MachineId, enc: &Option<String>, plain: String) -> (r: String)
    ensures
        r@ == loaded_secret(*m, *enc, plain@),
        forall|n: Seq<u8>, k: Seq<char>|
            #![trigger sealed_text(key_for(machine_id_text(*m)->0), n, k)]
            machine_id_text(*m) is Some && n.len() == 12 && storable(k) && enc is Some
                && enc->0@ == sealed_text(key_for(machine_id_text(*m)->0), n, k) ==> r@ == k,
{
    match enc {
        Some(e) => match decrypt_key(m, e.as_str()) {
            Ok(p) => p,
            Err(_) => String::new(),
        },
        None => plain,
    }
}

/// Finish loading a parsed config: decrypt the stored key and refresh token
/// (an undecryptable secret loads as empty) and fill in the default provider
/// and authentication method when they are empty.
pub fn finish_loaded_config(cfg: AiConfig, m: &MachineId) -> (r: AiConfig)
    ensures
        loaded_config(*m, cfg, r),
{
    let ghost c0 = cfg;
    let mut cfg = cfg;
    let key = open_or_empty(m, &cfg.api_key_enc, cfg.api_key);
    cfg.api_key = key;
    let rt = open_or_empty(m, &cfg.refresh_token_enc, cfg.refresh_token);
    cfg.refresh_token = rt;
    if cfg.provider.as_str().is_empty() {
        cfg.provider = default_provider();
    }
    if cfg.auth_method.as_str().is_empty() {
        cfg.auth_method = default_auth_method();
    }
    cfg
}

/// A secret slot after sealing: a non-empty plaintext is replaced by a fresh
/// sealed copy; an empty one leaves the stored copy as it was.
pub open spec fn sealed_slot(m: MachineId, plain: Seq<char>, old_enc: Option<String>, new_enc: Option<String>) -> bool {
    if plain.len() > 0 {
        machine_id_text(m) is Some && storable(plain) && new_enc is Some && exists|n: Seq<u8>|
            n.len() == 12 && new_enc->0@ == sealed_text(key_for(machine_id_text(m)->0), n, plain)
    } else {
        opt_view(new_enc) == opt_view(old_enc)
    }
}

/// `out` is what saving writes for `cfg`: no plaintext secret, sealed copies
/// of the non-empty ones, everything else unchanged.
pub open spec fn sealed_config(m: MachineId, cfg: AiConfig, out: AiConfig) -> bool {
    &&& out.api_key@.len() == 0
    &&& out.refresh_token@.len() == 0
    &&& sealed_slot(m, cfg.api_key@, cfg.api_key_enc, out.api_key_enc)
    &&& sealed_slot(m, cfg.refresh_token@, cfg.refresh_token_enc, out.refresh_token_enc)
    &&& out.base_url@ == cfg.base_url@
    &&& out.model@ == cfg.model@
    &&& out.provider@ == cfg.provider@
    &&& out.auth_method@ == cfg.auth_method@
    &&& same_oauth(out.oauth, cfg.oauth)
    &&& out.token_expires_at == cfg.token_expires_at
}

/// Prepare a config for disk: seal the key and refresh token (when set) and
/// blank the plaintext copies, so no plaintext secret is ever written.
pub fn seal_for_disk(cfg: AiConfig, m: &MachineId) -> (r: Result<AiConfig, String>)
    ensures
        r matches Ok(out) ==> sealed_config(*m, cfg, out),
        machine_id_text(*m) is None && (cfg.api_key@.len() > 0 || cfg.refresh_token@.len() > 0)
            ==> (r matches Err(e) && e@ == no_machine_id()),
        machine_id_text(*m) is None && cfg.api_key@.len() == 0 && cfg.refresh_token@.len() == 0
            ==> r is Ok,
        // with a machine id, only the random source or an unsealable secret can fail
        r matches Err(e) ==> machine_id_text(*m) is None || starts_with(e@, "rng: "@) || (e@
            == "encryption failed"@ && ((cfg.api_key@.len() > 0 && !storable(cfg.api_key@)) || (
        cfg.refresh_token@.len() > 0 && !storable(cfg.refresh_token@)))),
{
    let ghost c0 = cfg;
    let mut out = cfg;
    if !out.api_key.as_str().is_empty() {
        let enc = encrypt_key(m, out.api_key.as_str())?;
        out.api_key_enc = Some(enc);
    }
    out.api_key = String::new();
    if !out.refresh_token.as_str().is_empty() {
        let enc = encrypt_key(m, out.refresh_token.as_str())?;
        out.refresh_token_enc = Some(enc);
    }
    out.refresh_token = String::new();
    Ok(out)
}

/// A key saved on this machine loads back unchanged: the plaintext never
/// reaches disk, yet loading what saving wrote recovers it.
pub proof fn law_saved_key_loads_back(m: MachineId, cfg: AiConfig, saved: AiConfig, loaded: AiConfig)
    requires
        sealed_config(m, cfg, saved),
        loaded_config(m, saved, loaded),
    ensures
        saved.api_key@.len() == 0,
        saved.refresh_token@.len() == 0,
        cfg.api_key@.len() > 0 ==> loaded.api_key@ == cfg.api_key@,
        cfg.refresh_token@.len() > 0 ==> loaded.refresh_token@ == cfg.refresh_token@,
{
    if cfg.api_key@.len() > 0 {
        let e = saved.api_key_enc->0;
        let n = choose|n: Seq<u8>| n.len() == 12 && e@ == sealed_text(key_for(machine_id_text(m)->0), n, cfg.api_key@);
        assert(sealed_text(key_for(machine_id_text(m)->0), n, cfg.api_key@) == e@);
    }
    if cfg.refresh_token@.len() > 0 {
        let e = saved.refresh_token_enc->0;
        let n = choose|n: Seq<u8>| n.len() == 12 && e@ == sealed_text(key_for(machine_id_text(m)->0), n, cfg.refresh_token@);
        assert(sealed_text(key_for(machine_id_text(m)->0), n, cfg.refresh_token@) == e@);
    }
}

// ---------------------------------------------------------------------------
// tokens
// ---------------------------------------------------------------------------

/// Whether an OAuth access token has expired or expires within a minute.
pub open spec fn needs_refresh(cfg: AiConfig, now: u64) -> bool {
    cfg.auth_method@ == auth_oauth() && (cfg.token_expires_at matches Some(e) && e <= now + 60)
}

/// Whether `ensure_valid_token` must refresh before a chat call: only for
/// the `oauth` method, and only when the expiry is known and within 60 s.
pub fn token_needs_refresh(cfg: &AiConfig, now: u64) -> (r: bool)
    ensures
        r == needs_refresh(*cfg, now),
{
    if !str_eq(cfg.auth_method.as_str(), "oauth") {
        return false;
    }
    match cfg.token_expires_at {
        Some(e) => e <= now || e - now <= 60,
        None => false,
    }
}

// ---------------------------------------------------------------------------
// endpoints
// ---------------------------------------------------------------------------

/// `s.trim_end_matches(c)`.
pub open spec fn trim_end_char(s: Seq<char>, c: char) -> Seq<char>
    decreases s.len(),
{
    if s.len() > 0 && s.last() == c {
        trim_end_char(s.drop_last(), c)
    } else {
        s
    }
}

/// Length of `s.trim_end_matches(c)`.
fn trim_end_len(v: &Vec<char>, c: char) -> (n: usize)
    ensures
        n <= v@.len(),
        v@.subrange(0, n as int) == trim_end_char(v@, c),
{
    let mut n = v.len();
    assert(v@.subrange(0, n as int) == v@);
    while n > 0 && v[n - 1] == c
        invariant
            n <= v@.len(),
            trim_end_char(v@, c) == trim_end_char(v@.subrange(0, n as int), c),
        decreases n,
    {
        assert(v@.subrange(0, n as int).drop_last() == v@.subrange(0, n as int - 1));
        n = n - 1;
    }
    n
}

/// The base URL without trailing slashes, then `suffix`.
pub open spec fn endpoint_spec(base: Seq<char>, suffix: Seq<char>) -> Seq<char> {
    trim_end_char(base, '/') + suffix
}

/// `format!("{}{suffix}", base.trim_end_matches('/'))`: the chat endpoint
/// (`/chat/completions` or `/messages`) or the models endpoint.
pub fn endpoint(base: &str, suffix: &str) -> (r: String)
    ensures
        r@ == endpoint_spec(base@, suffix@),
{
    let v = to_chars(base);
    let n = trim_end_len(&v, '/');
    let mut s = slice_string(&v, 0, n);
    push_str(&mut s, suffix);
    s
}

/// Whether chat goes through the Anthropic Messages API.
pub fn uses_anthropic(cfg: &AiConfig) -> (r: bool)
    ensures
        r == (cfg.provider@ == provider_anthropic()),
{
    str_eq(cfg.provider.as_str(), "anthropic")
}

/// `prefix` followed by at most `n` characters of `body` (how upstream errors
/// are reported: the status, then a snippet of the response text).
pub open spec fn with_snippet(prefix: Seq<char>, body: Seq<char>, n: nat) -> Seq<char> {
    prefix + if body.len() <= n {
        body
    } else {
        body.take(n as int)
    }
}

/// `format!("{prefix}{}", body.chars().take(n).collect::<String>())`.
pub fn error_with_snippet(prefix: &str, body: &str, n: usize) -> (r: String)
    ensures
        r@ == with_snippet(prefix@, body@, n as nat),
{
    let t = take_chars(body, n);
    let mut s = prefix.to_owned();
    push_str(&mut s, t.as_str());
    s
}

// ---------------------------------------------------------------------------
// testing a provider before saving
// ---------------------------------------------------------------------------

/// The trimmed value when non-blank, else the stored one, else empty.
pub open spec fn field_or_stored(v: Seq<char>, stored: Option<Seq<char>>) -> Seq<char> {
    if trim(v).len() > 0 {
        trim(v)
    } else {
        match stored {
            Some(s) => s,
            None => Seq::empty(),
        }
    }
}

/// The trimmed optional value when non-blank, else the stored one.
pub open spec fn opt_or_stored(v: Option<Seq<char>>, stored: Option<Seq<char>>) -> Option<Seq<char>> {
    if v matches Some(x) && trim(x).len() > 0 {
        Some(trim(v->0))
    } else {
        stored
    }
}

/// The config a connection test probes with, or why it cannot run.
pub open spec fn test_target(
    base_url: Seq<char>,
    model: Seq<char>,
    provider: Option<Seq<char>>,
    api_key: Option<Seq<char>>,
    stored: Option<AiConfig>,
) -> Result<(Seq<char>, Seq<char>, Seq<char>, Seq<char>), Seq<char>> {
    let b = field_or_stored(
        base_url,
        match stored {
            Some(c) => Some(c.base_url@),
            None => None,
        },
    );
    let md = field_or_stored(
        model,
        match stored {
            Some(c) => Some(c.model@),
            None => None,
        },
    );
    let p = match opt_or_stored(
        provider,
        match stored {
            Some(c) => Some(c.provider@),
            None => None,
        },
    ) {
        Some(p) => normalized_provider(p),
        None => provider_openai(),
    };
    let k = match opt_or_stored(
        api_key,
        match stored {
            Some(c) => Some(c.api_key@),
            None => None,
        },
    ) {
        Some(k) => k,
        None => Seq::empty(),
    };
    if b.len() == 0 {
        Err("base_url is required"@)
    } else if k.len() == 0 {
        Err("api_key is required (or log in first)"@)
    } else {
        Ok((b, md, p, k))
    }
}

/// The config `test_config` probes with (nothing is persisted): typed fields
/// win when not blank, otherwise the stored config fills them in. The probe
/// uses the default authentication method and no OAuth metadata.
pub fn resolve_test_config(
    base_url: &str,
    model: &str,
    provider: Option<&str>,
    api_key: Option<&str>,
    stored: Option<&AiConfig>,
) -> (r: Result<AiConfig, String>)
    ensures
        ({
            let st = match stored {
                Some(c) => Some(*c),
                None => None,
            };
            match test_target(base_url@, model@, opt_str_view(provider), opt_str_view(api_key), st) {
                Ok(t) => r matches Ok(c) && c.base_url@ == t.0 && c.model@ == t.1 && c.provider@
                    == t.2 && c.api_key@ == t.3 && c.api_key_enc is None && c.auth_method@
                    == auth_oauth() && oauth_blank(c.oauth) && c.refresh_token@.len() == 0
                    && c.refresh_token_enc is None && c.token_expires_at is None,
                Err(e) => r matches Err(x) && x@ == e,
            }
        }),
{
    let b = trim_str(base_url);
    let b = if b.as_str().is_empty() {
        match stored {
            Some(c) => c.base_url.clone(),
            None => String::new(),
        }
    } else {
        b
    };
    let md = trim_str(model);
    let md = if md.as_str().is_empty() {
        match stored {
            Some(c) => c.model.clone(),
            None => String::new(),
        }
    } else {
        md
    };
    if b.as_str().is_empty() {
        return Err("base_url is required".to_owned());
    }
    let p: Option<String> = match provider {
        Some(p) if !is_blank(p) => Some(trim_str(p)),
        _ => match stored {
            Some(c) => Some(c.provider.clone()),
            None => None,
        },
    };
    let p = match p {
        Some(p) => normalize_provider(p),
        None => default_provider(),
    };
    let k: String = match api_key {
        Some(k) if !is_blank(k) => trim_str(k),
        _ => match stored {
            Some(c) => c.api_key.clone(),
            None => String::new(),
        },
    };
    if k.as_str().is_empty() {
        return Err("api_key is required (or log in first)".to_owned());
    }
    Ok(
        AiConfig {
            base_url: b,
            model: md,
            provider: p,
            api_key: k,
            api_key_enc: None,
            auth_method: default_auth_method(),
            oauth: AiOAuthMeta::default(),
            refresh_token: String::new(),
            refresh_token_enc: None,
            token_expires_at: None,
        },
    )
}

/// The success summary of a probe that listed `n` models (no model chosen).
pub fn test_summary_models(provider: &str, n: usize) -> (r: String)
    ensures
        r@ == "Connected · "@ + provider@ + " · "@ + crate::text::dec(n as nat)
            + " models available (pick one in Settings → Models)"@,
{
    let mut s = "Connected · ".to_owned();
    push_str(&mut s, provider);
    push_str(&mut s, " · ");
    let d = crate::text::u64_to_dec(n as u64);
    push_str(&mut s, d.as_str());
    push_str(&mut s, " models available (pick one in Settings → Models)");
    s
}

/// The success summary of a probe that completed a chat with `model`.
pub fn test_summary_chat(provider: &str, model: &str) -> (r: String)
    ensures
        r@ == "Connected · "@ + provider@ + " · "@ + model@,
{
    let mut s = "Connected · ".to_owned();
    push_str(&mut s, provider);
    push_str(&mut s, " · ");
    push_str(&mut s, model);
    s
}

// ---------------------------------------------------------------------------
// listing models
// ---------------------------------------------------------------------------

/// Where the model list comes from.
pub enum ModelSource {
    /// The provider's fixed list (Anthropic has no standard `/models`).
    Preset,
    /// `GET` these URLs in order until one answers.
    Fetch(Vec<String>),
}

/// `s.trim_end_matches(p)` for a string pattern.
pub open spec fn trim_end_str(s: Seq<char>, p: Seq<char>) -> Seq<char>
    decreases s.len(),
{
    if p.len() > 0 && ends_with(s, p) {
        trim_end_str(s.subrange(0, s.len() - p.len()), p)
    } else {
        s
    }
}

/// The `/models` URLs to try for a base URL: `<base>/models`, and for a base
/// ending in `/openai` (Google's OpenAI-compatible base) also the same URL
/// without that suffix.
pub open spec fn models_urls(base: Seq<char>) -> Seq<Seq<char>> {
    let b = trim_end_char(base, '/');
    if ends_with(b, "/openai"@) {
        seq![b + "/models"@, trim_end_char(trim_end_str(b, "/openai"@), '/') + "/models"@]
    } else {
        seq![b + "/models"@]
    }
}

fn trim_end_str_len(v: &Vec<char>, p: &Vec<char>) -> (n: usize)
    ensures
        n <= v@.len(),
        v@.subrange(0, n as int) == trim_end_str(v@, p@),
{
    let mut n = v.len();
    assert(v@.subrange(0, n as int) == v@);
    if p.len() == 0 {
        return n;
    }
    loop
        invariant
            n <= v@.len(),
            p@.len() > 0,
            trim_end_str(v@, p@) == trim_end_str(v@.subrange(0, n as int), p@),
        decreases n,
    {
        let cur = sub_prefix(v, n);
        if !ends_with_chars(&cur, p) {
            return n;
        }
        assert(v@.subrange(0, n as int).subrange(0, n - p@.len()) == v@.subrange(
            0,
            n - p@.len(),
        ));
        n = n - p.len();
    }
}

fn sub_prefix(v: &Vec<char>, n: usize) -> (r: Vec<char>)
    requires
        n <= v@.len(),
    ensures
        r@ == v@.subrange(0, n as int),
{
    crate::text::sub_chars(v, 0, n)
}

/// Decide where `list_models` gets its list: a blank base URL or key is an
/// error; Anthropic uses its preset; other providers are asked at `/models`.
pub fn models_source(cfg: &AiConfig) -> (r: Result<ModelSource, String>)
    ensures
        trim(cfg.base_url@).len() == 0 ==> (r matches Err(e) && e@ == "base_url is required"@),
        trim(cfg.base_url@).len() > 0 && trim(cfg.api_key@).len() == 0 ==> (r matches Err(e)
            && e@ == "not authenticated — configure a provider or log in first"@),
        trim(cfg.base_url@).len() > 0 && trim(cfg.api_key@).len() > 0 && cfg.provider@
            == provider_anthropic() ==> r matches Ok(ModelSource::Preset),
        trim(cfg.base_url@).len() > 0 && trim(cfg.api_key@).len() > 0 && cfg.provider@
            != provider_anthropic() ==> (r matches Ok(ModelSource::Fetch(v)) && views(v@)
            == models_urls(cfg.base_url@)),
{
    if is_blank(cfg.base_url.as_str()) {
        return Err("base_url is required".to_owned());
    }
    if is_blank(cfg.api_key.as_str()) {
        return Err("not authenticated — configure a provider or log in first".to_owned());
    }
    if uses_anthropic(cfg) {
        return Ok(ModelSource::Preset);
    }
    let bv = to_chars(cfg.base_url.as_str());
    let bn = trim_end_len(&bv, '/');
    let b = sub_prefix(&bv, bn);
    let mut urls: Vec<String> = Vec::new();
    let mut first = from_chars(b.as_slice());
    push_str(&mut first, "/models");
    urls.push(first);
    let suffix = to_chars("/openai");
    if ends_with_chars(&b, &suffix) {
        let n1 = trim_end_str_len(&b, &suffix);
        let b1 = sub_prefix(&b, n1);
        let n2 = trim_end_len(&b1, '/');
        let mut second = slice_string(&b1, 0, n2);
        push_str(&mut second, "/models");
        urls.push(second);
    }
    assert(views(urls@) == models_urls(cfg.base_url@));
    Ok(ModelSource::Fetch(urls))
}

/// What to do after one `/models` request.
pub enum FetchStep {
    /// Success: parse this response.
    Parse,
    /// Not found: remember the error and try the next URL.
    TryNext(String),
    /// Any other failure: report it.
    Fail(String),
}

/// One step of `list_models`' URL loop: success parses; 404 moves on to the
/// next URL; any other status fails with the status and a 400-character
/// snippet of the body.
pub fn models_fetch_step(success: bool, status_code: u16, status: &str, body: &str) -> (r: FetchStep)
    ensures
        success ==> r is Parse,
        !success && status_code == 404 ==> (r matches FetchStep::TryNext(e) && e@ == with_snippet(
            "list models failed ("@ + status@ + "): "@,
            body@,
            400,
        )),
        !success && status_code != 404 ==> (r matches FetchStep::Fail(e) && e@ == with_snippet(
            "list models failed ("@ + status@ + "): "@,
            body@,
            400,
        )),
{
    if success {
        return FetchStep::Parse;
    }
    let mut prefix = "list models failed (".to_owned();
    push_str(&mut prefix, status);
    push_str(&mut prefix, "): ");
    let e = error_with_snippet(prefix.as_str(), body, 400);
    if status_code == 404 {
        FetchStep::TryNext(e)
    } else {
        FetchStep::Fail(e)
    }
}

/// The `id` strings of the array items that are objects with a string `id`.
pub open spec fn ids_of(items: Seq<Json>) -> Seq<Seq<char>>
    decreases items.len(),
{
    if items.len() == 0 {
        Seq::empty()
    } else {
        ids_of(items.drop_last()) + match get_spec(items.last(), "id"@) {
            Some(Json::Str(s)) => seq![s@],
            _ => Seq::empty(),
        }
    }
}

/// The array items that are strings, or objects with a string `id`.
pub open spec fn names_or_ids_of(items: Seq<Json>) -> Seq<Seq<char>>
    decreases items.len(),
{
    if items.len() == 0 {
        Seq::empty()
    } else {
        names_or_ids_of(items.drop_last()) + match items.last() {
            Json::Str(s) => seq![s@],
            _ => match get_spec(items.last(), "id"@) {
                Some(Json::Str(s)) => seq![s@],
                _ => Seq::empty(),
            },
        }
    }
}

/// The model ids of a `/models` response: the OpenAI shape
/// `{data:[{id},...]}` first, then `{models:[...]}` with string or `{id}`
/// items; an empty or unknown shape is an error.
pub open spec fn model_ids_spec(v: Json) -> Result<Seq<Seq<char>>, Seq<char>> {
    let d = match get_spec(v, "data"@) {
        Some(Json::Array(items)) => ids_of(items@),
        _ => Seq::empty(),
    };
    let m = match get_spec(v, "models"@) {
        Some(Json::Array(items)) => names_or_ids_of(items@),
        _ => Seq::empty(),
    };
    if d.len() > 0 {
        Ok(d)
    } else if m.len() > 0 {
        Ok(m)
    } else {
        Err("could not parse models list (unexpected response shape)"@)
    }
}

fn collect_ids(items: &Vec<Json>, allow_str: bool) -> (r: Vec<String>)
    ensures
        views(r@) == if allow_str {
            names_or_ids_of(items@)
        } else {
            ids_of(items@)
        },
{
    let mut out: Vec<String> = Vec::new();
    let mut i: usize = 0;
    while i < items.len()
        invariant
            i <= items@.len(),
            views(out@) == if allow_str {
                names_or_ids_of(items@.take(i as int))
            } else {
                ids_of(items@.take(i as int))
            },
        decreases items@.len() - i,
    {
        let ghost t1 = items@.take(i as int + 1);
        assert(t1.drop_last() == items@.take(i as int));
        assert(t1.last() == items@[i as int]);
        let item = &items[i];
        let ghost before = views(out@);
        let mut pushed = false;
        if allow_str {
            if let Json::Str(s) = item {
                out.push(s.clone());
                pushed = true;
                assert(views(out@) == before.push(s@));
            }
        }
        if !pushed {
            match get(item, "id") {
                Some(Json::Str(s)) => {
                    out.push(s.clone());
                    assert(views(out@) == before.push(s@));
                },
                _ => {},
            }
        }
        i = i + 1;
    }
    assert(items@.take(items@.len() as int) == items@);
    out
}

/// Extract model ids from a `/models` response.
pub fn model_ids(v: &Json) -> (r: Result<Vec<String>, String>)
    ensures
        match model_ids_spec(*v) {
            Ok(ids) => r matches Ok(x) && views(x@) == ids,
            Err(e) => r matches Err(x) && x@ == e,
        },
{
    if let Some(Json::Array(items)) = get(v, "data") {
        let ids = collect_ids(items, false);
        if ids.len() > 0 {
            return Ok(ids);
        }
    }
    if let Some(Json::Array(items)) = get(v, "models") {
        let ids = collect_ids(items, true);
        if ids.len() > 0 {
            return Ok(ids);
        }
    }
    Err("could not parse models list (unexpected response shape)".to_owned())
}

/// Saving the same settings twice changes nothing the second time: a field
/// update, a normalised choice and the normalisations themselves are
/// idempotent; and a blank update always keeps the old value.
pub proof fn law_settings_update_idempotent(n: Option<Seq<char>>, old: Seq<char>)
    ensures
        keep_or_opt(n, keep_or_opt(n, old)) == keep_or_opt(n, old),
        chosen(n, chosen(n, old, |p: Seq<char>| normalized_provider(p)), |p: Seq<char>| normalized_provider(p))
            == chosen(n, old, |p: Seq<char>| normalized_provider(p)),
        chosen(n, chosen(n, old, |m: Seq<char>| normalized_auth(m)), |m: Seq<char>| normalized_auth(m))
            == chosen(n, old, |m: Seq<char>| normalized_auth(m)),
        chosen(n, chosen(n, old, |f: Seq<char>| normalized_flow(f)), |f: Seq<char>| normalized_flow(f))
            == chosen(n, old, |f: Seq<char>| normalized_flow(f)),
        n matches Some(x) && trim(x).len() == 0 ==> keep_or_opt(n, old) == old,
        normalized_provider(normalized_provider(old)) == normalized_provider(old),
        normalized_auth(old) == auth_oauth() || normalized_auth(old) == auth_key(),
{
}

/// Token refresh is monotone in time: once a token needs refreshing it keeps
/// needing it; a token expiring more than a minute from now does not; only
/// the `oauth` method with a known expiry ever needs it.
pub proof fn law_refresh_window(cfg: AiConfig, now: u64, later: u64)
    ensures
        needs_refresh(cfg, now) && now <= later ==> needs_refresh(cfg, later),
        cfg.token_expires_at matches Some(e) && e > now + 60 ==> !needs_refresh(cfg, now),
        cfg.token_expires_at matches Some(e) && e <= now && cfg.auth_method@ == auth_oauth()
            ==> needs_refresh(cfg, now),
        needs_refresh(cfg, now) ==> cfg.auth_method@ == auth_oauth() && cfg.token_expires_at is Some,
{
}

/// Trailing slashes on the base URL do not matter, and the endpoint never
/// joins base and suffix with a doubled slash.
pub proof fn law_endpoint_ignores_trailing_slash(base: Seq<char>, suffix: Seq<char>)
    ensures
        endpoint_spec(base.push('/'), suffix) == endpoint_spec(base, suffix),
        trim_end_char(base, '/').len() == 0 || trim_end_char(base, '/').last() != '/',
        endpoint_spec(base, suffix) == trim_end_char(base, '/') + suffix,
    decreases base.len(),
{
    assert(base.push('/').drop_last() == base);
    if base.len() > 0 && base.last() == '/' {
        law_endpoint_ignores_trailing_slash(base.drop_last(), suffix);
    }
}

/// An item with a string `id`.
pub open spec fn has_id(j: Json) -> bool {
    get_spec(j, "id"@) matches Some(Json::Str(_))
}

/// The `id` text of an item (empty when it has none).
pub open spec fn id_text(j: Json) -> Seq<char> {
    match get_spec(j, "id"@) {
        Some(Json::Str(s)) => s@,
        _ => Seq::empty(),
    }
}

/// An item that names a model: a string, or an object with a string `id`.
pub open spec fn names_model(j: Json) -> bool {
    j is Str || has_id(j)
}

/// The model an item names.
pub open spec fn model_name(j: Json) -> Seq<char> {
    match j {
        Json::Str(s) => s@,
        _ => id_text(j),
    }
}

/// Every item with a string `id` gives its model id, in order, and no other
/// item gives one; in the `models` shape plain strings count too.
pub proof fn law_model_ids_in_order(items: Seq<Json>)
    ensures
        ids_of(items) == items.filter(|j: Json| has_id(j)).map_values(|j: Json| id_text(j)),
        names_or_ids_of(items) == items.filter(|j: Json| names_model(j)).map_values(
            |j: Json| model_name(j),
        ),
    decreases items.len(),
{
    reveal(Seq::filter);
    if items.len() > 0 {
        law_model_ids_in_order(items.drop_last());
        let l = items.last();
        let p1 = |j: Json| has_id(j);
        let f1 = |j: Json| id_text(j);
        let p2 = |j: Json| names_model(j);
        let f2 = |j: Json| model_name(j);
        let a = items.drop_last().filter(p1);
        let b = items.drop_last().filter(p2);
        if has_id(l) {
            assert(a.push(l).map_values(f1) =~= a.map_values(f1).push(f1(l)));
            assert(ids_of(items) =~= ids_of(items.drop_last()).push(id_text(l)));
        } else {
            assert(ids_of(items) =~= ids_of(items.drop_last()));
        }
        if names_model(l) {
            assert(b.push(l).map_values(f2) =~= b.map_values(f2).push(f2(l)));
            assert(names_or_ids_of(items) =~= names_or_ids_of(items.drop_last()).push(model_name(l)));
        } else {
            assert(names_or_ids_of(items) =~= names_or_ids_of(items.drop_last()));
        }
    }
}

/// A parsed model list is never empty: an empty list is reported as an
/// unexpected shape.
pub proof fn law_model_list_not_empty(v: Json)
    ensures
        model_ids_spec(v) matches Ok(ids) ==> ids.len() > 0,
        model_ids_spec(v) matches Err(e) ==> e == "could not parse models list (unexpected response shape)"@,
{
}

} // verus!

//! AI providers: how a connection test is sent to each kind of API and how
//! its reply is judged, and the status that is reported for the primary and
//! secondary providers.

use vstd::prelude::*;
use crate::text::{owned, push_str, str_eq, trim_end_char, trim_end_matching};
use crate::vault::{AppError, AppErrorView, VaultRepository, concat};

verus! {

/// The kinds of API that a connection can be tested against.
#[derive(Clone, Copy, Debug, PartialEq, Eq, Structural)]
pub enum ApiKind {
    OpenAi,
    Anthropic,
    Google,
    Baidu,
}

/// The API kind named by an `api_type`, if it is one that can be tested.
pub open spec fn api_kind_of(api_type: Seq<char>) -> Option<ApiKind> {
    if api_type == "openai"@ {
        Some(ApiKind::OpenAi)
    } else if api_type == "anthropic"@ {
        Some(ApiKind::Anthropic)
    } else if api_type == "google"@ {
        Some(ApiKind::Google)
    } else if api_type == "baidu"@ {
        Some(ApiKind::Baidu)
    } else {
        None
    }
}

/// The API kind named by `api_type`.
pub fn api_kind(api_type: &str) -> (r: Option<ApiKind>)
    ensures
        r == api_kind_of(api_type@),
{
    if str_eq(api_type, "openai") {
        Some(ApiKind::OpenAi)
    } else if str_eq(api_type, "anthropic") {
        Some(ApiKind::Anthropic)
    } else if str_eq(api_type, "google") {
        Some(ApiKind::Google)
    } else if str_eq(api_type, "baidu") {
        Some(ApiKind::Baidu)
    } else {
        None
    }
}

/// The HTTP method of a request.
#[derive(Clone, Copy, Debug, PartialEq, Eq, Structural)]
pub enum HttpMethod {
    Get,
    Post,
}

/// The request that tests a connection: method, address, headers, query
/// pairs, and whether it carries the one-message ping body.
pub struct ConnectionProbe {
    pub method: HttpMethod,
    pub url: String,
    pub headers: Vec<(String, String)>,
    pub query: Vec<(String, String)>,
    pub ping_body: bool,
}

/// A connection probe as plain values.
pub struct ProbeView {
    pub method: HttpMethod,
    pub url: Seq<char>,
    pub headers: Seq<(Seq<char>, Seq<char>)>,
    pub query: Seq<(Seq<char>, Seq<char>)>,
    pub ping_body: bool,
}

/// The characters of both strings of a pair.
pub open spec fn pair_view(p: (String, String)) -> (Seq<char>, Seq<char>) {
    (p.0@, p.1@)
}

impl View for ConnectionProbe {
    type V = ProbeView;

    open spec fn view(&self) -> ProbeView {
        ProbeView {
            method: self.method,
            url: self.url@,
            headers: self.headers@.map_values(|p: (String, String)| pair_view(p)),
            query: self.query@.map_values(|p: (String, String)| pair_view(p)),
            ping_body: self.ping_body,
        }
    }
}

/// The version header sent to the Anthropic API.
pub const ANTHROPIC_VERSION: &'static str = "2023-06-01";

/// The token limit of the Anthropic ping.
pub const ANTHROPIC_PING_MAX_TOKENS: u32 = 10;

/// The token endpoint that Baidu credentials are checked against.
pub open spec fn baidu_token_url() -> Seq<char> {
    "https://aip.baidubce.com/oauth/2.0/token"@
}

/// The probe for an API of kind `kind` at `base_url` with `api_key`: the
/// model list for OpenAI and Google, a one-message ping for Anthropic, and
/// a client-credentials token request for Baidu (the base address goes as
/// the client secret there). Trailing slashes of the base address are
/// dropped before the path is added.
pub open spec fn probe_of(kind: ApiKind, base_url: Seq<char>, api_key: Seq<char>) -> ProbeView {
    let base = trim_end_char(base_url, '/');
    match kind {
        ApiKind::OpenAi => ProbeView {
            method: HttpMethod::Get,
            url: base + "/models"@,
            headers: seq![("Authorization"@, "Bearer "@ + api_key)],
            query: Seq::empty(),
            ping_body: false,
        },
        ApiKind::Anthropic => ProbeView {
            method: HttpMethod::Post,
            url: base + "/messages"@,
            headers: seq![("x-api-key"@, api_key), ("anthropic-version"@, "2023-06-01"@)],
            query: Seq::empty(),
            ping_body: true,
        },
        ApiKind::Google => ProbeView {
            method: HttpMethod::Get,
            url: base + "/models"@,
            headers: seq![("x-goog-api-key"@, api_key)],
            query: Seq::empty(),
            ping_body: false,
        },
        ApiKind::Baidu => ProbeView {
            method: HttpMethod::Post,
            url: baidu_token_url(),
            headers: Seq::empty(),
            query: seq![
                ("grant_type"@, "client_credentials"@),
                ("client_id"@, api_key),
                ("client_secret"@, base_url),
            ],
            ping_body: false,
        },
    }
}

/// What came back from a probe: a status (with its display text, and for a
/// model listing the number of models when the body was JSON), or the
/// transport error's message.
pub enum ProbeReply {
    Status { code: u16, status_text: String, model_count: Option<usize> },
    Failed { message: String },
}

/// The judgement on a connection test.
pub struct ConnectionVerdict {
    pub valid: bool,
    pub models_available: Option<usize>,
    pub error: Option<String>,
}

/// A verdict as plain values.
pub struct VerdictView {
    pub valid: bool,
    pub models_available: Option<usize>,
    pub error: Option<Seq<char>>,
}

impl View for ConnectionVerdict {
    type V = VerdictView;

    open spec fn view(&self) -> VerdictView {
        VerdictView {
            valid: self.valid,
            models_available: self.models_available,
            error: match self.error {
                Some(e) => Some(e@),
                None => None,
            },
        }
    }
}

/// The verdict on a reply: a transport failure is invalid with its message;
/// for OpenAI, 200 is valid (with the model count when known), 401 is an
/// invalid key, and any other status is invalid with `HTTP` and the
/// status; for the other kinds the key is valid exactly on status 200.
pub open spec fn verdict_of(kind: ApiKind, code: Option<u16>, text: Seq<char>, model_count: Option<usize>) -> VerdictView {
    match code {
        None => VerdictView { valid: false, models_available: None, error: Some(text) },
        Some(c) => if kind == ApiKind::OpenAi {
            if c == 200 {
                VerdictView { valid: true, models_available: model_count, error: None }
            } else if c == 401 {
                VerdictView { valid: false, models_available: None, error: Some("Invalid API key"@) }
            } else {
                VerdictView { valid: false, models_available: None, error: Some("HTTP "@ + text) }
            }
        } else {
            VerdictView { valid: c == 200, models_available: None, error: None }
        },
    }
}

/// The verdict given for an API type that cannot be tested.
pub open spec fn unsupported_verdict(api_type: Seq<char>) -> VerdictView {
    VerdictView {
        valid: false,
        models_available: None,
        error: Some("Unsupported API type: "@ + api_type),
    }
}

fn pair(a: &str, b: &str) -> (r: (String, String))
    ensures
        pair_view(r) == (a@, b@),
{
    (owned(a), owned(b))
}

fn joined(a: &str, b: &str) -> (r: String)
    ensures
        r@ == a@ + b@,
{
    let mut r = owned(a);
    push_str(&mut r, b);
    r
}

/// Tests whether an API key is accepted by its provider.
pub struct TestConnectionUseCase;

impl TestConnectionUseCase {
    pub fn new() -> (r: Self) {
        TestConnectionUseCase
    }

    /// The probe to send for `api_type` at `base_url` with `api_key`, or
    /// the verdict at once when the API type cannot be tested.
    pub fn plan(&self, api_type: &str, base_url: &str, api_key: &str) -> (r: Result<ConnectionProbe, ConnectionVerdict>)
        ensures
            match api_kind_of(api_type@) {
                Some(kind) => r matches Ok(p) && p@ == probe_of(kind, base_url@, api_key@),
                None => r matches Err(v) && v@ == unsupported_verdict(api_type@),
            },
    {
        let kind = match api_kind(api_type) {
            Some(k) => k,
            None => {
                return Err(ConnectionVerdict {
                    valid: false,
                    models_available: None,
                    error: Some(joined("Unsupported API type: ", api_type)),
                });
            },
        };
        let base = trim_end_matching(base_url, '/');
        let probe = match kind {
            ApiKind::OpenAi => ConnectionProbe {
                method: HttpMethod::Get,
                url: joined(base.as_str(), "/models"),
                headers: vec![pair("Authorization", joined("Bearer ", api_key).as_str())],
                query: Vec::new(),
                ping_body: false,
            },
            ApiKind::Anthropic => ConnectionProbe {
                method: HttpMethod::Post,
                url: joined(base.as_str(), "/messages"),
                headers: vec![pair("x-api-key", api_key), pair("anthropic-version", ANTHROPIC_VERSION)],
                query: Vec::new(),
                ping_body: true,
            },
            ApiKind::Google => ConnectionProbe {
                method: HttpMethod::Get,
                url: joined(base.as_str(), "/models"),
                headers: vec![pair("x-goog-api-key", api_key)],
                query: Vec::new(),
                ping_body: false,
            },
            ApiKind::Baidu => ConnectionProbe {
                method: HttpMethod::Post,
                url: owned("https://aip.baidubce.com/oauth/2.0/token"),
                headers: Vec::new(),
                query: vec![
                    pair("grant_type", "client_credentials"),
                    pair("client_id", api_key),
                    pair("client_secret", base_url),
                ],
                ping_body: false,
            },
        };
        proof {
            assert(probe@.headers =~= probe_of(kind, base_url@, api_key@).headers);
            assert(probe@.query =~= probe_of(kind, base_url@, api_key@).query);
        }
        Ok(probe)
    }

    /// The verdict on what a probe of kind `kind` got back.
    pub fn verdict(&self, kind: ApiKind, reply: ProbeReply) -> (r: ConnectionVerdict)
        ensures
            r@ == (match reply {
                ProbeReply::Status { code, status_text, model_count } => verdict_of(
                    kind,
                    Some(code),
                    status_text@,
                    model_count,
                ),
                ProbeReply::Failed { message } => verdict_of(kind, None, message@, None),
            }),
    {
        match reply {
            ProbeReply::Failed { message } => ConnectionVerdict {
                valid: false,
                models_available: None,
                error: Some(message),
            },
            ProbeReply::Status { code, status_text, model_count } => {
                if kind == ApiKind::OpenAi {
                    if code == 200 {
                        ConnectionVerdict { valid: true, models_available: model_count, error: None }
                    } else if code == 401 {
                        ConnectionVerdict {
                            valid: false,
                            models_available: None,
                            error: Some(owned("Invalid API key")),
                        }
                    } else {
                        ConnectionVerdict {
                            valid: false,
                            models_available: None,
                            error: Some(joined("HTTP ", status_text.as_str())),
                        }
                    }
                } else {
                    ConnectionVerdict { valid: code == 200, models_available: None, error: None }
                }
            },
        }
    }

    /// The probe for testing `provider` with `api_key` at `base_url`, or
    /// at the provider's own base address when none is given.
    pub fn probe_for(&self, provider: &ApiProvider, api_key: &str, base_url: Option<&str>) -> (r: Result<ConnectionProbe, ConnectionVerdict>)
        ensures
            ({
                let url = match base_url {
                    Some(u) => u@,
                    None => provider.base_url@,
                };
                match api_kind_of(provider.api_type@) {
                    Some(kind) => r matches Ok(p) && p@ == probe_of(kind, url, api_key@),
                    None => r matches Err(v) && v@ == unsupported_verdict(provider.api_type@),
                }
            }),
    {
        let url = match base_url {
            Some(u) => u,
            None => provider.base_url.as_str(),
        };
        self.plan(provider.api_type.as_str(), url, api_key)
    }

    /// The verdict for a provider the catalog does not know.
    pub fn unknown_provider(&self) -> (r: ConnectionVerdict)
        ensures
            r@ == (VerdictView { valid: false, models_available: None, error: Some("Unknown provider"@) }),
    {
        ConnectionVerdict { valid: false, models_available: None, error: Some(owned("Unknown provider")) }
    }

    /// The verdict for a provider without a stored key.
    pub fn no_key(&self) -> (r: ConnectionVerdict)
        ensures
            r@ == (VerdictView { valid: false, models_available: None, error: Some("No key configured"@) }),
    {
        ConnectionVerdict { valid: false, models_available: None, error: Some(owned("No key configured")) }
    }

    /// The verdict given when no HTTP client could be built.
    pub fn client_unavailable(&self) -> (r: ConnectionVerdict)
        ensures
            r@ == (VerdictView {
                valid: false,
                models_available: None,
                error: Some("Failed to create HTTP client"@),
            }),
    {
        ConnectionVerdict {
            valid: false,
            models_available: None,
            error: Some(owned("Failed to create HTTP client")),
        }
    }
}

/// An entry of the provider catalog.
pub struct ApiProvider {
    pub id: String,
    pub name: String,
    pub name_zh: String,
    pub api_type: String,
    pub base_url: String,
    pub models: Vec<String>,
    pub requires_key: bool,
    pub is_chinese: bool,
    pub is_local: bool,
    pub supports_reasoning: bool,
    pub supports_vision: bool,
}

/// The name of the first catalog entry with id `id`.
pub open spec fn catalog_name(catalog: Seq<ApiProvider>, id: Seq<char>) -> Option<Seq<char>>
    decreases catalog.len(),
{
    if catalog.len() == 0 {
        None
    } else if catalog[0].id@ == id {
        Some(catalog[0].name@)
    } else {
        catalog_name(catalog.drop_first(), id)
    }
}

/// Whether the catalog knows a provider with id `id`.
pub open spec fn in_catalog(catalog: Seq<ApiProvider>, id: Seq<char>) -> bool {
    exists|i: int| 0 <= i < catalog.len() && #[trigger] catalog[i].id@ == id
}

proof fn lemma_catalog_name_some(catalog: Seq<ApiProvider>, id: Seq<char>)
    ensures
        catalog_name(catalog, id) is Some <==> in_catalog(catalog, id),
    decreases catalog.len(),
{
    if catalog.len() > 0 {
        lemma_catalog_name_some(catalog.drop_first(), id);
        if in_catalog(catalog, id) && catalog[0].id@ != id {
            let i = choose|i: int| 0 <= i < catalog.len() && #[trigger] catalog[i].id@ == id;
            assert(catalog.drop_first()[i - 1].id@ == id);
        }
        if in_catalog(catalog.drop_first(), id) {
            let i = choose|i: int| 0 <= i < catalog.len() - 1 && #[trigger] catalog.drop_first()[i].id@ == id;
            assert(catalog[i + 1].id@ == id);
        }
    }
}

/// Looks up the name of the provider with id `id`.
pub fn lookup_name(catalog: &Vec<ApiProvider>, id: &str) -> (r: Option<String>)
    ensures
        match catalog_name(catalog@, id@) {
            Some(n) => r matches Some(x) && x@ == n,
            None => r is None,
        },
{
    let mut i: usize = 0;
    assert(catalog@.skip(0) =~= catalog@);
    while i < catalog.len()
        invariant
            i <= catalog.len(),
            catalog_name(catalog@, id@) == catalog_name(catalog@.skip(i as int), id@),
        decreases catalog.len() - i,
    {
        assert(catalog@.skip(i as int).drop_first() =~= catalog@.skip(i + 1));
        if str_eq(catalog[i].id.as_str(), id) {
            return Some(owned(catalog[i].name.as_str()));
        }
        i = i + 1;
    }
    None
}

/// A provider table of the configuration: its id, its stored key and its
/// base address (each absent when the table lacks it or holds another
/// type).
pub struct ProviderEntry {
    pub id: String,
    pub api_key: Option<String>,
    pub base_url: Option<String>,
}

/// The provider settings of the configuration: the primary and secondary
/// provider ids and the provider tables, in the order the file lists them.
pub struct ProviderConfig {
    pub primary: Option<String>,
    pub secondary: Option<String>,
    pub providers: Vec<ProviderEntry>,
}

/// A provider table holds a non-empty key.
pub open spec fn has_key(e: ProviderEntry) -> bool {
    e.api_key matches Some(k) && k@.len() > 0
}

/// Whether provider `id` has a table with a non-empty key.
pub open spec fn is_configured(entries: Seq<ProviderEntry>, id: Seq<char>) -> bool {
    exists|i: int| 0 <= i < entries.len() && #[trigger] entries[i].id@ == id && has_key(entries[i])
}

/// Whether a provider has a key, per table.
pub struct KeyStatus {
    pub id: String,
    pub has_key: bool,
}

/// The primary or secondary provider as reported: its id, its catalog name
/// and whether it has a key.
pub struct RoleStatus {
    pub id: String,
    pub name: Option<String>,
    pub configured: bool,
}

/// The provider status report.
pub struct ProviderStatus {
    pub primary: Option<RoleStatus>,
    pub secondary: Option<RoleStatus>,
    pub configured_providers: Vec<KeyStatus>,
}

/// `r` reports provider `id`: its catalog name and whether it has a key.
pub open spec fn reports_role(r: RoleStatus, id: Seq<char>, catalog: Seq<ApiProvider>, entries: Seq<ProviderEntry>) -> bool {
    &&& r.id@ == id
    &&& match catalog_name(catalog, id) {
        Some(n) => r.name matches Some(x) && x@ == n,
        None => r.name is None,
    }
    &&& r.configured == is_configured(entries, id)
}

/// `r` reports the optional role `id`.
pub open spec fn reports_opt_role(r: Option<RoleStatus>, id: Option<String>, catalog: Seq<ApiProvider>, entries: Seq<ProviderEntry>) -> bool {
    match id {
        Some(i) => r matches Some(x) && reports_role(x, i@, catalog, entries),
        None => r is None,
    }
}

fn has_key_of(e: &ProviderEntry) -> (b: bool)
    ensures
        b == has_key(*e),
{
    match &e.api_key {
        Some(k) => !k.as_str().is_empty(),
        None => false,
    }
}

/// Whether provider `id` has a table with a non-empty key.
fn configured_in(entries: &Vec<ProviderEntry>, id: &str) -> (b: bool)
    ensures
        b == is_configured(entries@, id@),
{
    let mut i: usize = 0;
    while i < entries.len()
        invariant
            i <= entries.len(),
            forall|k: int| 0 <= k < i ==> !(#[trigger] entries@[k].id@ == id@ && has_key(entries@[k])),
        decreases entries.len() - i,
    {
        if str_eq(entries[i].id.as_str(), id) && has_key_of(&entries[i]) {
            return true;
        }
        i = i + 1;
    }
    false
}

fn role_status(id: &str, catalog: &Vec<ApiProvider>, entries: &Vec<ProviderEntry>) -> (r: RoleStatus)
    ensures
        reports_role(r, id@, catalog@, entries@),
{
    RoleStatus { id: owned(id), name: lookup_name(catalog, id), configured: configured_in(entries, id) }
}

fn opt_role_status(id: &Option<String>, catalog: &Vec<ApiProvider>, entries: &Vec<ProviderEntry>) -> (r: Option<RoleStatus>)
    ensures
        reports_opt_role(r, *id, catalog@, entries@),
{
    match id {
        Some(i) => Some(role_status(i.as_str(), catalog, entries)),
        None => None,
    }
}

/// Reports the primary and secondary providers and which providers have keys.
pub struct GetProviderStatusUseCase;

impl GetProviderStatusUseCase {
    pub fn new() -> (r: Self) {
        GetProviderStatusUseCase
    }

    /// The status of the providers in `config`, with names from `catalog`:
    /// for the primary and the secondary provider its id, catalog name and
    /// whether any table of that id holds a non-empty key; and for each
    /// provider table, in order, whether it holds a non-empty key.
    pub fn execute(&self, config: &ProviderConfig, catalog: &Vec<ApiProvider>) -> (r: ProviderStatus)
        ensures
            reports_opt_role(r.primary, config.primary, catalog@, config.providers@),
            reports_opt_role(r.secondary, config.secondary, catalog@, config.providers@),
            r.configured_providers@.len() == config.providers@.len(),
            forall|i: int| 0 <= i < config.providers@.len() ==> {
                &&& (#[trigger] r.configured_providers@[i]).id@ == config.providers@[i].id@
                &&& r.configured_providers@[i].has_key == has_key(config.providers@[i])
            },
    {
        let mut list: Vec<KeyStatus> = Vec::new();
        let mut i: usize = 0;
        while i < config.providers.len()
            invariant
                i <= config.providers.len(),
                list@.len() == i,
                forall|k: int| 0 <= k < i ==> {
                    &&& (#[trigger] list@[k]).id@ == config.providers@[k].id@
                    &&& list@[k].has_key == has_key(config.providers@[k])
                },
            decreases config.providers.len() - i,
        {
            let e = &config.providers[i];
            list.push(KeyStatus { id: owned(e.id.as_str()), has_key: has_key_of(e) });
            i = i + 1;
        }
        ProviderStatus {
            primary: opt_role_status(&config.primary, catalog, &config.providers),
            secondary: opt_role_status(&config.secondary, catalog, &config.providers),
            configured_providers: list,
        }
    }
}

/// Whether the catalog knows provider `id`.
pub fn known_provider(catalog: &Vec<ApiProvider>, id: &str) -> (b: bool)
    ensures
        b == in_catalog(catalog@, id@),
{
    let n = lookup_name(catalog, id);
    proof {
        lemma_catalog_name_some(catalog@, id@);
    }
    n.is_some()
}

/// The changes a configure request makes to the configuration file: the key
/// (and base address) to write into the provider's table, and whether the
/// provider becomes the primary or the secondary one.
pub struct ConfigEdits {
    pub provider_key: Option<(String, Option<String>)>,
    pub set_primary: bool,
    pub set_secondary: bool,
}

/// `edits` keeps `api_key` (with `base_url`) for the file exactly when
/// `to_file` holds, and sets the roles as asked.
pub open spec fn edits_as_asked(
    edits: ConfigEdits,
    to_file: bool,
    api_key: Option<String>,
    base_url: Option<String>,
    is_primary: Option<bool>,
    is_secondary: Option<bool>,
) -> bool {
    &&& match (to_file, api_key) {
        (true, Some(k)) => edits.provider_key matches Some((x, b)) && x@ == k@ && b == base_url,
        _ => edits.provider_key is None,
    }
    &&& edits.set_primary == (is_primary == Some(true))
    &&& edits.set_secondary == (is_secondary == Some(true))
}

/// The error reported when the configuration could not be saved.
pub fn save_failure(reason: &str) -> (r: AppError)
    ensures
        r@ == AppErrorView::Internal("Save failed: "@ + reason@),
{
    AppError::Internal(concat("Save failed: ", reason))
}

/// Stores a provider's key and makes it primary or secondary.
pub struct ConfigureProviderUseCase;

impl ConfigureProviderUseCase {
    pub fn new() -> (r: Self) {
        ConfigureProviderUseCase
    }

    /// Configures provider `provider_id`. An id the catalog does not know is
    /// refused with `Unknown provider` and nothing is touched. When the
    /// vault is open a given key goes into the vault (with the base address,
    /// or the empty string) and the other stored keys stay as they were;
    /// a vault failure is an internal error
    /// `Vault error: ` with the reason; when the vault is locked a given key
    /// goes into the configuration file instead. The returned edits also set
    /// the primary and secondary roles as asked.
    pub fn execute<V: VaultRepository>(
        &self,
        vault: &mut V,
        catalog: &Vec<ApiProvider>,
        provider_id: &str,
        api_key: Option<String>,
        base_url: Option<String>,
        is_primary: Option<bool>,
        is_secondary: Option<bool>,
    ) -> (r: Result<ConfigEdits, AppError>)
        ensures
            !in_catalog(catalog@, provider_id@) ==> {
                &&& r matches Err(e) && e@ == AppErrorView::Validation("Unknown provider"@)
                &&& *final(vault) == *old(vault)
            },
            in_catalog(catalog@, provider_id@) && old(vault).locked() ==> {
                &&& r matches Ok(edits) && edits_as_asked(edits, true, api_key, base_url, is_primary, is_secondary)
                &&& *final(vault) == *old(vault)
            },
            in_catalog(catalog@, provider_id@) && !old(vault).locked() && api_key is None ==> {
                &&& r matches Ok(edits) && edits_as_asked(edits, false, api_key, base_url, is_primary, is_secondary)
                &&& *final(vault) == *old(vault)
            },
            in_catalog(catalog@, provider_id@) && !old(vault).locked() && api_key is Some ==> match r {
                Ok(edits) => {
                    &&& edits_as_asked(edits, false, api_key, base_url, is_primary, is_secondary)
                    &&& (final(vault).stored_key(provider_id) matches Some((k, b)) && k@ == api_key.unwrap()@
                        && b@ == match base_url {
                            Some(u) => u@,
                            None => Seq::<char>::empty(),
                        })
                    &&& forall|p: &str| p@ != provider_id@ ==> #[trigger] final(vault).stored_key(p) == old(vault).stored_key(p)
                },
                Err(e) => exists|m: Seq<char>| e@ == AppErrorView::Internal("Vault error: "@ + m),
            },
    {
        if !known_provider(catalog, provider_id) {
            return Err(AppError::Validation(owned("Unknown provider")));
        }
        let set_primary = match is_primary {
            Some(b) => b,
            None => false,
        };
        let set_secondary = match is_secondary {
            Some(b) => b,
            None => false,
        };
        if vault.is_locked() {
            let provider_key = match api_key {
                Some(k) => Some((k, base_url)),
                None => None,
            };
            return Ok(ConfigEdits { provider_key, set_primary, set_secondary });
        }
        if let Some(k) = &api_key {
            let base = match &base_url {
                Some(b) => b.as_str(),
                None => "",
            };
            proof {
                reveal_strlit("");
            }
            assert(base@ == match base_url {
                Some(u) => u@,
                None => Seq::<char>::empty(),
            });
            match vault.set_key(provider_id, k.as_str(), base) {
                Ok(()) => {},
                Err(e) => {
                    let m = concat("Vault error: ", e.as_str());
                    assert(AppError::Internal(m)@ == AppErrorView::Internal("Vault error: "@ + e@));
                    return Err(AppError::Internal(m));
                },
            }
        }
        Ok(ConfigEdits { provider_key: None, set_primary, set_secondary })
    }
}

/// The position of the first catalog entry with id `id`.
pub open spec fn catalog_index(catalog: Seq<ApiProvider>, id: Seq<char>) -> Option<int>
    decreases catalog.len(),
{
    if catalog.len() == 0 {
        None
    } else if catalog[0].id@ == id {
        Some(0)
    } else {
        match catalog_index(catalog.drop_first(), id) {
            Some(i) => Some(i + 1),
            None => None,
        }
    }
}

proof fn lemma_catalog_index_at(catalog: Seq<ApiProvider>, id: Seq<char>, i: int)
    requires
        0 <= i < catalog.len(),
        catalog[i].id@ == id,
        forall|k: int| 0 <= k < i ==> #[trigger] catalog[k].id@ != id,
    ensures
        catalog_index(catalog, id) == Some(i),
    decreases i,
{
    if i > 0 {
        let rest = catalog.drop_first();
        assert forall|k: int| 0 <= k < i - 1 implies #[trigger] rest[k].id@ != id by {
            assert(rest[k] == catalog[k + 1]);
        }
        lemma_catalog_index_at(rest, id, i - 1);
    }
}

proof fn lemma_catalog_index_none(catalog: Seq<ApiProvider>, id: Seq<char>)
    requires
        forall|k: int| 0 <= k < catalog.len() ==> #[trigger] catalog[k].id@ != id,
    ensures
        catalog_index(catalog, id) is None,
    decreases catalog.len(),
{
    if catalog.len() > 0 {
        let rest = catalog.drop_first();
        assert forall|k: int| 0 <= k < rest.len() implies #[trigger] rest[k].id@ != id by {
            assert(rest[k] == catalog[k + 1]);
        }
        lemma_catalog_index_none(rest, id);
    }
}

/// The position of the catalog entry for `id`.
pub fn find_provider(catalog: &Vec<ApiProvider>, id: &str) -> (r: Option<usize>)
    ensures
        r matches Some(i) ==> i < catalog@.len() && catalog_index(catalog@, id@) == Some(i as int),
        r is None ==> catalog_index(catalog@, id@) is None,
{
    let mut i: usize = 0;
    while i < catalog.len()
        invariant
            i <= catalog.len(),
            forall|k: int| 0 <= k < i ==> #[trigger] catalog@[k].id@ != id@,
        decreases catalog.len() - i,
    {
        if str_eq(catalog[i].id.as_str(), id) {
            proof {
                lemma_catalog_index_at(catalog@, id@, i as int);
            }
            return Some(i);
        }
        i = i + 1;
    }
    proof {
        lemma_catalog_index_none(catalog@, id@);
    }
    None
}

/// The first provider table with id `id`.
pub open spec fn entry_index(entries: Seq<ProviderEntry>, id: Seq<char>) -> Option<int>
    decreases entries.len(),
{
    if entries.len() == 0 {
        None
    } else if entries[0].id@ == id {
        Some(0)
    } else {
        match entry_index(entries.drop_first(), id) {
            Some(i) => Some(i + 1),
            None => None,
        }
    }
}

proof fn lemma_entry_index_at(entries: Seq<ProviderEntry>, id: Seq<char>, i: int)
    requires
        0 <= i < entries.len(),
        entries[i].id@ == id,
        forall|k: int| 0 <= k < i ==> #[trigger] entries[k].id@ != id,
    ensures
        entry_index(entries, id) == Some(i),
    decreases i,
{
    if i > 0 {
        let rest = entries.drop_first();
        assert forall|k: int| 0 <= k < i - 1 implies #[trigger] rest[k].id@ != id by {
            assert(rest[k] == entries[k + 1]);
        }
        lemma_entry_index_at(rest, id, i - 1);
    }
}

proof fn lemma_entry_index_none(entries: Seq<ProviderEntry>, id: Seq<char>)
    requires
        forall|k: int| 0 <= k < entries.len() ==> #[trigger] entries[k].id@ != id,
    ensures
        entry_index(entries, id) is None,
    decreases entries.len(),
{
    if entries.len() > 0 {
        let rest = entries.drop_first();
        assert forall|k: int| 0 <= k < rest.len() implies #[trigger] rest[k].id@ != id by {
            assert(rest[k] == entries[k + 1]);
        }
        lemma_entry_index_none(rest, id);
    }
}

fn find_entry(entries: &Vec<ProviderEntry>, id: &str) -> (r: Option<usize>)
    ensures
        r matches Some(i) ==> i < entries@.len() && entry_index(entries@, id@) == Some(i as int),
        r is None ==> entry_index(entries@, id@) is None,
{
    let mut i: usize = 0;
    while i < entries.len()
        invariant
            i <= entries.len(),
            forall|k: int| 0 <= k < i ==> #[trigger] entries@[k].id@ != id@,
        decreases entries.len() - i,
    {
        if str_eq(entries[i].id.as_str(), id) {
            proof {
                lemma_entry_index_at(entries@, id@, i as int);
            }
            return Some(i);
        }
        i = i + 1;
    }
    proof {
        lemma_entry_index_none(entries@, id@);
    }
    None
}

/// What the detail page shows of one provider.
pub struct ProviderDetail {
    pub id: String,
    pub name: String,
    pub base_url: String,
    pub api_key_configured: bool,
    pub models: Vec<String>,
}

/// The detail of provider `id`: its catalog entry, with the base address
/// from its provider table when that holds one, and whether that table
/// holds a non-empty key. A provider the catalog does not know has none.
pub fn provider_detail(catalog: &Vec<ApiProvider>, config: &ProviderConfig, id: &str) -> (r: Option<ProviderDetail>)
    ensures
        match catalog_index(catalog@, id@) {
            None => r is None,
            Some(i) => r matches Some(d) && {
                let p = catalog@[i];
                &&& d.id@ == p.id@
                &&& d.name@ == p.name@
                &&& d.models@.len() == p.models@.len()
                &&& forall|m: int| 0 <= m < p.models@.len() ==> #[trigger] d.models@[m]@ == p.models@[m]@
                &&& match entry_index(config.providers@, id@) {
                    Some(j) => {
                        &&& d.base_url@ == match config.providers@[j].base_url {
                            Some(b) => b@,
                            None => p.base_url@,
                        }
                        &&& d.api_key_configured == has_key(config.providers@[j])
                    },
                    None => d.base_url@ == p.base_url@ && !d.api_key_configured,
                }
            },
        },
{
    let i = match find_provider(catalog, id) {
        Some(i) => i,
        None => return None,
    };
    let p = &catalog[i];
    let (base_url, api_key_configured) = match find_entry(&config.providers, id) {
        Some(j) => {
            let e = &config.providers[j];
            let b = match &e.base_url {
                Some(b) => owned(b.as_str()),
                None => owned(p.base_url.as_str()),
            };
            (b, has_key_of(e))
        },
        None => (owned(p.base_url.as_str()), false),
    };
    let mut models: Vec<String> = Vec::new();
    let mut k: usize = 0;
    while k < p.models.len()
        invariant
            k <= p.models.len(),
            models@.len() == k,
            forall|m: int| 0 <= m < k ==> #[trigger] models@[m]@ == p.models@[m]@,
        decreases p.models.len() - k,
    {
        models.push(owned(p.models[k].as_str()));
        k = k + 1;
    }
    Some(ProviderDetail { id: owned(p.id.as_str()), name: owned(p.name.as_str()), base_url, api_key_configured, models })
}

/// The count of providers tested, and of those whose key passed, when all
/// stored keys are tested.
pub struct TestTally {
    pub tested: usize,
    pub passed: usize,
}

impl TestTally {
    /// Nothing tested yet.
    pub fn new() -> (r: TestTally)
        ensures
            r.tested == 0 && r.passed == 0,
    {
        TestTally { tested: 0, passed: 0 }
    }

    /// Counts one more test, and one more pass when it was valid.
    pub fn record(&mut self, verdict: &ConnectionVerdict)
        requires
            old(self).tested < usize::MAX,
            old(self).passed <= old(self).tested,
        ensures
            final(self).tested == old(self).tested + 1,
            final(self).passed == old(self).passed + if verdict.valid { 1usize } else { 0usize },
            final(self).passed <= final(self).tested,
    {
        if verdict.valid {
            self.passed = self.passed + 1;
        }
        self.tested = self.tested + 1;
    }
}

/// A request to configure a provider.
pub struct ConfigureBody {
    pub provider_id: String,
    pub api_key: Option<String>,
    pub base_url: Option<String>,
    pub is_primary: Option<bool>,
    pub is_secondary: Option<bool>,
}

/// A request to test a provider's key.
pub struct TestBody {
    pub provider_id: String,
    pub api_key: Option<String>,
    pub base_url: Option<String>,
}

} // verus!

//! First-run setup: the system modes and the settings each one implies,
//! whether this is the first run, the mode currently configured, and what
//! auto-discovery concludes from the machine.

use vstd::prelude::*;
use crate::text::{chars_of, owned, str_eq};

verus! {

/// How strictly the system is locked down.
#[derive(Clone, Copy, Debug, PartialEq, Eq, Structural)]
pub enum SystemMode {
    Secure,
    Balanced,
    Unrestricted,
}

/// The id of a mode, as it is written in the configuration.
pub open spec fn mode_id(m: SystemMode) -> Seq<char> {
    match m {
        SystemMode::Secure => "secure"@,
        SystemMode::Balanced => "balanced"@,
        SystemMode::Unrestricted => "unrestricted"@,
    }
}

/// The mode whose id is `id`.
pub open spec fn mode_named(id: Seq<char>) -> Option<SystemMode> {
    if id == "secure"@ {
        Some(SystemMode::Secure)
    } else if id == "balanced"@ {
        Some(SystemMode::Balanced)
    } else if id == "unrestricted"@ {
        Some(SystemMode::Unrestricted)
    } else {
        None
    }
}

/// The minutes of idleness after which the vault locks itself, zero for
/// never.
pub open spec fn mode_auto_lock(m: SystemMode) -> u64 {
    match m {
        SystemMode::Secure => 5,
        SystemMode::Balanced => 15,
        SystemMode::Unrestricted => 0,
    }
}

/// The CORS policy of a mode.
pub open spec fn mode_cors(m: SystemMode) -> Seq<char> {
    match m {
        SystemMode::Secure => "strict"@,
        SystemMode::Balanced => "local"@,
        SystemMode::Unrestricted => "any"@,
    }
}

impl SystemMode {
    /// The modes, in the order they are offered.
    pub fn all() -> (r: Vec<SystemMode>)
        ensures
            r@ == seq![SystemMode::Secure, SystemMode::Balanced, SystemMode::Unrestricted],
    {
        vec![SystemMode::Secure, SystemMode::Balanced, SystemMode::Unrestricted]
    }

    /// The mode whose id is `id`, if any.
    pub fn parse(id: &str) -> (r: Option<SystemMode>)
        ensures
            r == mode_named(id@),
    {
        if str_eq(id, "secure") {
            Some(SystemMode::Secure)
        } else if str_eq(id, "balanced") {
            Some(SystemMode::Balanced)
        } else if str_eq(id, "unrestricted") {
            Some(SystemMode::Unrestricted)
        } else {
            None
        }
    }

    /// The id of this mode.
    pub fn id(&self) -> (r: &'static str)
        ensures
            r@ == mode_id(*self),
    {
        match self {
            SystemMode::Secure => "secure",
            SystemMode::Balanced => "balanced",
            SystemMode::Unrestricted => "unrestricted",
        }
    }

    /// The English label of this mode.
    pub fn label(&self) -> (r: &'static str)
        ensures
            r@ == match *self {
                SystemMode::Secure => "🔒 Secure"@,
                SystemMode::Balanced => "⚖️ Balanced"@,
                SystemMode::Unrestricted => "🚀 Unrestricted"@,
            },
    {
        match self {
            SystemMode::Secure => "🔒 Secure",
            SystemMode::Balanced => "⚖️ Balanced",
            SystemMode::Unrestricted => "🚀 Unrestricted",
        }
    }

    /// The Spanish label of this mode.
    pub fn label_es(&self) -> (r: &'static str)
        ensures
            r@ == match *self {
                SystemMode::Secure => "🔒 Seguro"@,
                SystemMode::Balanced => "⚖️ Balanceado"@,
                SystemMode::Unrestricted => "🚀 Sin restricciones"@,
            },
    {
        match self {
            SystemMode::Secure => "🔒 Seguro",
            SystemMode::Balanced => "⚖️ Balanceado",
            SystemMode::Unrestricted => "🚀 Sin restricciones",
        }
    }

    /// The description of this mode.
    pub fn description_es(&self) -> (r: &'static str)
        ensures
            r@ == match *self {
                SystemMode::Secure => "Full TLS, vault required, auto-lock 5min, restricted CORS, Firefox hardening"@,
                SystemMode::Balanced => "TLS enabled, vault optional, auto-lock 15min"@,
                SystemMode::Unrestricted => "Local-only, no TLS needed, no vault, full API access, no hardening"@,
            },
    {
        match self {
            SystemMode::Secure => "Full TLS, vault required, auto-lock 5min, restricted CORS, Firefox hardening",
            SystemMode::Balanced => "TLS enabled, vault optional, auto-lock 15min",
            SystemMode::Unrestricted => "Local-only, no TLS needed, no vault, full API access, no hardening",
        }
    }

    /// The auto-lock minutes of this mode.
    pub fn auto_lock_minutes(&self) -> (r: u64)
        ensures
            r == mode_auto_lock(*self),
    {
        match self {
            SystemMode::Secure => 5,
            SystemMode::Balanced => 15,
            SystemMode::Unrestricted => 0,
        }
    }
}

/// A request to switch the system mode.
pub struct SetModeBody {
    pub mode: String,
}

/// The `[system]` settings written for a mode.
pub struct SystemSettings {
    pub mode: String,
    pub auto_lock_minutes: u64,
    pub require_vault: bool,
    pub cors_origin: String,
    pub firefox_hardening: bool,
    pub system_hardening: bool,
}

/// The settings implied by mode `m`: the vault is required and the system
/// hardened only in secure mode, the browser hardened in secure and
/// balanced mode.
pub open spec fn settings_match(s: SystemSettings, m: SystemMode) -> bool {
    &&& s.mode@ == mode_id(m)
    &&& s.auto_lock_minutes == mode_auto_lock(m)
    &&& s.require_vault == (m == SystemMode::Secure)
    &&& s.cors_origin@ == mode_cors(m)
    &&& s.firefox_hardening == (m == SystemMode::Secure || m == SystemMode::Balanced)
    &&& s.system_hardening == (m == SystemMode::Secure)
}

/// The reason a mode switch is refused.
#[derive(Clone, Copy, Debug, PartialEq, Eq, Structural)]
pub enum ModeError {
    InvalidMode,
}

/// The settings of the requested mode, or `InvalidMode` for an id that
/// names no mode.
pub fn set_mode(body: &SetModeBody) -> (r: Result<SystemSettings, ModeError>)
    ensures
        match mode_named(body.mode@) {
            Some(m) => r matches Ok(s) && settings_match(s, m),
            None => r == Err::<SystemSettings, ModeError>(ModeError::InvalidMode),
        },
{
    let m = match SystemMode::parse(body.mode.as_str()) {
        Some(m) => m,
        None => return Err(ModeError::InvalidMode),
    };
    let cors = match m {
        SystemMode::Secure => "strict",
        SystemMode::Balanced => "local",
        SystemMode::Unrestricted => "any",
    };
    Ok(SystemSettings {
        mode: owned(m.id()),
        auto_lock_minutes: m.auto_lock_minutes(),
        require_vault: m == SystemMode::Secure,
        cors_origin: owned(cors),
        firefox_hardening: m == SystemMode::Secure || m == SystemMode::Balanced,
        system_hardening: m == SystemMode::Secure,
    })
}

/// A value written into the configuration file.
pub enum ConfigValue {
    Text(String),
    Integer(i64),
    Flag(bool),
}

/// A configuration value as plain values.
pub enum ConfigValueView {
    Text(Seq<char>),
    Integer(i64),
    Flag(bool),
}

/// The plain values of a configuration value.
pub open spec fn config_value_view(v: ConfigValue) -> ConfigValueView {
    match v {
        ConfigValue::Text(t) => ConfigValueView::Text(t@),
        ConfigValue::Integer(n) => ConfigValueView::Integer(n),
        ConfigValue::Flag(b) => ConfigValueView::Flag(b),
    }
}

/// The plain values of a list of configuration entries.
pub open spec fn entries_view(e: Seq<(String, ConfigValue)>) -> Seq<(Seq<char>, ConfigValueView)> {
    e.map_values(|p: (String, ConfigValue)| (p.0@, config_value_view(p.1)))
}

/// The text `toml` writes for the document `content` (an empty document
/// when it does not parse) with its table `table` replaced by one holding
/// `entries`, and every other table kept.
pub uninterp spec fn toml_table_replaced(
    content: Seq<char>,
    table: Seq<char>,
    entries: Seq<(Seq<char>, ConfigValueView)>,
) -> Seq<char>;

/// Parses `content` with `toml`'s `FromStr` for `toml::Value` (an empty
/// table when it does not parse), sets its table `table` to a table of
/// `entries`, and writes it with `toml::to_string_pretty`. The text is
/// named, not stated.
#[verifier::external_body]
pub(crate) fn toml_replace_table(content: &str, table: &str, entries: &Vec<(String, ConfigValue)>) -> (r: String)
    ensures
        r@ == toml_table_replaced(content@, table@, entries_view(entries@)),
{
    let mut config: toml::Value = content.parse().unwrap_or(toml::Value::Table(Default::default()));
    let mut t = toml::map::Map::new();
    for (k, v) in entries {
        let value = match v {
            ConfigValue::Text(s) => toml::Value::String(s.clone()),
            ConfigValue::Integer(n) => toml::Value::Integer(*n),
            ConfigValue::Flag(b) => toml::Value::Boolean(*b),
        };
        t.insert(k.clone(), value);
    }
    if let Some(root) = config.as_table_mut() {
        root.insert(table.to_string(), toml::Value::Table(t));
    }
    toml::to_string_pretty(&config).unwrap_or_default()
}

/// The `[system]` entries written for settings `s`, in order.
pub open spec fn system_entries(s: SystemSettings) -> Seq<(Seq<char>, ConfigValueView)> {
    seq![
        ("mode"@, ConfigValueView::Text(s.mode@)),
        ("auto_lock_minutes"@, ConfigValueView::Integer(s.auto_lock_minutes as i64)),
        ("require_vault"@, ConfigValueView::Flag(s.require_vault)),
        ("cors_origin"@, ConfigValueView::Text(s.cors_origin@)),
        ("firefox_hardening"@, ConfigValueView::Flag(s.firefox_hardening)),
        ("system_hardening"@, ConfigValueView::Flag(s.system_hardening)),
    ]
}

/// Switches the mode: for a mode id, its settings and the configuration
/// text `config` with its `[system]` table replaced by them (the other
/// tables kept); for any other id, `InvalidMode`.
pub fn apply_mode(config: &str, body: &SetModeBody) -> (r: Result<(SystemSettings, String), ModeError>)
    ensures
        match mode_named(body.mode@) {
            Some(m) => r matches Ok((st, text)) && settings_match(st, m)
                && text@ == toml_table_replaced(config@, "system"@, system_entries(st)),
            None => r is Err,
        },
{
    let st = match set_mode(body) {
        Ok(st) => st,
        Err(e) => return Err(e),
    };
    assert(st.auto_lock_minutes <= 15);
    let mut entries: Vec<(String, ConfigValue)> = Vec::new();
    entries.push((owned("mode"), ConfigValue::Text(owned(st.mode.as_str()))));
    entries.push((owned("auto_lock_minutes"), ConfigValue::Integer(st.auto_lock_minutes as i64)));
    entries.push((owned("require_vault"), ConfigValue::Flag(st.require_vault)));
    entries.push((owned("cors_origin"), ConfigValue::Text(owned(st.cors_origin.as_str()))));
    entries.push((owned("firefox_hardening"), ConfigValue::Flag(st.firefox_hardening)));
    entries.push((owned("system_hardening"), ConfigValue::Flag(st.system_hardening)));
    assert(entries_view(entries@) =~= system_entries(st));
    let text = toml_replace_table(config, "system", &entries);
    Ok((st, text))
}

/// It is the first run when neither the configuration file nor the vault
/// file exists.
pub fn is_first_run(config_exists: bool, vault_exists: bool) -> (r: bool)
    ensures
        r == (!config_exists && !vault_exists),
{
    if config_exists {
        return false;
    }
    if vault_exists {
        return false;
    }
    true
}

/// The string at `key` of the table `table` of a TOML document, when the
/// text parses as TOML, `table` is a table there and `key` holds a string.
pub uninterp spec fn toml_str_at_spec(content: Seq<char>, table: Seq<char>, key: Seq<char>) -> Option<Seq<char>>;

/// Parses `content` with `toml`'s `FromStr` for `toml::Value` and reads the
/// string at `key` of the table `table` with `Value::get` and
/// `Value::as_str`. What the parser accepts is named, not stated.
#[verifier::external_body]
fn toml_str_at(content: &str, table: &str, key: &str) -> (r: Option<String>)
    ensures
        match toml_str_at_spec(content@, table@, key@) {
            Some(m) => r matches Some(x) && x@ == m,
            None => r is None,
        },
{
    let v: toml::Value = content.parse().ok()?;
    let m = v.get(table)?.get(key)?.as_str()?;
    Some(m.to_string())
}

/// The string at `system.mode` of a TOML document, when there is one.
pub open spec fn toml_system_mode(content: Seq<char>) -> Option<Seq<char>> {
    toml_str_at_spec(content, "system"@, "mode"@)
}

/// Reads the string at `system.mode` of the configuration text.
fn read_system_mode(content: &str) -> (r: Option<String>)
    ensures
        match toml_system_mode(content@) {
            Some(m) => r matches Some(x) && x@ == m,
            None => r is None,
        },
{
    toml_str_at(content, "system", "mode")
}

/// The mode a configuration names, or `balanced` when it names none.
pub fn mode_or_balanced(found: Option<String>) -> (r: String)
    ensures
        r@ == match found {
            Some(m) => m@,
            None => "balanced"@,
        },
{
    match found {
        Some(m) => m,
        None => owned("balanced"),
    }
}

/// The configured mode: `system.mode` of the configuration text, or
/// `balanced` when there is no configuration or it names none.
pub fn current_mode(config: Option<&str>) -> (r: String)
    ensures
        r@ == match config {
            Some(c) => match toml_system_mode(c@) {
                Some(m) => m,
                None => "balanced"@,
            },
            None => "balanced"@,
        },
{
    match config {
        Some(c) => mode_or_balanced(read_system_mode(c)),
        None => mode_or_balanced(None),
    }
}

/// The language auto-discovery assumes for a `LANG` value: Spanish or
/// Chinese when it begins so, English otherwise.
pub open spec fn locale_language_of(lang: Option<Seq<char>>) -> Seq<char> {
    match lang {
        Some(l) => if l.len() >= 2 && l[0] == 'e' && l[1] == 's' {
            "es-ES"@
        } else if l.len() >= 2 && l[0] == 'z' && l[1] == 'h' {
            "zh-CN"@
        } else {
            "en-US"@
        },
        None => "en-US"@,
    }
}

/// The language auto-discovery assumes for the `LANG` value `lang`.
pub fn locale_language(lang: Option<&str>) -> (r: &'static str)
    ensures
        r@ == locale_language_of(
            match lang {
                Some(l) => Some(l@),
                None => None,
            },
        ),
{
    match lang {
        Some(l) => {
            let v = chars_of(l);
            if v.len() >= 2 && v[0] == 'e' && v[1] == 's' {
                "es-ES"
            } else if v.len() >= 2 && v[0] == 'z' && v[1] == 'h' {
                "zh-CN"
            } else {
                "en-US"
            }
        },
        None => "en-US",
    }
}

/// The most local models auto-discovery looks at.
pub const MAX_DISCOVERED_MODELS: usize = 10;

/// The names among the first ten listed models, in order, skipping entries
/// without a name.
pub open spec fn discovered_names(items: Seq<Option<String>>) -> Seq<Seq<char>>
    decreases items.len(),
{
    if items.len() == 0 {
        Seq::empty()
    } else {
        let rest = discovered_names(items.drop_last());
        let i = items.len() - 1;
        if i < MAX_DISCOVERED_MODELS && items.last() is Some {
            rest.push(items.last()->0@)
        } else {
            rest
        }
    }
}

/// The model names auto-discovery reports from a local model listing.
pub fn discovered_models(items: &Vec<Option<String>>) -> (r: Vec<String>)
    ensures
        r@.map_values(|s: String| s@) == discovered_names(items@),
{
    let mut r: Vec<String> = Vec::new();
    let mut i: usize = 0;
    while i < items.len()
        invariant
            i <= items.len(),
            r@.map_values(|s: String| s@) == discovered_names(items@.take(i as int)),
        decreases items.len() - i,
    {
        assert(items@.take(i + 1).drop_last() =~= items@.take(i as int));
        if i < MAX_DISCOVERED_MODELS {
            if let Some(name) = &items[i] {
                r.push(owned(name.as_str()));
            }
        }
        assert(r@.map_values(|s: String| s@) =~= discovered_names(items@.take(i + 1)));
        i = i + 1;
    }
    assert(items@.take(items.len() as int) =~= items@);
    r
}

} // verus!

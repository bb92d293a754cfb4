//! The text form of the configuration: one `key = value` per line.
//!
//! Blank lines and lines that begin with `#` do not count. A line that
//! counts sets the field that its key names; keys that name no field are
//! passed over. Where a key stands on several lines, the last one counts.

use vstd::prelude::*;

use crate::config::{AppConfig, ConfigError};
use crate::text::{
    after_first, before_first, chars_of, cut_at_first, is_text, lines_of, parse_unsigned,
    split_chars, split_lines, split_on, string_of, strip_chars, stripped, texts_of, trim_chars,
    trimmed, unsigned_of, views_of,
};

verus! {

/// The fields that a line of the configuration can set.
#[derive(Clone, Copy, Debug, PartialEq, Eq, Structural)]
pub enum ConfigKey {
    ServerPort,
    ServerHost,
    DatabasePath,
    MigrationWorkspace,
    MigrationQuarantine,
    MigrationCharsetFallback,
    MigrationParallelism,
    SmtpHost,
    SmtpPort,
    SmtpTls,
    ImapHost,
    ImapPort,
    ImapMailbox,
    MappingRules,
    SecurityAllow,
    LdapUrl,
    LdapBaseDn,
    LdapFilterPerson,
    CacheTtlSeconds,
    CacheCapacity,
    /// A key that names no field.
    Other,
}

/// The field that a key names.
pub open spec fn key_of(text: Seq<char>) -> ConfigKey {
    if text == "server.port"@ {
        ConfigKey::ServerPort
    } else if text == "server.host"@ {
        ConfigKey::ServerHost
    } else if text == "database.path"@ {
        ConfigKey::DatabasePath
    } else if text == "migration.workspace"@ {
        ConfigKey::MigrationWorkspace
    } else if text == "migration.quarantine"@ {
        ConfigKey::MigrationQuarantine
    } else if text == "migration.charsetFallback"@ {
        ConfigKey::MigrationCharsetFallback
    } else if text == "migration.parallelism"@ {
        ConfigKey::MigrationParallelism
    } else if text == "gateway.smtp.host"@ {
        ConfigKey::SmtpHost
    } else if text == "gateway.smtp.port"@ {
        ConfigKey::SmtpPort
    } else if text == "gateway.smtp.tls"@ {
        ConfigKey::SmtpTls
    } else if text == "gateway.imap.host"@ {
        ConfigKey::ImapHost
    } else if text == "gateway.imap.port"@ {
        ConfigKey::ImapPort
    } else if text == "gateway.imap.mailbox"@ {
        ConfigKey::ImapMailbox
    } else if text == "gateway.mapping.rules"@ {
        ConfigKey::MappingRules
    } else if text == "gateway.security.allow"@ {
        ConfigKey::SecurityAllow
    } else if text == "directory.ldap.url"@ {
        ConfigKey::LdapUrl
    } else if text == "directory.ldap.baseDN"@ {
        ConfigKey::LdapBaseDn
    } else if text == "directory.ldap.filterPerson"@ {
        ConfigKey::LdapFilterPerson
    } else if text == "directory.cache.ttlSeconds"@ {
        ConfigKey::CacheTtlSeconds
    } else if text == "directory.cache.capacity"@ {
        ConfigKey::CacheCapacity
    } else {
        ConfigKey::Other
    }
}

/// Computes `key_of`.
pub fn recognize(text: &Vec<char>) -> (key: ConfigKey)
    ensures
        key == key_of(text@),
{
    if is_text(text, "server.port") {
        ConfigKey::ServerPort
    } else if is_text(text, "server.host") {
        ConfigKey::ServerHost
    } else if is_text(text, "database.path") {
        ConfigKey::DatabasePath
    } else if is_text(text, "migration.workspace") {
        ConfigKey::MigrationWorkspace
    } else if is_text(text, "migration.quarantine") {
        ConfigKey::MigrationQuarantine
    } else if is_text(text, "migration.charsetFallback") {
        ConfigKey::MigrationCharsetFallback
    } else if is_text(text, "migration.parallelism") {
        ConfigKey::MigrationParallelism
    } else if is_text(text, "gateway.smtp.host") {
        ConfigKey::SmtpHost
    } else if is_text(text, "gateway.smtp.port") {
        ConfigKey::SmtpPort
    } else if is_text(text, "gateway.smtp.tls") {
        ConfigKey::SmtpTls
    } else if is_text(text, "gateway.imap.host") {
        ConfigKey::ImapHost
    } else if is_text(text, "gateway.imap.port") {
        ConfigKey::ImapPort
    } else if is_text(text, "gateway.imap.mailbox") {
        ConfigKey::ImapMailbox
    } else if is_text(text, "gateway.mapping.rules") {
        ConfigKey::MappingRules
    } else if is_text(text, "gateway.security.allow") {
        ConfigKey::SecurityAllow
    } else if is_text(text, "directory.ldap.url") {
        ConfigKey::LdapUrl
    } else if is_text(text, "directory.ldap.baseDN") {
        ConfigKey::LdapBaseDn
    } else if is_text(text, "directory.ldap.filterPerson") {
        ConfigKey::LdapFilterPerson
    } else if is_text(text, "directory.cache.ttlSeconds") {
        ConfigKey::CacheTtlSeconds
    } else if is_text(text, "directory.cache.capacity") {
        ConfigKey::CacheCapacity
    } else {
        ConfigKey::Other
    }
}

/// What a line sets: a field and the text of its value. `None` stands for
/// a line without `=`.
pub type Setting = Option<(ConfigKey, Seq<char>)>;

/// Whether a line counts: it is neither blank nor a comment.
pub open spec fn counts(line: Seq<char>) -> bool {
    trimmed(line).len() > 0 && trimmed(line)[0] != '#'
}

/// What a line that counts sets. Key and value are what stands before and
/// after the first `=`, without the white space around them, and the value
/// without the quotation marks around it.
pub open spec fn setting_of(line: Seq<char>) -> Setting {
    let text = trimmed(line);
    match after_first(text, '=') {
        Some(value) => Some(
            (key_of(trimmed(before_first(text, '='))), stripped(trimmed(value), '"')),
        ),
        None => None,
    }
}

/// What the lines that count set, in their order.
pub open spec fn settings_of(lines: Seq<Seq<char>>) -> Seq<Setting>
    decreases lines.len(),
{
    if lines.len() == 0 {
        Seq::empty()
    } else if counts(lines.last()) {
        settings_of(lines.drop_last()).push(setting_of(lines.last()))
    } else {
        settings_of(lines.drop_last())
    }
}

/// The largest number that a field of the kind of `key` holds; zero for a
/// field that holds no number.
pub open spec fn number_limit(key: ConfigKey) -> nat {
    match key {
        ConfigKey::ServerPort | ConfigKey::SmtpPort | ConfigKey::ImapPort => 0xffff,
        ConfigKey::MigrationParallelism | ConfigKey::CacheCapacity => usize::MAX as nat,
        ConfigKey::CacheTtlSeconds => u64::MAX as nat,
        _ => 0,
    }
}

/// Whether the field holds a number.
pub open spec fn is_number(key: ConfigKey) -> bool {
    key == ConfigKey::ServerPort || key == ConfigKey::SmtpPort || key == ConfigKey::ImapPort || key
        == ConfigKey::MigrationParallelism || key == ConfigKey::CacheCapacity || key
        == ConfigKey::CacheTtlSeconds
}

/// Whether a setting is well formed: the line has a `=`, a number is
/// written in decimal and fits its field, and a truth value is `true` or
/// `false`.
pub open spec fn is_valid(setting: Setting) -> bool {
    match setting {
        None => false,
        Some((key, value)) => {
            &&& is_number(key) ==> unsigned_of(value, number_limit(key)) is Some
            &&& key == ConfigKey::SmtpTls ==> value == "true"@ || value == "false"@
        },
    }
}

/// Whether every setting is well formed.
pub open spec fn all_valid(settings: Seq<Setting>) -> bool {
    forall|i: int| 0 <= i < settings.len() ==> is_valid(#[trigger] settings[i])
}

/// The text of the last setting of the field `key`.
pub open spec fn last_of(settings: Seq<Setting>, key: ConfigKey) -> Option<Seq<char>>
    decreases settings.len(),
{
    if settings.len() == 0 {
        None
    } else {
        match settings.last() {
            Some((k, value)) => if k == key {
                Some(value)
            } else {
                last_of(settings.drop_last(), key)
            },
            None => last_of(settings.drop_last(), key),
        }
    }
}

/// The text that the field `key` is set to, or `default`.
pub open spec fn text_or(settings: Seq<Setting>, key: ConfigKey, default: Seq<char>) -> Seq<char> {
    match last_of(settings, key) {
        Some(value) => value,
        None => default,
    }
}

/// The number that the field `key` is set to, or `default`.
pub open spec fn number_or(settings: Seq<Setting>, key: ConfigKey, default: nat) -> nat {
    match last_of(settings, key) {
        Some(value) => match unsigned_of(value, number_limit(key)) {
            Some(n) => n,
            None => default,
        },
        None => default,
    }
}

/// The truth value that the field `key` is set to, or `default`.
pub open spec fn flag_or(settings: Seq<Setting>, key: ConfigKey, default: bool) -> bool {
    match last_of(settings, key) {
        Some(value) => value == "true"@,
        None => default,
    }
}

/// The items of a list value: what stands between commas, without the
/// white space around it, empty items left out.
pub open spec fn items_of(value: Seq<char>) -> Seq<Seq<char>> {
    split_on(value, ',').map_values(|item: Seq<char>| trimmed(item)).filter(
        |item: Seq<char>| item.len() > 0,
    )
}

/// The list that the field `key` is set to, or `default`.
pub open spec fn list_or(settings: Seq<Setting>, key: ConfigKey, default: Seq<Seq<char>>) -> Seq<
    Seq<char>,
> {
    match last_of(settings, key) {
        Some(value) => items_of(value),
        None => default,
    }
}

/// Whether `config` is what the settings make of the default
/// configuration: each field that a key names holds what it was last set
/// to, and every other field its default.
pub open spec fn reflects(config: AppConfig, settings: Seq<Setting>) -> bool {
    &&& config.server.host@ == text_or(settings, ConfigKey::ServerHost, "127.0.0.1"@)
    &&& config.server.port == number_or(settings, ConfigKey::ServerPort, 3333)
    &&& config.server.tls.is_default()
    &&& config.database.path@ == text_or(settings, ConfigKey::DatabasePath, "data/messages.db"@)
    &&& config.migration.workspace@ == text_or(
        settings,
        ConfigKey::MigrationWorkspace,
        "workspace/migration"@,
    )
    &&& config.migration.quarantine@ == text_or(
        settings,
        ConfigKey::MigrationQuarantine,
        "workspace/quarantine"@,
    )
    &&& config.migration.charset_fallback@ == text_or(
        settings,
        ConfigKey::MigrationCharsetFallback,
        "utf-8"@,
    )
    &&& config.migration.parallelism == number_or(settings, ConfigKey::MigrationParallelism, 4)
    &&& config.gateway.smtp.host@ == text_or(settings, ConfigKey::SmtpHost, "smtp.example.com"@)
    &&& config.gateway.smtp.port == number_or(settings, ConfigKey::SmtpPort, 587)
    &&& config.gateway.smtp.tls == flag_or(settings, ConfigKey::SmtpTls, true)
    &&& config.gateway.smtp.username is None
    &&& config.gateway.smtp.password is None
    &&& config.gateway.smtp.rate_limit_per_minute == 120
    &&& config.gateway.imap.host@ == text_or(settings, ConfigKey::ImapHost, "imap.example.com"@)
    &&& config.gateway.imap.port == number_or(settings, ConfigKey::ImapPort, 993)
    &&& config.gateway.imap.tls
    &&& config.gateway.imap.mailbox@ == text_or(settings, ConfigKey::ImapMailbox, "Inbox"@)
    &&& texts_of(config.gateway.mapping.rules@) == list_or(
        settings,
        ConfigKey::MappingRules,
        seq!["{G}.{S}@{O}.{C}.example"@],
    )
    &&& texts_of(config.gateway.mapping.allow_list_domains@) == seq!["example.com"@]
    &&& config.gateway.security.enforce_tls
    &&& texts_of(config.gateway.security.domain_allow_list@) == list_or(
        settings,
        ConfigKey::SecurityAllow,
        seq!["example.com"@],
    )
    &&& config.directory.ldap.url@ == text_or(
        settings,
        ConfigKey::LdapUrl,
        "ldaps://ldap.example.com"@,
    )
    &&& config.directory.ldap.base_dn@ == text_or(
        settings,
        ConfigKey::LdapBaseDn,
        "dc=example,dc=com"@,
    )
    &&& config.directory.ldap.bind_dn is None
    &&& config.directory.ldap.bind_password is None
    &&& config.directory.ldap.filter_person@ == text_or(
        settings,
        ConfigKey::LdapFilterPerson,
        "(&(objectClass=person)(mail=*))"@,
    )
    &&& config.directory.ldap.tls_verify
    &&& config.directory.cache.ttl_seconds == number_or(settings, ConfigKey::CacheTtlSeconds, 300)
    &&& config.directory.cache.capacity == number_or(settings, ConfigKey::CacheCapacity, 512)
}

/// The settings of a prefix of the lines are a prefix of the settings of
/// all lines.
proof fn lemma_settings_prefix(lines: Seq<Seq<char>>, n: int)
    requires
        0 <= n <= lines.len(),
    ensures
        settings_of(lines.take(n)).len() <= settings_of(lines).len(),
        forall|i: int|
            0 <= i < settings_of(lines.take(n)).len() ==> settings_of(lines.take(n))[i]
                == settings_of(lines)[i],
    decreases lines.len() - n,
{
    if n < lines.len() {
        assert(lines.take(n + 1).drop_last() =~= lines.take(n));
        lemma_settings_prefix(lines, n + 1);
    } else {
        assert(lines.take(n) =~= lines);
    }
}

/// Computes `items_of`.
fn list_items(value: &Vec<char>) -> (items: Vec<String>)
    ensures
        texts_of(items@) == items_of(value@),
{
    let pieces = split_chars(value, ',');
    let ghost keep = |item: Seq<char>| item.len() > 0;
    let ghost trims = views_of(pieces@).map_values(|item: Seq<char>| trimmed(item));
    let mut items: Vec<String> = Vec::new();
    let mut i: usize = 0;
    assert(trims.take(0).filter(keep) =~= Seq::<Seq<char>>::empty()) by {
        reveal(Seq::filter);
    }
    assert(texts_of(items@) =~= Seq::<Seq<char>>::empty());
    while i < pieces.len()
        invariant
            i <= pieces.len(),
            trims == views_of(pieces@).map_values(|item: Seq<char>| trimmed(item)),
            keep == (|item: Seq<char>| item.len() > 0),
            texts_of(items@) == trims.take(i as int).filter(keep),
        decreases pieces.len() - i,
    {
        let ghost before = trims.take(i as int);
        let ghost shown = texts_of(items@);
        let item = trim_chars(&pieces[i]);
        assert(item@ == trims[i as int]);
        if item.len() > 0 {
            items.push(string_of(&item));
            assert(texts_of(items@) =~= shown.push(item@));
        }
        i = i + 1;
        proof {
            let seen = trims.take(i as int);
            assert(seen.drop_last() =~= before);
            assert(seen.last() == item@);
            reveal(Seq::filter);
            assert(seen.filter(keep) =~= if keep(item@) {
                before.filter(keep).push(item@)
            } else {
                before.filter(keep)
            });
        }
    }
    assert(trims.take(pieces.len() as int) =~= trims);
    items
}

/// Sets the field `key` of `config` to what `value` says. Leaves `config`
/// as it is and answers `false` where the setting is not well formed.
fn apply_setting(
    config: &mut AppConfig,
    key: ConfigKey,
    value: &Vec<char>,
    Ghost(settings): Ghost<Seq<Setting>>,
) -> (ok: bool)
    requires
        reflects(*old(config), settings),
    ensures
        ok == is_valid(Some((key, value@))),
        ok ==> reflects(*final(config), settings.push(Some((key, value@)))),
{
    let ghost next = settings.push(Some((key, value@)));
    assert(next.drop_last() =~= settings);
    assert(next.last() == Some((key, value@)));
    match key {
        ConfigKey::ServerPort => match parse_unsigned(value, 0xffff) {
            Some(n) => {
                config.server.port = n as u16;
                true
            },
            None => false,
        },
        ConfigKey::ServerHost => {
            config.server.host = string_of(value);
            true
        },
        ConfigKey::DatabasePath => {
            config.database.path = string_of(value);
            true
        },
        ConfigKey::MigrationWorkspace => {
            config.migration.workspace = string_of(value);
            true
        },
        ConfigKey::MigrationQuarantine => {
            config.migration.quarantine = string_of(value);
            true
        },
        ConfigKey::MigrationCharsetFallback => {
            config.migration.charset_fallback = string_of(value);
            true
        },
        ConfigKey::MigrationParallelism => match parse_unsigned(value, usize::MAX as u64) {
            Some(n) => {
                config.migration.parallelism = n as usize;
                true
            },
            None => false,
        },
        ConfigKey::SmtpHost => {
            config.gateway.smtp.host = string_of(value);
            true
        },
        ConfigKey::SmtpPort => match parse_unsigned(value, 0xffff) {
            Some(n) => {
                config.gateway.smtp.port = n as u16;
                true
            },
            None => false,
        },
        ConfigKey::SmtpTls => {
            if is_text(value, "true") {
                config.gateway.smtp.tls = true;
                true
            } else if is_text(value, "false") {
                proof {
                    reveal_strlit("true");
                    reveal_strlit("false");
                }
                config.gateway.smtp.tls = false;
                true
            } else {
                false
            }
        },
        ConfigKey::ImapHost => {
            config.gateway.imap.host = string_of(value);
            true
        },
        ConfigKey::ImapPort => match parse_unsigned(value, 0xffff) {
            Some(n) => {
                config.gateway.imap.port = n as u16;
                true
            },
            None => false,
        },
        ConfigKey::ImapMailbox => {
            config.gateway.imap.mailbox = string_of(value);
            true
        },
        ConfigKey::MappingRules => {
            config.gateway.mapping.rules = list_items(value);
            true
        },
        ConfigKey::SecurityAllow => {
            config.gateway.security.domain_allow_list = list_items(value);
            true
        },
        ConfigKey::LdapUrl => {
            config.directory.ldap.url = string_of(value);
            true
        },
        ConfigKey::LdapBaseDn => {
            config.directory.ldap.base_dn = string_of(value);
            true
        },
        ConfigKey::LdapFilterPerson => {
            config.directory.ldap.filter_person = string_of(value);
            true
        },
        ConfigKey::CacheTtlSeconds => match parse_unsigned(value, u64::MAX) {
            Some(n) => {
                config.directory.cache.ttl_seconds = n;
                true
            },
            None => false,
        },
        ConfigKey::CacheCapacity => match parse_unsigned(value, usize::MAX as u64) {
            Some(n) => {
                config.directory.cache.capacity = n as usize;
                true
            },
            None => false,
        },
        ConfigKey::Other => true,
    }
}

/// Whether `parsed` is what reading the text `contents` gives.
pub open spec fn is_reading_of(parsed: Result<AppConfig, ConfigError>, contents: Seq<char>) -> bool {
    match parsed {
        Ok(config) => {
            &&& all_valid(settings_of(lines_of(contents)))
            &&& reflects(config, settings_of(lines_of(contents)))
        },
        Err(fault) => {
            &&& fault == ConfigError::InvalidFormat
            &&& !all_valid(settings_of(lines_of(contents)))
        },
    }
}

impl AppConfig {
    /// What loading the configuration gives, from what was found: the
    /// default configuration where no file is named, `MissingFile` where
    /// the named file could not be read, else what its text holds.
    pub fn from_source(named: bool, contents: Option<&str>) -> (loaded: Result<
        AppConfig,
        ConfigError,
    >)
        ensures
            !named ==> (loaded matches Ok(config) && config.is_default()),
            named && contents is None ==> loaded == Err::<AppConfig, ConfigError>(
                ConfigError::MissingFile,
            ),
            named && contents is Some ==> is_reading_of(loaded, contents->0@),
    {
        if !named {
            return Ok(AppConfig::default());
        }
        match contents {
            Some(text) => Self::from_contents(text),
            None => Err(ConfigError::MissingFile),
        }
    }

    /// Reads the text of a configuration. `Ok` where every line that
    /// counts is well formed, with the configuration that the settings make
    /// of the default one; `InvalidFormat` where a line has no `=`, a number
    /// is not written in decimal or does not fit its field, or a truth
    /// value is neither `true` nor `false`.
    pub fn from_contents(contents: &str) -> (parsed: Result<AppConfig, ConfigError>)
        ensures
            is_reading_of(parsed, contents@),
    {
        let lines = split_lines(&chars_of(contents));
        let mut config = AppConfig::default();
        let ghost mut settings: Seq<Setting> = Seq::empty();
        let mut i: usize = 0;
        assert(views_of(lines@).take(0) =~= Seq::<Seq<char>>::empty());
        while i < lines.len()
            invariant
                i <= lines.len(),
                views_of(lines@) == lines_of(contents@),
                settings == settings_of(views_of(lines@).take(i as int)),
                all_valid(settings),
                reflects(config, settings),
            decreases lines.len() - i,
        {
            let ghost shown = views_of(lines@).take(i + 1);
            assert(shown.drop_last() =~= views_of(lines@).take(i as int));
            assert(shown.last() == lines@[i as int]@);
            let text = trim_chars(&lines[i]);
            if text.len() > 0 && text[0] != '#' {
                let (head, tail) = cut_at_first(&text, '=');
                let ok = match tail {
                    Some(rest) => {
                        let key = recognize(&trim_chars(&head));
                        let value = strip_chars(&trim_chars(&rest), '"');
                        apply_setting(&mut config, key, &value, Ghost(settings))
                    },
                    None => false,
                };
                proof {
                    settings = settings.push(setting_of(lines@[i as int]@));
                    assert(settings == settings_of(shown));
                }
                if !ok {
                    proof {
                        let all = settings_of(lines_of(contents@));
                        lemma_settings_prefix(lines_of(contents@), i + 1);
                        assert(!is_valid(settings[settings.len() - 1]));
                        assert(all[settings.len() - 1] == settings[settings.len() - 1]);
                    }
                    return Err(ConfigError::InvalidFormat);
                }
            }
            i = i + 1;
        }
        assert(views_of(lines@).take(lines.len() as int) =~= views_of(lines@));
        Ok(config)
    }
}

} // verus!

//! Where the key of the encrypted store is looked up.

use vstd::prelude::*;

use crate::settings::{DatabaseConfig, KeychainConfig, SecurityConfig};
use crate::text::{
    after_first, before_first, chars_of, cut_at_first, is_blank, string_of, trim_chars, trimmed,
    view_of,
};

verus! {

/// The keychain entry that holds the key of the store.
#[derive(Debug, Clone, PartialEq, Eq)]
pub struct SqlCipherKeySource {
    pub service: String,
    pub account: String,
}

/// Why a key reference could not be read.
#[derive(Debug, Clone, Copy, PartialEq, Eq, Structural)]
pub enum ReferenceError {
    /// The reference is blank.
    Empty,
    /// Nothing but white space stands before the `/`.
    MissingService,
}

/// The service and the account that a reference `service/account` names.
/// White space around the parts does not count, and a missing or blank
/// account is `default`.
pub open spec fn reference_parts(value: Seq<char>) -> Result<(Seq<char>, Seq<char>), ReferenceError> {
    let text = trimmed(value);
    let service = trimmed(before_first(text, '/'));
    if text.len() == 0 {
        Err(ReferenceError::Empty)
    } else if service.len() == 0 {
        Err(ReferenceError::MissingService)
    } else {
        Ok(
            (
                service,
                match after_first(text, '/') {
                    Some(rest) => if trimmed(rest).len() == 0 {
                        "default"@
                    } else {
                        trimmed(rest)
                    },
                    None => "default"@,
                },
            ),
        )
    }
}

/// Computes `reference_parts`.
pub fn parse_reference(value: &str) -> (parts: Result<(String, String), ReferenceError>)
    ensures
        match (parts, reference_parts(value@)) {
            (Ok(p), Ok(wanted)) => p.0@ == wanted.0 && p.1@ == wanted.1,
            (Err(e), Err(wanted)) => e == wanted,
            _ => false,
        },
{
    let text = trim_chars(&chars_of(value));
    if text.len() == 0 {
        return Err(ReferenceError::Empty);
    }
    let (head, tail) = cut_at_first(&text, '/');
    let service = trim_chars(&head);
    if service.len() == 0 {
        return Err(ReferenceError::MissingService);
    }
    let account = match tail {
        Some(rest) => {
            let rest = trim_chars(&rest);
            if rest.len() == 0 {
                String::from_str("default")
            } else {
                string_of(&rest)
            }
        },
        None => String::from_str("default"),
    };
    Ok((string_of(&service), account))
}

/// The first of the two that is there, unless it is blank.
pub open spec fn chosen(configured: Option<Seq<char>>, referenced: Option<Seq<char>>) -> Option<
    Seq<char>,
> {
    let first = match configured {
        Some(name) => Some(name),
        None => referenced,
    };
    match first {
        Some(name) => if is_blank(name) {
            None
        } else {
            Some(name)
        },
        None => None,
    }
}

/// The keychain entry for a configuration and a key reference: the
/// configured names come first, then those of the reference where it can be
/// read, then `x400-core` and `default`. A blank name counts as none.
pub open spec fn source_of(
    reference: Option<Seq<char>>,
    service_name: Option<Seq<char>>,
    account_name: Option<Seq<char>>,
) -> (Seq<char>, Seq<char>) {
    let parts = match reference {
        Some(value) => match reference_parts(value) {
            Ok(parts) => Some(parts),
            Err(_) => None,
        },
        None => None,
    };
    let service = chosen(
        service_name,
        match parts {
            Some(p) => Some(p.0),
            None => None,
        },
    );
    let account = chosen(
        account_name,
        match parts {
            Some(p) => Some(p.1),
            None => None,
        },
    );
    (
        match service {
            Some(name) => name,
            None => "x400-core"@,
        },
        match account {
            Some(name) => name,
            None => "default"@,
        },
    )
}

/// Computes `chosen`, with `fallback` in place of none.
fn choose_name(configured: &Option<String>, referenced: Option<String>, fallback: &str) -> (name:
    String)
    ensures
        name@ == match chosen(view_of(*configured), view_of(referenced)) {
            Some(n) => n,
            None => fallback@,
        },
{
    let first = match configured {
        Some(name) => Some(name.clone()),
        None => referenced,
    };
    match first {
        Some(name) => {
            if trim_chars(&chars_of(name.as_str())).len() == 0 {
                String::from_str(fallback)
            } else {
                name
            }
        },
        None => String::from_str(fallback),
    }
}

/// Computes `source_of`.
pub fn resolve_source(reference: &Option<String>, cfg: &KeychainConfig) -> (source:
    SqlCipherKeySource)
    ensures
        (source.service@, source.account@) == source_of(
            view_of(*reference),
            view_of(cfg.service_name),
            view_of(cfg.account_name),
        ),
{
    let parts = match reference {
        Some(value) => match parse_reference(value.as_str()) {
            Ok(parts) => Some(parts),
            Err(_) => None,
        },
        None => None,
    };
    let (service, account) = match parts {
        Some(p) => (Some(p.0), Some(p.1)),
        None => (None, None),
    };
    SqlCipherKeySource {
        service: choose_name(&cfg.service_name, service, "x400-core"),
        account: choose_name(&cfg.account_name, account, "default"),
    }
}

/// Where the key of the store is looked for.
#[derive(Debug, Clone, PartialEq, Eq)]
pub struct KeyPlan {
    /// The keychain entry to ask, where the keychain is switched on.
    pub source: Option<SqlCipherKeySource>,
    /// The environment variable to read after that, where one is named.
    pub fallback_env: Option<String>,
}

/// The name of the environment variable that a configuration names: the
/// configured name without the white space around it; none where it is
/// blank.
pub open spec fn env_name(configured: Option<Seq<char>>) -> Option<Seq<char>> {
    match configured {
        Some(name) => if is_blank(name) {
            None
        } else {
            Some(trimmed(name))
        },
        None => None,
    }
}

/// Where the key is looked for. `None` where the store is not encrypted,
/// and then no key is needed.
pub fn plan_key_lookup(database: &DatabaseConfig, security: &SecurityConfig) -> (plan: Option<
    KeyPlan,
>)
    ensures
        !database.use_sqlcipher ==> plan is None,
        database.use_sqlcipher ==> (plan matches Some(p) && {
            &&& view_of(p.fallback_env) == env_name(view_of(security.keychain.fallback_env))
            &&& !security.keychain.enabled ==> p.source is None
            &&& security.keychain.enabled ==> (p.source matches Some(s) && (s.service@, s.account@)
                == source_of(
                view_of(database.sqlcipher_key_ref),
                view_of(security.keychain.service_name),
                view_of(security.keychain.account_name),
            ))
        }),
{
    if !database.use_sqlcipher {
        return None;
    }
    let source = if security.keychain.enabled {
        Some(resolve_source(&database.sqlcipher_key_ref, &security.keychain))
    } else {
        None
    };
    let fallback_env = match &security.keychain.fallback_env {
        Some(name) => {
            let bare = trim_chars(&chars_of(name.as_str()));
            if bare.len() == 0 {
                None
            } else {
                Some(string_of(&bare))
            }
        },
        None => None,
    };
    Some(KeyPlan { source, fallback_env })
}

/// The key that the lookups give: the secret of the keychain where it has
/// one, else the value of the environment variable unless it is blank.
pub open spec fn chosen_key(secret: Option<Seq<char>>, env_value: Option<Seq<char>>) -> Option<
    Seq<char>,
> {
    match secret {
        Some(s) => Some(s),
        None => match env_value {
            Some(v) => if is_blank(v) {
                None
            } else {
                Some(v)
            },
            None => None,
        },
    }
}

/// Computes `chosen_key`.
pub fn choose_key(secret: Option<String>, env_value: Option<String>) -> (key: Option<String>)
    ensures
        view_of(key) == chosen_key(view_of(secret), view_of(env_value)),
{
    match secret {
        Some(s) => Some(s),
        None => match env_value {
            Some(v) => {
                if trim_chars(&chars_of(v.as_str())).len() == 0 {
                    None
                } else {
                    Some(v)
                }
            },
            None => None,
        },
    }
}

} // verus!

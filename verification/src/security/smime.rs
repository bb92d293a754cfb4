//! What an S/MIME operation reports, and where its material lies.

use vstd::prelude::*;

use crate::settings::SmimeConfig;
use crate::text::{append_chars, chars_of, string_of, view_of};

verus! {

/// The S/MIME operations.
#[derive(Debug, Clone, Copy, PartialEq, Eq, Structural)]
pub enum SmimeOperation {
    Sign,
    Encrypt,
    Verify,
}

/// The outcome of an S/MIME operation.
#[derive(Debug, Clone)]
pub struct SmimeResult {
    pub operation: SmimeOperation,
    pub success: bool,
    pub payload: Option<Vec<u8>>,
    pub message: Option<String>,
}

impl SmimeResult {
    /// The operation succeeded and produced `payload`.
    pub fn completed(operation: SmimeOperation, payload: Vec<u8>) -> (out: Self)
        ensures
            out.operation == operation,
            out.success,
            out.payload == Some(payload),
            out.message is None,
    {
        SmimeResult { operation, success: true, payload: Some(payload), message: None }
    }

    /// The operation was not attempted, for this reason.
    pub fn skipped(operation: SmimeOperation, reason: &str) -> (out: Self)
        ensures
            out.operation == operation,
            !out.success,
            out.payload is None,
            view_of(out.message) == Some(reason@),
    {
        SmimeResult {
            operation,
            success: false,
            payload: None,
            message: Some(String::from_str(reason)),
        }
    }

    /// The operation failed, for this reason.
    pub fn failed(operation: SmimeOperation, reason: &str) -> (out: Self)
        ensures
            out.operation == operation,
            !out.success,
            out.payload is None,
            view_of(out.message) == Some(reason@),
    {
        SmimeResult {
            operation,
            success: false,
            payload: None,
            message: Some(String::from_str(reason)),
        }
    }
}

/// `std::path::Path::join`, on paths given and returned as text: `name`
/// adjoined to `dir`. How the two are put together depends on the
/// platform's separators, so nothing is promised of the result.
#[verifier::external_body]
fn join_path(dir: &str, name: &str) -> (path: String) {
    std::path::Path::new(dir).join(name).to_string_lossy().into_owned()
}

/// What was found at the place of a certificate or a key.
#[derive(Debug, Clone, Copy, PartialEq, Eq, Structural)]
pub enum MaterialState {
    /// The file could not be read.
    Unreadable,
    /// The file holds nothing that can be read as what it should be.
    Invalid,
    /// The file holds what it should.
    Valid,
}

/// A file of S/MIME material and what was found at its place.
#[derive(Debug, Clone, PartialEq, Eq)]
pub struct MaterialFile {
    pub path: String,
    pub state: MaterialState,
}

/// What was found of the material that a warm-up looks at. The encryption
/// certificate is `None` where no file lies at its place.
#[derive(Debug, Clone, PartialEq, Eq)]
pub struct SmimeMaterial {
    pub signing_certificate: MaterialFile,
    pub signing_key: MaterialFile,
    pub encryption_certificate: Option<MaterialFile>,
}

/// The complaint about a file, where it is not valid. `what` is
/// `certificate` or `private key`.
pub open spec fn material_fault(file: MaterialFile, what: Seq<char>) -> Option<Seq<char>> {
    match file.state {
        MaterialState::Unreadable => Some("unable to read "@ + what + ": "@ + file.path@),
        MaterialState::Invalid => Some("invalid "@ + what + " at "@ + file.path@),
        MaterialState::Valid => None,
    }
}

/// The complaint that a warm-up ends with: none where S/MIME is off; else
/// the first among those about the signing certificate, the signing key
/// and the encryption certificate, where a file lies at its place.
pub open spec fn warmup_fault(enabled: bool, material: SmimeMaterial) -> Option<Seq<char>> {
    if !enabled {
        None
    } else if material_fault(material.signing_certificate, "certificate"@) is Some {
        material_fault(material.signing_certificate, "certificate"@)
    } else if material_fault(material.signing_key, "private key"@) is Some {
        material_fault(material.signing_key, "private key"@)
    } else {
        match material.encryption_certificate {
            Some(file) => material_fault(file, "certificate"@),
            None => None,
        }
    }
}

/// Computes `material_fault`.
fn check_material(file: &MaterialFile, what: &str) -> (checked: Result<(), String>)
    ensures
        match (checked, material_fault(*file, what@)) {
            (Ok(_), None) => true,
            (Err(complaint), Some(wanted)) => complaint@ == wanted,
            _ => false,
        },
{
    match file.state {
        MaterialState::Unreadable => {
            let mut text = chars_of("unable to read ");
            append_chars(&mut text, &chars_of(what));
            append_chars(&mut text, &chars_of(": "));
            append_chars(&mut text, &chars_of(file.path.as_str()));
            Err(string_of(&text))
        },
        MaterialState::Invalid => {
            let mut text = chars_of("invalid ");
            append_chars(&mut text, &chars_of(what));
            append_chars(&mut text, &chars_of(" at "));
            append_chars(&mut text, &chars_of(file.path.as_str()));
            Err(string_of(&text))
        },
        MaterialState::Valid => Ok(()),
    }
}

/// Signs, encrypts and verifies with the material that the configuration
/// names.
#[derive(Debug, Clone)]
pub struct SmimeService {
    config: SmimeConfig,
}

impl SmimeService {
    /// The configuration that the service was made with.
    pub closed spec fn settings(&self) -> SmimeConfig {
        self.config
    }

    /// A service with this configuration.
    pub fn new(config: SmimeConfig) -> (service: Self)
        ensures
            service.settings() == config,
    {
        SmimeService { config }
    }

    /// Whether S/MIME is switched on.
    pub fn enabled(&self) -> (on: bool)
        ensures
            on == self.settings().enabled,
    {
        self.config.enabled
    }

    /// What an operation reports where S/MIME is switched off: that it was
    /// skipped. `None` where S/MIME is on.
    pub fn skip_when_disabled(&self, operation: SmimeOperation) -> (out: Option<SmimeResult>)
        ensures
            self.settings().enabled ==> out is None,
            !self.settings().enabled ==> (out matches Some(r) && {
                &&& r.operation == operation
                &&& !r.success
                &&& r.payload is None
                &&& view_of(r.message) == Some("S/MIME disabled in configuration"@)
            }),
    {
        if self.config.enabled {
            None
        } else {
            Some(SmimeResult::skipped(operation, "S/MIME disabled in configuration"))
        }
    }

    /// Judges the material before the service is used. With S/MIME off
    /// nothing is looked at. Else the signing certificate and the signing
    /// key must be valid, and so must the encryption certificate where a
    /// file lies at its place; the first that is not fails the warm-up.
    pub fn warmup(&self, material: &SmimeMaterial) -> (checked: Result<(), String>)
        ensures
            match (checked, warmup_fault(self.settings().enabled, *material)) {
                (Ok(_), None) => true,
                (Err(complaint), Some(wanted)) => complaint@ == wanted,
                _ => false,
            },
    {
        if !self.config.enabled {
            return Ok(());
        }
        match check_material(&material.signing_certificate, "certificate") {
            Ok(_) => {},
            Err(complaint) => {
                return Err(complaint);
            },
        }
        match check_material(&material.signing_key, "private key") {
            Ok(_) => {},
            Err(complaint) => {
                return Err(complaint);
            },
        }
        match &material.encryption_certificate {
            Some(file) => check_material(file, "certificate"),
            None => Ok(()),
        }
    }

    /// Where the signing certificate and the signing key lie: the
    /// configured certificate, or `signing.pem` in the certificate
    /// directory, and `signing.key` in that directory.
    pub fn signing_material_paths(&self) -> (paths: (String, String))
        ensures
            view_of(self.settings().default_signing_certificate) matches Some(path) ==> paths.0@
                == path,
    {
        let dir = self.config.certificates_dir.as_str();
        let certificate = match &self.config.default_signing_certificate {
            Some(path) => path.clone(),
            None => join_path(dir, "signing.pem"),
        };
        (certificate, join_path(dir, "signing.key"))
    }

    /// Where the encryption certificate lies: the configured one, or
    /// `encryption.pem` in the certificate directory.
    pub fn default_encryption_cert_path(&self) -> (path: String)
        ensures
            view_of(self.settings().default_encryption_certificate) matches Some(configured)
                ==> path@ == configured,
    {
        match &self.config.default_encryption_certificate {
            Some(path) => path.clone(),
            None => join_path(self.config.certificates_dir.as_str(), "encryption.pem"),
        }
    }
}

} // verus!

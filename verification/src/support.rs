//! Where support bundles are kept.

use vstd::prelude::*;

use crate::text::{append_chars, chars_of, string_of};

verus! {

/// The directory under which support bundles are stored.
#[derive(Clone, Debug)]
pub struct SupportStorage {
    base: String,
}

impl SupportStorage {
    /// The base directory.
    pub closed spec fn base(&self) -> Seq<char> {
        self.base@
    }

    /// The storage below this directory.
    pub fn new(path: &str) -> (storage: Self)
        ensures
            storage.base() == path@,
    {
        SupportStorage { base: String::from_str(path) }
    }

    /// The base directory.
    pub fn base_path(&self) -> (path: &str)
        ensures
            path@ == self.base(),
    {
        self.base.as_str()
    }
}

/// Why a bundle was not stored.
#[derive(Debug, Clone, Copy, PartialEq, Eq, Structural)]
pub enum BundleError {
    /// The bundle holds no data.
    EmptyBundle,
}

/// The file name of a bundle: `trace-`, the time stamp, `-`, the channel,
/// `.zip`.
pub open spec fn bundle_file_name(timestamp: Seq<char>, channel: Seq<char>) -> Seq<char> {
    "trace-"@ + timestamp + seq!['-'] + channel + ".zip"@
}

/// The file name under which a bundle is stored; `EmptyBundle` for a
/// bundle without data.
pub fn bundle_name(bundle: &[u8], timestamp: &str, channel: &str) -> (name: Result<
    String,
    BundleError,
>)
    ensures
        bundle@.len() == 0 ==> name == Err::<String, BundleError>(BundleError::EmptyBundle),
        bundle@.len() > 0 ==> (name matches Ok(n) && n@ == bundle_file_name(
            timestamp@,
            channel@,
        )),
{
    if bundle.len() == 0 {
        return Err(BundleError::EmptyBundle);
    }
    let mut name = chars_of("trace-");
    append_chars(&mut name, &chars_of(timestamp));
    name.push('-');
    append_chars(&mut name, &chars_of(channel));
    append_chars(&mut name, &chars_of(".zip"));
    assert(name@ =~= bundle_file_name(timestamp@, channel@));
    Ok(string_of(&name))
}

} // verus!

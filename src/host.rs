//! What a run needs to know of the machine it runs on: the platform gate,
//! the privilege gate, and how a command is handed to an interpreter.

use vstd::prelude::*;
use crate::error::ArrError;
use crate::model::{AtomicReadTeamTechnique, AtomicTest};

verus! {

/// What `str::to_lowercase` makes of a text.
pub uninterp spec fn lower_of(s: Seq<char>) -> Seq<char>;

/// What `str::trim` makes of a text.
pub uninterp spec fn trim_of(s: Seq<char>) -> Seq<char>;

/// Relies on `str::to_lowercase`: the lowercase form of the text, which
/// depends on its characters alone.
#[verifier::external_body]
fn lowercase(s: &str) -> (r: String)
    ensures
        r@ == lower_of(s@),
{
    s.to_lowercase()
}

/// Relies on `str::trim`: the text without leading and trailing whitespace,
/// which depends on its characters alone.
#[verifier::external_body]
fn trimmed(s: &str) -> (r: &str)
    ensures
        r@ == trim_of(s@),
{
    s.trim()
}

/// Relies on `nix::unistd::getuid` and `Uid::is_root`: whether the real user
/// id of this process is that of the superuser. It depends on the process,
/// so nothing is promised of it.
#[verifier::external_body]
fn real_user_is_root() -> (r: bool) {
    nix::unistd::getuid().is_root()
}

/// The facts about the running machine that the gates consult.
pub struct Host {
    /// The platform name, as the toolchain names the target OS.
    pub os: String,
    /// Whether the invoking user is the superuser.
    pub is_root: bool,
}

impl Host {
    /// The host of this process, running on the platform named `os`.
    pub fn current(os: String) -> (h: Host)
        ensures
            h.os@ == os@,
    {
        Host { os, is_root: real_user_is_root() }
    }
}

/// A supported platform name as it is compared: lowercase, then trimmed.
pub open spec fn normalized_platform(p: Seq<char>) -> Seq<char> {
    trim_of(lower_of(p))
}

/// Whether the test lists `os` among its supported platforms.
pub open spec fn platform_supported(test: AtomicTest, os: Seq<char>) -> bool {
    exists|i: int|
        0 <= i < test.supported_platforms@.len() && #[trigger] normalized_platform(
            test.supported_platforms@[i]@,
        ) == os
}

/// Whether the test demands elevated privilege.
pub open spec fn needs_elevation(test: AtomicTest) -> bool {
    test.executor.elevation_required == Some(true)
}

/// Whether one of the already normalised platform names equals `local_os`.
pub fn any_platform_matches(normalized: &Vec<String>, local_os: &str) -> (r: bool)
    ensures
        r == exists|i: int| 0 <= i < normalized@.len() && #[trigger] normalized@[i]@ == local_os@,
{
    let os = String::from_str(local_os);
    let mut i: usize = 0;
    while i < normalized.len()
        invariant
            i <= normalized.len(),
            os@ == local_os@,
            forall|m: int| 0 <= m < i ==> #[trigger] normalized@[m]@ != local_os@,
        decreases normalized.len() - i,
    {
        if normalized[i] == os {
            return true;
        }
        i += 1;
    }
    false
}

/// The platform gate: the test must list the local platform, compared
/// without regard to case or surrounding whitespace.
pub fn is_os_supported(yaml: &AtomicReadTeamTechnique, test_num: usize, local_os: &str) -> (r:
    Result<(), ArrError>)
    requires
        test_num < yaml.atomic_tests.len(),
    ensures
        r is Ok <==> platform_supported(yaml.atomic_tests@[test_num as int], local_os@),
        r is Err ==> r == Err::<(), ArrError>(ArrError::OsNotSupported),
{
    let platforms = &yaml.atomic_tests[test_num].supported_platforms;
    let mut normalized: Vec<String> = Vec::new();
    let mut i: usize = 0;
    while i < platforms.len()
        invariant
            i <= platforms.len(),
            test_num < yaml.atomic_tests.len(),
            *platforms == yaml.atomic_tests@[test_num as int].supported_platforms,
            normalized@.len() == i,
            forall|m: int| 0 <= m < i ==> #[trigger] normalized@[m]@ == normalized_platform(platforms@[m]@),
        decreases platforms.len() - i,
    {
        let lower = lowercase(platforms[i].as_str());
        let t = String::from_str(trimmed(lower.as_str()));
        normalized.push(t);
        i += 1;
    }
    let found = any_platform_matches(&normalized, local_os);
    proof {
        if found {
            let i = choose|i: int| 0 <= i < normalized@.len() && #[trigger] normalized@[i]@ == local_os@;
            assert(normalized_platform(platforms@[i]@) == local_os@);
        }
        if platform_supported(yaml.atomic_tests@[test_num as int], local_os@) {
            let i = choose|i: int|
                0 <= i < platforms@.len() && #[trigger] normalized_platform(platforms@[i]@) == local_os@;
            assert(normalized@[i]@ == local_os@);
        }
    }
    if found {
        Ok(())
    } else {
        Err(ArrError::OsNotSupported)
    }
}

/// The privilege gate: a test that demands elevation needs the superuser.
pub fn check_superuser_requirement(
    yaml: &AtomicReadTeamTechnique,
    test_num: usize,
    is_root: bool,
) -> (r: Result<(), ArrError>)
    requires
        test_num < yaml.atomic_tests.len(),
    ensures
        r is Err <==> (needs_elevation(yaml.atomic_tests@[test_num as int]) && !is_root),
        r is Err ==> r == Err::<(), ArrError>(ArrError::RootRequired),
{
    if let Some(er) = &yaml.atomic_tests[test_num].executor.elevation_required {
        if *er && !is_root {
            return Err(ArrError::RootRequired);
        }
    }
    Ok(())
}

/// The flag with which an interpreter runs a string: `/c` for `cmd`, `-c` for
/// every other.
pub fn script_flag(executor: &str) -> (r: String)
    ensures
        r@ == (if executor@ == "cmd"@ {
            "/c"@
        } else {
            "-c"@
        }),
{
    let name = String::from_str(executor);
    let cmd = String::from_str("cmd");
    if name == cmd {
        String::from_str("/c")
    } else {
        String::from_str("-c")
    }
}

/// An output stream as it is reported: its text, or `(None)` where it is empty.
pub fn shown_stream(text: String) -> (r: String)
    ensures
        r@ == (if text@.len() == 0 {
            "(None)"@
        } else {
            text@
        }),
{
    if text.unicode_len() == 0 {
        String::from_str("(None)")
    } else {
        text
    }
}

} // verus!

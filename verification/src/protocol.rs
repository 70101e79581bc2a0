//! Protocol-level constants and the semantic version record that the
//! server reports to clients.

use vstd::prelude::*;

verus! {

/// Protocol version understood by this server; a client announcing a
/// different one is turned away during the first handshake step.
pub const CURRENT_PROTOCOL: i32 = 786;

/// Game version advertised by the server.
pub const GAME_VERSION_MAJOR: i32 = 1;
pub const GAME_VERSION_MINOR: i32 = 21;
pub const GAME_VERSION_PATCH: i32 = 7;

/// Code name the server advertises.
pub fn code_name() -> (r: &'static str)
    ensures
        r@ == "PowerCrabX"@,
{
    "PowerCrabX"
}

/// Version of the server's own interface.
pub fn api_version() -> (r: &'static str)
    ensures
        r@ == "0.0.1"@,
{
    "0.0.1"
}

/// Game version the server advertises.
pub fn game_version() -> (r: &'static str)
    ensures
        r@ == "1.21.70"@,
{
    "1.21.70"
}

/// Game version the server advertises, in its prefixed display form.
pub fn game_version_full() -> (r: &'static str)
    ensures
        r@ == "v1.21.70"@,
{
    "v1.21.70"
}

/// A five-part semantic version: major.minor.patch plus a revision and a
/// build number.
#[derive(Clone, Copy, Debug, PartialEq, Eq, Structural)]
pub struct SemVersion {
    pub major: i32,
    pub minor: i32,
    pub patch: i32,
    pub revision: i32,
    pub build: i32,
}

impl SemVersion {
    pub fn new(major: i32, minor: i32, patch: i32, revision: i32, build: i32) -> (v: Self)
        ensures
            v.major == major,
            v.minor == minor,
            v.patch == patch,
            v.revision == revision,
            v.build == build,
    {
        Self { major, minor, patch, revision, build }
    }
}

/// The semantic version this server runs as.
pub fn current_sem_version() -> (v: SemVersion)
    ensures
        v == (SemVersion {
            major: GAME_VERSION_MAJOR,
            minor: GAME_VERSION_MINOR,
            patch: GAME_VERSION_PATCH,
            revision: 0,
            build: 0,
        }),
{
    SemVersion::new(GAME_VERSION_MAJOR, GAME_VERSION_MINOR, GAME_VERSION_PATCH, 0, 0)
}

/// The block-state version is the major, minor and patch numbers packed
/// into one word, eight bits each.
pub open spec fn spec_block_state_version(v: SemVersion) -> i32 {
    ((v.major << 24) | (v.minor << 16) | (v.patch << 8)) as i32
}

/// Packs a version's major, minor and patch numbers into the single
/// 32-bit block-state version word.
pub fn block_state_version(v: &SemVersion) -> (r: i32)
    ensures
        r == spec_block_state_version(*v),
{
    (v.major << 24) | (v.minor << 16) | (v.patch << 8)
}

} // verus!

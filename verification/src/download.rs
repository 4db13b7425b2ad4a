use vstd::prelude::*;

use crate::address::{parse_url, url_parse, ParsedUrl};

verus! {

/// A platform for which no IC binaries are published.
#[derive(Debug, PartialEq, Eq, Structural)]
pub enum PlatformError {
    /// The architecture is neither x86_64 nor aarch64.
    UnsupportedArchitecture,
    /// The operating system is neither macOS nor Linux.
    UnsupportedOs,
}

/// The architecture whose binaries are used on `arch`: x86_64 binaries on
/// x86_64, and on aarch64 as well (run through Rosetta 2); none elsewhere.
pub open spec fn spec_binary_arch(arch: Seq<char>) -> Option<Seq<char>> {
    if arch == "x86_64"@ || arch == "aarch64"@ {
        Some("x86_64"@)
    } else {
        None
    }
}

/// Binaries for aarch64 are those for x86_64, on every operating system.
pub proof fn lemma_aarch64_uses_x86_64_binaries()
    ensures
        spec_binary_arch("aarch64"@) == spec_binary_arch("x86_64"@),
        spec_binary_arch("aarch64"@) == Some("x86_64"@),
{
}

/// The name of the operating system `os` in download paths: `darwin` for
/// macOS, `linux` for Linux; none elsewhere.
pub open spec fn spec_binary_os(os: Seq<char>) -> Option<Seq<char>> {
    if os == "macos"@ {
        Some("darwin"@)
    } else if os == "linux"@ {
        Some("linux"@)
    } else {
        None
    }
}

fn str_eq(a: &str, b: &str) -> (r: bool)
    ensures
        r == (a@ == b@),
{
    a.to_owned() == b.to_owned()
}

/// The platform part of a download path, `<arch>-<os>`, for the
/// architecture and operating system given as `std::env::consts` names them.
pub fn platform_path(arch: &str, os: &str) -> (r: Result<String, PlatformError>)
    ensures
        match (spec_binary_arch(arch@), spec_binary_os(os@)) {
            (None, _) => r matches Err(PlatformError::UnsupportedArchitecture),
            (Some(_), None) => r matches Err(PlatformError::UnsupportedOs),
            (Some(a), Some(o)) => r matches Ok(p) && p@ == a + "-"@ + o,
        },
{
    if !(str_eq(arch, "x86_64") || str_eq(arch, "aarch64")) {
        return Err(PlatformError::UnsupportedArchitecture);
    }
    let o = if str_eq(os, "macos") {
        "darwin"
    } else if str_eq(os, "linux") {
        "linux"
    } else {
        return Err(PlatformError::UnsupportedOs);
    };
    let mut p = "x86_64-".to_owned();
    p.append(o);
    proof {
        reveal_strlit("x86_64-");
        reveal_strlit("x86_64");
        reveal_strlit("-");
    }
    Ok(p)
}

/// The address of a gzipped IC binary of a replica revision:
/// `https://download.dfinity.systems/ic/<rev>/<dir>/<platform>/<name>.gz`.
pub open spec fn spec_ic_download_url(
    replica_rev: Seq<char>,
    dir: Seq<char>,
    platform: Seq<char>,
    binary_name: Seq<char>,
) -> Seq<char> {
    "https://download.dfinity.systems/ic/"@ + replica_rev + "/"@ + dir + "/"@ + platform + "/"@
        + binary_name + ".gz"@
}

fn ic_download_url(replica_rev: &str, dir: &str, platform: &str, binary_name: &str) -> (r: String)
    ensures
        r@ == spec_ic_download_url(replica_rev@, dir@, platform@, binary_name@),
{
    let mut r = "https://download.dfinity.systems/ic/".to_owned();
    r.append(replica_rev);
    r.append("/");
    r.append(dir);
    r.append("/");
    r.append(platform);
    r.append("/");
    r.append(binary_name);
    r.append(".gz");
    r
}

/// The address of the gzipped IC binary `binary_name` of a replica
/// revision, for the platform `platform` (see `platform_path`).
pub fn ic_binary_url(replica_rev: &str, platform: &str, binary_name: &str) -> (r: String)
    ensures
        r@ == spec_ic_download_url(replica_rev@, "binaries"@, platform@, binary_name@),
{
    ic_download_url(replica_rev, "binaries", platform, binary_name)
}

/// The address of the gzipped statically linked IC binary `binary_name` of a
/// replica revision, for the platform `platform` (see `platform_path`).
pub fn ic_static_binary_url(replica_rev: &str, platform: &str, binary_name: &str) -> (r: String)
    ensures
        r@ == spec_ic_download_url(
            replica_rev@,
            "openssl-static-binaries"@,
            platform@,
            binary_name@,
        ),
{
    ic_download_url(replica_rev, "openssl-static-binaries", platform, binary_name)
}

/// The address of the gzipped canister wasm `wasm_name` built at the IC
/// commit `ic_commit`.
pub open spec fn spec_ic_repo_wasm_url(ic_commit: Seq<char>, wasm_name: Seq<char>) -> Seq<char> {
    "https://download.dfinity.systems/ic/"@ + ic_commit + "/canisters/"@ + wasm_name + ".gz"@
}

/// The parsed address of the gzipped canister wasm `wasm_name` built at the
/// IC commit `ic_commit`, or the error of parsing it.
pub fn ic_repo_wasm_url(ic_commit: &str, wasm_name: &str) -> (r: Result<ParsedUrl, url::ParseError>)
    ensures
        match url_parse(spec_ic_repo_wasm_url(ic_commit@, wasm_name@)) {
            Some((text, port)) => r matches Ok(u) && u.text_spec()@ == text && u.port_spec() == port,
            None => r is Err,
        },
{
    let mut s = "https://download.dfinity.systems/ic/".to_owned();
    s.append(ic_commit);
    s.append("/canisters/");
    s.append(wasm_name);
    s.append(".gz");
    parse_url(s.as_str())
}

/// What `flate2::read::GzDecoder` reads out of the gzip data `data` to its
/// end: the decompressed bytes, or `None` where it reports an error.
pub uninterp spec fn gunzip(data: Seq<u8>) -> Option<Seq<u8>>;

/// Decompresses gzip data with `flate2::read::GzDecoder`, reading it to the
/// end.
///
/// The contract claims that the call succeeds exactly where `gunzip` has a
/// value and that the bytes are that value; the deflate format is left to
/// the name `gunzip`. Which `std::io::Error` comes back is left unsaid.
#[verifier::external_body]
fn gunzip_bytes(data: &[u8]) -> (r: Result<Vec<u8>, std::io::Error>)
    ensures
        match r {
            Ok(v) => gunzip(data@) == Some(v@),
            Err(_) => gunzip(data@) is None,
        },
{
    let mut out: Vec<u8> = Vec::new();
    match std::io::Read::read_to_end(&mut flate2::read::GzDecoder::new(data), &mut out) {
        Ok(_) => Ok(out),
        Err(e) => Err(e),
    }
}

/// The content to store for a downloaded body: the body decompressed from
/// gzip where `unzip` is set, else the body as it came.
pub fn downloaded_content(body: &[u8], unzip: bool) -> (r: Result<Vec<u8>, std::io::Error>)
    ensures
        unzip ==> match gunzip(body@) {
            Some(d) => r matches Ok(v) && v@ == d,
            None => r is Err,
        },
        !unzip ==> (r matches Ok(v) && v@ == body@),
{
    if unzip {
        gunzip_bytes(body)
    } else {
        Ok(vstd::slice::slice_to_vec(body))
    }
}

} // verus!

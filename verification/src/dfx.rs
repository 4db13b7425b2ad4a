use vstd::prelude::*;

use crate::text::{
    decimal, last_word, last_word_bounds, latin1, latin1_chars, parse_u16,
    parse_u16_chars, push_decimal, string_of_chars, string_of_range, trim, trim_bounds,
};

verus! {

/// `std::io::Error`, carried through without looking inside.
#[verifier::external_type_specification]
#[verifier::external_body]
pub struct ExIoError(std::io::Error);

/// `semver::Error`, carried through without looking inside.
#[verifier::external_type_specification]
#[verifier::external_body]
pub struct ExSemverError(semver::Error);

/// Errors met while running `dfx` and reading what it printed.
#[derive(Debug)]
pub enum DfxError {
    /// `dfx` could not be run.
    DfxExecutableError(std::io::Error),
    /// `dfx --version` printed something that is not a semantic version.
    DfxVersionMalformed(semver::Error),
    /// `dfx <command>` printed something unexpected.
    MalformedCommandOutput { command: String, output: String },
    /// The `dfx` cache of the given version is not installed.
    DfxCacheNotInstalled(String),
}

/// A semantic version, as `semver::Version` holds it.
#[derive(Debug)]
pub struct SemVer {
    pub major: u64,
    pub minor: u64,
    pub patch: u64,
    pub pre: String,
    pub build: String,
}

/// What `semver::Version::parse` makes of `text`: the major, minor and patch
/// numbers, the pre-release and the build metadata, or `None` where it
/// refuses the text.
pub uninterp spec fn semver_parse(text: Seq<char>) -> Option<(u64, u64, u64, Seq<char>, Seq<char>)>;

/// Parses a semantic version with `semver::Version::parse`.
///
/// The contract claims that the call succeeds exactly where `semver_parse`
/// has a value, and that the parts of the version it returns are that value;
/// the grammar that `semver` accepts is left to the name `semver_parse`.
#[verifier::external_body]
fn parse_version(text: &str) -> (r: Result<SemVer, semver::Error>)
    ensures
        match r {
            Ok(v) => semver_parse(text@) == Some((v.major, v.minor, v.patch, v.pre@, v.build@)),
            Err(_) => semver_parse(text@) is None,
        },
{
    match semver::Version::parse(text) {
        Ok(v) => Ok(
            SemVer {
                major: v.major,
                minor: v.minor,
                patch: v.patch,
                pre: v.pre.as_str().to_owned(),
                build: v.build.as_str().to_owned(),
            },
        ),
        Err(e) => Err(e),
    }
}

/// The text of a version as `semver::Version`'s `Display` writes it:
/// `major.minor.patch`, then `-pre` and `+build` where those are not empty.
pub open spec fn version_text(
    major: u64,
    minor: u64,
    patch: u64,
    pre: Seq<char>,
    build: Seq<char>,
) -> Seq<char> {
    decimal(major as nat) + seq!['.'] + decimal(minor as nat) + seq!['.'] + decimal(patch as nat)
        + (if pre.len() > 0 {
        seq!['-'] + pre
    } else {
        Seq::empty()
    }) + (if build.len() > 0 {
        seq!['+'] + build
    } else {
        Seq::empty()
    })
}

impl SemVer {
    /// The text of the version, as `to_string` gives it for `semver::Version`.
    pub fn to_text(&self) -> (r: String)
        ensures
            r@ == version_text(self.major, self.minor, self.patch, self.pre@, self.build@),
    {
        let mut r = String::new();
        push_decimal(&mut r, self.major);
        r.append(".");
        push_decimal(&mut r, self.minor);
        r.append(".");
        push_decimal(&mut r, self.patch);
        proof {
            reveal_strlit(".");
        }
        if self.pre.as_str().unicode_len() > 0 {
            r.append("-");
            r.append(self.pre.as_str());
            proof {
                reveal_strlit("-");
            }
        }
        if self.build.as_str().unicode_len() > 0 {
            r.append("+");
            r.append(self.build.as_str());
            proof {
                reveal_strlit("+");
            }
        }
        r
    }
}

/// The outcome of `dfx --version` once its last word has been parsed:
/// the version's text, or the parse error.
pub fn dfx_version_from_parsed(parsed: Result<SemVer, semver::Error>) -> (r: Result<
    String,
    DfxError,
>)
    ensures
        match parsed {
            Ok(v) => r matches Ok(s) && s@ == version_text(
                v.major,
                v.minor,
                v.patch,
                v.pre@,
                v.build@,
            ),
            Err(e) => r matches Err(DfxError::DfxVersionMalformed(e2)) && e2 == e,
        },
{
    match parsed {
        Ok(v) => Ok(v.to_text()),
        Err(e) => Err(DfxError::DfxVersionMalformed(e)),
    }
}

/// Reads the version from what `dfx --version` printed: the last
/// whitespace-separated word, which must be a semantic version, written
/// back in its normal form.
pub fn dfx_version_from_output(stdout: &[u8]) -> (r: Result<String, DfxError>)
    ensures
        match last_word(latin1(stdout@)) {
            None => r matches Err(DfxError::MalformedCommandOutput { command, output }) && command@
                == "--version"@ && output@ == latin1(stdout@),
            Some(w) => match semver_parse(w) {
                Some(p) => r matches Ok(s) && s@ == version_text(p.0, p.1, p.2, p.3, p.4),
                None => r matches Err(DfxError::DfxVersionMalformed(_)),
            },
        },
{
    let chars = latin1_chars(stdout);
    match last_word_bounds(&chars) {
        None => Err(
            DfxError::MalformedCommandOutput {
                command: "--version".to_owned(),
                output: string_of_chars(&chars),
            },
        ),
        Some((a, b)) => {
            let word = string_of_range(&chars, a, b);
            dfx_version_from_parsed(parse_version(word.as_str()))
        },
    }
}

/// The number of bytes of the UTF-8 encoding of `c`.
pub open spec fn utf8_width(c: char) -> nat {
    let u = c as u32;
    if u < 0x80 {
        1
    } else if u < 0x800 {
        2
    } else if u < 0x10000 {
        3
    } else {
        4
    }
}

/// The number of bytes of the UTF-8 encoding of `s`, which is what
/// `String::len` counts.
pub open spec fn utf8_len(s: Seq<char>) -> nat
    decreases s.len(),
{
    if s.len() == 0 {
        0
    } else {
        utf8_len(s.drop_last()) + utf8_width(s.last())
    }
}

/// Tells whether the UTF-8 encoding of `s[a..b]` takes exactly `n` bytes.
fn utf8_len_is(s: &Vec<char>, a: usize, b: usize, n: u64) -> (r: bool)
    requires
        a <= b <= s@.len(),
    ensures
        r == (utf8_len(s@.subrange(a as int, b as int)) == n),
{
    let mut count: u64 = 0;
    let mut k = a;
    while k < b
        invariant
            a <= k <= b <= s@.len(),
            count == utf8_len(s@.subrange(a as int, k as int)),
            count <= n,
        decreases b - k,
    {
        let u = s[k] as u32;
        let w: u64 = if u < 0x80 {
            1
        } else if u < 0x800 {
            2
        } else if u < 0x10000 {
            3
        } else {
            4
        };
        assert(s@.subrange(a as int, k + 1).drop_last() == s@.subrange(a as int, k as int));
        if w > n - count {
            proof {
                lemma_utf8_len_prefix_le(s@.subrange(a as int, b as int), k + 1 - a);
                assert(s@.subrange(a as int, b as int).subrange(0, k + 1 - a) == s@.subrange(
                    a as int,
                    k + 1,
                ));
            }
            return false;
        }
        count = count + w;
        k = k + 1;
    }
    count == n
}

proof fn lemma_utf8_len_prefix_le(s: Seq<char>, i: int)
    requires
        0 <= i <= s.len(),
    ensures
        utf8_len(s.subrange(0, i)) <= utf8_len(s),
    decreases s.len() - i,
{
    if i < s.len() {
        lemma_utf8_len_prefix_le(s.drop_last(), i);
        assert(s.drop_last().subrange(0, i) == s.subrange(0, i));
    } else {
        assert(s.subrange(0, i) == s);
    }
}

/// Reads the replica revision from what `dfx info replica-rev` printed: the
/// trimmed output, which must be 40 bytes long.
pub fn replica_rev_from_output(stdout: &[u8]) -> (r: Result<String, DfxError>)
    ensures
        ({
            let t = trim(latin1(stdout@));
            if utf8_len(t) == 40 {
                r matches Ok(s) && s@ == t
            } else {
                r matches Err(DfxError::MalformedCommandOutput { command, output }) && command@
                    == "info replica-rev"@ && output@ == t
            }
        }),
{
    let chars = latin1_chars(stdout);
    let (a, b) = trim_bounds(&chars);
    let rev = string_of_range(&chars, a, b);
    if utf8_len_is(&chars, a, b, 40) {
        Ok(rev)
    } else {
        Err(DfxError::MalformedCommandOutput { command: "info replica-rev".to_owned(), output: rev })
    }
}

/// Reads the webserver port from what `dfx info webserver-port` printed:
/// the trimmed output, read as a 16-bit number.
pub fn webserver_port_from_output(stdout: &[u8]) -> (r: Result<u16, DfxError>)
    ensures
        match parse_u16(trim(latin1(stdout@))) {
            Some(p) => r matches Ok(q) && q == p,
            None => r matches Err(DfxError::MalformedCommandOutput { command, output }) && command@
                == "info webserver-port"@ && output@ == latin1(stdout@),
        },
{
    let chars = latin1_chars(stdout);
    let (a, b) = trim_bounds(&chars);
    match parse_u16_chars(&chars, a, b) {
        Some(port) => Ok(port),
        None => Err(
            DfxError::MalformedCommandOutput {
                command: "info webserver-port".to_owned(),
                output: string_of_chars(&chars),
            },
        ),
    }
}

/// A `dfx` cache of one version.
#[derive(Debug)]
pub struct Cache {
    dfx_verison: String,
}

impl Cache {
    /// The version of the cache.
    pub closed spec fn version(&self) -> Seq<char> {
        self.dfx_verison@
    }

    /// The cache of `version`, given whether that version is installed.
    pub fn from_version(version: &str, installed: bool) -> (r: Result<Cache, DfxError>)
        ensures
            installed ==> (r matches Ok(c) && c.version() == version@),
            !installed ==> (r matches Err(DfxError::DfxCacheNotInstalled(v)) && v@ == version@),
    {
        let dfx_verison = version.to_owned();
        let cache = Cache { dfx_verison };
        if !installed {
            return Err(DfxError::DfxCacheNotInstalled(version.to_owned()));
        }
        Ok(cache)
    }

    /// The version of the cache, as text.
    pub fn version_str(&self) -> (r: String)
        ensures
            r@ == self.version(),
    {
        self.dfx_verison.clone()
    }
}

/// The text of a version starts with `major.minor.patch`; a non-empty
/// pre-release follows as `-pre` whatever the build metadata, and non-empty
/// build metadata ends the text as `+build`; nothing else is written.
pub proof fn lemma_version_text_parts(
    major: u64,
    minor: u64,
    patch: u64,
    pre: Seq<char>,
    build: Seq<char>,
)
    ensures
        ({
            let t = version_text(major, minor, patch, pre, build);
            let c = decimal(major as nat) + seq!['.'] + decimal(minor as nat) + seq!['.'] + decimal(
                patch as nat,
            );
            &&& t.len() == c.len() + (if pre.len() > 0 {
                1 + pre.len()
            } else {
                0
            }) + (if build.len() > 0 {
                1 + build.len()
            } else {
                0
            })
            &&& t.subrange(0, c.len() as int) == c
            &&& pre.len() > 0 ==> t.subrange(c.len() as int, (c.len() + 1 + pre.len()) as int) == seq!['-']
                + pre
            &&& build.len() > 0 ==> t.subrange(t.len() - build.len() - 1, t.len() as int)
                == seq!['+'] + build
        }),
{
    let t = version_text(major, minor, patch, pre, build);
    let c = decimal(major as nat) + seq!['.'] + decimal(minor as nat) + seq!['.'] + decimal(
        patch as nat,
    );
    let p = if pre.len() > 0 {
        seq!['-'] + pre
    } else {
        Seq::empty()
    };
    let b = if build.len() > 0 {
        seq!['+'] + build
    } else {
        Seq::empty()
    };
    assert(t =~= c + p + b);
    assert(t.subrange(0, c.len() as int) =~= c);
    if pre.len() > 0 {
        assert(t.subrange(c.len() as int, (c.len() + 1 + pre.len()) as int) =~= seq!['-'] + pre);
    }
    if build.len() > 0 {
        assert(t.subrange(t.len() - build.len() - 1, t.len() as int) =~= seq!['+'] + build);
    }
}

} // verus!

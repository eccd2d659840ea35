//! Build and version metadata of the kernel: hashes of the sources, git and
//! toolchain details, and how they are assembled from the build environment.

use vstd::prelude::*;
use vstd::string::*;
use base64::Engine;
use crate::result::{ErrorType, TraceLocation, Wirt};

verus! {

/// Build options.
#[derive(Debug, Clone, PartialEq, Eq)]
pub struct OptInfo {
    pub opt: Vec<String>,
    pub debug: bool,
}

/// Where the sources came from.
#[derive(Debug, Clone, PartialEq, Eq)]
pub struct GitInfo {
    pub url: String,
    pub branch: String,
    pub dirty: String,
}

/// The toolchain that built the kernel.
#[derive(Debug, Clone, PartialEq, Eq)]
pub struct BuilderInfo {
    pub version: String,
    pub info: String,
    pub name: String,
}

/// Who develops the kernel.
#[derive(Debug, Clone, PartialEq, Eq)]
pub struct DeveloperInfo {
    pub developer: String,
    pub link: String,
}

/// What was built.
#[derive(Debug, Clone, PartialEq, Eq)]
pub struct BuildInfo {
    pub name: String,
    pub features: Vec<String>,
    pub profile: String,
    pub cycle: String,
    pub version: String,
}

/// Outcome of a length query across the hashing interface.
#[derive(Debug, Clone, Copy, PartialEq, Eq)]
pub struct LenResult {
    pub success: bool,
    pub len: u64,
}

/// A digest together with the algorithm that produced it.
#[derive(Debug, Clone, PartialEq, Eq)]
pub enum HashVariant {
    Sha1(Vec<u8>),
    Sha1Dc(Vec<u8>),
    Sha2_256(Vec<u8>),
    Sha2_512(Vec<u8>),
    Sha2_512_256(Vec<u8>),
    Sha3_256(Vec<u8>),
    Sha3_512(Vec<u8>),
    Blake2B(Vec<u8>),
    Blake2S(Vec<u8>),
    Blake3(Vec<u8>),
}

/// Digests of the source tree and of the git revision.
#[derive(Debug, Clone, PartialEq, Eq)]
pub struct HashInfo {
    pub dir_hash: Vec<HashVariant>,
    pub git_hash: Vec<HashVariant>,
}

/// Everything the kernel reports about its own build.
#[derive(Debug, Clone, PartialEq, Eq)]
pub struct VersionInfo {
    pub data_version: u32,
    pub git: Option<GitInfo>,
    pub builder: Option<BuilderInfo>,
    pub developer: DeveloperInfo,
    pub build: BuildInfo,
    pub hash: HashInfo,
    pub additional: Vec<(String, String)>,
}

/// `a` comes before `b` in the order of strings: at the first place where
/// they differ the character of `a` is smaller, or `a` is a proper prefix of
/// `b`.
pub open spec fn text_lt(a: Seq<char>, b: Seq<char>) -> bool
    decreases a.len(),
{
    if a.len() == 0 {
        b.len() > 0
    } else if b.len() == 0 {
        false
    } else if a[0] != b[0] {
        (a[0] as u32) < (b[0] as u32)
    } else {
        text_lt(a.drop_first(), b.drop_first())
    }
}

/// The extra build entries form a map: their keys are distinct and in
/// increasing order.
pub open spec fn entries_sorted(entries: Seq<(String, String)>) -> bool {
    forall|i: int, j: int|
        0 <= i < j < entries.len() ==> (#[trigger] entries[i]).0@ != (#[trigger] entries[j]).0@
            && text_lt(entries[i].0@, entries[j].0@)
}

/// Elliptic curves for ECDSA signatures.
#[derive(Debug, Clone, Copy, PartialEq, Eq)]
pub enum EcdsaType {
    P256,
    P384,
    P521,
    BrainPool(u16),
}

/// A signature together with its scheme.
#[derive(Debug, Clone)]
pub enum SignVariant {
    RsaPss2048(HashVariant, String),
    RsaPss4096(HashVariant, String),
    ECDSA(EcdsaType, HashVariant, String),
    ED25519(String),
    ED448(String),
    DILITHIUM(u8, String),
}

/// Version of the layout of `VersionInfo`.
pub const VERSION_DATA_VERSION: u32 = 1;

/// An ASCII hexadecimal digit.
pub open spec fn is_hex_digit(c: u8) -> bool {
    (0x30 <= c <= 0x39) || (0x61 <= c <= 0x66) || (0x41 <= c <= 0x46)
}

/// Value of an ASCII hexadecimal digit.
pub open spec fn hex_digit_value(c: u8) -> nat {
    if 0x30 <= c <= 0x39 {
        (c - 0x30) as nat
    } else if 0x61 <= c <= 0x66 {
        (c - 0x61 + 10) as nat
    } else {
        (c - 0x41 + 10) as nat
    }
}

/// Value of one hexadecimal digit.
pub fn hex_to_byte(c: u8) -> (r: u8)
    requires
        is_hex_digit(c),
    ensures
        r as nat == hex_digit_value(c),
        r < 16,
{
    if 0x30 <= c && c <= 0x39 {
        c - 0x30
    } else if 0x61 <= c && c <= 0x66 {
        c - 0x61 + 10
    } else {
        c - 0x41 + 10
    }
}

/// Bytes denoted by hexadecimal text, two digits per byte, high digit first;
/// a trailing odd digit is ignored.
pub open spec fn hex_decoded(s: Seq<u8>) -> Seq<u8> {
    Seq::new(s.len() / 2, |i: int| (hex_digit_value(s[2 * i]) * 16 + hex_digit_value(s[2 * i + 1])) as u8)
}

/// Decodes hexadecimal text into bytes.
pub fn decode_hex(s: &[u8]) -> (r: Vec<u8>)
    requires
        forall|i: int| 0 <= i < 2 * (s@.len() / 2) ==> is_hex_digit(#[trigger] s@[i]),
    ensures
        r@ == hex_decoded(s@),
{
    let len = s.len() / 2;
    let mut res: Vec<u8> = Vec::new();
    let mut i: usize = 0;
    while i < len
        invariant
            len == s@.len() / 2,
            i <= len,
            2 * len <= s.len(),
            s.len() == s@.len(),
            forall|k: int| 0 <= k < 2 * (s@.len() / 2) ==> is_hex_digit(#[trigger] s@[k]),
            res@ == hex_decoded(s@).take(i as int),
        decreases len - i,
    {
        let hi = hex_to_byte(s[i * 2]);
        let lo = hex_to_byte(s[i * 2 + 1]);
        let b = (hi << 4u8) | lo;
        assert(b == hi * 16 + lo) by (bit_vector)
            requires
                hi < 16u8,
                lo < 16u8,
                b == (hi << 4u8) | lo,
        ;
        res.push(b);
        i += 1;
        assert(res@ =~= hex_decoded(s@).take(i as int));
    }
    assert(hex_decoded(s@).take(len as int) =~= hex_decoded(s@));
    res
}

/// Parts joined with a separator between neighbours.
pub open spec fn join_with(parts: Seq<Seq<char>>, sep: char) -> Seq<char>
    decreases parts.len(),
{
    if parts.len() == 0 {
        seq![]
    } else if parts.len() == 1 {
        parts[0]
    } else {
        join_with(parts.drop_last(), sep) + seq![sep] + parts.last()
    }
}

/// Text of each string.
pub open spec fn strings_view(v: Seq<String>) -> Seq<Seq<char>> {
    v.map_values(|s: String| s@)
}

/// Splits a comma separated list: the parts hold no comma and, joined with
/// commas, give back the list; the empty list has one empty part.
pub fn split_features(s: &str) -> (r: Vec<String>)
    ensures
        r@.len() >= 1,
        join_with(strings_view(r@), ',') == s@,
        forall|k: int| 0 <= k < r@.len() ==> !(#[trigger] r@[k])@.contains(','),
{
    let n = s.unicode_len();
    let mut parts: Vec<String> = Vec::new();
    let mut start: usize = 0;
    let mut i: usize = 0;
    while i < n
        invariant
            n == s@.len(),
            start <= i <= n,
            join_with(strings_view(parts@).push(s@.subrange(start as int, i as int)), ',') == s@.take(i as int),
            forall|k: int| 0 <= k < parts@.len() ==> !(#[trigger] parts@[k])@.contains(','),
            !s@.subrange(start as int, i as int).contains(','),
        decreases n - i,
    {
        let c = s.get_char(i);
        let ghost pv = strings_view(parts@);
        let ghost cur = s@.subrange(start as int, i as int);
        if c == ',' {
            let part = String::from_str(s.substring_char(start, i));
            parts.push(part);
            start = i + 1;
            i += 1;
            assert(strings_view(parts@) =~= pv.push(cur));
            assert(s@.subrange(start as int, i as int) =~= Seq::<char>::empty());
            assert(strings_view(parts@).push(s@.subrange(start as int, i as int)).drop_last() =~= pv.push(cur));
            assert(s@.take(i as int) =~= s@.take(i - 1) + seq![','] + Seq::<char>::empty());
        } else {
            i += 1;
            let ghost cur2 = s@.subrange(start as int, i as int);
            assert(cur2 =~= cur.push(c));
            proof {
                assert(strings_view(parts@) =~= pv);
                if pv.len() > 0 {
                    assert(pv.push(cur2).drop_last() =~= pv);
                    assert(pv.push(cur).drop_last() =~= pv);
                    assert(s@.take(i as int) =~= s@.take(i - 1).push(c));
                    assert(join_with(pv.push(cur2), ',') =~= join_with(pv, ',') + seq![','] + cur2);
                } else {
                    assert(s@.take(i as int) =~= cur2);
                }
                assert forall|x: int| 0 <= x < cur2.len() implies cur2[x] != ',' by {
                    if x < cur.len() {
                        assert(cur2[x] == cur[x]);
                    }
                }
            }
        }
    }
    let ghost pv = strings_view(parts@);
    let ghost cur = s@.subrange(start as int, n as int);
    let last = String::from_str(s.substring_char(start, n));
    parts.push(last);
    assert(strings_view(parts@) =~= pv.push(cur));
    assert(s@.take(n as int) =~= s@);
    parts
}

/// The values the build environment provides about a kernel build.
#[derive(Debug, Clone)]
pub struct BuildEnv {
    pub os_name: String,
    pub os_profile: String,
    pub os_cycle: String,
    pub version_raw: String,
    pub micro_ver: String,
    pub git_url: String,
    pub git_branch: String,
    pub git_dirty: String,
    pub rust_ver: String,
    pub rust_version_info: String,
    pub git_user: String,
    pub build_host: String,
    pub build_target: String,
    /// Hexadecimal text of the digest of the source tree.
    pub dir_hash: Vec<u8>,
    /// Hexadecimal text of the git revision.
    pub git_hash: Vec<u8>,
    /// Comma separated list of the enabled features.
    pub build_features: String,
}

/// Every digit that decoding reads is a hexadecimal digit.
pub open spec fn is_hex_text(s: Seq<u8>) -> bool {
    forall|i: int| 0 <= i < 2 * (s.len() / 2) ==> is_hex_digit(#[trigger] s[i])
}

/// Character of a six-bit value in the URL-safe base64 alphabet:
/// `A`-`Z`, `a`-`z`, `0`-`9`, then `-` and `_`.
pub open spec fn base64_url_char(v: nat) -> char {
    if v < 26 {
        (65 + v) as char
    } else if v < 52 {
        (97 + (v - 26)) as char
    } else if v < 62 {
        (48 + (v - 52)) as char
    } else if v == 62 {
        '-'
    } else {
        '_'
    }
}

/// URL-safe base64 text of `bytes` with `=` padding: each group of three
/// bytes becomes four characters of six bits each, most significant first;
/// a last group of one or two bytes is filled with zero bits and padded with
/// `=` to four characters.
pub open spec fn base64_url_safe(bytes: Seq<u8>) -> Seq<char>
    decreases bytes.len(),
{
    if bytes.len() == 0 {
        seq![]
    } else if bytes.len() == 1 {
        let b0 = bytes[0] as nat;
        seq![base64_url_char(b0 / 4), base64_url_char((b0 % 4) * 16), '=', '=']
    } else if bytes.len() == 2 {
        let b0 = bytes[0] as nat;
        let b1 = bytes[1] as nat;
        seq![
            base64_url_char(b0 / 4),
            base64_url_char((b0 % 4) * 16 + b1 / 16),
            base64_url_char((b1 % 16) * 4),
            '=',
        ]
    } else {
        let b0 = bytes[0] as nat;
        let b1 = bytes[1] as nat;
        let b2 = bytes[2] as nat;
        seq![
            base64_url_char(b0 / 4),
            base64_url_char((b0 % 4) * 16 + b1 / 16),
            base64_url_char((b1 % 16) * 4 + b2 / 64),
            base64_url_char(b2 % 64),
        ] + base64_url_safe(bytes.subrange(3, bytes.len() as int))
    }
}

/// `base64::prelude::BASE64_URL_SAFE.encode`: the padded URL-safe base64 text
/// of the bytes (RFC 4648, section 5, with padding).
#[verifier::external_body]
fn encode_base64_url_safe(bytes: &[u8]) -> (r: String)
    requires
        4 * ((bytes@.len() + 2) / 3) <= usize::MAX,
    ensures
        r@ == base64_url_safe(bytes@),
{
    base64::prelude::BASE64_URL_SAFE.encode(bytes)
}

/// Algorithm name of each digest kind.
pub open spec fn algo_name(v: HashVariant) -> Seq<char> {
    match v {
        HashVariant::Sha1(_) => "SHA-1"@,
        HashVariant::Sha1Dc(_) => "SHA-1DC"@,
        HashVariant::Sha2_256(_) => "SHA2-256"@,
        HashVariant::Sha2_512(_) => "SHA2-512"@,
        HashVariant::Sha2_512_256(_) => "SHA2-512/256"@,
        HashVariant::Sha3_256(_) => "SHA3-256"@,
        HashVariant::Sha3_512(_) => "SHA3-512"@,
        HashVariant::Blake2B(_) => "Blake2_B"@,
        HashVariant::Blake2S(_) => "Blake2_S"@,
        HashVariant::Blake3(_) => "Blake3"@,
    }
}

/// Digest bytes of a hash.
pub open spec fn digest(v: HashVariant) -> Seq<u8> {
    match v {
        HashVariant::Sha1(b) => b@,
        HashVariant::Sha1Dc(b) => b@,
        HashVariant::Sha2_256(b) => b@,
        HashVariant::Sha2_512(b) => b@,
        HashVariant::Sha2_512_256(b) => b@,
        HashVariant::Sha3_256(b) => b@,
        HashVariant::Sha3_512(b) => b@,
        HashVariant::Blake2B(b) => b@,
        HashVariant::Blake2S(b) => b@,
        HashVariant::Blake3(b) => b@,
    }
}

/// The digest kind named `name`, holding `hash`, if the name is known.
pub open spec fn variant_named(name: Seq<char>, hash: Vec<u8>) -> Option<HashVariant> {
    if name == "SHA-1"@ {
        Some(HashVariant::Sha1(hash))
    } else if name == "SHA-1DC"@ {
        Some(HashVariant::Sha1Dc(hash))
    } else if name == "SHA2-256"@ {
        Some(HashVariant::Sha2_256(hash))
    } else if name == "SHA2-512"@ {
        Some(HashVariant::Sha2_512(hash))
    } else if name == "SHA2-512/256"@ {
        Some(HashVariant::Sha2_512_256(hash))
    } else if name == "SHA3-256"@ {
        Some(HashVariant::Sha3_256(hash))
    } else if name == "SHA3-512"@ {
        Some(HashVariant::Sha3_512(hash))
    } else if name == "Blake2_B"@ {
        Some(HashVariant::Blake2B(hash))
    } else if name == "Blake2_S"@ {
        Some(HashVariant::Blake2S(hash))
    } else if name == "Blake3"@ {
        Some(HashVariant::Blake3(hash))
    } else {
        None
    }
}

/// Description of the error for an unknown algorithm name.
pub open spec fn unsupported_hash_desc(name: Seq<char>) -> Seq<char> {
    "not supported hash type ("@ + name + ")"@
}

fn str_eq(a: &str, b: &str) -> (r: bool)
    ensures
        r == (a@ == b@),
{
    String::from_str(a) == String::from_str(b)
}

impl HashVariant {
    /// The digest bytes.
    pub fn bytes(&self) -> (r: &Vec<u8>)
        ensures
            r@ == digest(*self),
    {
        match self {
            HashVariant::Sha1(b) | HashVariant::Sha1Dc(b) | HashVariant::Sha2_256(b)
            | HashVariant::Sha2_512(b) | HashVariant::Sha2_512_256(b) | HashVariant::Sha3_256(b)
            | HashVariant::Sha3_512(b) | HashVariant::Blake2B(b) | HashVariant::Blake2S(b)
            | HashVariant::Blake3(b) => b,
        }
    }

    /// The digest as URL-safe base64 text.
    pub fn hash(&self) -> (r: String)
        requires
            4 * ((digest(*self).len() + 2) / 3) <= usize::MAX,
        ensures
            r@ == base64_url_safe(digest(*self)),
    {
        encode_base64_url_safe(self.bytes().as_slice())
    }

    /// Name of the algorithm.
    pub fn algo(&self) -> (r: String)
        ensures
            r@ == algo_name(*self),
    {
        let s = match self {
            HashVariant::Sha1(_) => "SHA-1",
            HashVariant::Sha1Dc(_) => "SHA-1DC",
            HashVariant::Sha2_256(_) => "SHA2-256",
            HashVariant::Sha2_512(_) => "SHA2-512",
            HashVariant::Sha2_512_256(_) => "SHA2-512/256",
            HashVariant::Sha3_256(_) => "SHA3-256",
            HashVariant::Sha3_512(_) => "SHA3-512",
            HashVariant::Blake2B(_) => "Blake2_B",
            HashVariant::Blake2S(_) => "Blake2_S",
            HashVariant::Blake3(_) => "Blake3",
        };
        String::from_str(s)
    }

    /// The digest kind named `algo` holding `hash`; an unknown name is a
    /// `NotSupported` error raised at `loc`.
    pub fn from_parts(algo: &str, hash: Vec<u8>, loc: TraceLocation) -> (r: Wirt<HashVariant>)
        ensures
            match variant_named(algo@, hash) {
                Some(v) => r.outcome() == Ok::<HashVariant, crate::result::ErrorDetail>(v),
                None => r.outcome() matches Err(d) && d.ty is NotSupported && d.log@ == seq![loc]
                    && (d.desc matches Some(s) && s@ == unsupported_hash_desc(algo@)),
            },
    {
        if str_eq(algo, "SHA-1") {
            Wirt::new_ok(HashVariant::Sha1(hash))
        } else if str_eq(algo, "SHA-1DC") {
            Wirt::new_ok(HashVariant::Sha1Dc(hash))
        } else if str_eq(algo, "SHA2-256") {
            Wirt::new_ok(HashVariant::Sha2_256(hash))
        } else if str_eq(algo, "SHA2-512") {
            Wirt::new_ok(HashVariant::Sha2_512(hash))
        } else if str_eq(algo, "SHA2-512/256") {
            Wirt::new_ok(HashVariant::Sha2_512_256(hash))
        } else if str_eq(algo, "SHA3-256") {
            Wirt::new_ok(HashVariant::Sha3_256(hash))
        } else if str_eq(algo, "SHA3-512") {
            Wirt::new_ok(HashVariant::Sha3_512(hash))
        } else if str_eq(algo, "Blake2_B") {
            Wirt::new_ok(HashVariant::Blake2B(hash))
        } else if str_eq(algo, "Blake2_S") {
            Wirt::new_ok(HashVariant::Blake2S(hash))
        } else if str_eq(algo, "Blake3") {
            Wirt::new_ok(HashVariant::Blake3(hash))
        } else {
            let mut desc = String::from_str("not supported hash type (");
            desc.append(algo);
            desc.append(")");
            Wirt::Err_string(ErrorType::NotSupported, Some(desc), loc)
        }
    }
}

impl VersionInfo {
    /// The version record of this kernel build, assembled from the build
    /// environment.
    pub fn new_os(env: &BuildEnv) -> (info: VersionInfo)
        requires
            is_hex_text(env.dir_hash@),
            is_hex_text(env.git_hash@),
        ensures
            info.data_version == VERSION_DATA_VERSION,
            info.build.name@ == env.os_name@,
            join_with(strings_view(info.build.features@), ',') == env.build_features@,
            forall|k: int| 0 <= k < info.build.features@.len() ==> !(#[trigger] info.build.features@[k])@.contains(','),
            info.build.profile@ == env.os_profile@,
            info.build.cycle@ == env.os_cycle@,
            info.build.version@ == env.version_raw@ + seq!['_'] + env.micro_ver@,
            info.git matches Some(g) && g.url@ == env.git_url@ && g.branch@ == env.git_branch@
                && g.dirty@ == env.git_dirty@,
            info.builder matches Some(b) && b.version@ == env.rust_ver@ && b.info@ == env.rust_version_info@
                && b.name@ == "rust"@,
            info.developer.developer@ == env.git_user@,
            info.developer.link@ == "https://github.com/"@ + env.git_user@,
            info.hash.dir_hash@.len() == 1,
            info.hash.dir_hash@[0] matches HashVariant::Sha3_512(b) && b@ == hex_decoded(env.dir_hash@),
            info.hash.git_hash@.len() == 1,
            info.hash.git_hash@[0] matches HashVariant::Sha1Dc(b) && b@ == hex_decoded(env.git_hash@),
            info.additional@.len() == 2,
            info.additional@[0].0@ == "OsBuildHost"@ && info.additional@[0].1@ == env.build_host@,
            info.additional@[1].0@ == "OsBuildTarget"@ && info.additional@[1].1@ == env.build_target@,
            entries_sorted(info.additional@),
    {
        let mut version = env.version_raw.clone();
        version.append("_");
        version.append(env.micro_ver.as_str());
        proof {
            reveal_strlit("_");
        }
        let build = BuildInfo {
            name: env.os_name.clone(),
            features: split_features(env.build_features.as_str()),
            profile: env.os_profile.clone(),
            cycle: env.os_cycle.clone(),
            version,
        };
        let git = GitInfo {
            url: env.git_url.clone(),
            branch: env.git_branch.clone(),
            dirty: env.git_dirty.clone(),
        };
        let builder = BuilderInfo {
            version: env.rust_ver.clone(),
            info: env.rust_version_info.clone(),
            name: String::from_str("rust"),
        };
        let mut link = String::from_str("https://github.com/");
        link.append(env.git_user.as_str());
        let developer = DeveloperInfo { developer: env.git_user.clone(), link };
        let mut dir_hash: Vec<HashVariant> = Vec::new();
        dir_hash.push(HashVariant::Sha3_512(decode_hex(env.dir_hash.as_slice())));
        let mut git_hash: Vec<HashVariant> = Vec::new();
        git_hash.push(HashVariant::Sha1Dc(decode_hex(env.git_hash.as_slice())));
        let hash = HashInfo { dir_hash, git_hash };
        let mut additional: Vec<(String, String)> = Vec::new();
        additional.push((String::from_str("OsBuildHost"), env.build_host.clone()));
        additional.push((String::from_str("OsBuildTarget"), env.build_target.clone()));
        proof {
            reveal_strlit("OsBuildHost");
            reveal_strlit("OsBuildTarget");
            let host = "OsBuildHost"@;
            let target = "OsBuildTarget"@;
            assert(text_lt(host, target)) by {
                reveal_with_fuel(text_lt, 9);
            }
        }
        VersionInfo {
            data_version: VERSION_DATA_VERSION,
            git: Some(git),
            builder: Some(builder),
            developer,
            build,
            hash,
            additional,
        }
    }
}

/// The name of each digest kind, letter by letter, and the kind each name
/// parses to: SHA-1 and its collision-detecting form, the SHA-2 and SHA-3
/// digests by their bit length, and the BLAKE family.
pub proof fn lemma_algo_names(hash: Vec<u8>)
    ensures
        algo_name(HashVariant::Sha1(hash)) == seq!['S', 'H', 'A', '-', '1'],
        algo_name(HashVariant::Sha1Dc(hash)) == seq!['S', 'H', 'A', '-', '1', 'D', 'C'],
        algo_name(HashVariant::Sha2_256(hash)) == seq!['S', 'H', 'A', '2', '-', '2', '5', '6'],
        algo_name(HashVariant::Sha2_512(hash)) == seq!['S', 'H', 'A', '2', '-', '5', '1', '2'],
        algo_name(HashVariant::Sha2_512_256(hash)) == seq!['S', 'H', 'A', '2', '-', '5', '1', '2', '/', '2', '5', '6'],
        algo_name(HashVariant::Sha3_256(hash)) == seq!['S', 'H', 'A', '3', '-', '2', '5', '6'],
        algo_name(HashVariant::Sha3_512(hash)) == seq!['S', 'H', 'A', '3', '-', '5', '1', '2'],
        algo_name(HashVariant::Blake2B(hash)) == seq!['B', 'l', 'a', 'k', 'e', '2', '_', 'B'],
        algo_name(HashVariant::Blake2S(hash)) == seq!['B', 'l', 'a', 'k', 'e', '2', '_', 'S'],
        algo_name(HashVariant::Blake3(hash)) == seq!['B', 'l', 'a', 'k', 'e', '3'],
        variant_named(seq!['S', 'H', 'A', '-', '1'], hash) == Some(HashVariant::Sha1(hash)),
        variant_named(seq!['S', 'H', 'A', '-', '1', 'D', 'C'], hash) == Some(HashVariant::Sha1Dc(hash)),
        variant_named(seq!['S', 'H', 'A', '2', '-', '2', '5', '6'], hash) == Some(HashVariant::Sha2_256(hash)),
        variant_named(seq!['S', 'H', 'A', '2', '-', '5', '1', '2'], hash) == Some(HashVariant::Sha2_512(hash)),
        variant_named(seq!['S', 'H', 'A', '2', '-', '5', '1', '2', '/', '2', '5', '6'], hash) == Some(HashVariant::Sha2_512_256(hash)),
        variant_named(seq!['S', 'H', 'A', '3', '-', '2', '5', '6'], hash) == Some(HashVariant::Sha3_256(hash)),
        variant_named(seq!['S', 'H', 'A', '3', '-', '5', '1', '2'], hash) == Some(HashVariant::Sha3_512(hash)),
        variant_named(seq!['B', 'l', 'a', 'k', 'e', '2', '_', 'B'], hash) == Some(HashVariant::Blake2B(hash)),
        variant_named(seq!['B', 'l', 'a', 'k', 'e', '2', '_', 'S'], hash) == Some(HashVariant::Blake2S(hash)),
        variant_named(seq!['B', 'l', 'a', 'k', 'e', '3'], hash) == Some(HashVariant::Blake3(hash)),
{
    reveal_strlit("SHA-1");
    reveal_strlit("SHA-1DC");
    reveal_strlit("SHA2-256");
    reveal_strlit("SHA2-512");
    reveal_strlit("SHA2-512/256");
    reveal_strlit("SHA3-256");
    reveal_strlit("SHA3-512");
    reveal_strlit("Blake2_B");
    reveal_strlit("Blake2_S");
    reveal_strlit("Blake3");
    assert(seq!['S', 'H', 'A', '-', '1'] =~= "SHA-1"@);
    assert(seq!['S', 'H', 'A', '-', '1', 'D', 'C'] =~= "SHA-1DC"@);
    assert(seq!['S', 'H', 'A', '2', '-', '2', '5', '6'] =~= "SHA2-256"@);
    assert(seq!['S', 'H', 'A', '2', '-', '5', '1', '2'] =~= "SHA2-512"@);
    assert(seq!['S', 'H', 'A', '2', '-', '5', '1', '2', '/', '2', '5', '6'] =~= "SHA2-512/256"@);
    assert(seq!['S', 'H', 'A', '3', '-', '2', '5', '6'] =~= "SHA3-256"@);
    assert(seq!['S', 'H', 'A', '3', '-', '5', '1', '2'] =~= "SHA3-512"@);
    assert(seq!['B', 'l', 'a', 'k', 'e', '2', '_', 'B'] =~= "Blake2_B"@);
    assert(seq!['B', 'l', 'a', 'k', 'e', '2', '_', 'S'] =~= "Blake2_S"@);
    assert(seq!['B', 'l', 'a', 'k', 'e', '3'] =~= "Blake3"@);
}

/// The algorithm name of a digest parses back to the same digest kind with
/// the same bytes.
pub proof fn lemma_algo_name_parses_back(v: HashVariant)
    ensures
        variant_named(algo_name(v), match v {
            HashVariant::Sha1(b) => b,
            HashVariant::Sha1Dc(b) => b,
            HashVariant::Sha2_256(b) => b,
            HashVariant::Sha2_512(b) => b,
            HashVariant::Sha2_512_256(b) => b,
            HashVariant::Sha3_256(b) => b,
            HashVariant::Sha3_512(b) => b,
            HashVariant::Blake2B(b) => b,
            HashVariant::Blake2S(b) => b,
            HashVariant::Blake3(b) => b,
        }) == Some(v),
{
    reveal_strlit("SHA-1");
    reveal_strlit("SHA-1DC");
    reveal_strlit("SHA2-256");
    reveal_strlit("SHA2-512");
    reveal_strlit("SHA2-512/256");
    reveal_strlit("SHA3-256");
    reveal_strlit("SHA3-512");
    reveal_strlit("Blake2_B");
    reveal_strlit("Blake2_S");
    reveal_strlit("Blake3");
    let a = "SHA2-256"@;
    let b = "SHA2-512"@;
    let c = "SHA3-256"@;
    let d = "SHA3-512"@;
    let e = "Blake2_B"@;
    let f = "Blake2_S"@;
    assert(a[3] != c[3] && a[3] != d[3] && a[5] != b[5] && b[3] != c[3] && b[3] != d[3] && c[5]
        != d[5] && e[7] != f[7] && a[0] != e[0] && a[0] != f[0] && b[0] != e[0] && b[0] != f[0]
        && c[0] != e[0] && c[0] != f[0] && d[0] != e[0] && d[0] != f[0]);
    assert(a != b && a != c && a != d && a != e && a != f && b != c && b != d && b != e && b != f
        && c != d && c != e && c != f && d != e && d != f && e != f);
    assert("SHA-1"@.len() == 5 && "SHA-1DC"@.len() == 7 && "SHA2-512/256"@.len() == 12
        && "Blake3"@.len() == 6 && a.len() == 8 && b.len() == 8 && c.len() == 8 && d.len() == 8
        && e.len() == 8 && f.len() == 8);
}

} // verus!

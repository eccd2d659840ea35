use kernel_core::result::{ErrorType, TraceLocation};
use kernel_core::version::{
    decode_hex, hex_to_byte, split_features, BuildEnv, HashVariant, VersionInfo,
    VERSION_DATA_VERSION,
};

fn loc() -> TraceLocation {
    TraceLocation { file: "v.rs".to_string(), line: 1, column: 1 }
}

#[test]
fn hash_algo_names_parse_back() {
    let all = vec![
        HashVariant::Sha1(vec![1]),
        HashVariant::Sha1Dc(vec![2]),
        HashVariant::Sha2_256(vec![3]),
        HashVariant::Sha2_512(vec![4]),
        HashVariant::Sha2_512_256(vec![5]),
        HashVariant::Sha3_256(vec![6]),
        HashVariant::Sha3_512(vec![7]),
        HashVariant::Blake2B(vec![8]),
        HashVariant::Blake2S(vec![9]),
        HashVariant::Blake3(vec![10]),
    ];
    for v in all {
        let bytes = match &v {
            HashVariant::Sha1(b) | HashVariant::Sha1Dc(b) | HashVariant::Sha2_256(b)
            | HashVariant::Sha2_512(b) | HashVariant::Sha2_512_256(b) | HashVariant::Sha3_256(b)
            | HashVariant::Sha3_512(b) | HashVariant::Blake2B(b) | HashVariant::Blake2S(b)
            | HashVariant::Blake3(b) => b.clone(),
        };
        let parsed = HashVariant::from_parts(&v.algo(), bytes, loc()).unwrap();
        assert_eq!(parsed, v);
    }
}

#[test]
fn hash_algo_text() {
    assert_eq!(HashVariant::Sha2_512_256(vec![]).algo(), "SHA2-512/256");
    assert_eq!(HashVariant::Blake2B(vec![]).algo(), "Blake2_B");
}

#[test]
fn hash_unknown_algo_is_not_supported() {
    let w = HashVariant::from_parts("MD5", vec![1, 2], loc());
    let d = w.unwrap_err();
    assert!(matches!(d.ty, ErrorType::NotSupported));
    assert_eq!(d.desc.as_deref(), Some("not supported hash type (MD5)"));
}

#[test]
fn hash_base64_text() {
    assert_eq!(HashVariant::Sha1(vec![0, 1, 2]).hash(), "AAEC");
    assert_eq!(HashVariant::Blake3(vec![0xfb, 0xff]).hash(), "-_8=");
    assert_eq!(HashVariant::Sha3_512(b"hello".to_vec()).hash(), "aGVsbG8=");
    assert_eq!(HashVariant::Sha3_512(vec![]).hash(), "");
}

#[test]
fn hex_digits() {
    assert_eq!(hex_to_byte(b'0'), 0);
    assert_eq!(hex_to_byte(b'9'), 9);
    assert_eq!(hex_to_byte(b'a'), 10);
    assert_eq!(hex_to_byte(b'F'), 15);
    assert_eq!(decode_hex(b"00ff1A"), vec![0x00, 0xff, 0x1a]);
    assert_eq!(decode_hex(b"abc"), vec![0xab]);
    assert_eq!(decode_hex(b""), Vec::<u8>::new());
}

#[test]
fn feature_lists() {
    assert_eq!(split_features("a,bb,c"), vec!["a", "bb", "c"]);
    assert_eq!(split_features(""), vec![""]);
    assert_eq!(split_features("x,"), vec!["x", ""]);
    assert_eq!(split_features(",,"), vec!["", "", ""]);
    assert_eq!(split_features("uart"), vec!["uart"]);
}

#[test]
fn version_info_of_a_build() {
    let env = BuildEnv {
        os_name: "os".to_string(),
        os_profile: "release".to_string(),
        os_cycle: "beta".to_string(),
        version_raw: "1.0.0".to_string(),
        micro_ver: "42".to_string(),
        git_url: "https://example.org/os.git".to_string(),
        git_branch: "main".to_string(),
        git_dirty: "false".to_string(),
        rust_ver: "1.95.0".to_string(),
        rust_version_info: "nightly".to_string(),
        git_user: "dev".to_string(),
        build_host: "x86_64-linux".to_string(),
        build_target: "x86_64-uefi".to_string(),
        dir_hash: b"0a0b".to_vec(),
        git_hash: b"ff".to_vec(),
        build_features: "uart,gop".to_string(),
    };
    let info = VersionInfo::new_os(&env);
    assert_eq!(info.data_version, VERSION_DATA_VERSION);
    assert_eq!(info.build.version, "1.0.0_42");
    assert_eq!(info.build.features, vec!["uart", "gop"]);
    assert_eq!(info.developer.link, "https://github.com/dev");
    assert_eq!(info.builder.as_ref().unwrap().name, "rust");
    assert_eq!(info.git.as_ref().unwrap().branch, "main");
    assert_eq!(info.hash.dir_hash, vec![HashVariant::Sha3_512(vec![0x0a, 0x0b])]);
    assert_eq!(info.hash.git_hash, vec![HashVariant::Sha1Dc(vec![0xff])]);
    assert_eq!(
        info.additional,
        vec![
            ("OsBuildHost".to_string(), "x86_64-linux".to_string()),
            ("OsBuildTarget".to_string(), "x86_64-uefi".to_string()),
        ]
    );
}

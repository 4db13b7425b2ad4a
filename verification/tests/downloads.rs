use dfx_extensions::download::{
    downloaded_content, ic_binary_url, ic_repo_wasm_url, ic_static_binary_url, platform_path, PlatformError,
};

#[test]
fn platforms() {
    assert_eq!(platform_path("x86_64", "linux").unwrap(), "x86_64-linux");
    assert_eq!(platform_path("aarch64", "macos").unwrap(), "x86_64-darwin");
    assert_eq!(platform_path("riscv64", "linux").unwrap_err(), PlatformError::UnsupportedArchitecture);
    assert_eq!(platform_path("riscv64", "windows").unwrap_err(), PlatformError::UnsupportedArchitecture);
    assert_eq!(platform_path("x86_64", "windows").unwrap_err(), PlatformError::UnsupportedOs);
}

#[test]
fn binary_urls() {
    assert_eq!(
        ic_binary_url("abc", "x86_64-linux", "ic-admin"),
        "https://download.dfinity.systems/ic/abc/binaries/x86_64-linux/ic-admin.gz"
    );
    assert_eq!(
        ic_static_binary_url("abc", "x86_64-darwin", "sns"),
        "https://download.dfinity.systems/ic/abc/openssl-static-binaries/x86_64-darwin/sns.gz"
    );
}

#[test]
fn repo_wasm_url_is_parsed() {
    let u = ic_repo_wasm_url("abc", "sns-root-canister.wasm").unwrap();
    assert_eq!(u.text(), "https://download.dfinity.systems/ic/abc/canisters/sns-root-canister.wasm.gz");
    assert_eq!(u.port(), None);
    let u = ic_repo_wasm_url("a b", "x y").unwrap();
    assert_eq!(u.text(), "https://download.dfinity.systems/ic/a%20b/canisters/x%20y.gz");
}

#[test]
fn downloaded_content_is_unzipped_where_asked() {
    // "hello\n" compressed with gzip.
    let gz: Vec<u8> = vec![
        0x1f, 0x8b, 0x08, 0x00, 0x00, 0x00, 0x00, 0x00, 0x00, 0x03, 0xcb, 0x48, 0xcd, 0xc9, 0xc9,
        0xe7, 0x02, 0x00, 0x20, 0x30, 0x3a, 0x36, 0x06, 0x00, 0x00, 0x00,
    ];
    assert_eq!(downloaded_content(&gz, true).unwrap(), b"hello\n".to_vec());
    assert_eq!(downloaded_content(&gz, false).unwrap(), gz);
    assert!(downloaded_content(b"not gzip", true).is_err());
}

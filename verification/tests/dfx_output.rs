use dfx_extensions::dfx::{
    dfx_version_from_output, replica_rev_from_output, webserver_port_from_output, Cache,
    DfxError, SemVer,
};

const REV: &str = "721df73b943e87e2dad1d931819a2051401209a6";

#[test]
fn replica_rev_is_the_trimmed_output() {
    let out = format!("  {}\n", REV);
    assert_eq!(replica_rev_from_output(out.as_bytes()).unwrap(), REV);
}

#[test]
fn replica_rev_of_wrong_length_is_refused() {
    let e = replica_rev_from_output(b" abc \n").unwrap_err();
    match e {
        DfxError::MalformedCommandOutput { command, output } => {
            assert_eq!(command, "info replica-rev");
            assert_eq!(output, "abc");
        }
        other => panic!("unexpected error {:?}", other),
    }
}

#[test]
fn replica_rev_length_counts_utf8_bytes() {
    // 39 ASCII characters and one byte above 0x7f, which is two bytes in UTF-8.
    let mut out = REV.as_bytes()[..39].to_vec();
    out.push(0xe9);
    assert!(matches!(
        replica_rev_from_output(&out),
        Err(DfxError::MalformedCommandOutput { .. })
    ));
    let mut out = REV.as_bytes()[..38].to_vec();
    out.push(0xe9);
    let rev = replica_rev_from_output(&out).unwrap();
    assert_eq!(rev.len(), 40);
    assert!(rev.ends_with('\u{e9}'));
}

#[test]
fn replica_rev_trims_unicode_whitespace() {
    let mut out = vec![0xa0, 0x85];
    out.extend_from_slice(REV.as_bytes());
    out.push(b'\t');
    assert_eq!(replica_rev_from_output(&out).unwrap(), REV);
}

#[test]
fn webserver_port_is_read() {
    assert_eq!(webserver_port_from_output(b"8080\n").unwrap(), 8080);
    assert_eq!(webserver_port_from_output(b" +80 ").unwrap(), 80);
    assert_eq!(webserver_port_from_output(b"0").unwrap(), 0);
    assert_eq!(webserver_port_from_output(b"00065535").unwrap(), 65535);
}

#[test]
fn webserver_port_out_of_range_or_malformed_is_refused() {
    for out in [&b"65536"[..], b"", b"  ", b"+", b"-1", b"80 80", b"8o", b"99999999999999999999"] {
        match webserver_port_from_output(out) {
            Err(DfxError::MalformedCommandOutput { command, output }) => {
                assert_eq!(command, "info webserver-port");
                assert_eq!(output.as_bytes(), out);
            }
            other => panic!("unexpected result {:?} for {:?}", other, out),
        }
    }
}

#[test]
fn dfx_version_is_the_last_word() {
    assert_eq!(dfx_version_from_output(b"dfx 0.25.0\n").unwrap(), "0.25.0");
    assert_eq!(
        dfx_version_from_output(b"dfx 1.2.3-beta.1+build.5").unwrap(),
        "1.2.3-beta.1+build.5"
    );
}

#[test]
fn dfx_version_that_is_not_semver_is_refused() {
    assert!(matches!(
        dfx_version_from_output(b"dfx 01.2.3\n"),
        Err(DfxError::DfxVersionMalformed(_))
    ));
    assert!(matches!(
        dfx_version_from_output(b"dfx version"),
        Err(DfxError::DfxVersionMalformed(_))
    ));
}

#[test]
fn dfx_version_of_blank_output_is_refused() {
    match dfx_version_from_output(b" \n ") {
        Err(DfxError::MalformedCommandOutput { command, output }) => {
            assert_eq!(command, "--version");
            assert_eq!(output, " \n ");
        }
        other => panic!("unexpected result {:?}", other),
    }
}

#[test]
fn semver_text_writes_each_part() {
    let v = SemVer { major: 10, minor: 0, patch: 7, pre: String::new(), build: String::new() };
    assert_eq!(v.to_text(), "10.0.7");
    let v = SemVer {
        major: 1,
        minor: 2,
        patch: 3,
        pre: "rc.1".to_string(),
        build: "abc".to_string(),
    };
    assert_eq!(v.to_text(), "1.2.3-rc.1+abc");
    let v = SemVer {
        major: u64::MAX,
        minor: 0,
        patch: 0,
        pre: String::new(),
        build: "b".to_string(),
    };
    assert_eq!(v.to_text(), format!("{}.0.0+b", u64::MAX));
}

#[test]
fn cache_of_installed_version() {
    let c = Cache::from_version("0.25.0", true).unwrap();
    assert_eq!(c.version_str(), "0.25.0");
}

#[test]
fn cache_of_missing_version_is_refused() {
    match Cache::from_version("0.25.0", false) {
        Err(DfxError::DfxCacheNotInstalled(v)) => assert_eq!(v, "0.25.0"),
        other => panic!("unexpected result {:?}", other),
    }
}

#[test]
fn every_port_written_in_decimal_reads_back() {
    for p in 0..=u16::MAX {
        assert_eq!(webserver_port_from_output(p.to_string().as_bytes()).unwrap(), p);
        assert_eq!(webserver_port_from_output(format!("+{}\n", p).as_bytes()).unwrap(), p);
    }
}

#[test]
fn replica_rev_read_again_is_unchanged() {
    let out = format!("\n {} \t\n", REV);
    let rev = replica_rev_from_output(out.as_bytes()).unwrap();
    assert_eq!(replica_rev_from_output(rev.as_bytes()).unwrap(), rev);
}

use neqo_client::args::{
    Args, TLS_AES_128_GCM_SHA256, TLS_AES_256_GCM_SHA384, TLS_CHACHA20_POLY1305_SHA256,
};
use neqo_client::error::ClientError;
use neqo_client::quic::{
    from_str, CongestionControlAlgorithm, QuicParameters, Version, VersionChoice,
};
use neqo_client::setup::{create_http3_client, create_old_client, qlog_new};
use neqo_client::urls::Url;

fn quic_parameters(quic_version: Vec<Version>) -> QuicParameters {
    QuicParameters {
        quic_version,
        max_streams_bidi: 16,
        max_streams_uni: 17,
        idle_timeout: 30,
        congestion_control: CongestionControlAlgorithm::NewReno,
        pacing: false,
    }
}

fn args(urls: usize) -> Args {
    Args {
        alpn: "h3".to_string(),
        urls: (0..urls).map(|i| Url::parse(&format!("https://a/{i}")).unwrap()).collect(),
        method: "GET".to_string(),
        header: Vec::new(),
        max_table_size_encoder: 16384,
        max_table_size_decoder: 16385,
        max_blocked_streams: 10,
        max_concurrent_push_streams: 11,
        use_old_http: false,
        download_in_series: false,
        concurrency: 100,
        output_read_data: false,
        qlog_dir: None,
        output_dir: None,
        qns_test: None,
        resume: false,
        key_update: false,
        ciphers: Vec::new(),
        ech: None,
        quic_parameters: quic_parameters(vec![Version::Draft29]),
        ipv4_only: false,
        ipv6_only: false,
        test: None,
        upload_size: 100,
    }
}

fn qns(name: &str, urls: usize) -> Args {
    let mut a = args(urls);
    a.qns_test = Some(name.to_string());
    a
}

#[test]
fn known_ciphers_are_enabled_in_order() {
    let mut a = args(1);
    a.ciphers = vec![
        "TLS_CHACHA20_POLY1305_SHA256".to_string(),
        "TLS_NULL".to_string(),
        "TLS_AES_128_GCM_SHA256".to_string(),
        "TLS_AES_256_GCM_SHA384".to_string(),
    ];
    assert_eq!(
        a.get_ciphers(),
        [TLS_CHACHA20_POLY1305_SHA256, TLS_AES_128_GCM_SHA256, TLS_AES_256_GCM_SHA384]
    );
    assert_eq!([0x1303, 0x1301, 0x1302], a.get_ciphers()[..]);
}

#[test]
fn without_a_simulator_test_nothing_changes() {
    let mut a = args(1);
    assert!(a.apply_qns_test().is_ok());
    assert_eq!(a.quic_parameters.quic_version, [Version::Draft29]);
    assert!(!a.use_old_http);
}

#[test]
fn simulator_test_http3() {
    let mut a = qns("http3", 1);
    assert!(a.apply_qns_test().is_ok());
    assert_eq!(a.quic_parameters.quic_version, [Version::Version1]);
    assert!(!a.use_old_http && !a.resume && !a.download_in_series && !a.key_update);
}

#[test]
fn simulator_tests_over_old_http() {
    for name in ["handshake", "transfer", "retry"] {
        let mut a = qns(name, 1);
        assert!(a.apply_qns_test().is_ok());
        assert!(a.use_old_http && !a.resume && !a.download_in_series && !a.key_update, "{name}");
        assert_eq!(a.quic_parameters.quic_version, [Version::Version1]);
    }
}

#[test]
fn simulator_tests_of_resumption() {
    for name in ["zerortt", "resumption"] {
        let mut a = qns(name, 2);
        assert!(a.apply_qns_test().is_ok());
        assert!(a.use_old_http && a.resume, "{name}");
        let exit = qns(name, 1).apply_qns_test().err().unwrap();
        assert_eq!(exit.code, 127);
        assert_eq!(
            exit.line.unwrap(),
            "Warning: resumption tests won't work without >1 URL"
        );
    }
}

#[test]
fn simulator_tests_with_a_change_of_their_own() {
    let mut a = qns("multiconnect", 1);
    assert!(a.apply_qns_test().is_ok());
    assert!(a.use_old_http && a.download_in_series);

    let mut a = qns("chacha20", 1);
    a.ciphers = vec!["TLS_AES_128_GCM_SHA256".to_string()];
    assert!(a.apply_qns_test().is_ok());
    assert!(a.use_old_http);
    assert_eq!(a.ciphers, ["TLS_CHACHA20_POLY1305_SHA256"]);

    let mut a = qns("keyupdate", 1);
    assert!(a.apply_qns_test().is_ok());
    assert!(a.use_old_http && a.key_update);

    let mut a = qns("v2", 1);
    assert!(a.apply_qns_test().is_ok());
    assert!(a.use_old_http);
    assert!(a.quic_parameters.quic_version.is_empty());
}

#[test]
fn unknown_simulator_tests_end_the_program() {
    let exit = qns("ecn", 3).apply_qns_test().err().unwrap();
    assert_eq!(exit.code, 127);
    assert!(exit.line.is_none());
}

#[test]
fn transport_parameters_are_handed_on() {
    let p = quic_parameters(Vec::new()).get("h3");
    assert_eq!(p.max_streams_bidi, 16);
    assert_eq!(p.max_streams_uni, 17);
    assert_eq!(p.idle_timeout, 30);
    assert_eq!(p.cc_algorithm, CongestionControlAlgorithm::NewReno);
    assert!(!p.pacing);
}

#[test]
fn the_protocol_decides_the_version() {
    for (alpn, version) in [
        ("h3", Some(Version::Version1)),
        ("hq-interop", Some(Version::Version1)),
        ("h3-29", Some(Version::Draft29)),
        ("hq-29", Some(Version::Draft29)),
        ("h3-30", Some(Version::Draft30)),
        ("hq-30", Some(Version::Draft30)),
        ("h3-31", Some(Version::Draft31)),
        ("hq-31", Some(Version::Draft31)),
        ("h3-32", Some(Version::Draft32)),
        ("hq-32", Some(Version::Draft32)),
        ("other", None),
    ] {
        let p = quic_parameters(Vec::new()).get(alpn);
        assert!(
            matches!(p.versions, VersionChoice::Supported { attempt } if attempt == version),
            "{alpn}"
        );
    }
}

#[test]
fn listed_versions_are_used_in_order() {
    let list = vec![Version::Draft29, Version::Version1];
    let p = quic_parameters(list.clone()).get("h3");
    assert!(matches!(
        p.versions,
        VersionChoice::Listed { first: Version::Draft29, all } if all == list
    ));
}

#[test]
fn a_second_entry_decides_the_preference() {
    let list = vec![Version::Draft29, Version::Version1, Version::Draft29, Version::Other(7)];
    let p = quic_parameters(list.clone()).get("h3");
    assert!(matches!(
        p.versions,
        VersionChoice::Listed { first: Version::Draft29, all } if all == list[1..]
    ));
}

#[test]
fn versions_are_read_in_hex() {
    let find = |wire: u32| match wire {
        1 => Some(Version::Version1),
        0xff00_001d => Some(Version::Draft29),
        _ => None,
    };
    assert!(matches!(from_str("1", find), Ok(Version::Version1)));
    assert!(matches!(from_str("ff00001d", find), Ok(Version::Draft29)));
    assert!(matches!(
        from_str("2", find),
        Err(ClientError::ArgumentError("unknown version"))
    ));
    assert!(matches!(
        from_str("0x1", find),
        Err(ClientError::ArgumentError("versions need to be specified in hex"))
    ));
    assert!(matches!(
        from_str("1ffffffff", find),
        Err(ClientError::ArgumentError("versions need to be specified in hex"))
    ));
}

#[test]
fn http3_clients_are_set_up_from_the_arguments() {
    let mut a = args(1);
    a.ech = Some(vec![1, 2, 3]);
    let setup = create_http3_client(&a, "example.com", Some(5u8));
    assert_eq!(setup.transport.hostname, "example.com");
    assert_eq!(setup.transport.alpn, "h3");
    assert!(setup.transport.ciphers.is_none());
    assert_eq!(setup.http3.max_table_size_encoder, 16384);
    assert_eq!(setup.http3.max_table_size_decoder, 16385);
    assert_eq!(setup.http3.max_blocked_streams, 10);
    assert_eq!(setup.http3.max_concurrent_push_streams, 11);
    assert_eq!(setup.ech, Some(vec![1, 2, 3]));
    assert_eq!(setup.token, Some(5));
    assert!(matches!(
        setup.transport.parameters.versions,
        VersionChoice::Listed { first: Version::Draft29, .. }
    ));
}

#[test]
fn ciphers_are_set_only_if_there_are_any() {
    let mut a = args(1);
    a.ciphers = vec!["nonsense".to_string()];
    assert!(create_http3_client(&a, "a", None::<u8>).transport.ciphers.is_none());
    a.ciphers.push("TLS_AES_128_GCM_SHA256".to_string());
    assert_eq!(
        create_http3_client(&a, "a", None::<u8>).transport.ciphers,
        Some(vec![TLS_AES_128_GCM_SHA256])
    );
}

#[test]
fn old_clients_speak_an_old_protocol() {
    let mut a = args(1);
    for (alpn, spoken) in [("hq-29", "hq-29"), ("hq-32", "hq-32"), ("h3", "hq-interop"), ("h3-29", "hq-interop")] {
        a.alpn = alpn.to_string();
        let setup = create_old_client(&a, "a", Some(1u8));
        assert_eq!(setup.transport.alpn, spoken);
        assert_eq!(setup.token, Some(1));
    }
    a.quic_parameters.quic_version.clear();
    a.alpn = "hq-30".to_string();
    assert!(matches!(
        create_old_client(&a, "a", None::<u8>).transport.parameters.versions,
        VersionChoice::Supported { attempt: Some(Version::Draft30) }
    ));
}

#[test]
fn logs_are_named_after_the_connection() {
    assert_eq!(qlog_new(&None, "a", "c0ffee"), None);
    assert_eq!(
        qlog_new(&Some("/tmp/logs".to_string()), "example.com", "c0ffee"),
        Some("/tmp/logs/example.com-c0ffee.sqlog".to_string())
    );
}

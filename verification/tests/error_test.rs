use veria::host::api::http_status;
use veria::host::error::HostError;

#[test]
fn codes_are_stable() {
    assert_eq!(HostError::UnknownCircuit("x".into()).code(), "unknown_circuit");
    assert_eq!(HostError::OutOfBounds { got: 9, max: 8 }.code(), "out_of_bounds");
}

#[test]
fn out_of_bounds_renders_both_sides() {
    let e = HostError::OutOfBounds { got: 5000, max: 4096 };
    let msg = e.message();
    assert!(msg.contains("5000"));
    assert!(msg.contains("4096"));
}

#[test]
fn unknown_circuit_maps_to_400() {
    assert_eq!(http_status(&HostError::UnknownCircuit("nope".into())), 400);
}

#[test]
fn out_of_bounds_maps_to_413() {
    assert_eq!(http_status(&HostError::OutOfBounds { got: 9, max: 8 }), 413);
}

#[test]
fn other_errors_map_to_500() {
    assert_eq!(http_status(&HostError::Folding("x".into())), 500);
    assert_eq!(http_status(&HostError::Http("x".into())), 500);
    let io = std::io::Error::new(std::io::ErrorKind::Other, "disk");
    assert_eq!(http_status(&HostError::Io(io)), 500);
}

#[test]
fn invalid_input_maps_to_400_with_its_code() {
    let source = serde_json::from_slice::<u64>(b"{").unwrap_err();
    let e = HostError::InvalidInput { bytes: 1, source };
    assert_eq!(http_status(&e), 400);
    assert_eq!(e.code(), "invalid_input");
    assert!(e.message().starts_with("invalid input json (1 bytes): "));
}

#[test]
fn every_code_is_distinct() {
    let io = std::io::Error::new(std::io::ErrorKind::Other, "disk");
    let errs = vec![
        HostError::UnknownCircuit("a".into()),
        HostError::OutOfBounds { got: 1, max: 0 },
        HostError::Sp1(anyhow::Error::msg("boom")),
        HostError::Io(io),
        HostError::Folding("f".into()),
        HostError::CrossCheck { host_hex: "00".into(), guest_hex: "01".into() },
        HostError::Http("h".into()),
    ];
    let codes: Vec<&str> = errs.iter().map(|e| e.code()).collect();
    assert_eq!(
        codes,
        vec![
            "unknown_circuit",
            "out_of_bounds",
            "sp1_error",
            "io_error",
            "folding_error",
            "cross_check_mismatch",
            "http_error"
        ]
    );
}

#[test]
fn messages_render_exactly() {
    assert_eq!(HostError::UnknownCircuit("zz".into()).message(), "unknown circuit: zz");
    assert_eq!(
        HostError::OutOfBounds { got: 5000, max: 4096 }.message(),
        "input exceeds bound: got 5000, max 4096"
    );
    assert_eq!(HostError::Folding("bad".into()).message(), "folding error: bad");
    assert_eq!(
        HostError::CrossCheck { host_hex: "ab".into(), guest_hex: "cd".into() }.message(),
        "cross-check mismatch: host=ab, guest=cd"
    );
    assert_eq!(HostError::Http("down".into()).message(), "http error: down");
    assert_eq!(HostError::Sp1(anyhow::Error::msg("boom")).message(), "sp1 sdk error: boom");
    let io = std::io::Error::new(std::io::ErrorKind::Other, "disk");
    assert_eq!(HostError::Io(io).message(), "io error: disk");
}

use moq_net::error::Error;

// The wire codes are a stable contract with every other implementation, so a variant rename
// must not shift them. Pin the load-bearing ones.
#[test]
fn to_code_is_stable() {
    assert_eq!(Error::Cancel.to_code(), 0);
    assert_eq!(Error::Version.to_code(), 9);
    assert_eq!(Error::UnknownAlpn(String::new()).to_code(), 21);
    assert_eq!(Error::Lagged.to_code(), 26);
    assert_eq!(Error::Evicted.to_code(), 31);
    // App codes sit past the reserved library range; Remote is the raw received code.
    assert_eq!(Error::App(0).to_code(), 64);
    assert_eq!(Error::App(404).to_code(), 468);
    assert_eq!(Error::Remote(468).to_code(), 468);
}

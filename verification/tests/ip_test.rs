use kotoba::ip::{IpAddress, IpFamily};

#[test]
fn from_ipv4_addr() {
    let addr = IpAddress::V4([127, 0, 0, 1]);
    assert_eq!(IpFamily::from(addr), IpFamily::V4);
}

#[test]
fn from_ipv6_addr() {
    let mut o = [0u8; 16];
    o[15] = 1;
    let addr = IpAddress::V6(o);
    assert_eq!(IpFamily::from(addr), IpFamily::V6);
}

#[test]
fn unspecified_v4() {
    let u = IpFamily::V4.unspecified_addr();
    assert_eq!(u, IpAddress::V4([0, 0, 0, 0]));
}

#[test]
fn unspecified_v6() {
    let u = IpFamily::V6.unspecified_addr();
    assert_eq!(u, IpAddress::V6([0u8; 16]));
}

#[test]
fn local_v4() {
    let l = IpFamily::V4.local_addr();
    assert_eq!(l, IpAddress::V4([127, 0, 0, 1]));
}

#[test]
fn local_v6() {
    let l = IpFamily::V6.local_addr();
    let mut o = [0u8; 16];
    o[15] = 1;
    assert_eq!(l, IpAddress::V6(o));
}

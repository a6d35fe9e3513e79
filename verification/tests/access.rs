use backend::access::{
    application_subject, hides_unused_clues, is_admin, require_admin, scoreboard_narrowed,
};
use backend::api::{user_qr, Colors};
use backend::discrimination::{Discriminate, IpAddress, Network};
use backend::error::{AuthenticationError, Source};
use backend::id::Uid;

fn v4(a: u8, b: u8, c: u8, d: u8) -> u32 {
    u32::from_be_bytes([a, b, c, d])
}

#[test]
fn networks_contain_their_addresses() {
    let net = Network::V4 { addr: v4(10, 1, 2, 3), prefix_len: 16 };
    assert!(net.contains(&IpAddress::V4(v4(10, 1, 0, 0))));
    assert!(net.contains(&IpAddress::V4(v4(10, 1, 255, 255))));
    assert!(!net.contains(&IpAddress::V4(v4(10, 2, 0, 0))));
    assert!(!net.contains(&IpAddress::V6(1)));
    let everything = Network::V4 { addr: 0, prefix_len: 0 };
    assert!(everything.contains(&IpAddress::V4(u32::MAX)));
    let host = Network::V6 { addr: 1, prefix_len: 128 };
    assert!(host.contains(&IpAddress::V6(1)));
    assert!(!host.contains(&IpAddress::V6(2)));
}

#[test]
fn an_overlong_prefix_holds_one_address() {
    let net = Network::V4 { addr: v4(10, 0, 0, 1), prefix_len: 40 };
    assert!(net.contains(&IpAddress::V4(v4(10, 0, 0, 1))));
    assert!(!net.contains(&IpAddress::V4(v4(10, 0, 0, 2))));
    let net = Network::V6 { addr: 5, prefix_len: 200 };
    assert!(net.contains(&IpAddress::V6(5)));
    assert!(!net.contains(&IpAddress::V6(4)));
}

#[test]
fn network_containment_agrees_with_ipnet() {
    let net: ipnet::IpNet = "192.168.8.0/21".parse().unwrap();
    let ours = Network::V4 { addr: v4(192, 168, 8, 0), prefix_len: 21 };
    for last in [0u8, 7, 15, 16] {
        for third in [7u8, 8, 15, 16] {
            let host: ipnet::IpNet = format!("192.168.{third}.{last}/32").parse().unwrap();
            assert_eq!(net.contains(&host), ours.contains(&IpAddress::V4(v4(192, 168, third, last))));
        }
    }
}

#[test]
fn only_authorized_networks_pass() {
    let allowed = vec![Network::V4 { addr: v4(10, 0, 0, 0), prefix_len: 8 }];
    assert!(Discriminate::check_origin(Some(IpAddress::V4(v4(10, 9, 9, 9))), &allowed).is_ok());
    let r = Discriminate::check_origin(Some(IpAddress::V4(v4(11, 0, 0, 1))), &allowed).err().unwrap();
    assert_eq!(r.root_cause().error_type, Source::Authentication(AuthenticationError::NotInNetwork));
    assert_eq!(r.root_cause().message, "Request made from outside the authorized networks");
    assert_eq!(r.status(), 401);
    let r = Discriminate::check_origin(None, &allowed).err().unwrap();
    assert_eq!(r.root_cause().message, "Failed to determine the origin of the call");
    assert!(Discriminate::check_origin(Some(IpAddress::V4(1)), &Vec::new()).is_err());
}

#[test]
fn organizers_have_more_rights() {
    let admin = "admin".to_string();
    let user = "authenticated".to_string();
    assert!(is_admin(&admin, &admin));
    assert!(!is_admin(&user, &admin));
    assert!(require_admin(&admin, &admin).is_ok());
    let r = require_admin(&user, &admin).err().unwrap();
    assert_eq!(r.status(), 401);
    assert_eq!(r.root_cause().message, "This user is not authorized to do this operation");
    assert!(!hides_unused_clues(&admin, &admin));
    assert!(hides_unused_clues(&user, &admin));
    assert!(scoreboard_narrowed(true, &user, &admin));
    assert!(!scoreboard_narrowed(true, &admin, &admin));
    assert!(!scoreboard_narrowed(false, &user, &admin));
}

#[test]
fn only_organizers_read_other_applications() {
    let admin = "admin".to_string();
    let user = "authenticated".to_string();
    let me = Uid { bytes: [1; 16] };
    let other = Uid { bytes: [2; 16] };
    assert_eq!(application_subject(&admin, &admin, me, Some(other)).bytes, [2; 16]);
    assert_eq!(application_subject(&admin, &admin, me, None).bytes, [1; 16]);
    assert_eq!(application_subject(&user, &admin, me, Some(other)).bytes, [1; 16]);
}

#[test]
fn users_get_a_qr_code() {
    let me = Uid { bytes: [5; 16] };
    let svg = user_qr(&me, Colors { module: None, background: None });
    assert!(svg.starts_with("<svg"));
    assert!(svg.contains("#000000ff"));
    assert!(svg.contains("#ffffffff"));
    let svg = user_qr(&me, Colors { module: Some("#ff0000ff".to_string()), background: None });
    assert!(svg.contains("#ff0000ff"));
}

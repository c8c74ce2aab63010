use lsio::config::{ParseInto, StringMap};
use lsio::document::Document;
use lsio::error::Error;
use lsio::net::{Ipv4Addr, SocketAddrV4};
use lsio::urls::Url;

fn s(t: &str) -> Document {
    Document::String(t.to_string())
}

fn table(entries: Vec<(&str, Document)>) -> Document {
    Document::Table(entries.into_iter().map(|(k, v)| (k.to_string(), v)).collect())
}

fn options(entries: Vec<(&str, Document)>) -> Document {
    table(vec![("options", table(entries))])
}

fn any_socket() -> SocketAddrV4 {
    SocketAddrV4 { ip: Ipv4Addr { a: 1, b: 1, c: 1, d: 1 }, port: 1 }
}

#[test]
fn socket_address_endpoint_is_read() {
    let doc = options(vec![("endpoint", s("127.0.0.1:9000"))]);
    let mut out = any_socket();
    let r = doc.parse_into("options.endpoint", &mut out);
    assert!(matches!(r, Ok(true)));
    assert_eq!(out, SocketAddrV4 { ip: Ipv4Addr { a: 127, b: 0, c: 0, d: 1 }, port: 9000 });
}

#[test]
fn integer_endpoint_is_no_socket_address() {
    let doc = options(vec![("endpoint", Document::Integer(42))]);
    let mut out = any_socket();
    let r = doc.parse_into("options.endpoint", &mut out);
    assert!(matches!(r, Err(Error::InvalidSocketAddrV4("options.endpoint"))));
    assert_eq!(out, any_socket());
}

#[test]
fn absent_optional_string_is_set_to_none() {
    let doc = table(vec![]);
    let mut out: Option<String> = Some("left over".to_string());
    let r = doc.parse_into("options.proxy", &mut out);
    assert!(matches!(r, Ok(true)));
    assert_eq!(out, None);
}

#[test]
fn u16_is_narrowed_by_truncation() {
    let doc = options(vec![("port", Document::Integer(70000))]);
    let mut out: u16 = 0;
    let r = doc.parse_into("options.port", &mut out);
    assert!(matches!(r, Ok(true)));
    assert_eq!(out, 4464);
}

#[test]
fn narrowing_of_negative_and_wide_values() {
    let doc = options(vec![("n", Document::Integer(-1)), ("big", Document::Integer(1 << 40))]);
    let mut a: u32 = 0;
    assert!(matches!(doc.parse_into("options.n", &mut a), Ok(true)));
    assert_eq!(a, u32::MAX);
    let mut b: u64 = 0;
    assert!(matches!(doc.parse_into("options.n", &mut b), Ok(true)));
    assert_eq!(b, u64::MAX);
    let mut c: u32 = 7;
    assert!(matches!(doc.parse_into("options.big", &mut c), Ok(true)));
    assert_eq!(c, 0);
    let mut d: usize = 0;
    assert!(matches!(doc.parse_into("options.big", &mut d), Ok(true)));
    assert_eq!(d, 1usize << 40);
}

#[test]
fn absent_fields_leave_slots_alone() {
    let doc = options(vec![("x", s("y"))]);
    let mut a = "keep".to_string();
    assert!(matches!(doc.parse_into("options.missing", &mut a), Ok(false)));
    assert_eq!(a, "keep");
    let mut b: u16 = 5;
    assert!(matches!(doc.parse_into("nothing.here", &mut b), Ok(false)));
    assert_eq!(b, 5);
    let mut c: Vec<u32> = vec![9];
    assert!(matches!(doc.parse_into("options.x.deeper", &mut c), Ok(false)));
    assert_eq!(c, vec![9]);
    let mut d = Ipv4Addr { a: 1, b: 2, c: 3, d: 4 };
    assert!(matches!(doc.parse_into("options.ip", &mut d), Ok(false)));
    assert_eq!(d, Ipv4Addr { a: 1, b: 2, c: 3, d: 4 });
    let mut e: Option<Url> = Url::parse("http://old.example/");
    assert!(matches!(doc.parse_into("options.url", &mut e), Ok(false)));
    assert!(e.is_none());
    let mut f = StringMap { entries: vec![] };
    assert!(matches!(doc.parse_into("options.map", &mut f), Ok(false)));
    assert!(f.entries.is_empty());
    let mut g: Vec<SocketAddrV4> = vec![];
    assert!(matches!(doc.parse_into("options.peers", &mut g), Ok(false)));
}

#[test]
fn strings_round_trip() {
    let doc = options(vec![("name", s("storage"))]);
    let mut out = String::new();
    assert!(matches!(doc.parse_into("options.name", &mut out), Ok(true)));
    assert_eq!(out, "storage");
    let mut opt: Option<String> = None;
    assert!(matches!(doc.parse_into("options.name", &mut opt), Ok(true)));
    assert_eq!(opt, Some("storage".to_string()));
}

#[test]
fn table_requested_as_string_is_invalid_string() {
    let doc = options(vec![("name", s("x"))]);
    let mut out = "keep".to_string();
    assert!(matches!(doc.parse_into("options", &mut out), Err(Error::InvalidString("options"))));
    assert_eq!(out, "keep");
    let mut opt: Option<String> = Some("keep".to_string());
    assert!(matches!(doc.parse_into("options", &mut opt), Err(Error::InvalidString("options"))));
    assert_eq!(opt, Some("keep".to_string()));
    let mut n: u64 = 3;
    assert!(matches!(doc.parse_into("options.name", &mut n), Err(Error::InvalidString("options.name"))));
    assert_eq!(n, 3);
}

#[test]
fn ipv4_addresses() {
    let doc = options(vec![("ip", s("10.0.100.20")), ("bad", s("256.1.1.1")), ("n", Document::Boolean(true))]);
    let mut out = Ipv4Addr { a: 0, b: 0, c: 0, d: 0 };
    assert!(matches!(doc.parse_into("options.ip", &mut out), Ok(true)));
    assert_eq!(out, Ipv4Addr { a: 10, b: 0, c: 100, d: 20 });
    assert!(matches!(doc.parse_into("options.bad", &mut out), Err(Error::InvalidIpv4Addr("options.bad"))));
    assert!(matches!(doc.parse_into("options.n", &mut out), Err(Error::InvalidIpv4Addr("options.n"))));
    assert_eq!(out, Ipv4Addr { a: 10, b: 0, c: 100, d: 20 });
}

#[test]
fn address_grammar() {
    assert_eq!(Ipv4Addr::parse("0.0.0.0"), Some(Ipv4Addr { a: 0, b: 0, c: 0, d: 0 }));
    assert_eq!(Ipv4Addr::parse("255.255.255.255"), Some(Ipv4Addr { a: 255, b: 255, c: 255, d: 255 }));
    assert_eq!(Ipv4Addr::parse("01.2.3.4"), None);
    assert_eq!(Ipv4Addr::parse("1.2.3"), None);
    assert_eq!(Ipv4Addr::parse("1.2.3.4.5"), None);
    assert_eq!(Ipv4Addr::parse("1.2..4"), None);
    assert_eq!(Ipv4Addr::parse("1.2.3.1000"), None);
    assert_eq!(Ipv4Addr::parse(""), None);
    assert_eq!(Ipv4Addr::parse("a.b.c.d"), None);
    let want = SocketAddrV4 { ip: Ipv4Addr { a: 127, b: 0, c: 0, d: 1 }, port: 8080 };
    assert_eq!(SocketAddrV4::parse("127.0.0.1:8080"), Some(want));
    assert_eq!(SocketAddrV4::parse("127.0.0.1:08080"), Some(want));
    assert_eq!(SocketAddrV4::parse("127.0.0.1:65535").map(|a| a.port), Some(65535));
    assert_eq!(SocketAddrV4::parse("127.0.0.1:65536"), None);
    assert_eq!(SocketAddrV4::parse("127.0.0.1"), None);
    assert_eq!(SocketAddrV4::parse("127.0.0.1:"), None);
    assert_eq!(SocketAddrV4::parse("127.0.0.1:80:80"), None);
}

#[test]
fn socket_address_lists() {
    let doc = options(vec![
        ("peers", Document::Array(vec![s("1.2.3.4:5"), s("6.7.8.9:10")])),
        ("bad", Document::Array(vec![s("1.2.3.4:5"), Document::Integer(3)])),
        ("scalar", s("1.2.3.4:5")),
    ]);
    let mut out: Vec<SocketAddrV4> = vec![];
    assert!(matches!(doc.parse_into("options.peers", &mut out), Ok(true)));
    assert_eq!(out.len(), 2);
    assert_eq!(out[1], SocketAddrV4 { ip: Ipv4Addr { a: 6, b: 7, c: 8, d: 9 }, port: 10 });
    let mut kept = vec![any_socket()];
    assert!(matches!(doc.parse_into("options.bad", &mut kept), Err(Error::InvalidSocketAddrV4("options.bad"))));
    assert!(matches!(doc.parse_into("options.scalar", &mut kept), Err(Error::InvalidArray("options.scalar"))));
    assert_eq!(kept, vec![any_socket()]);
}

#[test]
fn integer_lists() {
    let doc = options(vec![
        ("ports", Document::Array(vec![Document::Integer(80), Document::Integer(65537)])),
        ("mixed", Document::Array(vec![Document::Integer(1), s("2")])),
        ("empty", Document::Array(vec![])),
    ]);
    let mut a: Vec<u16> = vec![];
    assert!(matches!(doc.parse_into("options.ports", &mut a), Ok(true)));
    assert_eq!(a, vec![80, 1]);
    let mut b: Vec<u32> = vec![7];
    assert!(matches!(doc.parse_into("options.mixed", &mut b), Err(Error::InvalidArray("options.mixed"))));
    assert_eq!(b, vec![7]);
    let mut c: Vec<u64> = vec![7];
    assert!(matches!(doc.parse_into("options.empty", &mut c), Ok(true)));
    assert!(c.is_empty());
    assert!(matches!(doc.parse_into("options", &mut c), Err(Error::InvalidArray("options"))));
}

#[test]
fn urls_are_normalised() {
    let doc = options(vec![("url", s("HTTP://Example.COM")), ("bad", s("not a url")), ("n", Document::Integer(1))]);
    let mut out: Option<Url> = None;
    assert!(matches!(doc.parse_into("options.url", &mut out), Ok(true)));
    assert_eq!(out.as_ref().map(|u| u.as_str()), Some("http://example.com/"));
    assert!(matches!(doc.parse_into("options.bad", &mut out), Err(Error::InvalidUrl("options.bad"))));
    assert!(matches!(doc.parse_into("options.n", &mut out), Err(Error::InvalidUrl("options.n"))));
    let mut plain = Url::parse("http://a.example/").unwrap();
    assert!(matches!(doc.parse_into("options.url", &mut plain), Ok(true)));
    assert_eq!(plain.as_str(), "http://example.com/");
    assert!(Url::parse("").is_none());
}

#[test]
fn string_maps() {
    let doc = options(vec![
        ("labels", table(vec![("zone", s("a")), ("rack", s("7"))])),
        ("broken", table(vec![("zone", Document::Integer(1))])),
        ("list", Document::Array(vec![table(vec![("k", s("v"))]), table(vec![])])),
        ("badlist", Document::Array(vec![s("x")])),
        ("badvalues", Document::Array(vec![table(vec![("k", Document::Boolean(false))])])),
    ]);
    let mut m = StringMap { entries: vec![] };
    assert!(matches!(doc.parse_into("options.labels", &mut m), Ok(true)));
    assert_eq!(m.get("rack").map(|v| v.as_str()), Some("7"));
    assert_eq!(m.get("zone").map(|v| v.as_str()), Some("a"));
    assert_eq!(m.get("row"), None);
    let dup = StringMap { entries: vec![("k".to_string(), "1".to_string()), ("k".to_string(), "2".to_string())] };
    assert_eq!(dup.get("k").map(|v| v.as_str()), Some("1"));
    assert!(matches!(doc.parse_into("options.broken", &mut m), Err(Error::InvalidString("options.broken"))));
    assert!(matches!(doc.parse_into("options.list", &mut m), Err(Error::InvalidString("options.list"))));
    assert_eq!(m.entries.len(), 2);
    let mut v: Vec<StringMap> = vec![];
    assert!(matches!(doc.parse_into("options.list", &mut v), Ok(true)));
    assert_eq!(v.len(), 2);
    assert_eq!(v[0].get("k").map(|x| x.as_str()), Some("v"));
    assert!(v[1].entries.is_empty());
    assert!(matches!(doc.parse_into("options.badlist", &mut v), Err(Error::InvalidArray("options.badlist"))));
    assert!(matches!(doc.parse_into("options.badvalues", &mut v), Err(Error::InvalidString("options.badvalues"))));
    assert!(matches!(doc.parse_into("options.labels", &mut v), Err(Error::InvalidArray("options.labels"))));
    assert_eq!(v.len(), 2);
}

#[test]
fn lookup_follows_tables_only() {
    let doc = options(vec![("a", table(vec![("b", Document::Integer(3))])), ("arr", Document::Array(vec![Document::Integer(1)]))]);
    assert!(matches!(doc.lookup("options.a.b"), Some(Document::Integer(3))));
    assert!(doc.lookup("options.arr.0").is_none());
    assert!(doc.lookup("options.a.c").is_none());
    assert!(matches!(doc.lookup("options"), Some(Document::Table(_))));
    assert!(doc.lookup("").is_none());
}

#[test]
fn first_entry_wins_on_equal_keys() {
    let doc = table(vec![("k", s("first")), ("k", s("second"))]);
    let mut out = String::new();
    assert!(matches!(doc.parse_into("k", &mut out), Ok(true)));
    assert_eq!(out, "first");
}

#[test]
fn path_splitting() {
    assert_eq!(lsio::document::split_path("a.b"), vec!["a".to_string(), "b".to_string()]);
    assert_eq!(lsio::document::split_path(""), vec![String::new()]);
    assert_eq!(lsio::document::split_path("a."), vec!["a".to_string(), String::new()]);
}

#[test]
fn address_text_round_trip() {
    let a = SocketAddrV4 { ip: Ipv4Addr { a: 192, b: 168, c: 0, d: 10 }, port: 65535 };
    assert_eq!(a.to_text(), "192.168.0.10:65535");
    assert_eq!(a.ip.to_text(), "192.168.0.10");
    assert_eq!(SocketAddrV4::parse(&a.to_text()), Some(a));
    let zero = SocketAddrV4 { ip: Ipv4Addr { a: 0, b: 0, c: 0, d: 0 }, port: 0 };
    assert_eq!(zero.to_text(), "0.0.0.0:0");
    let doc = table(vec![("peer", Document::String(a.to_text())), ("ip", Document::String(a.ip.to_text()))]);
    let mut out = zero;
    assert!(matches!(doc.parse_into("peer", &mut out), Ok(true)));
    assert_eq!(out, a);
    let mut ip = zero.ip;
    assert!(matches!(doc.parse_into("ip", &mut ip), Ok(true)));
    assert_eq!(ip, a.ip);
}

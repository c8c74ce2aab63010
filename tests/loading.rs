use lsio::config::ParseInto;
use lsio::document::Document;
use lsio::error::{Error, Result};
use lsio::loader::{parse_document, ConfigFile};
use lsio::net::{Ipv4Addr, SocketAddrV4};

#[derive(Debug)]
struct Settings {
    endpoint: Option<String>,
    proxy: Option<String>,
    listen: SocketAddrV4,
    workers: u32,
}

impl ConfigFile for Settings {
    fn from_toml(toml: Document) -> Result<Self> {
        let mut cfg = Settings {
            endpoint: None,
            proxy: None,
            listen: SocketAddrV4 { ip: Ipv4Addr { a: 0, b: 0, c: 0, d: 0 }, port: 0 },
            workers: 1,
        };
        toml.parse_into("options.endpoint", &mut cfg.endpoint)?;
        toml.parse_into("options.proxy", &mut cfg.proxy)?;
        toml.parse_into("server.listen", &mut cfg.listen)?;
        toml.parse_into("server.workers", &mut cfg.workers)?;
        Ok(cfg)
    }
}

#[test]
fn valid_document_decodes_end_to_end() {
    let text = "[options]\nendpoint = \"https://api.example\"\n\n[server]\nlisten = \"0.0.0.0:8080\"\nworkers = 4\n";
    let cfg = Settings::from_text(text).unwrap();
    assert_eq!(cfg.endpoint, Some("https://api.example".to_string()));
    assert_eq!(cfg.proxy, None);
    assert_eq!(cfg.listen, SocketAddrV4 { ip: Ipv4Addr { a: 0, b: 0, c: 0, d: 0 }, port: 8080 });
    assert_eq!(cfg.workers, 4);
}

#[test]
fn decode_errors_are_returned_verbatim() {
    let text = "[server]\nlisten = 42\n";
    let r = Settings::from_text(text);
    assert!(matches!(r, Err(Error::InvalidSocketAddrV4("server.listen"))));
}

#[test]
fn invalid_syntax_gives_a_diagnostic_line() {
    let r = Settings::from_text("[options\nendpoint = ");
    match r {
        Err(Error::FileSyntax(m)) => {
            let problem = "[options\nendpoint = ".parse::<toml::Table>().unwrap_err().message().to_string();
            assert!(!problem.is_empty());
            assert_eq!(m, format!("\terror: {}\n", problem));
        }
        other => panic!("expected a syntax error, got {:?}", other),
    }
}

#[test]
fn documents_keep_every_kind_of_value() {
    let text = "s = \"x\"\ni = -3\nb = true\nf = 1.5\nd = 1979-05-27\na = [1, 2]\n[t]\nk = \"v\"\n";
    let doc = parse_document(text).unwrap();
    assert!(matches!(doc.lookup("s"), Some(Document::String(v)) if v == "x"));
    assert!(matches!(doc.lookup("i"), Some(Document::Integer(-3))));
    assert!(matches!(doc.lookup("b"), Some(Document::Boolean(true))));
    assert!(matches!(doc.lookup("f"), Some(Document::Decimal(v)) if v == "1.5"));
    assert!(matches!(doc.lookup("d"), Some(Document::Datetime(v)) if v == "1979-05-27"));
    assert!(matches!(doc.lookup("a"), Some(Document::Array(v)) if v.len() == 2));
    assert!(matches!(doc.lookup("t.k"), Some(Document::String(v)) if v == "v"));
}

#[test]
fn empty_text_is_an_empty_table() {
    let doc = parse_document("").unwrap();
    assert!(matches!(doc, Document::Table(ref t) if t.is_empty()));
    let mut proxy: Option<String> = Some("x".to_string());
    assert!(matches!(doc.parse_into("options.proxy", &mut proxy), Ok(true)));
    assert_eq!(proxy, None);
}

#[test]
fn messages_name_the_field() {
    assert_eq!(Error::InvalidString("a.b").message(), "Invalid string value, field=a.b.");
    assert_eq!(Error::InvalidArray("x").message(), "Invalid array of values, field=x");
    assert_eq!(
        Error::InvalidSocketAddrV4("options.endpoint").message(),
        "Invalid Ipv4 network address pair, field=options.endpoint. (example: \"127.0.0.0:8080\")"
    );
    assert_eq!(Error::InvalidIpv4Addr("ip").message(), "Invalid Ipv4 address, field=ip. (example: \"127.0.0.0\")");
    assert_eq!(Error::InvalidUrl("u").message(), "Invalid URL value, field=u.");
    assert_eq!(Error::FileNotFound("/x".to_string()).message(), "File not found at: /x");
    assert_eq!(Error::FileSyntax("\terror: bad\n".to_string()).message(), "Syntax errors while parsing file:\n\n\terror: bad\n");
    assert_eq!(Error::IPFailed.message(), "Failed to discover this hosts IP address");
    let io = std::io::Error::new(std::io::ErrorKind::NotFound, "gone");
    assert_eq!(Error::FileIO(io).message(), "Error reading file: gone");
}

#[test]
fn descriptions_are_fixed_per_kind() {
    assert_eq!(Error::InvalidString("a").description(), "Invalid string value encountered while parsing a file");
    assert_eq!(Error::FileSyntax(String::new()).description(), "Error parsing contents of file");
    assert_eq!(Error::UnameFailed(String::new()).description(), "Failed to get uname on host");
    let e: Error = "x".parse::<u8>().unwrap_err().into();
    assert!(matches!(e, Error::ParseIntError(_)));
    assert_eq!(e.description(), "Failed to parse an integer from a string!");
    let io: Error = std::io::Error::new(std::io::ErrorKind::Other, "o").into();
    assert!(matches!(io, Error::IO(_)));
    let inner = std::io::Error::from(std::io::ErrorKind::NotFound);
    #[allow(deprecated)]
    let expected = std::error::Error::description(&inner).to_string();
    let missing: Error = inner.into();
    assert_eq!(missing.description(), expected);
    assert_eq!(missing.message(), "entity not found");
}

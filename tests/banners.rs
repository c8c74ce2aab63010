use lsio::banner::banner;

#[test]
fn banner_centres_text() {
    assert_eq!(banner("=", "", "", "", 10), "==========");
    assert_eq!(banner("=", "ab", "", "", 9), "===ab====");
    assert_eq!(banner("-", " hi ", "<", ">", 12), "<--- hi --->");
    assert_eq!(banner("-", "x", "[", "]", 3), "[x]");
    assert_eq!(banner("=", "", "", "", 0), "");
}

use lsio::commands::{plan_command, shell_line, CommandPlan};
use lsio::error::Error;
use lsio::prompts::{is_affirmative, is_yes_word, trim};
use lsio::system::{hostname, resolver_address, uname, windows_uname, UnameReply};

fn padded(s: &str) -> Vec<u8> {
    let mut v = s.as_bytes().to_vec();
    v.push(0);
    v.extend_from_slice(b"garbage");
    v
}

#[test]
fn uname_reads_fields_up_to_nul() {
    let reply = UnameReply {
        status: 0,
        errno: 0,
        errno_text: String::new(),
        sys_name: padded("Linux"),
        node_name: padded("box"),
        release: padded("6.1.0"),
        version: b"#1 SMP".to_vec(),
        machine: vec![b'x', 0xff, 0],
    };
    let u = uname(&reply).unwrap();
    assert_eq!(u.sys_name, "Linux");
    assert_eq!(u.node_name, "box");
    assert_eq!(u.release, "6.1.0");
    assert_eq!(u.version, "#1 SMP");
    assert_eq!(u.machine, "x\u{FFFD}");
}

#[test]
fn uname_failure_names_the_error() {
    let reply = UnameReply {
        status: -1,
        errno: 14,
        errno_text: "Bad address".to_string(),
        sys_name: vec![],
        node_name: vec![],
        release: vec![],
        version: vec![],
        machine: vec![],
    };
    match uname(&reply) {
        Err(Error::UnameFailed(m)) => assert_eq!(m, "Error 14 when calling uname: Bad address"),
        other => panic!("unexpected {:?}", other),
    }
}

#[test]
fn hostname_replies() {
    assert_eq!(hostname(0, &padded("node-1")).unwrap(), "node-1");
    assert!(matches!(hostname(-1, &padded("node-1")), Err(Error::IPFailed)));
    assert!(matches!(hostname(0, &vec![0xc3, 0x28, 0]), Err(Error::Utf8Error(_))));
}

#[test]
fn resolver_addresses() {
    assert_eq!(resolver_address(""), "8.8.8.8:53");
    assert_eq!(resolver_address("10.0.0.2"), "10.0.0.2:53");
}

#[test]
fn answers() {
    assert!(is_affirmative("y"));
    assert!(is_affirmative("  YES\n"));
    assert!(is_affirmative("Yes"));
    assert!(!is_affirmative("no"));
    assert!(!is_affirmative("yess"));
    assert!(!is_affirmative(""));
    assert!(is_yes_word("yes"));
    assert!(!is_yes_word("YES"));
}

#[test]
fn command_plans() {
    let args = vec!["aux".to_string(), "|".to_string(), "grep".to_string()];
    assert_eq!(shell_line("ps", &args), "ps aux | grep ");
    assert_eq!(plan_command("ps", &args, false), CommandPlan::Direct);
    assert_eq!(plan_command("ps", &args, true), CommandPlan::Shell("ps aux | grep ".to_string()));
    assert_eq!(plan_command("ls -la", &vec![], false), CommandPlan::Shell("ls -la".to_string()));
}

#[test]
fn windows_identity_is_fixed() {
    let u = windows_uname();
    assert_eq!(u.sys_name, "Windows");
    assert_eq!(u.node_name, "");
    assert_eq!(u.release, "");
    assert_eq!(u.version, "Microsoft Windows 10 Enterprise Insider Preview");
    assert_eq!(u.machine, "x86_64");
}

#[test]
fn uname_failure_with_negative_code() {
    let reply = UnameReply {
        status: -1,
        errno: -2147483648,
        errno_text: "odd".to_string(),
        sys_name: vec![],
        node_name: vec![],
        release: vec![],
        version: vec![],
        machine: vec![],
    };
    match uname(&reply) {
        Err(Error::UnameFailed(m)) => assert_eq!(m, "Error -2147483648 when calling uname: odd"),
        other => panic!("unexpected {:?}", other),
    }
}

#[test]
fn trimming_matches_unicode_white_space() {
    let cases = [
        "", "   ", "a", " a ", "\t\n a b \r\n", "\u{3000}x\u{85}", "\u{a0}\u{2000}y\u{200a}\u{202f}",
        "\u{200b}z\u{200b}", "\u{1680}\u{2028}\u{2029}\u{205f}q\u{b}\u{c}",
    ];
    for c in cases.iter() {
        assert_eq!(trim(c), c.trim());
    }
    assert_eq!(trim("\u{3000}x\u{85}"), "x");
    assert_eq!(trim("\u{200b}z\u{200b}"), "\u{200b}z\u{200b}");
}

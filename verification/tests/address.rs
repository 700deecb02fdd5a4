use yak_core::address::{is_control, is_valid_address, is_whitespace};
use yak_core::{Address, AddressError};

#[test]
fn one() {
    let addr = Address::try_from("node#12").unwrap();
    println!("addr = {}", addr.to_string());
}

#[test]
fn address_create_ok() {
    let vals = vec![
        "node",
        "node_123",
        "123_node",
        "node#123",
        "Node123",
        "ANodeSomewhere",
        "Happy\u{f0}\u{178}\u{2dc}\u{20ac}Node",
    ];
    for v in vals {
        assert!(Address::try_from(v).is_ok());
    }
}

#[test]
fn address_create_err() {
    let vals = vec!["node _123", " node_123", "node_123 ", "node\t", "node\n"];
    for v in vals {
        assert_eq!(Address::try_from(v), Err(AddressError::Invalid));
    }
}

#[test]
fn parse_keeps_the_text_unchanged() {
    for v in ["node", "Node", "n", "node#12", "Happy😀Node", "a\u{ad}b", "\u{200b}"] {
        let a = Address::parse(v.to_string()).unwrap();
        assert_eq!(a.as_str(), v);
        assert_eq!(a.to_string(), v);
        let b = Address::try_from(&v.to_string()).unwrap();
        assert_eq!(b.to_string(), v);
        let c = Address::try_from(v.to_string()).unwrap();
        assert_eq!(c.to_string(), v);
    }
}

#[test]
fn parse_refuses_the_empty_text() {
    assert_eq!(Address::parse(String::new()), Err(AddressError::Invalid));
    assert_eq!(Address::try_from(""), Err(AddressError::Invalid));
}

#[test]
fn parse_refuses_control_codes_and_white_space_anywhere() {
    for bad in ['\0', '\u{1f}', '\u{7f}', '\u{80}', '\u{9f}', ' ', '\u{a0}', '\u{3000}', '\u{2028}'] {
        for text in [format!("{}", bad), format!("{}ab", bad), format!("a{}b", bad), format!("ab{}", bad)] {
            assert_eq!(Address::parse(text), Err(AddressError::Invalid));
        }
    }
}

#[test]
fn every_character_is_classified_as_std_does() {
    for n in 0..=0x10FFFFu32 {
        let Some(c) = char::from_u32(n) else {
            continue;
        };
        assert_eq!(is_control(c), c.is_control(), "U+{:04X}", n);
        assert_eq!(is_whitespace(c), c.is_whitespace(), "U+{:04X}", n);
        let ok = !c.is_control() && !c.is_whitespace();
        assert_eq!(is_valid_address(&c.to_string()), ok, "U+{:04X}", n);
    }
}

#[test]
fn classification_at_the_edges_of_each_block() {
    for c in ['\u{0}', '\u{1f}', '\u{7f}', '\u{9f}'] {
        assert!(is_control(c));
    }
    for c in ['\u{20}', '\u{7e}', '\u{a0}', 'q'] {
        assert!(!is_control(c));
    }
    for c in [
        '\u{9}', '\u{d}', '\u{20}', '\u{85}', '\u{a0}', '\u{1680}', '\u{2000}', '\u{200a}',
        '\u{2028}', '\u{2029}', '\u{202f}', '\u{205f}', '\u{3000}',
    ] {
        assert!(is_whitespace(c));
    }
    for c in ['\u{8}', '\u{e}', '\u{1f}', '\u{84}', '\u{86}', '\u{1fff}', '\u{200b}', '\u{180e}', '\u{feff}', '越'] {
        assert!(!is_whitespace(c));
    }
}

#[test]
fn is_valid_address_decides_parse() {
    assert!(is_valid_address("node#12"));
    assert!(!is_valid_address(""));
    assert!(!is_valid_address("node 12"));
    assert!(!is_valid_address("node\u{85}"));
}

#[test]
fn addresses_compare_by_exact_text() {
    let a = Address::try_from("node").unwrap();
    let b = Address::try_from("node").unwrap();
    let c = Address::try_from("Node").unwrap();
    assert_eq!(a, b);
    assert_ne!(a, c);
    assert_eq!(a.clone(), a);
    assert!(c < a);
    assert_eq!(a.cmp(&c), "node".cmp("Node"));
    let mut all = vec![a.clone(), c.clone(), Address::try_from("a").unwrap()];
    all.sort();
    let texts: Vec<String> = all.iter().map(|x| x.to_string()).collect();
    assert_eq!(texts, vec!["Node", "a", "node"]);
}

#[test]
fn address_error_in_words() {
    assert_eq!(AddressError::Invalid.to_string(), "invalid value for an address");
}

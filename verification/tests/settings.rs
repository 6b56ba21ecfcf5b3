use inference_server::config::{parse_labels, BatchConfig, Config};
use inference_server::text::{chars_of, find_in, parse_decimal, render_decimal};
use std::collections::HashMap;

fn config() -> Config {
    Config {
        batch_size: 8,
        tick_duration_ms: 100,
        host: "127.0.0.1".to_string(),
        port: 8000,
        model_id: None,
        model_path: None,
        model_revision: "main".to_string(),
        use_pth: false,
        cpu_only: false,
        max_sequence_length: 512,
        id2label: None,
    }
}

fn table(pairs: &[(u32, &str)]) -> HashMap<u32, String> {
    pairs.iter().map(|(id, label)| (*id, label.to_string())).collect()
}

fn by_the_book(labels: &str) -> HashMap<u32, String> {
    labels
        .split(',')
        .filter_map(|pair| {
            let mut parts = pair.split('=');
            let id = parts.next()?.parse().ok()?;
            let label = parts.next()?.to_string();
            Some((id, label))
        })
        .collect()
}

#[test]
fn labels_are_read_from_pairs() {
    let mut settings = config();
    assert_eq!(settings.parse_id2label(), None);
    settings.id2label = Some("0=No Claim,1=Claim".to_string());
    assert_eq!(settings.parse_id2label(), Some(table(&[(0, "No Claim"), (1, "Claim")])));
}

#[test]
fn malformed_pairs_are_passed_over() {
    assert_eq!(parse_labels(""), table(&[]));
    assert_eq!(parse_labels("0"), table(&[]));
    assert_eq!(parse_labels("=a"), table(&[]));
    assert_eq!(parse_labels("x=a,2=b"), table(&[(2, "b")]));
    assert_eq!(parse_labels(" 0=a"), table(&[]));
    assert_eq!(parse_labels("0 =a"), table(&[]));
    assert_eq!(parse_labels("-1=a"), table(&[]));
    assert_eq!(parse_labels("1_0=a"), table(&[]));
    assert_eq!(parse_labels("0x1=a"), table(&[]));
    assert_eq!(parse_labels(",,1=a,,"), table(&[(1, "a")]));
    assert_eq!(parse_labels("4294967296=over,4294967295=max"), table(&[(4294967295, "max")]));
}

#[test]
fn label_details() {
    assert_eq!(parse_labels("0="), table(&[(0, "")]));
    assert_eq!(parse_labels("0=a=b"), table(&[(0, "a")]));
    assert_eq!(parse_labels("+1=plus"), table(&[(1, "plus")]));
    assert_eq!(parse_labels("007=bond"), table(&[(7, "bond")]));
    assert_eq!(parse_labels("1=a,1=b"), table(&[(1, "b")]));
    assert_eq!(parse_labels("1= spaced out "), table(&[(1, " spaced out ")]));
    assert_eq!(parse_labels("3=Überraschung,4=驚き"), table(&[(3, "Überraschung"), (4, "驚き")]));
}

#[test]
fn labels_agree_with_split_and_parse() {
    for text in [
        "0=No Claim,1=Claim",
        "",
        ",",
        "=",
        "==",
        "1==a",
        "+=a",
        "+0=zero,-0=minus",
        "00000000000000000001=one",
        "99999999999=big,12=ok",
        "a=1,2=b=c=d,3",
        "5=é,٣=arabic digit,6=f",
        "1=a,,2=b,",
        "10=x,10=y,010=z",
    ] {
        assert_eq!(parse_labels(text), by_the_book(text), "for {:?}", text);
    }
}

#[test]
fn server_address_joins_host_and_port() {
    let mut settings = config();
    assert_eq!(settings.server_address(), "127.0.0.1:8000");
    settings.host = "localhost".to_string();
    settings.port = 0;
    assert_eq!(settings.server_address(), "localhost:0");
    settings.port = 65535;
    assert_eq!(settings.server_address(), "localhost:65535");
    settings.host = String::new();
    settings.port = 10;
    assert_eq!(settings.server_address(), ":10");
}

#[test]
fn batch_config_is_taken_from_the_settings() {
    let mut settings = config();
    settings.batch_size = 32;
    settings.tick_duration_ms = 5;
    let batch = BatchConfig::from(&settings);
    assert_eq!(batch.batch_size, 32);
    assert_eq!(batch.tick_duration_ms, 5);
}

#[test]
fn decimal_numbers_are_read() {
    let read = |text: &str| {
        let chars = chars_of(text);
        parse_decimal(&chars, 0, chars.len())
    };
    assert_eq!(read("0"), Some(0));
    assert_eq!(read("42"), Some(42));
    assert_eq!(read("+42"), Some(42));
    assert_eq!(read("0042"), Some(42));
    assert_eq!(read("4294967295"), Some(u32::MAX));
    assert_eq!(read("4294967296"), None);
    assert_eq!(read("99999999999999999999999999"), None);
    assert_eq!(read(""), None);
    assert_eq!(read("+"), None);
    assert_eq!(read("++1"), None);
    assert_eq!(read("-1"), None);
    assert_eq!(read("1 "), None);
    assert_eq!(read("1a"), None);
    for text in ["7", "+7", "-7", "", "+", "٣", "12x", "4294967295", "4294967296", "000"] {
        assert_eq!(read(text), text.parse::<u32>().ok(), "for {:?}", text);
    }
    let chars = chars_of("ab123cd");
    assert_eq!(parse_decimal(&chars, 2, 5), Some(123));
    assert_eq!(parse_decimal(&chars, 2, 2), None);
}

#[test]
fn decimal_numbers_are_written() {
    assert_eq!(render_decimal(0), "0");
    assert_eq!(render_decimal(7), "7");
    assert_eq!(render_decimal(10), "10");
    assert_eq!(render_decimal(8000), "8000");
    assert_eq!(render_decimal(u32::MAX), "4294967295");
    for number in [0u32, 9, 10, 99, 100, 12345, 4294967295] {
        assert_eq!(render_decimal(number), number.to_string());
        let chars = chars_of(&render_decimal(number));
        assert_eq!(parse_decimal(&chars, 0, chars.len()), Some(number));
    }
}

#[test]
fn separators_are_found() {
    let chars = chars_of("a,b=c");
    assert_eq!(chars, vec!['a', ',', 'b', '=', 'c']);
    assert_eq!(find_in(&chars, 0, 5, ','), 1);
    assert_eq!(find_in(&chars, 2, 5, ','), 5);
    assert_eq!(find_in(&chars, 0, 5, '='), 3);
    assert_eq!(find_in(&chars, 0, 3, '='), 3);
    assert_eq!(find_in(&chars, 1, 1, ','), 1);
    assert_eq!(chars_of("é驚"), vec!['é', '驚']);
}

#[test]
fn a_model_must_be_named() {
    let mut settings = config();
    assert!(!settings.names_model());
    settings.model_id = Some("org/model".to_string());
    assert!(settings.names_model());
    settings.model_id = None;
    settings.model_path = Some(std::path::PathBuf::from("/models/x"));
    assert!(settings.names_model());
}

#[test]
fn backend_settings_are_taken_from_the_settings() {
    let mut settings = config();
    settings.model_id = Some("org/model".to_string());
    settings.model_path = Some(std::path::PathBuf::from("/models/x"));
    settings.model_revision = "v3".to_string();
    settings.use_pth = true;
    settings.cpu_only = true;
    settings.max_sequence_length = 128;
    settings.id2label = Some("0=No Claim,1=Claim,x".to_string());
    let backend = settings.backend_config();
    assert_eq!(backend.model_id.as_deref(), Some("org/model"));
    assert_eq!(backend.model_path, Some(std::path::PathBuf::from("/models/x")));
    assert_eq!(backend.revision, "v3");
    assert!(backend.use_pth);
    assert!(backend.cpu);
    assert_eq!(backend.max_sequence_length, 128);
    assert_eq!(backend.id2label, Some(table(&[(0, "No Claim"), (1, "Claim")])));
    assert_eq!(config().backend_config().id2label, None);
}

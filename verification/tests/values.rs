use channel::cache_map::CacheMap;
use channel::decimal::{parse_decimal, to_decimal};

#[test]
fn numbers_as_text() {
    for n in [0, 9, 10, 100, 1_234_567_890, u32::MAX] {
        assert_eq!(to_decimal(n), n.to_string());
        assert_eq!(parse_decimal(&to_decimal(n)), Some(n));
    }
}

#[test]
fn texts_as_numbers() {
    let texts = [
        "", "+", "-", "-0", "-1", "+7", "++7", "007", "4294967295", "4294967296", "00004294967295",
        "99999999999999999999999", " 1", "1 ", "1_0", "0x1", "\u{0661}", "12a", "+4294967295",
    ];
    for text in texts {
        assert_eq!(parse_decimal(text), text.parse::<u32>().ok(), "{:?}", text);
    }
}

fn map(fields: &[(&str, &str)]) -> CacheMap {
    let mut map = CacheMap::new();
    for (name, value) in fields {
        map.insert(name.to_string(), value.to_string());
    }
    map
}

fn value<'a>(map: &'a CacheMap, name: &str) -> Option<&'a str> {
    map.get(name).map(|text| text.as_str())
}

#[test]
fn fields_of_a_record() {
    let mut record = CacheMap::new();
    assert!(record.is_empty());
    assert_eq!(value(&record, "a"), None);
    record.insert("a".to_string(), "1".to_string());
    record.insert("b".to_string(), "2".to_string());
    record.insert("a".to_string(), "3".to_string());
    assert!(!record.is_empty());
    assert_eq!(record.fields().len(), 2);
    assert_eq!(value(&record, "a"), Some("3"));
    assert_eq!(value(&record, "b"), Some("2"));
    let copy = record.duplicate();
    assert_eq!(copy.fields(), record.fields());
}

#[test]
fn later_fields_win_when_records_are_joined() {
    let mut record = map(&[("a", "1"), ("b", "2")]);
    record.extend(map(&[("b", "3"), ("c", "4")]));
    assert_eq!(record.fields().len(), 3);
    assert_eq!(value(&record, "a"), Some("1"));
    assert_eq!(value(&record, "b"), Some("3"));
    assert_eq!(value(&record, "c"), Some("4"));
}

use job_recorder::job_id::JobId;

const ALPHABET: &str = "0123456789ABCDEFGHJKMNPQRSTVWXYZ";

fn ulid_value(timestamp_ms: u64, random: u128) -> u128 {
    ((timestamp_ms as u128) << 80) | (random & ((1u128 << 80) - 1))
}

#[test]
fn ulid_text_of_zero_and_max() {
    assert_eq!(JobId::from_ulid(0).to_string(), "00000000000000000000000000");
    assert_eq!(JobId::from_ulid(u128::MAX).to_string(), "7ZZZZZZZZZZZZZZZZZZZZZZZZZ");
    assert_eq!(JobId::from_ulid(31).to_string(), "0000000000000000000000000Z");
    assert_eq!(JobId::from_ulid(32).to_string(), "00000000000000000000000010");
}

#[test]
fn ulid_text_of_known_value() {
    let v = ulid_value(1_469_922_850_259, 0);
    assert_eq!(JobId::from_ulid(v).to_string(), "01ARZ3NDEK0000000000000000");
}

#[test]
fn later_identifiers_sort_after_earlier_ones() {
    let early = JobId::from_ulid(ulid_value(1_000, u128::MAX));
    let later = JobId::from_ulid(ulid_value(1_001, 0));
    assert!(early.to_string() < later.to_string());
    let a = JobId::from_ulid(ulid_value(1_700_000_000_000, 12345));
    let b = JobId::from_ulid(ulid_value(1_700_000_000_001, 7));
    assert!(a.as_str() < b.as_str());
}

#[test]
fn fresh_identifiers_have_ulid_shape() {
    let a = JobId::new();
    let b = JobId::new();
    assert_eq!(a.as_str().len(), 26);
    assert!(a.as_str().chars().all(|c| ALPHABET.contains(c)));
    assert_ne!(a.to_string(), b.to_string());
}

#[test]
fn parsed_identifiers_are_verbatim() {
    assert_eq!(JobId::parse("not a ulid/..".to_string()).to_string(), "not a ulid/..");
    assert_eq!(JobId::from(String::from("abc")).as_str(), "abc");
    assert_eq!(JobId::parse(String::new()).to_string(), "");
    let id = JobId::parse("01ARZ3NDEKTSV4RRFFQ69G5FAV".to_string());
    assert_eq!(id.clone().to_string(), id.to_string());
}

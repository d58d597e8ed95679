use ores_sidecar::runtime_events::{
    validated_runtime_keys, validated_runtime_values, RuntimeEventError, RuntimeEventResult,
    RUNTIME_EVENT_PROTOCOL,
};
use ores_sidecar::{RuntimeKeySet, RuntimeValue, RuntimeValueMap, MAX_RUNTIME_KEYS};

fn allowed() -> RuntimeKeySet {
    RuntimeKeySet::from_keys(vec!["A".to_owned(), "B".to_owned(), "C".to_owned()])
}

fn entries(list: &[(&str, &str)]) -> Vec<RuntimeValue> {
    list.iter()
        .map(|(key, value)| RuntimeValue { key: (*key).to_owned(), value: (*value).to_owned() })
        .collect()
}

fn checked(list: &[(&str, &str)]) -> RuntimeEventResult<RuntimeValueMap> {
    validated_runtime_values(&allowed(), &entries(list))
}

#[test]
fn event_items_are_reached_through_their_module() {
    assert_eq!(RUNTIME_EVENT_PROTOCOL, "ores.sidecar-runtime-event.v1");
}

#[test]
fn order_of_entries_does_not_matter() {
    let one = checked(&[("A", "1"), ("B", "2"), ("C", "3")]).unwrap();
    let other = checked(&[("C", "3"), ("A", "1"), ("B", "2")]).unwrap();
    assert_eq!(one, other);
    assert_eq!(one.get("C").map(String::as_str), Some("3"));

    assert!(checked(&[("A", "1"), ("B", "2"), ("A", "1")]).is_err());
    assert!(checked(&[("A", "1"), ("A", "1"), ("B", "2")]).is_err());
}

#[test]
fn earliest_bad_entry_decides() {
    let list = [("A", "1"), ("X", "1"), ("lower", "1"), ("A", "2")];
    let early = RuntimeEventError::RuntimeKeyNotAllowed("X".to_owned());
    assert!(checked(&list[..1]).is_ok());
    assert_eq!(checked(&list[..2]), Err(early));
    assert_eq!(checked(&list[..2]), checked(&list[..3]));
    assert_eq!(checked(&list[..2]), checked(&list));
}

#[test]
fn earliest_bad_key_decides() {
    let keys = |list: &[&str]| -> Vec<String> { list.iter().map(|key| (*key).to_owned()).collect() };
    let list = ["A", "A", "lower", "X"];
    let early = || Err(RuntimeEventError::DuplicateRuntimeValue("A".to_owned()));
    assert_eq!(validated_runtime_keys(&allowed(), &keys(&list[..1])), Ok(keys(&["A"])));
    assert_eq!(validated_runtime_keys(&allowed(), &keys(&list[..2])), early());
    assert_eq!(validated_runtime_keys(&allowed(), &keys(&list)), early());
}

#[test]
fn number_of_entries_is_refused_before_any_entry() {
    let many = vec![("lower", "1"); MAX_RUNTIME_KEYS + 1];
    assert_eq!(
        checked(&many),
        Err(RuntimeEventError::InvalidEvent("runtime update contains too many values"))
    );
    assert_eq!(
        checked(&many[..MAX_RUNTIME_KEYS]),
        Err(RuntimeEventError::InvalidRuntimeKey("lower".to_owned()))
    );
}

#[test]
fn refusal_sees_only_the_sizes_of_values() {
    let refused = checked(&[("A", "abc"), ("X", "def")]);
    assert!(refused.is_err());
    assert_eq!(refused, checked(&[("A", "uvw"), ("X", "xyz")]));
    assert!(checked(&[("A", "abc")]).is_ok());
    assert!(checked(&[("A", "uvw")]).is_ok());
}

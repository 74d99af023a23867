use zigbee2mqtt_operator::with_source::ValueWithSource;

fn value() -> ValueWithSource<String> {
    ValueWithSource::new("x".to_owned(), Some("spec.a".to_owned()))
}

#[test]
fn with_value_keeps_the_source() {
    let other = value().with_value(7);
    assert_eq!(other.source().map(String::as_str), Some("spec.a"));
    assert_eq!(other.take(), 7);
}

#[test]
fn sub_extends_the_source() {
    let other = value().sub((), ".b");
    assert_eq!(other.source().map(String::as_str), Some("spec.a.b"));
    let unknown = ValueWithSource::from(1).sub(2, ".b");
    assert!(unknown.source().is_none());
    assert_eq!(unknown.take(), 2);
}

#[test]
fn split_takes_value_and_source_apart() {
    let (inner, source) = value().split();
    assert_eq!(inner, "x");
    assert_eq!(source.source().map(String::as_str), Some("spec.a"));
}

#[test]
fn transform_keeps_the_source() {
    let length = value().transform(|v: ValueWithSource<String>| v.take().len());
    assert_eq!(length.source().map(String::as_str), Some("spec.a"));
    assert_eq!(*length, 1);
}

#[test]
fn transpose_exchanges_layers() {
    let some = value().with_value(Some(3)).transpose().unwrap();
    assert_eq!(some.source().map(String::as_str), Some("spec.a"));
    assert_eq!(some.take(), 3);
    let none: ValueWithSource<Option<u8>> = value().with_value(None);
    assert!(none.transpose().is_none());
    let good: ValueWithSource<Result<u8, String>> = value().with_value(Ok(4));
    assert_eq!(good.transpose().unwrap().take(), 4);
    let bad: ValueWithSource<Result<u8, String>> = value().with_value(Err("no".to_owned()));
    assert_eq!(bad.transpose().unwrap_err(), "no");
}

#[test]
fn cloned_copies_the_value() {
    let original = vec![1, 2, 3];
    let borrowed = value().with_value(&original);
    let owned = borrowed.cloned();
    assert_eq!(owned.source().map(String::as_str), Some("spec.a"));
    assert_eq!(owned.take(), original);
}

#[test]
fn equality_ignores_the_source() {
    assert!(value() == ValueWithSource::from("x".to_owned()));
    assert!(value() != ValueWithSource::new("y".to_owned(), Some("spec.a".to_owned())));
    assert!(value() == "x".to_owned());
    assert!(value() != "y".to_owned());
}

#[test]
fn items_have_their_index_as_source() {
    let mut items = value().with_value(vec!["a", "b"]).into_iter();
    let first = items.next().unwrap();
    assert_eq!(first.source().map(String::as_str), Some("spec.a[0]"));
    assert_eq!(first.take(), "a");
    let second = items.next().unwrap();
    assert_eq!(second.source().map(String::as_str), Some("spec.a[1]"));
    assert_eq!(second.take(), "b");
    assert!(items.next().is_none());
    assert!(items.next().is_none());
}

#[test]
fn entries_have_their_key_as_source() {
    let mut entries = value()
        .with_value(vec![("k".to_owned(), 1), ("l".to_owned(), 2)])
        .into_entries();
    let (key, first) = entries.next().unwrap();
    assert_eq!(key, "k");
    assert_eq!(first.source().map(String::as_str), Some("spec.a.k"));
    assert_eq!(first.take(), 1);
    let (key, second) = entries.next().unwrap();
    assert_eq!(key, "l");
    assert_eq!(second.source().map(String::as_str), Some("spec.a.l"));
    assert!(entries.next().is_none());
}

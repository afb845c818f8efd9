use cubos_sql::values::{into_flex_vec, EnumString, IntoOptionString, LabelFault};

#[test]
fn labels_travel_as_utf8() {
    let mut out = vec![1u8];
    EnumString("olá".to_string()).to_sql(&mut out);
    assert_eq!(out, vec![1, b'o', b'l', 0xc3, 0xa1]);
    assert_eq!(EnumString::from_sql(&out[1..]).unwrap().0, "olá");
}

#[test]
fn bytes_that_are_no_utf8_are_no_label() {
    assert_eq!(EnumString::from_sql(&[0xff]).unwrap_err(), LabelFault::NotUtf8);
}

#[test]
fn texts_and_options_of_texts_are_taken() {
    assert_eq!("a".into_option_string(), Some("a".to_string()));
    assert_eq!("b".to_string().into_option_string(), Some("b".to_string()));
    assert_eq!((&"c".to_string()).into_option_string(), Some("c".to_string()));
    assert_eq!(Some("d").into_option_string(), Some("d".to_string()));
    assert_eq!(Option::<String>::None.into_option_string(), None);
}

#[test]
fn items_are_converted_in_their_order() {
    let v: Vec<String> = into_flex_vec(vec!["a", "b"]);
    assert_eq!(v, vec!["a".to_string(), "b".to_string()]);
    let n: Vec<i64> = into_flex_vec(vec![1i32, 2, 3]);
    assert_eq!(n, vec![1i64, 2, 3]);
    let none: Vec<i64> = into_flex_vec(Vec::<i32>::new());
    assert!(none.is_empty());
}

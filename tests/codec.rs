use gantt_core::color_serde;
use gantt_core::datetime_serde::{deserialize, resolve_decoded, serialize};
use gantt_core::task::Rgba;

#[test]
fn reads_all_three_forms() {
    assert_eq!(deserialize("2024-01-01T00:00:00").unwrap(), 1_704_067_200);
    assert_eq!(deserialize("2024-01-05T13:45:10").unwrap(), 1_704_067_200 + 4 * 86_400 + 49_510);
    assert_eq!(deserialize("2024-01-05 13:45:10").unwrap(), 1_704_067_200 + 4 * 86_400 + 49_510);
    assert_eq!(deserialize("2024-01-05").unwrap(), 1_704_067_200 + 4 * 86_400);
    assert_eq!(deserialize("1969-12-31").unwrap(), -86_400);
}

#[test]
fn unreadable_text_is_an_error() {
    let e = deserialize("next tuesday").unwrap_err();
    assert_eq!(e.input, "next tuesday");
    assert!(deserialize("2024-13-01").is_err());
    assert!(deserialize("").is_err());
}

#[test]
fn first_form_wins() {
    assert_eq!(resolve_decoded(Some(5), Some(7), Some(1)), Some(5));
    assert_eq!(resolve_decoded(None, Some(7), Some(1)), Some(7));
    assert_eq!(resolve_decoded(None, None, Some(2)), Some(172_800));
    assert_eq!(resolve_decoded(None, None, Some(-1)), Some(-86_400));
    assert_eq!(resolve_decoded(None, None, None), None);
}

#[test]
fn writes_iso_form() {
    assert_eq!(serialize(1_704_067_200 + 49_510).unwrap(), "2024-01-01T13:45:10");
    assert_eq!(serialize(0).unwrap(), "1970-01-01T00:00:00");
    assert!(serialize(i64::MAX).is_none());
    let s = serialize(1_234_567_890).unwrap();
    assert_eq!(deserialize(&s).unwrap(), 1_234_567_890);
}

#[test]
fn color_is_four_bytes() {
    let c = Rgba { r: 1, g: 2, b: 3, a: 4 };
    assert_eq!(color_serde::serialize(&c), [1, 2, 3, 4]);
    assert_eq!(color_serde::deserialize([9, 8, 7, 6]), Rgba { r: 9, g: 8, b: 7, a: 6 });
    assert_eq!(color_serde::deserialize(color_serde::serialize(&c)), c);
}

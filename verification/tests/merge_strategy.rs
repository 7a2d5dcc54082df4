use celily::config::merge_strategy::{append, or_default, overwrite_some};

/// Right wins when Some, left preserved otherwise.
#[test]
fn overwrite_some_strategy() {
    let mut left: Option<&str> = Some("left");
    overwrite_some(&mut left, Some("right"));
    assert_eq!(left, Some("right"));

    let mut left: Option<&str> = Some("left");
    overwrite_some(&mut left, None);
    assert_eq!(left, Some("left"));

    let mut left: Option<&str> = None;
    overwrite_some(&mut left, Some("right"));
    assert_eq!(left, Some("right"));

    let mut left: Option<&str> = None;
    overwrite_some(&mut left, None);
    assert_eq!(left, None);
}

#[test]
fn or_default_and_append() {
    assert_eq!(or_default(Some(1), None), Some(1));
    assert_eq!(or_default(Some(1), Some(2)), Some(2));
    assert_eq!(or_default::<i32>(None, None), None);
    let mut v = vec![1, 2];
    append(&mut v, vec![3]);
    assert_eq!(v, vec![1, 2, 3]);
}

use cached_core::key::{custom_key, default_key};

#[test]
fn default_key_is_the_input() {
    assert_eq!(default_key(&7u32), 7);
    assert_eq!(default_key(&"a".to_string()), "a");
    assert_eq!(default_key(&(1u64, 2u64)), (1, 2));
}

#[test]
fn default_key_of_several_inputs_is_the_tuple_of_their_keys() {
    let (a, b) = ("a".to_string(), 3u8);
    assert_eq!((default_key(&a), default_key(&b)), ("a".to_string(), 3));
}

#[test]
fn default_key_tells_order_and_place_apart() {
    let key = |a: u64, b: u64| (default_key(&a), default_key(&b));
    assert_ne!(key(1, 2), key(2, 1));
    assert_ne!(key(1, 2), key(1, 3));
    assert_ne!(key(1, 2), key(0, 2));
    assert_eq!(key(1, 2), key(1, 2));
}

#[test]
fn default_key_leaves_the_inputs_alone() {
    let text = "text".to_string();
    let bytes = vec![1u8, 2, 3];
    let key = (default_key(&text), default_key(&bytes));
    assert_eq!(key, ("text".to_string(), vec![1u8, 2, 3]));
    assert_eq!(text, "text");
    assert_eq!(bytes, vec![1, 2, 3]);
}

#[test]
fn custom_key_is_what_the_conversion_gives() {
    let inputs = ("ab".to_string(), "cd".to_string());
    let key = custom_key(&inputs, |i: &(String, String)| format!("{}{}", i.0, i.1));
    assert_eq!(key, "abcd");
    assert_eq!(inputs.0, "ab");
    assert_eq!(custom_key(&(3u64, 4u64), |i: &(u64, u64)| i.0 + i.1), 7);
    // A conversion may map inputs that differ to one key.
    assert_eq!(
        custom_key(&(1u64, 6u64), |i: &(u64, u64)| i.0 + i.1),
        custom_key(&(5u64, 2u64), |i: &(u64, u64)| i.0 + i.1)
    );
}

use std::hash::{DefaultHasher, Hash, Hasher};
use fncache::backends::memory::MemoryBackend;
use fncache::backends::CacheBackend;
use fncache::key_derivation::{generate_compile_time_key, KeyDerivation};

#[test]
fn test_compile_time_key_generation() {
    let key1 = generate_compile_time_key(
        "test_fn",
        "fncache::test",
        &["i32", "String", "bool"],
        "Result<String, Error>",
    );

    let key2 = generate_compile_time_key(
        "test_fn",
        "fncache::test",
        &["i32", "String", "bool"],
        "Result<String, Error>",
    );

    assert_eq!(key1, key2);

    let key3 = generate_compile_time_key(
        "other_fn",
        "fncache::test",
        &["i32", "String", "bool"],
        "Result<String, Error>",
    );

    assert_ne!(key1, key3);

    let key4 = generate_compile_time_key(
        "test_fn",
        "fncache::test",
        &["i32", "u64", "bool"],
        "Result<String, Error>",
    );

    assert_ne!(key1, key4);
}

#[test]
fn test_generate_compile_time_key_consistency() {
    let key1 = generate_compile_time_key(
        "my_function",
        "fncache::test",
        &["String", "i32", "bool"],
        "Result<Vec<u8>, Error>",
    );
    let key2 = generate_compile_time_key(
        "my_function",
        "fncache::test",
        &["String", "i32", "bool"],
        "Result<Vec<u8>, Error>",
    );
    assert_eq!(key1, key2);

    let key3 = generate_compile_time_key(
        "other_function",
        "fncache::test",
        &["String", "i32", "bool"],
        "Result<Vec<u8>, Error>",
    );
    assert_ne!(key1, key3);

    let key4 = generate_compile_time_key(
        "my_function",
        "fncache::other_module",
        &["String", "i32", "bool"],
        "Result<Vec<u8>, Error>",
    );
    assert_ne!(key1, key4);
}

#[test]
fn key_parts_are_separated() {
    // moving a character across the boundary of two parts changes the key
    let a = generate_compile_time_key("ab", "c", &[], "r");
    let b = generate_compile_time_key("a", "bc", &[], "r");
    assert_ne!(a, b);
}

#[test]
fn key_matches_hashing_each_part_as_str() {
    let mut h = DefaultHasher::new();
    "f".hash(&mut h);
    "m".hash(&mut h);
    "i32".hash(&mut h);
    "u8".hash(&mut h);
    assert_eq!(generate_compile_time_key("f", "m", &["i32"], "u8"), h.finish());
}

#[test]
fn key_derivation_defaults_to_runtime() {
    assert_eq!(KeyDerivation::default(), KeyDerivation::Runtime);
}

fn generate_runtime_key(fn_name: &str, args: &[&dyn std::fmt::Debug]) -> String {
    let args_str = format!("{:?}", args);
    format!("{}-{}", fn_name, args_str)
}

#[test]
fn test_runtime_vs_compile_time_keys() {
    let rt_key = generate_runtime_key("test_function", &[&10, &"hello"]);
    let ct_key = generate_compile_time_key(
        "test_function",
        "fncache::key_derivation_tests::tests",
        &["i32", "&str"],
        "String",
    );

    assert_ne!(rt_key, ct_key.to_string());
}

#[test]
fn test_key_derivation_with_backend() {
    let mut backend = MemoryBackend::new();
    let runtime_key = generate_runtime_key("my_test", &[&42, &"test"]);
    backend.set(runtime_key.clone(), vec![1, 2, 3], None).unwrap();

    let compile_time_key = generate_compile_time_key(
        "my_test",
        "fncache::key_derivation_tests",
        &["i32", "&str"],
        "Vec<u8>",
    )
    .to_string();
    backend.set(compile_time_key.clone(), vec![4, 5, 6], None).unwrap();

    let rt_value = backend.get(&runtime_key).unwrap();
    let ct_value = backend.get(&compile_time_key).unwrap();

    assert_eq!(rt_value, Some(vec![1, 2, 3]));
    assert_eq!(ct_value, Some(vec![4, 5, 6]));
    assert_ne!(runtime_key, compile_time_key);
}

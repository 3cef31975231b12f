use jit_harness::resolver::{handle_undefined_symbol, NativeFunctions};

#[test]
fn hello_resolves_to_its_native_address() {
    let natives = NativeFunctions { hello: 0x7f00_dead_beef };
    assert_eq!(handle_undefined_symbol(b"hello", &natives), Some(0x7f00_dead_beef));
}

#[test]
fn resolved_address_follows_the_table() {
    let first = NativeFunctions { hello: 4096 };
    let second = NativeFunctions { hello: u64::MAX };
    assert_eq!(handle_undefined_symbol(b"hello", &first), Some(4096));
    assert_eq!(handle_undefined_symbol(b"hello", &second), Some(u64::MAX));
}

#[test]
fn empty_name_is_unresolved() {
    let natives = NativeFunctions { hello: 1 };
    assert_eq!(handle_undefined_symbol(b"", &natives), None);
}

#[test]
fn resolution_is_case_sensitive() {
    let natives = NativeFunctions { hello: 1 };
    assert_eq!(handle_undefined_symbol(b"Hello", &natives), None);
    assert_eq!(handle_undefined_symbol(b"HELLO", &natives), None);
    assert_eq!(handle_undefined_symbol(b"hellO", &natives), None);
}

#[test]
fn decorated_name_is_unresolved() {
    let natives = NativeFunctions { hello: 1 };
    assert_eq!(handle_undefined_symbol(b"_hello", &natives), None);
    assert_eq!(handle_undefined_symbol(b"__hello", &natives), None);
}

#[test]
fn other_names_are_unresolved() {
    let natives = NativeFunctions { hello: 1 };
    let names: [&[u8]; 8] =
        [b"unknown", b"hell", b"helloo", b"hello ", b"hello\0", b"sum", b"olleh", b"h"];
    for name in names {
        assert_eq!(handle_undefined_symbol(name, &natives), None);
    }
}

#[test]
fn resolving_twice_gives_the_same_answer() {
    let natives = NativeFunctions { hello: 77 };
    assert_eq!(
        handle_undefined_symbol(b"hello", &natives),
        handle_undefined_symbol(b"hello", &natives)
    );
    assert_eq!(
        handle_undefined_symbol(b"other", &natives),
        handle_undefined_symbol(b"other", &natives)
    );
}

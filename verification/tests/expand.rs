use mono_macro::ast::MonoError;
use mono_macro::mono;
use mono_macro::mono_macro;

#[test]
fn test_bare_fn() {
    let func = "fn foo<T, U>(_t: T, _u: U) {}";
    let out1 = mono("T = i32, U = String", func).unwrap();
    let out2 = mono("T = u8, U = i32", func).unwrap();
    assert!(out1.ends_with(func));
    assert!(out2.ends_with(func));
    mono_macro("foo::<i32, u8>").unwrap();
}

#[test]
fn test_end_to_end() {
    let out = mono("T = i32, U = i64", "fn foo<T, U>(t: T, u: U) {}").unwrap();
    assert_eq!(
        out,
        "pub const _: *const () = (&foo::<i32,i64,>) as *const _ as _;\nfn foo<T, U>(t: T, u: U) {}"
    );
}

#[test]
fn test_order_preservation() {
    let func = "fn f<T, U, V>(t: T, u: U, v: V) {}";
    let expected_head = "pub const _: *const () = (&f::<A,B,D,>) as *const _ as _;";
    for attr in ["V = D, T = A, U = B", "T = A, U = B, V = D", "U = B, V = D, T = A"] {
        let out = mono(attr, func).unwrap();
        assert_eq!(out.lines().next().unwrap(), expected_head);
    }
}

#[test]
fn test_missing_type_param() {
    let err = mono("T = i32", "fn g<T, U>(t: T, u: U) {}").unwrap_err();
    assert_eq!(err, MonoError::IncompleteInstantiation("U".to_string()));
}

#[test]
fn test_missing_type_param_reports_first() {
    let err = mono("V = bool", "fn g<T, U, V>(t: T, u: U, v: V) {}").unwrap_err();
    assert_eq!(err, MonoError::IncompleteInstantiation("T".to_string()));
}

#[test]
fn test_lifetime_permissive() {
    let out = mono("T = i32", "fn h<'a, T>(x: &'a T) {}").unwrap();
    assert!(out.starts_with("pub const _: *const () = (&h::<i32,>) as *const _ as _;"));
}

#[test]
fn test_lifetime_substitution() {
    let out = mono("'a = 'static, T = i32", "fn h<'a, T>(x: &'a T) {}").unwrap();
    assert!(out.starts_with("pub const _: *const () = (&h::<'static,i32,>) as *const _ as _;"));
}

#[test]
fn test_const_param_permissive() {
    let out = mono("T = i32", "fn c<const N: usize, T>(t: T) {}").unwrap();
    assert!(out.starts_with("pub const _: *const () = (&c::<i32,>) as *const _ as _;"));
}

#[test]
fn test_idempotent_passthrough() {
    let func = "#[inline]\npub fn keep<T>(t: T) -> T { t }";
    let out = mono("T = u8", func).unwrap();
    assert!(out.ends_with(func));
    assert_eq!(out.matches(func).count(), 1);
}

#[test]
fn test_stacking_independence() {
    let func = "fn foo<T, U>(_t: T, _u: U) {}";
    let out1 = mono("T = i32, U = String", func).unwrap();
    let out2 = mono("T = u8, U = i32", func).unwrap();
    let decl1 = out1.lines().next().unwrap();
    let decl2 = out2.lines().next().unwrap();
    assert_ne!(decl1, decl2);
    let stacked = format!("{}\n{}", decl2, out1);
    assert!(stacked.contains(decl1));
    assert!(stacked.contains(decl2));
    assert_eq!(stacked.matches(func).count(), 1);
}

#[test]
fn test_empty_args() {
    let out = mono("", "fn simple() {}").unwrap();
    assert_eq!(out, "pub const _: *const () = (&simple::<>) as *const _ as _;\nfn simple() {}");
    let blank = mono("   ", "fn simple() {}").unwrap();
    assert_eq!(blank, out);
}

#[test]
fn test_duplicate_entry_first_wins() {
    let out = mono("T = i32, T = u8", "fn d<T>(t: T) {}").unwrap();
    assert!(out.starts_with("pub const _: *const () = (&d::<i32,>) as *const _ as _;"));
}

#[test]
fn test_attr_parse_error() {
    let func = "fn g<T>(t: T) {}";
    assert_eq!(mono("T == i32", func).unwrap_err(), MonoError::ParseError);
    assert_eq!(mono("T = 123", func).unwrap_err(), MonoError::ParseError);
    assert_eq!(mono("T", func).unwrap_err(), MonoError::ParseError);
    assert_eq!(mono(",", func).unwrap_err(), MonoError::ParseError);
}

#[test]
fn test_fn_parse_error() {
    assert_eq!(mono("T = i32", "struct S;").unwrap_err(), MonoError::ParseError);
    assert_eq!(mono("T = i32", "fn broken<T>(").unwrap_err(), MonoError::ParseError);
}

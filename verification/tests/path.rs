use mono_macro::ast::MonoError;
use mono_macro::mono_macro;

#[test]
fn test_trait_method() {
    mono_macro("<Foo<'static> as Tr<i32>>::foo").unwrap();
}

#[test]
fn test_path_purity() {
    let input = "<Foo<i32> as Trait<u8>>::method";
    let out1 = mono_macro(input).unwrap();
    let out2 = mono_macro(input).unwrap();
    assert_eq!(out1, out2);
}

#[test]
fn test_path_shape() {
    let out = mono_macro("foo::<i32, u8>").unwrap();
    assert!(out.starts_with("pub const _: *const () = (&"));
    assert!(out.ends_with(") as *const _ as _;"));
    assert!(out.contains("foo"));
    assert!(out.contains("i32"));
    assert!(out.contains("u8"));
}

#[test]
fn test_path_tokens_not_raw_input() {
    let input = "  <Foo   as   Tr>::foo  ";
    let out = mono_macro(input).unwrap();
    let framed_raw = format!("pub const _: *const () = (&{}) as *const _ as _;", input);
    assert_ne!(out, framed_raw);
}

#[test]
fn test_path_parse_error() {
    assert_eq!(mono_macro("1 + 1").unwrap_err(), MonoError::ParseError);
    assert_eq!(mono_macro("not a :: valid ::::").unwrap_err(), MonoError::ParseError);
    assert_eq!(mono_macro("").unwrap_err(), MonoError::ParseError);
}

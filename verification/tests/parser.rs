use mono_macro::ast::SubstEntry;
use mono_macro::ast::TypeOrLifetime;
use mono_macro::subst::parse_substitution_list;

fn entry(e: &SubstEntry) -> (String, String) {
    let side = |t: &TypeOrLifetime| match t {
        TypeOrLifetime::TypeName(s) => s.clone(),
        TypeOrLifetime::LifetimeName(s) => format!("'{}", s),
    };
    (side(&e.name), side(&e.value))
}

#[test]
fn test_parse_entries_in_written_order() {
    let v = parse_substitution_list("V = D, T = A, U = B").unwrap();
    let got: Vec<(String, String)> = v.iter().map(entry).collect();
    assert_eq!(
        got,
        vec![
            ("V".to_string(), "D".to_string()),
            ("T".to_string(), "A".to_string()),
            ("U".to_string(), "B".to_string()),
        ]
    );
}

#[test]
fn test_parse_lifetimes_and_spacing() {
    let v = parse_substitution_list(" 'a='static ,T = i32, ").unwrap();
    let got: Vec<(String, String)> = v.iter().map(entry).collect();
    assert_eq!(
        got,
        vec![
            ("'a".to_string(), "'static".to_string()),
            ("T".to_string(), "i32".to_string()),
        ]
    );
}

#[test]
fn test_parse_empty_list() {
    assert!(parse_substitution_list("").unwrap().is_empty());
    assert!(parse_substitution_list(" \t\n").unwrap().is_empty());
}

#[test]
fn test_parse_rejects_malformed() {
    assert!(parse_substitution_list("T").is_none());
    assert!(parse_substitution_list("T =").is_none());
    assert!(parse_substitution_list("= i32").is_none());
    assert!(parse_substitution_list("T = i32 U = u8").is_none());
    assert!(parse_substitution_list("T = i32,,").is_none());
    assert!(parse_substitution_list("9T = i32").is_none());
    assert!(parse_substitution_list("T = 'x'").is_none());
}

#[test]
fn test_parse_keeps_duplicates() {
    let v = parse_substitution_list("T = i32, T = u8").unwrap();
    assert_eq!(v.len(), 2);
}

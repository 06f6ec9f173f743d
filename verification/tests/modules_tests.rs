use ricer::modules::{build_module_table, normalize_module};

#[test]
fn normalization_lowercases_and_strips_one_newline() {
    assert_eq!(normalize_module("Hello\n"), "hello");
    assert_eq!(normalize_module("Hello\n\n"), "hello\n");
    assert_eq!(normalize_module("HELLO"), "hello");
    assert_eq!(normalize_module(""), "");
    assert_eq!(normalize_module("\n"), "");
    assert_eq!(normalize_module("MiXeD 123 !\n"), "mixed 123 !");
}

#[test]
fn table_lookup_finds_normalized_values() {
    let files = vec![
        (String::from("greet"), String::from("Hello\n")),
        (String::from("sign"), String::from("Bye")),
    ];
    let table = build_module_table(&files);
    assert_eq!(table.get(&String::from("greet")), Some(&String::from("hello")));
    assert_eq!(table.get(&String::from("sign")), Some(&String::from("bye")));
    assert_eq!(table.get(&String::from("missing")), None);
}

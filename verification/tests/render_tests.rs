use ricer::colors::load_color_scheme;
use ricer::modules::{build_module_table, ModuleTable};
use ricer::render::render;

fn full_color_yaml() -> String {
    let mut text = String::new();
    let digits = "0123456789abcdef";
    for d in digits.chars() {
        text.push_str(&format!("base0{}: \"c{}c{}c{}\"\n", d, d, d, d));
    }
    text
}

fn empty_modules() -> ModuleTable {
    build_module_table(&Vec::new())
}

#[test]
fn unresolved_token_passes_through() {
    let colors = load_color_scheme(&full_color_yaml()).unwrap();
    let modules = empty_modules();
    let out = render("{#nope}", &modules, &colors);
    assert_eq!(out, "#nope");
}

#[test]
fn rendering_twice_is_identical() {
    let colors = load_color_scheme(&full_color_yaml()).unwrap();
    let files = vec![(String::from("greet"), String::from("Hello\n"))];
    let modules = build_module_table(&files);
    let template = "a {#greet} b {#00} c {#nope} {plain} d";
    let once = render(template, &modules, &colors);
    let twice = render(template, &modules, &colors);
    assert_eq!(once, twice);
}

#[test]
fn module_wins_over_color() {
    let colors = load_color_scheme(&full_color_yaml()).unwrap();
    let files = vec![(String::from("0"), String::from("module-text"))];
    let modules = build_module_table(&files);
    let out = render("{#0}", &modules, &colors);
    assert_eq!(out, "module-text");
    let without = render("{#0}", &empty_modules(), &colors);
    assert_eq!(without, "c0c0c0");
}

#[test]
fn color_lookup_single_and_double_digit() {
    let colors = load_color_scheme(&full_color_yaml()).unwrap();
    let modules = empty_modules();
    assert_eq!(render("{#0}", &modules, &colors), "c0c0c0");
    assert_eq!(render("{#00}", &modules, &colors), "c0c0c0");
    assert_eq!(render("{#f}", &modules, &colors), "cfcfcf");
    assert_eq!(render("{#0f}", &modules, &colors), "cfcfcf");
}

#[test]
fn literal_text_passes_through() {
    let colors = load_color_scheme(&full_color_yaml()).unwrap();
    let modules = empty_modules();
    assert_eq!(render("no placeholders here", &modules, &colors), "no placeholders here");
    assert_eq!(render("", &modules, &colors), "");
    assert_eq!(render("{not a key}", &modules, &colors), "not a key");
    assert_eq!(render("{#}", &modules, &colors), "#");
}

#[test]
fn end_to_end_template_line() {
    let mut text = full_color_yaml();
    text.push_str("base00: \"ff0000\"\n");
    // yaml keeps the last value of a repeated key
    let colors = load_color_scheme(&text).unwrap();
    let files = vec![(String::from("greet"), String::from("hello\n"))];
    let modules = build_module_table(&files);
    let out = render("color={#00} mod={#greet}", &modules, &colors);
    assert_eq!(out, "color=ff0000 mod=hello");
}

#[test]
fn splitting_ignores_brace_pairing() {
    let colors = load_color_scheme(&full_color_yaml()).unwrap();
    let modules = empty_modules();
    // segments come from splitting on both braces, paired or not
    assert_eq!(render("a}#0{b", &modules, &colors), "ac0c0c0b");
    assert_eq!(render("}{", &modules, &colors), "");
    assert_eq!(render("{{#0}}", &modules, &colors), "c0c0c0");
}

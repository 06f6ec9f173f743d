use ricer::colors::load_color_scheme;
use ricer::modules::build_module_table;
use ricer::pipeline::{load_and_render, run_pipeline, RawEntry};
use ricer::tree::ConfigHome;
use ricer::ColorError;

fn s(text: &str) -> String {
    String::from(text)
}

fn full_color_yaml() -> String {
    let mut text = String::new();
    for d in "0123456789abcdef".chars() {
        if d == '0' {
            text.push_str("base00: \"ff0000\"\n");
        } else {
            text.push_str(&format!("base0{}: \"cccccc\"\n", d));
        }
    }
    text
}

#[test]
fn end_to_end_profile_apply_and_render() {
    let mut home = ConfigHome::new();
    home.add_profile(&s("p")).unwrap();
    home.add_conf_in_profile(
        &s("p"),
        &s("bar"),
        &s("/home/u/.barrc"),
        Some(&s("color={#00} mod={#greet}")),
    )
    .unwrap();
    home.apply_profile(&s("p")).unwrap();

    let current = home.current_profile();
    let mut raw: Vec<RawEntry> = Vec::new();
    let mut i: usize = 0;
    while i < current.len() {
        raw.push(RawEntry {
            name: current.name_at(i).clone(),
            is_dir: true,
            template: Some(current.entry_at(i).template.clone()),
            target: Some(current.entry_at(i).target.clone()),
        });
        i += 1;
    }

    let colors = load_color_scheme(&full_color_yaml()).unwrap();
    let files = vec![(s("greet"), s("hello\n"))];
    let modules = build_module_table(&files);
    let (outs, skipped) = run_pipeline(&raw, &modules, &colors);
    assert!(skipped.is_empty());
    assert_eq!(outs.len(), 1);
    assert_eq!(outs[0].name.as_str(), "bar");
    assert_eq!(outs[0].target.as_str(), "/home/u/.barrc");
    assert_eq!(outs[0].rendered.as_str(), "color=ff0000 mod=hello");
}

#[test]
fn broken_entries_are_skipped_not_fatal() {
    let raw = vec![
        RawEntry {
            name: s("good"),
            is_dir: true,
            template: Some(s("{#0}")),
            target: Some(s("/t/good")),
        },
        RawEntry { name: s("nodir"), is_dir: false, template: Some(s("x")), target: Some(s("/t/n")) },
        RawEntry { name: s("notmpl"), is_dir: true, template: None, target: Some(s("/t/m")) },
        RawEntry { name: s("notarget"), is_dir: true, template: Some(s("x")), target: None },
    ];
    let colors = load_color_scheme(&full_color_yaml()).unwrap();
    let modules = build_module_table(&Vec::new());
    let (outs, skipped) = run_pipeline(&raw, &modules, &colors);
    assert_eq!(outs.len(), 1);
    assert_eq!(outs[0].name.as_str(), "good");
    assert_eq!(outs[0].rendered.as_str(), "ff0000");
    let names: Vec<&str> = skipped.iter().map(|n| n.as_str()).collect();
    assert_eq!(names, vec!["nodir", "notmpl", "notarget"]);
}

#[test]
fn load_and_render_reports_color_errors() {
    let raw: Vec<RawEntry> = Vec::new();
    let files: Vec<(String, String)> = Vec::new();
    match load_and_render("- not a mapping\n", &files, &raw) {
        Err(ColorError::MalformedColorData) => {},
        other => panic!("expected MalformedColorData, got {:?}", other.map(|_| ())),
    }
    match load_and_render("base00: only\n", &files, &raw) {
        Err(ColorError::IncompleteColorScheme) => {},
        other => panic!("expected IncompleteColorScheme, got {:?}", other.map(|_| ())),
    }
    match load_and_render(&full_color_yaml(), &files, &raw) {
        Ok((outs, skipped)) => {
            assert!(outs.is_empty());
            assert!(skipped.is_empty());
        },
        Err(e) => panic!("expected success, got {:?}", e),
    }
}

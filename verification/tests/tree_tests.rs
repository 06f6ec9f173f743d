use ricer::tree::{add_conf, ConfigHome, Profile};
use ricer::{ProfileError, RegistryError};

fn s(text: &str) -> String {
    String::from(text)
}

#[test]
fn add_profile_then_duplicate_fails() {
    let mut home = ConfigHome::new();
    assert!(!home.profile_exists(&s("work")));
    assert_eq!(home.add_profile(&s("work")), Ok(()));
    assert!(home.profile_exists(&s("work")));
    assert_eq!(home.add_profile(&s("work")), Err(ProfileError::AlreadyExists));
}

#[test]
fn del_profile_removes_and_then_fails() {
    let mut home = ConfigHome::new();
    home.add_profile(&s("work")).unwrap();
    assert_eq!(home.del_profile(&s("work")), Ok(()));
    assert!(!home.profile_exists(&s("work")));
    assert_eq!(home.del_profile(&s("work")), Err(ProfileError::ProfileNotFound));
}

#[test]
fn add_conf_checks_source_and_duplicates() {
    let mut dest = Profile::new();
    let content = s("some config text");
    assert_eq!(
        add_conf(&s("vim"), &s("/home/u/.vimrc"), None, &mut dest),
        Err(RegistryError::SourceMissing)
    );
    assert_eq!(add_conf(&s("vim"), &s("/home/u/.vimrc"), Some(&content), &mut dest), Ok(()));
    let entry = dest.get(&s("vim")).unwrap();
    assert_eq!(entry.template.as_str(), "some config text");
    assert_eq!(entry.target.as_str(), "/home/u/.vimrc");
    assert_eq!(
        add_conf(&s("vim"), &s("/home/u/.vimrc"), Some(&content), &mut dest),
        Err(RegistryError::EntryAlreadyExists)
    );
}

#[test]
fn apply_profile_overwrites_and_retains() {
    let mut home = ConfigHome::new();
    // current already holds X (old content) and Z
    home.add_conf_current(&s("x"), &s("/t/x"), Some(&s("old x"))).unwrap();
    home.add_conf_current(&s("z"), &s("/t/z"), Some(&s("z text"))).unwrap();
    // profile p holds X (new content) and Y
    home.add_profile(&s("p")).unwrap();
    home.add_conf_in_profile(&s("p"), &s("x"), &s("/t/x"), Some(&s("new x"))).unwrap();
    home.add_conf_in_profile(&s("p"), &s("y"), &s("/t/y"), Some(&s("y text"))).unwrap();

    assert_eq!(home.apply_profile(&s("p")), Ok(()));

    let current = home.current_profile();
    assert_eq!(current.get(&s("x")).unwrap().template.as_str(), "new x");
    assert_eq!(current.get(&s("y")).unwrap().template.as_str(), "y text");
    assert_eq!(current.get(&s("z")).unwrap().template.as_str(), "z text");
}

#[test]
fn apply_missing_profile_fails() {
    let mut home = ConfigHome::new();
    assert_eq!(home.apply_profile(&s("ghostly")), Err(ProfileError::ProfileNotFound));
}

#[test]
fn del_conf_global_removes_everywhere_then_fails() {
    let mut home = ConfigHome::new();
    home.add_profile(&s("a")).unwrap();
    home.add_profile(&s("b")).unwrap();
    home.add_conf_in_profile(&s("a"), &s("foo"), &s("/t/foo"), Some(&s("fa"))).unwrap();
    home.add_conf_in_profile(&s("b"), &s("foo"), &s("/t/foo"), Some(&s("fb"))).unwrap();
    home.add_conf_in_profile(&s("b"), &s("bar"), &s("/t/bar"), Some(&s("bb"))).unwrap();
    home.add_conf_current(&s("foo"), &s("/t/foo"), Some(&s("fc"))).unwrap();

    assert_eq!(home.del_conf_global(&s("foo")), Ok(()));

    assert!(home.get_profile(&s("a")).unwrap().get(&s("foo")).is_none());
    assert!(home.get_profile(&s("b")).unwrap().get(&s("foo")).is_none());
    assert!(home.current_profile().get(&s("foo")).is_none());
    // the unrelated entry survives
    assert!(home.get_profile(&s("b")).unwrap().get(&s("bar")).is_some());
    // a fresh global removal finds nothing
    assert_eq!(home.del_conf_global(&s("foo")), Err(RegistryError::ConfigNotFound));
}

#[test]
fn del_conf_profile_only_touches_that_profile() {
    let mut home = ConfigHome::new();
    home.add_profile(&s("a")).unwrap();
    home.add_profile(&s("b")).unwrap();
    home.add_conf_in_profile(&s("a"), &s("foo"), &s("/t/foo"), Some(&s("fa"))).unwrap();
    home.add_conf_in_profile(&s("b"), &s("foo"), &s("/t/foo"), Some(&s("fb"))).unwrap();

    assert_eq!(home.del_conf_profile(&s("foo"), &s("a")), Ok(()));
    assert!(home.get_profile(&s("a")).unwrap().get(&s("foo")).is_none());
    assert!(home.get_profile(&s("b")).unwrap().get(&s("foo")).is_some());

    assert_eq!(home.del_conf_profile(&s("foo"), &s("a")), Err(RegistryError::ConfigNotFound));
    assert_eq!(
        home.del_conf_profile(&s("foo"), &s("nope")),
        Err(RegistryError::ConfigNotFound)
    );
}

#[test]
fn del_conf_global_found_only_in_current() {
    let mut home = ConfigHome::new();
    home.add_profile(&s("a")).unwrap();
    home.add_conf_current(&s("foo"), &s("/t/foo"), Some(&s("fc"))).unwrap();
    assert_eq!(home.del_conf_global(&s("foo")), Ok(()));
    assert!(home.current_profile().get(&s("foo")).is_none());
}

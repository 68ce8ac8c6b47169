use rs_build::config::{Config, ConfigError, Repositories};

fn s(x: &str) -> String {
    x.to_string()
}

#[test]
fn insert_keeps_names_in_order() {
    let mut r = Repositories::new();
    assert_eq!(r.insert(s("zeta"), s("/z")), None);
    assert_eq!(r.insert(s("alpha"), s("/a")), None);
    assert_eq!(r.insert(s("mid"), s("/m")), None);
    assert_eq!(r.len(), 3);
    assert_eq!(
        r.entries(),
        vec![(s("alpha"), s("/a")), (s("mid"), s("/m")), (s("zeta"), s("/z"))]
    );
}

#[test]
fn get_after_insert_gives_the_path() {
    let mut r = Repositories::new();
    r.insert(s("a"), s("/1"));
    assert_eq!(r.insert(s("a"), s("/2")), Some(s("/1")));
    assert_eq!(r.get(&s("a")), Some(s("/2")));
    assert_eq!(r.get(&s("b")), None);
    assert!(r.contains_key(&s("a")));
    assert!(!r.contains_key(&s("b")));
    assert_eq!(r.len(), 1);
}

#[test]
fn remove_takes_the_name_out() {
    let mut r = Repositories::new();
    r.insert(s("a"), s("/1"));
    r.insert(s("b"), s("/2"));
    assert_eq!(r.remove(&s("a")), Some(s("/1")));
    assert_eq!(r.remove(&s("a")), None);
    assert_eq!(r.get(&s("a")), None);
    assert_eq!(r.get(&s("b")), Some(s("/2")));
    assert_eq!(r.entries(), vec![(s("b"), s("/2"))]);
}

#[test]
fn from_pairs_acts_as_a_btree_map() {
    let pairs = vec![(s("web"), s("/w")), (s("api"), s("/a")), (s("web"), s("/w2"))];
    let c = Config::from_pairs(pairs.clone());
    let expected: std::collections::BTreeMap<String, String> = pairs.into_iter().collect();
    assert_eq!(c.repositories.entries(), expected.into_iter().collect::<Vec<_>>());
}

#[test]
fn config_error_texts() {
    assert_eq!(ConfigError::BadConfig.description(), "Problem within repo_config.toml!");
    assert_eq!(ConfigError::BadConfig.to_string(), "Bad config!");
    let io = ConfigError::IO(std::io::Error::new(std::io::ErrorKind::NotFound, "no file"));
    assert_eq!(io.description(), "I/O Error!");
    assert_eq!(io.to_string(), "no file");
}

use envrun::dotenv::Assignment;
use envrun::environment::Environment;

fn var(key: &str, value: &str) -> Assignment {
    Assignment { key: key.to_string(), value: value.to_string() }
}

fn sorted(env: &Environment) -> Vec<(String, String)> {
    let mut v: Vec<(String, String)> = env.vars().into_iter().map(|a| (a.key, a.value)).collect();
    v.sort();
    v
}

#[test]
fn loading_twice_equals_loading_once() {
    let content = "A=1\nB=2\nA=3\n";
    let mut once = Environment::from_assignments(&vec![var("A", "0"), var("Z", "9")]);
    once.load(content);
    let mut twice = Environment::from_assignments(&vec![var("A", "0"), var("Z", "9")]);
    twice.load(content);
    twice.load(content);
    assert_eq!(sorted(&once), sorted(&twice));
    assert_eq!(once.get(&"A".to_string()), Some("3".to_string()));
}

#[test]
fn later_file_overrides_earlier() {
    let mut env = Environment::new();
    env.load("K=first\nONLY1=x\n");
    env.load("K=second\n");
    assert_eq!(env.get(&"K".to_string()), Some("second".to_string()));
    assert_eq!(env.get(&"ONLY1".to_string()), Some("x".to_string()));
}

#[test]
fn clear_then_load_keeps_only_the_file() {
    let mut env = Environment::from_assignments(&vec![var("K", "inherited"), var("HOME", "/root")]);
    env.clear();
    assert_eq!(env.len(), 0);
    env.load("K=V\n");
    assert_eq!(sorted(&env), vec![("K".to_string(), "V".to_string())]);
}

#[test]
fn file_overrides_inherited_value() {
    let mut env = Environment::from_assignments(&vec![var("K", "inherited")]);
    let malformed = env.load("# header\nK=V\noops\n");
    assert_eq!(env.get(&"K".to_string()), Some("V".to_string()));
    assert_eq!(malformed, vec![2]);
    assert_eq!(env.len(), 1);
}

#[test]
fn set_get_and_len() {
    let mut env = Environment::new();
    assert_eq!(env.get(&"A".to_string()), None);
    env.set("A".to_string(), "1".to_string());
    env.set("B".to_string(), "2".to_string());
    env.set("A".to_string(), "3".to_string());
    assert_eq!(env.len(), 2);
    assert_eq!(env.get(&"A".to_string()), Some("3".to_string()));
    assert_eq!(
        sorted(&env),
        vec![("A".to_string(), "3".to_string()), ("B".to_string(), "2".to_string())]
    );
}

#[test]
fn keys_are_case_sensitive() {
    let mut env = Environment::new();
    env.load("path=a\nPATH=b\n");
    assert_eq!(env.len(), 2);
    assert_eq!(env.get(&"path".to_string()), Some("a".to_string()));
}

#[test]
fn later_duplicate_wins_when_built() {
    let env = Environment::from_assignments(&vec![var("A", "1"), var("A", "2")]);
    assert_eq!(env.len(), 1);
    assert_eq!(env.get(&"A".to_string()), Some("2".to_string()));
}

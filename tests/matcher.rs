use bot_core::matcher::{Key, Matchable, Matcher};
use bot_core::pattern::{Captures, Pattern, RegexPattern};
use std::sync::Arc;

#[derive(Clone, Debug)]
struct Command {
    key: Key,
    pattern: Pattern,
    body: String,
}

impl Matchable for Command {
    fn key(&self) -> &Key {
        &self.key
    }

    fn pattern(&self) -> &Pattern {
        &self.pattern
    }
}

fn command(channel: &str, name: &str, pattern: Option<&str>, body: &str) -> Arc<Command> {
    Arc::new(Command {
        key: Key::new(channel, name),
        pattern: Pattern::from_db(pattern).expect("valid pattern"),
        body: body.to_string(),
    })
}

fn body_of(r: Option<(&Arc<Command>, Captures)>) -> Option<String> {
    r.map(|(c, _)| c.body.clone())
}

#[test]
fn key_new_lowercases_name_only() {
    let k = Key::new("Chan", "FoO");
    assert_eq!(k.channel, "Chan");
    assert_eq!(k.name, "foo");
}

#[test]
fn exact_name_resolves_with_empty_captures() {
    let mut m = Matcher::new();
    m.insert(Key::new("c", "foo"), command("c", "foo", None, "foo!"));
    let (cmd, caps) = m.resolve("c", Some("foo"), "foo bar").expect("match");
    assert_eq!(cmd.body, "foo!");
    assert!(!caps.is_match());
    assert_eq!(caps.len(), 0);
    let (cmd, _) = m.resolve("c", Some("FOO"), "FOO bar").expect("case folded match");
    assert_eq!(cmd.body, "foo!");
}

#[test]
fn exact_name_is_scoped_to_channel() {
    let mut m = Matcher::new();
    m.insert(Key::new("c", "foo"), command("c", "foo", None, "foo!"));
    assert!(m.resolve("d", Some("foo"), "foo bar").is_none());
    assert!(m.resolve("c", None, "foo bar").is_none());
}

#[test]
fn regex_resolves_with_capture_group() {
    let mut m = Matcher::new();
    m.insert(Key::new("c", "bar"), command("c", "bar", Some(r"^bar (\d+)$"), "bar!"));
    let (cmd, caps) = m.resolve("c", Some("bar"), "bar 42").expect("match");
    assert_eq!(cmd.body, "bar!");
    assert!(caps.is_match());
    assert_eq!(caps.len(), 2);
    assert_eq!(caps.get(0), Some("bar 42"));
    assert_eq!(caps.get(1), Some("42"));
    assert_eq!(caps.get(2), None);
    assert!(m.resolve("c", Some("bar"), "bar x").is_none());
    assert!(m.resolve("other", Some("bar"), "bar 42").is_none());
}

#[test]
fn exact_name_wins_over_regex() {
    let mut m = Matcher::new();
    m.insert(Key::new("c", "re"), command("c", "re", Some("^foo"), "regex"));
    m.insert(Key::new("c", "foo"), command("c", "foo", None, "name"));
    assert_eq!(body_of(m.resolve("c", Some("foo"), "foo bar")), Some("name".to_string()));
    assert_eq!(body_of(m.resolve("c", Some("fooz"), "fooz")), Some("regex".to_string()));
}

#[test]
fn first_registered_regex_wins() {
    let mut m = Matcher::new();
    m.insert(Key::new("c", "a"), command("c", "a", Some("x"), "first"));
    m.insert(Key::new("c", "b"), command("c", "b", Some("x+"), "second"));
    assert_eq!(body_of(m.resolve("c", None, "xx")), Some("first".to_string()));
    m.remove(&Key::new("c", "a"));
    assert_eq!(body_of(m.resolve("c", None, "xx")), Some("second".to_string()));
}

#[test]
fn modify_regex_to_name_moves_index() {
    let mut m = Matcher::new();
    m.insert(Key::new("c", "bar"), command("c", "bar", Some(r"^bar (\d+)$"), "bar!"));
    assert!(m.resolve("c", Some("bar"), "bar 42").is_some());
    let old = m.get(&Key::new("c", "bar")).expect("present").clone();
    m.modify_with_pattern(Key::new("c", "bar"), None, |mut c: Command, p: Pattern| {
        c.pattern = p;
        c.body = "changed".to_string();
        c
    });
    // the old handle keeps the old value
    assert_eq!(old.body, "bar!");
    assert!(matches!(old.pattern, Pattern::Regex { .. }));
    // only the name path finds it now
    assert!(m.resolve("c", None, "bar 42").is_none());
    assert!(m.resolve("c", Some("baz"), "bar 42").is_none());
    let (cmd, caps) = m.resolve("c", Some("bar"), "bar 42").expect("by name");
    assert_eq!(cmd.body, "changed");
    assert!(!caps.is_match());
}

#[test]
fn modify_name_to_regex_moves_index() {
    let mut m = Matcher::new();
    m.insert(Key::new("c", "foo"), command("c", "foo", None, "foo!"));
    let re = RegexPattern::new(r"^go (\w+)$").expect("valid");
    m.modify_with_pattern(Key::new("c", "foo"), Some(re), |mut c: Command, p: Pattern| {
        c.pattern = p;
        c
    });
    assert!(m.resolve("c", Some("foo"), "foo bar").is_none());
    let (cmd, caps) = m.resolve("c", Some("go"), "go home").expect("by regex");
    assert_eq!(cmd.body, "foo!");
    assert_eq!(caps.get(1), Some("home"));
}

#[test]
fn modify_name_to_name_is_noop() {
    let mut m = Matcher::new();
    m.insert(Key::new("c", "foo"), command("c", "foo", None, "foo!"));
    m.modify_with_pattern(Key::new("c", "foo"), None, |mut c: Command, p: Pattern| {
        c.pattern = p;
        c.body = "changed".to_string();
        c
    });
    assert_eq!(m.get(&Key::new("c", "foo")).expect("present").body, "foo!");
}

#[test]
fn modify_absent_key_is_noop() {
    let mut m: Matcher<Command> = Matcher::new();
    m.modify_with_pattern(Key::new("c", "foo"), None, |c: Command, _p: Pattern| c);
    assert!(!m.contains_key(&Key::new("c", "foo")));
    assert_eq!(m.values().len(), 0);
}

#[test]
fn remove_absent_key_changes_nothing() {
    let mut m = Matcher::new();
    m.insert(Key::new("c", "foo"), command("c", "foo", None, "foo!"));
    m.insert(Key::new("c", "bar"), command("c", "bar", Some("^bar"), "bar!"));
    assert!(m.remove(&Key::new("c", "nope")).is_none());
    assert!(m.remove(&Key::new("d", "foo")).is_none());
    assert_eq!(m.values().len(), 2);
    assert!(m.resolve("c", Some("foo"), "foo").is_some());
    assert!(m.resolve("c", None, "bar").is_some());
}

#[test]
fn remove_present_key_returns_value_and_unindexes() {
    let mut m = Matcher::new();
    m.insert(Key::new("c", "bar"), command("c", "bar", Some("^bar"), "bar!"));
    let removed = m.remove(&Key::new("c", "bar")).expect("present");
    assert_eq!(removed.body, "bar!");
    assert!(!m.contains_key(&Key::new("c", "bar")));
    assert!(m.resolve("c", None, "bar").is_none());
}

#[test]
fn insert_same_key_replaces_value_and_index() {
    let mut m = Matcher::new();
    m.insert(Key::new("c", "foo"), command("c", "foo", Some("^zz"), "regex"));
    m.insert(Key::new("c", "foo"), command("c", "foo", None, "name"));
    assert_eq!(m.values().len(), 1);
    assert!(m.resolve("c", None, "zz").is_none());
    assert_eq!(body_of(m.resolve("c", Some("foo"), "foo")), Some("name".to_string()));
}

#[test]
fn iter_and_values_in_registration_order() {
    let mut m = Matcher::new();
    m.insert(Key::new("c", "b"), command("c", "b", None, "1"));
    m.insert(Key::new("c", "a"), command("c", "a", None, "2"));
    let keys: Vec<String> = m.iter().into_iter().map(|(k, _)| k.name.clone()).collect();
    assert_eq!(keys, vec!["b".to_string(), "a".to_string()]);
    let bodies: Vec<String> = m.values().into_iter().map(|v| v.body.clone()).collect();
    assert_eq!(bodies, vec!["1".to_string(), "2".to_string()]);
}

#[test]
fn invalid_regex_is_refused() {
    assert!(Pattern::from_db(Some("(unclosed")).is_err());
    assert!(RegexPattern::new("[a-").is_err());
    assert!(matches!(Pattern::from_db(None), Ok(Pattern::Name)));
}

#[test]
fn describe_pattern() {
    assert_eq!(Pattern::from_db(None).unwrap().describe(), "*name*");
    assert_eq!(Pattern::from_db(Some(r"^a\d$")).unwrap().describe(), r"^a\d$");
    assert_eq!(RegexPattern::new("x+").unwrap().as_str(), "x+");
}

#[test]
fn captures_direct() {
    let re = RegexPattern::new(r"(a)(b)?").unwrap();
    let caps = re.captures("xa");
    assert!(caps.is_match());
    assert_eq!(caps.len(), 3);
    assert_eq!(caps.get(1), Some("a"));
    assert_eq!(caps.get(2), None);
    assert!(!re.captures("zzz").is_match());
    assert_eq!(Captures::empty().len(), 0);
}

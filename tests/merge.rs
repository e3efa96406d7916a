use yiarg::arg::{App, Desc, Error, Layer, Source};
use yiarg::merge::{arg_matches, resolve_arg, ArgMatch};
use yiarg::path::resolve_path;
use yiarg::store::{Store, Value};

fn text(s: &str) -> Value {
    Value::Text(s.to_string())
}

fn is_text(v: Option<Value>, s: &str) -> bool {
    matches!(v, Some(Value::Text(t)) if t == s)
}

fn is_flag(v: Option<Value>, b: bool) -> bool {
    matches!(v, Some(Value::Flag(f)) if f == b)
}

fn given(v: Option<&str>) -> ArgMatch {
    ArgMatch { occurrences: 1, value: v.map(|s| s.to_string()) }
}

fn absent(default: Option<&str>) -> ArgMatch {
    ArgMatch { occurrences: 0, value: default.map(|s| s.to_string()) }
}

fn keys(ks: &[&str]) -> Vec<String> {
    ks.iter().map(|k| k.to_string()).collect()
}

#[test]
fn scratch() {
    (|| -> Result<(), std::str::ParseBoolError> { Ok(assert!(true, "{}", "on".parse::<bool>()?)) })()
        .err()
        .map_or((), |e| println!("{}", e));
}

#[test]
fn store_set_and_get() {
    let mut s = Store::new();
    assert!(!s.has("a.b"));
    s.set("a.b", text("x"));
    s.set("c", Value::Flag(true));
    s.set("a.b", text("y"));
    assert!(is_text(s.get("a.b"), "y"));
    assert!(is_flag(s.get("c"), true));
    assert!(s.get("a").is_none());
}

#[test]
fn store_get_bool_reads_text() {
    let mut s = Store::new();
    s.set("t", text("true"));
    s.set("f", text("false"));
    s.set("n", text("9090"));
    s.set("b", Value::Flag(false));
    assert_eq!(s.get_bool("t"), Some(true));
    assert_eq!(s.get_bool("f"), Some(false));
    assert_eq!(s.get_bool("n"), None);
    assert_eq!(s.get_bool("b"), Some(false));
    assert_eq!(s.get_bool("missing"), None);
}

#[test]
fn merge_layer_last_wins() {
    let mut s = Store::new();
    s.set("a", text("old"));
    s.set("keep", text("k"));
    let layer: Layer = vec![("a".to_string(), text("1")), ("a".to_string(), text("2"))];
    s.merge_layer(&layer);
    assert!(is_text(s.get("a"), "2"));
    assert!(is_text(s.get("keep"), "k"));
}

#[test]
fn merge_layer_twice_same_as_once() {
    let layer: Layer = vec![("server.port".to_string(), text("8080")), ("x".to_string(), Value::Flag(true))];
    let mut once = Store::new();
    once.merge_layer(&layer);
    let mut twice = Store::new();
    twice.merge_layer(&layer);
    twice.merge_layer(&layer);
    for k in ["server.port", "x", "y"] {
        assert_eq!(format!("{:?}", once.get(k).map(|v| value_text(&v))), format!("{:?}", twice.get(k).map(|v| value_text(&v))));
    }
    assert!(is_text(twice.get("server.port"), "8080"));
}

fn value_text(v: &Value) -> String {
    match v {
        Value::Text(t) => format!("text {}", t),
        Value::Int(i) => format!("int {}", i),
        Value::Flag(b) => format!("flag {}", b),
    }
}

#[test]
fn explicit_argument_wins_over_file() {
    let mut s = Store::new();
    s.set("server.port", text("8080"));
    arg_matches(&keys(&["server.", "port"]), &vec![absent(None), given(Some("9090"))], &mut s);
    assert!(is_text(s.get("server.port"), "9090"));
}

#[test]
fn default_does_not_clobber_environment() {
    let mut s = Store::new();
    s.set("spawn", Value::Flag(true));
    arg_matches(&keys(&["spawn"]), &vec![absent(Some("false"))], &mut s);
    assert!(is_flag(s.get("spawn"), true));
}

#[test]
fn gap_filled_by_default_or_false() {
    let mut s = Store::new();
    arg_matches(&keys(&["level", "quiet"]), &vec![absent(Some("3")), absent(None)], &mut s);
    assert!(is_text(s.get("level"), "3"));
    assert!(is_flag(s.get("quiet"), false));
}

#[test]
fn switch_given_without_value_is_true() {
    let mut s = Store::new();
    s.set("quiet", Value::Flag(false));
    arg_matches(&keys(&["quiet"]), &vec![given(None)], &mut s);
    assert!(is_flag(s.get("quiet"), true));
}

#[test]
fn prefix_key_sets_no_value() {
    let mut s = Store::new();
    arg_matches(&keys(&["db.", "host", "net.", "host"]), &vec![given(None), given(Some("h1")), absent(None), absent(Some("h2"))], &mut s);
    assert!(s.get("db.").is_none());
    assert!(is_text(s.get("db.host"), "h1"));
    assert!(is_text(s.get("net.host"), "h2"));
    assert!(s.get("host").is_none());
}

#[test]
fn resolve_arg_cases() {
    assert!(is_text(resolve_arg(&given(Some("v")), true), "v"));
    assert!(is_flag(resolve_arg(&given(None), true), true));
    assert!(resolve_arg(&absent(Some("d")), true).is_none());
    assert!(is_text(resolve_arg(&absent(Some("d")), false), "d"));
    assert!(is_flag(resolve_arg(&absent(None), false), false));
}

#[test]
fn relative_and_absolute_paths() {
    assert_eq!(resolve_path("/opt/app", "cfg/app.toml"), "/opt/app/cfg/app.toml");
    assert_eq!(resolve_path("/opt/app/", "cfg/app.toml"), "/opt/app/cfg/app.toml");
    assert_eq!(resolve_path("/opt/app", "/etc/app.toml"), "/etc/app.toml");
    assert_eq!(resolve_path("", "a.toml"), "a.toml");
}

#[test]
fn sources_resolve_file_paths() {
    let app = App::new("demo", "/opt/app");
    let descs = vec![
        Desc::Version("1".to_string()),
        Desc::File("cfg/app.toml".to_string()),
        Desc::Env("APP".to_string()),
        Desc::File("/etc/app.toml".to_string()),
    ];
    let s = app.sources(&descs);
    assert_eq!(s.len(), 3);
    assert!(matches!(&s[0], Source::File(p) if p == "/opt/app/cfg/app.toml"));
    assert!(matches!(&s[1], Source::Env(e) if e == "APP"));
    assert!(matches!(&s[2], Source::File(p) if p == "/etc/app.toml"));
}

fn verbose_app(occurrences: u64) -> App {
    let app = App::new("demo", "/opt/app");
    let units: Vec<(String, Vec<Layer>)> = vec![("demo".to_string(), vec![])];
    app.config(&units, &keys(&["verbose"]), &vec![ArgMatch { occurrences, value: None }])
}

#[test]
fn verbose_end_to_end() {
    assert_eq!(verbose_app(0).get_args().get_bool("verbose"), Some(false));
    assert_eq!(verbose_app(1).get_args().get_bool("verbose"), Some(true));
}

#[test]
fn config_keeps_units_apart() {
    let app = App::new("demo", "/base");
    let units: Vec<(String, Vec<Layer>)> = vec![
        ("demo".to_string(), vec![vec![("port".to_string(), text("8080"))]]),
        ("sub".to_string(), vec![vec![("x".to_string(), text("1"))], vec![("x".to_string(), text("2"))]]),
    ];
    let app = app.config(&units, &keys(&["port"]), &vec![absent(Some("80"))]);
    assert!(is_text(app.get_arg("port"), "8080"));
    assert!(is_text(app.unit("sub").unwrap().get("x"), "2"));
    assert!(app.unit("demo").is_none());
    assert!(app.unit("other").is_none());
    assert_eq!(app.name(), "demo");
    assert_eq!(app.cdir(), "/base");
}

fn spawn_app(spawn: Option<Value>) -> App {
    let app = App::new("demo", "/base");
    let layer: Layer = match spawn {
        Some(v) => vec![("spawn".to_string(), v)],
        None => vec![],
    };
    let units: Vec<(String, Vec<Layer>)> = vec![("demo".to_string(), vec![layer])];
    app.config(&units, &vec![], &vec![])
}

#[test]
fn spawn_requested_without_guard() {
    let plan = spawn_app(Some(Value::Flag(true))).spwan(false).unwrap();
    assert_eq!(plan.log_path, "/base/log/demo.log");
    assert_eq!(plan.err_path, "/base/log/demo.log");
}

#[test]
fn guard_prevents_respawn() {
    assert!(spawn_app(Some(Value::Flag(true))).spwan(true).is_none());
    assert!(spawn_app(Some(text("true"))).spwan(true).is_none());
}

#[test]
fn no_spawn_unless_switched_on() {
    assert!(spawn_app(Some(Value::Flag(false))).spwan(false).is_none());
    assert!(spawn_app(None).spwan(false).is_none());
    assert!(spawn_app(Some(text("true"))).spwan(false).is_some());
}

#[test]
fn filepath_below_base() {
    let app = App::new("demo", "/base");
    assert_eq!(app.filepath("log/x.pid"), "/base/log/x.pid");
    assert_eq!(app.filepath("/tmp/x"), "/tmp/x");
}

#[test]
fn error_messages() {
    assert_eq!(Error::File.message(), "loading from file");
    assert_eq!(Error::Env.message(), "loading from environment");
    assert_eq!(Error::CmdArg.message(), "failed to match command argument");
    assert_eq!(Error::LogFile.message(), "file to log");
    assert_eq!(Error::ErrFile.message(), "file to error");
}

#[test]
fn spawn_reads_config_booleans() {
    for t in ["1", "yes", "TRUE", "On", "true"] {
        assert!(spawn_app(Some(text(t))).spwan(false).is_some(), "{}", t);
    }
    for t in ["0", "no", "False", "OFF", "maybe", ""] {
        assert!(spawn_app(Some(text(t))).spwan(false).is_none(), "{}", t);
    }
    assert!(spawn_app(Some(Value::Int(2))).spwan(false).is_some());
    assert!(spawn_app(Some(Value::Int(0))).spwan(false).is_none());
    assert!(spawn_app(Some(text("1"))).spwan(true).is_none());
}

#[test]
fn get_bool_follows_config_reading() {
    let mut s = Store::new();
    s.set("a", text("YES"));
    s.set("b", text("Off"));
    s.set("c", Value::Int(-3));
    s.set("d", Value::Int(0));
    s.set("e", text("2"));
    assert_eq!(s.get_bool("a"), Some(true));
    assert_eq!(s.get_bool("b"), Some(false));
    assert_eq!(s.get_bool("c"), Some(true));
    assert_eq!(s.get_bool("d"), Some(false));
    assert_eq!(s.get_bool("e"), None);
}

#[test]
fn keys_are_case_insensitive() {
    let mut s = Store::new();
    s.set("Server.Port", text("8080"));
    assert!(s.has("server.port"));
    assert!(is_text(s.get("SERVER.PORT"), "8080"));
    let mut t = Store::new();
    t.set("port", text("1"));
    arg_matches(&keys(&["Port"]), &vec![absent(Some("80"))], &mut t);
    assert!(is_text(t.get("port"), "1"));
    arg_matches(&keys(&["Port"]), &vec![given(Some("9"))], &mut t);
    assert!(is_text(t.get("port"), "9"));
}

#[test]
fn config_same_layer_twice_as_once() {
    let l: Layer = vec![("a".to_string(), text("1")), ("b".to_string(), Value::Flag(true))];
    let twice: Vec<(String, Vec<Layer>)> = vec![("sub".to_string(), vec![l.clone_layer(), l.clone_layer()])];
    let once: Vec<(String, Vec<Layer>)> = vec![("sub".to_string(), vec![l.clone_layer()])];
    let a1 = App::new("demo", "/base").config(&twice, &vec![], &vec![]);
    let a2 = App::new("demo", "/base").config(&once, &vec![], &vec![]);
    for k in ["a", "b", "c"] {
        let v1 = a1.unit("sub").unwrap().get(k).map(|v| value_text(&v));
        let v2 = a2.unit("sub").unwrap().get(k).map(|v| value_text(&v));
        assert_eq!(v1, v2);
    }
}

trait CloneLayer {
    fn clone_layer(&self) -> Layer;
}

impl CloneLayer for Layer {
    fn clone_layer(&self) -> Layer {
        self.iter().map(|(k, v)| (k.clone(), v.duplicate())).collect()
    }
}

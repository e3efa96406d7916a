use yiarg::arg::Desc;
use yiarg::desc::{app_info, arg_spec};
use yiarg::store::{Store, Value};

fn s(v: &str) -> String {
    v.to_string()
}

#[test]
fn arg_spec_derives_names_from_key() {
    let descs = vec![
        Desc::Short(s("p")),
        Desc::Long_,
        Desc::ValueName_,
        Desc::Help(s("port to listen on")),
        Desc::Default(s("80")),
        Desc::File(s("ignored.toml")),
    ];
    let spec = arg_spec("port", &descs);
    assert_eq!(spec.name, "port");
    assert_eq!(spec.short.as_deref(), Some("p"));
    assert_eq!(spec.long.as_deref(), Some("port"));
    assert_eq!(spec.value_names, vec![s("port")]);
    assert_eq!(spec.help.as_deref(), Some("port to listen on"));
    assert_eq!(spec.default.as_deref(), Some("80"));
    assert_eq!(spec.index, None);
    assert!(!spec.multiple);
    assert!(!spec.required);
}

#[test]
fn arg_spec_later_wins_and_names_add_up() {
    let descs = vec![
        Desc::Long(s("first")),
        Desc::Long(s("second")),
        Desc::ValueName(s("A")),
        Desc::ValueName(s("B")),
        Desc::Index(1),
        Desc::Required,
        Desc::Multiple,
    ];
    let spec = arg_spec("files", &descs);
    assert_eq!(spec.long.as_deref(), Some("second"));
    assert_eq!(spec.value_names, vec![s("A"), s("B")]);
    assert_eq!(spec.index, Some(1));
    assert!(spec.required);
    assert!(spec.multiple);
}

#[test]
fn app_info_collects_texts() {
    let descs = vec![
        Desc::Version(s("0.1")),
        Desc::Author(s("someone")),
        Desc::About(s("does things")),
        Desc::Version(s("0.2")),
        Desc::Env(s("APP")),
    ];
    let info = app_info(&descs);
    assert_eq!(info.version.as_deref(), Some("0.2"));
    assert_eq!(info.author.as_deref(), Some("someone"));
    assert_eq!(info.about.as_deref(), Some("does things"));
    let none = app_info(&vec![]);
    assert!(none.version.is_none() && none.author.is_none() && none.about.is_none());
}

#[test]
fn to_layer_rebuilds_store() {
    let mut a = Store::new();
    a.set("x", Value::Text(s("1")));
    a.set("x", Value::Text(s("2")));
    a.set("y", Value::Flag(true));
    let mut b = Store::new();
    b.merge_layer(&a.to_layer());
    assert!(matches!(b.get("x"), Some(Value::Text(t)) if t == "2"));
    assert!(matches!(b.get("y"), Some(Value::Flag(true))));
    assert!(b.get("z").is_none());
}

use tokio_console::config::{ColorToggles, Palette};
use tokio_console::fields::{Field, FieldValue};
use tokio_console::intern::Strings;
use tokio_console::styles::Styles;

fn styles() -> Styles {
    Styles {
        palette: Palette::All,
        toggles: ColorToggles { color_durations: None, color_terminated: None },
        utf8: true,
    }
}

#[test]
fn field_values_show_as_text() {
    assert_eq!(FieldValue::Bool(true).to_string(), "true");
    assert_eq!(FieldValue::U64(42).to_string(), "42");
    assert_eq!(FieldValue::I64(-7).to_string(), "-7");
    assert_eq!(FieldValue::I64(i64::MIN).to_string(), "-9223372036854775808");
    assert_eq!(FieldValue::Str("hi".to_string()).to_string(), "hi");
    assert!(FieldValue::Debug(String::new()).ensure_nonempty().is_none());
    assert!(FieldValue::U64(0).ensure_nonempty().is_some());
}

#[test]
fn registry_paths_in_values_are_shortened() {
    let v = FieldValue::Str(
        "/home/user/.cargo/registry/src/github.com-1ecc6299db9ec823/tokio-1.0.1/src/lib.rs:10:5"
            .to_string(),
    );
    match v.truncate_registry_path() {
        FieldValue::Debug(s) => assert_eq!(s, "<cargo>/tokio-1.0.1/src/lib.rs:10:5"),
        _ => panic!("a string value becomes a debug value"),
    }
    assert!(matches!(FieldValue::U64(3).truncate_registry_path(), FieldValue::U64(3)));
}

#[test]
fn fields_sort_with_the_name_first_and_the_location_last() {
    let mut strings = Strings::new();
    let mut fields = vec![
        Field::new(strings.string("spawn.location".to_string()), FieldValue::Str("a.rs:1:1".to_string())),
        Field::new(strings.string("zeta".to_string()), FieldValue::U64(1)),
        Field::new(strings.string("task.name".to_string()), FieldValue::Str("w".to_string())),
        Field::new(strings.string("alpha".to_string()), FieldValue::Bool(false)),
    ];
    let formatted = Field::make_formatted(&styles(), &mut fields);
    let names: Vec<String> = fields.iter().map(|f| f.name.to_string()).collect();
    assert_eq!(names, vec!["task.name", "alpha", "zeta", "spawn.location"]);
    assert_eq!(formatted.len(), 4);
    let texts: Vec<String> = formatted[1].iter().map(|s| s.content.clone()).collect();
    assert_eq!(texts, vec!["alpha", "=", "false "]);
}

#[test]
fn interned_strings_compare_by_text() {
    let mut strings = Strings::new();
    let a = strings.string("tokio::task".to_string());
    let b = strings.string("tokio::task".to_string());
    assert_eq!(a.as_str(), b.as_str());
    assert!(a.eq_str("tokio::task"));
    assert!(!a.eq_str("tokio"));
}

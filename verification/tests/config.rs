use tokio_console::config::{
    default_log_directory, default_target_addr, duration_numbers_small_text, parse_true_color, union_warnings, AllowedWarnings,
    ColorToggles, ColorsConfig, Config, ConfigError, ConfigFile, KnownWarnings, LogFilter, Palette,
    RetainFor, ViewOptions,
};
use tokio_console::time::Duration;

fn options() -> ViewOptions {
    ViewOptions {
        lang: None,
        ascii_only: None,
        no_colors: false,
        truecolor: None,
        palette: None,
        toggles: ColorToggles { color_durations: None, color_terminated: None },
    }
}

fn explicit(a: &AllowedWarnings) -> Vec<KnownWarnings> {
    match a {
        AllowedWarnings::All => panic!("expected explicit warnings"),
        AllowedWarnings::Explicit(v) => v.clone(),
    }
}

#[test]
fn palettes_are_read_from_their_names() {
    assert_eq!(Palette::from_str("0"), Ok(Palette::NoColors));
    assert_eq!(Palette::from_str("8"), Ok(Palette::Ansi8));
    assert_eq!(Palette::from_str(" 16 "), Ok(Palette::Ansi16));
    assert_eq!(Palette::from_str("256\n"), Ok(Palette::Ansi256));
    assert_eq!(Palette::from_str("ALL"), Ok(Palette::All));
    assert_eq!(Palette::from_str("Off"), Ok(Palette::NoColors));
    assert_eq!(Palette::from_str("24"), Err("invalid color palette"));
    assert_eq!(Palette::from_str(""), Err("invalid color palette"));
}

#[test]
fn true_color_is_announced_as_truecolor_or_24bit() {
    assert!(parse_true_color("truecolor"));
    assert!(parse_true_color(" 24BIT "));
    assert!(!parse_true_color("256"));
    assert!(!parse_true_color(""));
}

#[test]
fn warnings_read_back_from_their_names() {
    let all = [
        KnownWarnings::SelfWakes,
        KnownWarnings::LostWaker,
        KnownWarnings::NeverYielded,
        KnownWarnings::AutoBoxedFuture,
        KnownWarnings::LargeFuture,
    ];
    for w in all {
        assert_eq!(KnownWarnings::from_str(w.to_str()), Ok(w));
    }
    assert_eq!(KnownWarnings::SelfWakes.to_str(), "self-wakes");
    assert_eq!(KnownWarnings::LargeFuture.to_str(), "large-future");
    assert_eq!(
        KnownWarnings::from_str("busy-loop"),
        Err("unknown warning: busy-loop".to_string())
    );
    assert_eq!(KnownWarnings::default_enabled_warnings(), all.to_vec());
}

#[test]
fn warnings_are_merged_in_order_each_once() {
    let a = [KnownWarnings::NeverYielded, KnownWarnings::SelfWakes];
    let b = [KnownWarnings::SelfWakes, KnownWarnings::LostWaker];
    assert_eq!(
        union_warnings(&a, &b),
        vec![KnownWarnings::SelfWakes, KnownWarnings::LostWaker, KnownWarnings::NeverYielded]
    );
    assert_eq!(union_warnings(&[], &[]), Vec::<KnownWarnings>::new());
}

#[test]
fn allowed_warnings_are_all_or_a_list() {
    assert!(matches!(AllowedWarnings::from_str("all"), Ok(AllowedWarnings::All)));
    let a = AllowedWarnings::from_str("lost-waker,self-wakes,lost-waker").unwrap();
    assert_eq!(explicit(&a), vec![KnownWarnings::SelfWakes, KnownWarnings::LostWaker]);
    match AllowedWarnings::from_str("self-wakes,spin") {
        Err(e) => assert_eq!(e, "failed to parse warning: unknown warning: spin"),
        Ok(_) => panic!("an unknown warning must be refused"),
    }
}

#[test]
fn allowed_warnings_merge_to_the_union() {
    let a = AllowedWarnings::from_str("self-wakes").unwrap();
    let b = AllowedWarnings::from_str("large-future,self-wakes").unwrap();
    let m = a.merge(&b);
    assert_eq!(explicit(&m), vec![KnownWarnings::SelfWakes, KnownWarnings::LargeFuture]);
    let m2 = b.merge(&a);
    assert_eq!(explicit(&m2), explicit(&m));
    assert!(matches!(a.merge(&AllowedWarnings::All), AllowedWarnings::All));
    assert!(matches!(AllowedWarnings::All.merge(&a), AllowedWarnings::All));
    assert_eq!(explicit(&a.copy()), explicit(&a));
}

#[test]
fn retention_is_none_or_a_human_duration() {
    assert!(matches!(RetainFor::from_str("none"), Ok(RetainFor(None))));
    assert!(matches!(RetainFor::from_str("NONE"), Ok(RetainFor(None))));
    match RetainFor::from_str("5s") {
        Ok(RetainFor(Some(d))) => assert_eq!(d, Duration::from_secs(5)),
        _ => panic!("5s is a duration"),
    }
    match RetainFor::from_str("2min 30s") {
        Ok(RetainFor(Some(d))) => assert_eq!(d, Duration::from_secs(150)),
        _ => panic!("2min 30s is a duration"),
    }
    assert!(RetainFor::from_str("soon").is_err());
    assert_eq!(RetainFor::default().to_string(), "6s");
    assert_eq!(RetainFor(None).to_string(), "");
    assert_eq!(RetainFor(Some(Duration::from_nanos(1_500_000_000))).to_string(), "1.5s");
}

#[test]
fn log_filters_are_read_and_written_back() {
    let off = LogFilter::off();
    assert_eq!(off.to_string(), "off");
    let f = LogFilter::from_str("tokio=info").unwrap();
    assert_eq!(f.default_level, None);
    assert_eq!(f.targets, vec![("tokio".to_string(), "info".to_string())]);
    assert_eq!(f.to_string(), "tokio=info");
    let g = LogFilter::from_str("warn").unwrap();
    assert_eq!(g.default_level, Some("warn".to_string()));
    assert_eq!(g.copy().to_string(), "warn");
    assert!(LogFilter::from_str("tokio=loud").is_none());
}

#[test]
fn default_configuration() {
    let c = Config::default();
    assert_eq!(c.target_addr, Some(default_target_addr()));
    assert_eq!(default_target_addr(), "http://127.0.0.1:6669");
    assert_eq!(c.log_directory, Some(default_log_directory()));
    assert_eq!(default_log_directory(), "/tmp/tokio-console/logs");
    assert_eq!(c.log_filter.as_ref().unwrap().to_string(), "off");
    assert_eq!(c.warnings, KnownWarnings::default_enabled_warnings());
    assert!(c.allow_warnings.is_none());
    assert_eq!(c.retain_for(), Some(Duration::from_secs(6)));
    assert_eq!(c.view_options.palette, Some(Palette::All));
    assert_eq!(c.view_options.lang, Some("en_us.UTF-8".to_string()));
}

#[test]
fn command_line_settings_win_when_merged() {
    let base = Config::default();
    let mut other = Config::default();
    other.target_addr = Some("http://localhost:1234".to_string());
    other.log_directory = None;
    other.warnings = vec![KnownWarnings::LostWaker];
    other.retain_for = Some(RetainFor(None));
    other.view_options = options();
    other.view_options.palette = Some(Palette::Ansi8);
    let merged = base.merge_with(other);
    assert_eq!(merged.target_addr, Some("http://localhost:1234".to_string()));
    assert_eq!(merged.log_directory, Some(default_log_directory()));
    assert_eq!(merged.warnings, KnownWarnings::default_enabled_warnings());
    assert!(matches!(merged.retain_for, Some(RetainFor(None))));
    assert_eq!(merged.retain_for(), None);
    assert_eq!(merged.view_options.palette, Some(Palette::Ansi8));
    assert_eq!(merged.view_options.truecolor, Some(true));
}

#[test]
fn target_address_must_be_a_uri_with_a_known_scheme() {
    let c = Config::default();
    assert_eq!(c.target_addr().unwrap(), "http://127.0.0.1:6669/");
    let mut d = Config::default();
    d.target_addr = Some("ftp://example.com".to_string());
    assert!(matches!(d.target_addr(), Err(ConfigError::TargetAddrScheme(_))));
    d.target_addr = Some("http://[::1".to_string());
    assert!(matches!(d.target_addr(), Err(ConfigError::TargetAddrNotUri(_))));
    d.target_addr = Some("https://console.example:443".to_string());
    assert_eq!(d.target_addr().unwrap(), "https://console.example:443/");
}

#[test]
fn view_options_decide_the_palette_and_charset() {
    let mut o = options();
    assert_eq!(o.determine_palette(Some("256")), Palette::Ansi256);
    assert_eq!(o.determine_palette(Some("garbage")), Palette::NoColors);
    assert_eq!(o.determine_palette(None), Palette::NoColors);
    o.truecolor = Some(true);
    assert_eq!(o.determine_palette(Some("8")), Palette::All);
    o.palette = Some(Palette::Ansi16);
    assert_eq!(o.determine_palette(Some("8")), Palette::Ansi16);
    o.no_colors = true;
    assert_eq!(o.determine_palette(Some("8")), Palette::NoColors);
    assert!(!o.is_utf8());
    o.lang = Some("en_US.UTF-8".to_string());
    assert!(o.is_utf8());
    o.ascii_only = Some(true);
    assert!(!o.is_utf8());
}

#[test]
fn configuration_files_are_read_and_written() {
    let mut file = ConfigFile::from_config(Config::default());
    assert_eq!(file.log, Some("off".to_string()));
    assert_eq!(file.no_colors(), Some(false));
    assert_eq!(file.color_durations(), Some(false));
    let c = Config::try_from_file(ConfigFile::from_config(Config::default())).unwrap();
    assert_eq!(c.target_addr, Some("http://127.0.0.1:6669/".to_string()));
    assert!(c.log_filter.is_none());
    assert_eq!(c.view_options.palette, Some(Palette::All));
    file.log = Some("tokio=loud".to_string());
    assert!(matches!(Config::try_from_file(file), Err(ConfigError::LogFilter(_))));
    let colors = ColorsConfig { enabled: Some(false), truecolor: None, palette: None, enable: None };
    assert_eq!(colors.enabled, Some(false));
}

#[test]
fn duration_texts_with_huge_numbers_are_told_apart() {
    assert!(duration_numbers_small_text("5s"));
    assert!(duration_numbers_small_text("2min 30s"));
    assert!(duration_numbers_small_text("100000000000s"));
    assert!(!duration_numbers_small_text("100000000001s"));
    // Digits split by whitespace alone are one number.
    assert!(!duration_numbers_small_text("1 000 000 000 000s"));
    // The numbers of all parts add up.
    assert!(!duration_numbers_small_text("60000000000s 60000000000ms"));
    assert!(!duration_numbers_small_text("18446744073709551615s 1000000000ns"));
    assert!(duration_numbers_small_text("soon"));
    assert!(duration_numbers_small_text(""));
}

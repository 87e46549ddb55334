use tokio_console::config::{ColorToggles, Palette, ViewOptions};
use tokio_console::styles::{
    padded_chars, replace_micros, Border, Color, FormattedDuration, Modifier, Style, Styles,
};
use tokio_console::time::Duration;

fn styles(palette: Palette, utf8: bool) -> Styles {
    Styles { palette, toggles: ColorToggles { color_durations: None, color_terminated: None }, utf8 }
}

fn secs(s: u64) -> Duration {
    Duration::from_secs(s)
}

fn text(f: FormattedDuration) -> String {
    f.into_inner()
}

#[test]
fn long_durations_are_written_in_days_hours_and_minutes() {
    let s = styles(Palette::All, true);
    assert_eq!(text(s.duration_text(secs(100 * 86400 + 5), 0, 2)), "100d");
    assert_eq!(text(s.duration_text(secs(3 * 86400 + 4 * 3600 + 59), 0, 2)), "3d04h");
    assert_eq!(text(s.duration_text(secs(2 * 3600 + 5 * 60 + 7), 0, 2)), "2h05m");
    assert_eq!(text(s.duration_text(secs(90), 0, 2)), "1m30s");
    assert_eq!(text(s.duration_text(secs(90), 8, 2)), "   1m30s");
    assert_eq!(text(s.duration_text(secs(150 * 86400), 5, 2)), "  150d");
    assert!(matches!(s.duration_text(secs(7200), 0, 2), FormattedDuration::HoursMinutes(_)));
    assert!(matches!(s.duration_text(secs(86400), 0, 2), FormattedDuration::DaysHours(_)));
}

#[test]
fn short_durations_use_the_debug_format() {
    let s = styles(Palette::All, true);
    assert_eq!(text(s.duration_text(Duration::from_nanos(1_500_000_000), 0, 2)), "1.50s");
    assert_eq!(text(s.duration_text(Duration::from_nanos(123_000), 0, 2)), "123.00µs");
    assert_eq!(text(s.duration_text(Duration::from_nanos(42), 8, 1)), "  42.0ns");
    let ascii = styles(Palette::All, false);
    assert_eq!(text(ascii.duration_text(Duration::from_nanos(123_000), 0, 2)), "123.00us");
    assert!(matches!(ascii.duration_text(secs(59), 0, 2), FormattedDuration::Debug(_)));
}

#[test]
fn durations_are_colored_by_unit() {
    let all = styles(Palette::All, true);
    let ns = all.time_units(Duration::from_nanos(42), 2, None);
    assert_eq!(ns.content, "42.00ns");
    assert_eq!(ns.style, Style::plain().fg(Color::Indexed(41)));
    let us = styles(Palette::Ansi8, false).time_units(Duration::from_nanos(5_000), 0, None);
    assert_eq!(us.content, "5us");
    assert_eq!(us.style, Style::plain().fg(Color::Yellow));
    let ms = styles(Palette::Ansi16, true).time_units(Duration::from_nanos(3_000_000), 1, Some(7));
    assert_eq!(ms.content, "  3.0ms");
    assert_eq!(ms.style, Style::plain().fg(Color::Red));
    let days = all.time_units(secs(200 * 86400), 2, None);
    assert_eq!(days.style, Style::plain().fg(Color::Indexed(37)));
    let plain = styles(Palette::NoColors, true).time_units(Duration::from_nanos(42), 2, None);
    assert_eq!(plain.style, Style::plain());
    let mut off = styles(Palette::All, true);
    off.toggles.color_durations = Some(true);
    assert_eq!(off.time_units(Duration::from_nanos(42), 2, None).style, Style::plain());
}

#[test]
fn palettes_map_colors() {
    assert_eq!(styles(Palette::All, true).color(Color::Rgb(1, 2, 3)), Some(Color::Rgb(1, 2, 3)));
    assert_eq!(styles(Palette::Ansi256, true).color(Color::Rgb(1, 2, 3)), None);
    assert_eq!(styles(Palette::Ansi256, true).color(Color::Indexed(9)), Some(Color::Indexed(9)));
    assert_eq!(styles(Palette::Ansi16, true).color(Color::Indexed(9)), None);
    assert_eq!(styles(Palette::Ansi16, true).color(Color::LightRed), Some(Color::LightRed));
    assert_eq!(styles(Palette::Ansi8, true).color(Color::LightRed), Some(Color::Red));
    assert_eq!(styles(Palette::Ansi8, true).color(Color::Cyan), Some(Color::Cyan));
    assert_eq!(styles(Palette::NoColors, true).color(Color::Cyan), None);
    assert_eq!(styles(Palette::NoColors, true).fg(Color::Cyan), Style::plain());
    assert_eq!(styles(Palette::Ansi8, true).fg(Color::LightBlue), Style::plain().fg(Color::Blue));
}

#[test]
fn signs_and_borders_follow_the_charset() {
    let utf8 = styles(Palette::All, true);
    let ascii = styles(Palette::All, false);
    assert_eq!(utf8.warning_wide().content, "\u{26A0} ");
    assert_eq!(ascii.warning_wide().content, "/!\\ ");
    assert_eq!(ascii.warning_narrow().content, "! ");
    assert_eq!(
        utf8.warning_wide().style,
        Style::plain().fg(Color::LightYellow).add_modifier(Modifier::bold())
    );
    assert_eq!(utf8.ascending("Total").content, "Total\u{25B5}");
    assert_eq!(ascii.descending("Total").content, "Total-");
    assert_eq!(ascii.ascending("Total").content, "Total+");
    assert_eq!(utf8.selected("ID").style, Style::plain().fg(Color::Cyan));
    assert_eq!(
        styles(Palette::NoColors, false).selected("ID").style,
        Style::plain().remove_modifier(Modifier::reversed())
    );
    assert_eq!(utf8.border_block(), Border::RoundedAll);
    assert_eq!(ascii.border_block(), Border::NoBorders);
    assert_eq!(utf8.if_utf8("µ", "u"), "µ");
    assert_eq!(ascii.if_utf8("µ", "u"), "u");
}

#[test]
fn terminated_tasks_are_dim_unless_toggled_off() {
    let s = styles(Palette::All, true);
    assert_eq!(s.terminated(), Style::plain().add_modifier(Modifier::dim()));
    let mut off = s;
    off.toggles.color_terminated = Some(true);
    assert_eq!(off.terminated(), Style::plain());
}

#[test]
fn styles_come_from_the_options() {
    let o = ViewOptions {
        lang: Some("en_US.UTF-8".to_string()),
        ascii_only: None,
        no_colors: false,
        truecolor: None,
        palette: None,
        toggles: ColorToggles { color_durations: None, color_terminated: None },
    };
    let s = Styles::from_config(o, Some("256"));
    assert_eq!(s.palette, Palette::Ansi256);
    assert!(s.utf8);
}

#[test]
fn padding_and_micros() {
    let a: Vec<char> = "ab".chars().collect();
    assert_eq!(padded_chars(&a, 4).into_iter().collect::<String>(), "  ab");
    assert_eq!(padded_chars(&a, 1).into_iter().collect::<String>(), "ab");
    let m: Vec<char> = "12.5µs".chars().collect();
    assert_eq!(replace_micros(&m).into_iter().collect::<String>(), "12.5us");
    let n: Vec<char> = "3ms".chars().collect();
    assert_eq!(replace_micros(&n).into_iter().collect::<String>(), "3ms");
}

#[test]
fn style_modifiers_combine() {
    let both = Modifier::bold().union(&Modifier::dim());
    assert!(both.bold && both.dim && !both.reversed);
    assert_eq!(both.without(&Modifier::bold()), Modifier::dim());
    assert_eq!(Modifier::empty(), Modifier { bold: false, dim: false, reversed: false });
}

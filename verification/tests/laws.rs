//! Concrete cases of the properties that the library proves in general.
use tokio_console::config::{AllowedWarnings, KnownWarnings, Palette};
use tokio_console::styles::{replace_micros, Color, Styles};
use tokio_console::config::ColorToggles;
use tokio_console::tasks::SortBy;
use tokio_console::util::percent_of;
use tokio_console::view::{TableListState, Width};
use tokio_console::store::Ids;

#[test]
fn every_warning_name_reads_back() {
    for w in [
        KnownWarnings::SelfWakes,
        KnownWarnings::LostWaker,
        KnownWarnings::NeverYielded,
        KnownWarnings::AutoBoxedFuture,
        KnownWarnings::LargeFuture,
    ] {
        assert_eq!(KnownWarnings::from_str(w.to_str()), Ok(w));
    }
    assert_ne!(KnownWarnings::SelfWakes.to_str(), KnownWarnings::LostWaker.to_str());
}

#[test]
fn every_palette_reads_back_from_its_file_name() {
    assert_eq!(Palette::from_str("off"), Ok(Palette::NoColors));
    assert_eq!(Palette::from_str("8"), Ok(Palette::Ansi8));
    assert_eq!(Palette::from_str("16"), Ok(Palette::Ansi16));
    assert_eq!(Palette::from_str("256"), Ok(Palette::Ansi256));
    assert_eq!(Palette::from_str("all"), Ok(Palette::All));
}

fn explicit(a: &AllowedWarnings) -> Vec<KnownWarnings> {
    match a {
        AllowedWarnings::All => vec![],
        AllowedWarnings::Explicit(v) => v.clone(),
    }
}

#[test]
fn merging_allowed_warnings_is_order_free() {
    let a = AllowedWarnings::from_str("self-wakes").unwrap();
    let b = AllowedWarnings::from_str("lost-waker").unwrap();
    let c = AllowedWarnings::from_str("never-yielded,self-wakes").unwrap();
    assert_eq!(explicit(&a.merge(&b)), explicit(&b.merge(&a)));
    assert_eq!(explicit(&a.merge(&b).merge(&c)), explicit(&a.merge(&b.merge(&c))));
    assert_eq!(explicit(&c.merge(&c)), explicit(&c));
}

#[test]
fn scrolling_down_then_up_comes_back() {
    let mut t: TableListState<SortBy> = TableListState::new(12);
    t.sorted_items = vec![1, 2, 3];
    for start in 0..3 {
        t.selected = Some(start);
        t.scroll_next();
        t.scroll_prev();
        assert_eq!(t.selected, Some(start));
        t.scroll_prev();
        t.scroll_next();
        assert_eq!(t.selected, Some(start));
    }
}

#[test]
fn column_widths_grow_the_same_in_any_order() {
    let mut a = Width::new(5);
    a.update_len(12);
    a.update_len(8);
    let mut b = Width::new(5);
    b.update_len(8);
    b.update_len(12);
    assert_eq!(a, b);
    assert_eq!(a.chars(), 12);
}

#[test]
fn palettes_show_only_supported_colors() {
    let s = |p| Styles { palette: p, toggles: ColorToggles { color_durations: None, color_terminated: None }, utf8: true };
    assert_eq!(s(Palette::NoColors).color(Color::Red), None);
    assert_eq!(s(Palette::Ansi256).color(Color::Rgb(0, 0, 0)), None);
    assert_eq!(s(Palette::Ansi16).color(Color::Indexed(200)), None);
    assert_eq!(s(Palette::Ansi8).color(Color::LightGreen), Some(Color::Green));
}

#[test]
fn no_micros_are_left_for_ascii_terminals() {
    let v: Vec<char> = "1.20µs".chars().collect();
    let once = replace_micros(&v);
    assert_eq!(once.iter().collect::<String>(), "1.20us");
    assert_eq!(replace_micros(&once), once);
}

#[test]
fn a_part_is_at_most_all_of_the_whole() {
    for total in 1..50u64 {
        for amount in 0..=total {
            assert!(percent_of(amount, total) <= 100);
        }
    }
}

#[test]
fn ids_are_sequential_and_stable() {
    let mut ids: Ids<u8> = Ids::new();
    let a = ids.id_for(40);
    let b = ids.id_for(7);
    assert_eq!(a.as_u64(), 1);
    assert_eq!(b.as_u64(), 2);
    assert_eq!(ids.id_for(40).as_u64(), 1);
    assert_eq!(ids.id_for(99).as_u64(), 3);
    assert_eq!(ids.get(7).map(|i| i.as_u64()), Some(2));
    assert!(ids.get(8).is_none());
}

use flyover::scope::{footer_text, legend_entries, legend_fits, scope_title, status_text, RenderMode, CONTROLS};
use flyover::theme::Palette;

#[test]
fn toggled_switches_modes() {
    assert_eq!(RenderMode::Sixel.toggled(), RenderMode::Braille);
    assert_eq!(RenderMode::Braille.toggled(), RenderMode::Sixel);
    assert_eq!(RenderMode::Sixel.toggled().toggled(), RenderMode::Sixel);
}

#[test]
fn footer_shows_status_when_it_fits() {
    assert_eq!(footer_text(80, "↻7s"), format!("{CONTROLS}   ↻7s "));
    // 15 + 5 bytes ("↻7s" is five bytes) + 4 = 24.
    assert_eq!(footer_text(24, "↻7s"), format!("{CONTROLS}   ↻7s "));
    assert_eq!(footer_text(23, "↻7s"), format!("{CONTROLS} "));
    assert_eq!(footer_text(0, ""), "q   +/-   0   v ");
}

#[test]
fn legend_needs_more_than_its_width() {
    let p = Palette::default();
    let e = legend_entries(&p);
    assert_eq!(e.len(), 7);
    assert_eq!(e[0], ("Airliner", p.foreground));
    assert_eq!(e[6], ("▼ Descent", p.descent));
    let width: usize = e.iter().map(|(l, _)| l.len()).sum::<usize>() + (e.len() - 1) * 2;
    assert_eq!(width, 73);
    assert!(!legend_fits(73, &e));
    assert!(legend_fits(74, &e));
    assert!(!legend_fits(10, &e));
}

#[test]
fn titles() {
    assert_eq!(
        scope_title("Hays, KS", 12, Some(40)),
        " flyover — Hays, KS — 12 contact(s) — 40nm range "
    );
    assert_eq!(scope_title("Home", 0, None), " flyover — Home — 0 contact(s) ");
}

#[test]
fn statuses() {
    assert_eq!(status_text(true, Some(4)), "err");
    assert_eq!(status_text(false, Some(4)), "↻4s");
    assert_eq!(status_text(false, Some(10)), "↻10s");
    assert_eq!(status_text(false, None), "…");
}

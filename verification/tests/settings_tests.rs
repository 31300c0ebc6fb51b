use qcdesigner::app_settings::{AppSettings, ThemeMode};

#[test]
fn default_theme_is_light() {
    assert_eq!(AppSettings::default().theme, ThemeMode::Light);
}

#[test]
fn toggling_twice_gives_the_theme_back() {
    let mut s = AppSettings::default();
    s.toggle_theme();
    assert_eq!(s.theme, ThemeMode::Dark);
    s.toggle_theme();
    assert_eq!(s.theme, ThemeMode::Light);
}

#[test]
fn explicit_theme_choice() {
    let mut s = AppSettings::default();
    s.set_dark_theme();
    assert_eq!(s.theme, ThemeMode::Dark);
    s.set_dark_theme();
    assert_eq!(s.theme, ThemeMode::Dark);
    s.set_light_theme();
    assert_eq!(s.theme, ThemeMode::Light);
}

use focus_garden::input::{handle_key, InputAction, Key};
use focus_garden::theme::{Color, Theme, ThemeVariant, THEME_COUNT};

#[test]
fn keys_stand_for_actions() {
    assert_eq!(handle_key(Key::Char('1')), Some(InputAction::Tab(1)));
    assert_eq!(handle_key(Key::Char('2')), Some(InputAction::Tab(2)));
    assert_eq!(handle_key(Key::Char('3')), Some(InputAction::Tab(3)));
    assert_eq!(handle_key(Key::Char('4')), Some(InputAction::Tab(4)));
    assert_eq!(handle_key(Key::Left), Some(InputAction::Left));
    assert_eq!(handle_key(Key::Right), Some(InputAction::Right));
    assert_eq!(handle_key(Key::Up), Some(InputAction::Up));
    assert_eq!(handle_key(Key::Down), Some(InputAction::Down));
    assert_eq!(handle_key(Key::Char(' ')), Some(InputAction::Space));
    assert_eq!(handle_key(Key::Char('p')), Some(InputAction::Pause));
    assert_eq!(handle_key(Key::Char('s')), Some(InputAction::Stop));
    assert_eq!(handle_key(Key::Char('S')), Some(InputAction::Stop));
    assert_eq!(handle_key(Key::Char('q')), Some(InputAction::Quit));
    assert_eq!(handle_key(Key::Char('Q')), Some(InputAction::Quit));
    assert_eq!(handle_key(Key::Enter), Some(InputAction::Enter));
    assert_eq!(handle_key(Key::Delete), Some(InputAction::Delete));
    assert_eq!(handle_key(Key::Backspace), Some(InputAction::Delete));
}

#[test]
fn other_keys_stand_for_nothing() {
    assert_eq!(handle_key(Key::Other), None);
    assert_eq!(handle_key(Key::Char('0')), None);
    assert_eq!(handle_key(Key::Char('5')), None);
    assert_eq!(handle_key(Key::Char('P')), None);
    assert_eq!(handle_key(Key::Char('x')), None);
    assert_eq!(handle_key(Key::Char('\n')), None);
}

#[test]
fn system_theme_uses_the_colours_of_the_terminal() {
    let theme = Theme::new(ThemeVariant::System);
    assert_eq!(theme.tabs, Color::White);
    assert_eq!(theme.blocks, Color::White);
    assert_eq!(theme.text, Color::White);
    assert_eq!(theme.secondary_text, Color::Gray);
    assert_eq!(theme.highlight, Color::Yellow);
    assert_eq!(theme.timer_text, Color::White);
    assert_eq!(theme.gauge_running, Color::Yellow);
    assert_eq!(theme.gauge_paused, Color::Magenta);
    assert_eq!(theme.gauge_finished, Color::Green);
    assert_eq!(theme.rose, Color::Yellow);
    assert_eq!(theme.love, Color::White);
    assert_eq!(theme.foam, Color::Yellow);
    assert_eq!(theme.pine, Color::White);
    assert_eq!(theme.vertical_value, Color::White);
}

#[test]
fn rose_pine_themes_give_their_colours() {
    let light = Theme::new(ThemeVariant::RosePineLight);
    assert_eq!(light.tabs, Color::Rgb(152, 147, 165));
    assert_eq!(light.text, Color::Rgb(87, 82, 121));
    assert_eq!(light.secondary_text, Color::Rgb(206, 202, 205));
    assert_eq!(light.highlight, Color::Rgb(144, 122, 169));
    assert_eq!(light.timer_text, Color::Rgb(215, 130, 126));
    assert_eq!(light.gauge_paused, Color::Rgb(40, 105, 131));
    assert_eq!(light.pine, Color::Rgb(49, 116, 143));
    let dark = Theme::new(ThemeVariant::RosePineDark);
    assert_eq!(dark.tabs, Color::Rgb(57, 53, 82));
    assert_eq!(dark.blocks, Color::Rgb(224, 222, 244));
    assert_eq!(dark.secondary_text, Color::Rgb(82, 79, 103));
    assert_eq!(dark.highlight, Color::Rgb(196, 167, 231));
    assert_eq!(dark.gauge_running, Color::Rgb(234, 154, 151));
    assert_eq!(dark.gauge_finished, Color::Rgb(62, 143, 176));
    assert_eq!(dark.love, Color::Rgb(235, 111, 146));
    assert_eq!(dark.foam, Color::Rgb(156, 207, 216));
    assert_eq!(dark.rose, light.rose);
}

#[test]
fn themes_have_places() {
    assert_eq!(THEME_COUNT, 3);
    let themes = [ThemeVariant::System, ThemeVariant::RosePineLight, ThemeVariant::RosePineDark];
    for (i, theme) in themes.iter().enumerate() {
        assert_eq!(theme.index(), i);
    }
}

#[test]
fn themes_step_round() {
    assert_eq!(ThemeVariant::System.step_back(1), ThemeVariant::RosePineDark);
    assert_eq!(ThemeVariant::RosePineDark.step_back(1), ThemeVariant::RosePineLight);
    assert_eq!(ThemeVariant::RosePineLight.step_back(1), ThemeVariant::System);
    assert_eq!(ThemeVariant::System.step_back(-1), ThemeVariant::RosePineLight);
    assert_eq!(ThemeVariant::RosePineLight.step_back(-1), ThemeVariant::RosePineDark);
    assert_eq!(ThemeVariant::RosePineDark.step_back(-1), ThemeVariant::System);
    assert_eq!(ThemeVariant::RosePineDark.step_back(0), ThemeVariant::RosePineDark);
    assert_eq!(ThemeVariant::System.step_back(3), ThemeVariant::System);
    assert_eq!(ThemeVariant::System.step_back(-3), ThemeVariant::System);
    assert_eq!(ThemeVariant::System.step_back(4), ThemeVariant::RosePineDark);
    assert_eq!(ThemeVariant::System.step_back(-5), ThemeVariant::RosePineDark);
    assert_eq!(ThemeVariant::System.step_back(i64::MAX), ThemeVariant::RosePineDark);
    assert_eq!(ThemeVariant::System.step_back(i64::MIN), ThemeVariant::RosePineDark);
}

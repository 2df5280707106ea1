use colnora::app::{App, EditMode};

#[test]
fn starts_in_normal_mode() {
    let app = App::new();
    assert_eq!(app.mode(), EditMode::Normal);
}

#[test]
fn normal_mode_keys() {
    let mut app = App::new();
    assert!(!app.match_normal_command('c'));
    assert_eq!(app.mode(), EditMode::Command);
    assert!(!app.match_normal_command('r'));
    assert_eq!(app.mode(), EditMode::Registers);
    assert!(!app.match_normal_command('s'));
    assert_eq!(app.mode(), EditMode::Stack);
    assert!(!app.match_normal_command('x'));
    assert_eq!(app.mode(), EditMode::Stack);
    assert!(app.match_normal_command('q'));
    assert_eq!(app.mode(), EditMode::Stack);
}

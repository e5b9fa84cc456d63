use pocket_calibre::config::Config;
use pocket_calibre::settings::{apply_answer, current_value, initial_value, save_status, show_config, Field};

fn sample() -> Config {
    Config {
        server: "http://h:8080".to_string(),
        user: Some("ann".to_string()),
        password: Some("secret".to_string()),
        library: None,
        download_dir: "/mnt/ext1/Books".to_string(),
        formats: vec!["EPUB".to_string(), "FB2".to_string()],
        limit: 50,
    }
}

#[test]
fn current_values_as_text() {
    let c = sample();
    assert_eq!(current_value(&c, Field::Server), "http://h:8080");
    assert_eq!(current_value(&c, Field::User), "ann");
    assert_eq!(current_value(&c, Field::Password), "secret");
    assert_eq!(current_value(&c, Field::Library), "");
    assert_eq!(current_value(&c, Field::DownloadDir), "/mnt/ext1/Books");
    assert_eq!(current_value(&c, Field::Formats), "EPUB,FB2");
    assert_eq!(current_value(&c, Field::Limit), "50");
}

#[test]
fn keyboard_never_shows_password() {
    let c = sample();
    assert_eq!(initial_value(&c, Field::Password), "");
    assert_eq!(initial_value(&c, Field::User), "ann");
    assert_eq!(initial_value(&c, Field::Limit), "50");
}

#[test]
fn settings_screen_texts() {
    let v = show_config(&sample());
    assert_eq!(v.server, "http://h:8080");
    assert_eq!(v.cfg_server, "http://h:8080");
    assert_eq!(v.cfg_user, "ann");
    assert_eq!(v.cfg_password, "••••••");
    assert_eq!(v.cfg_library, "—");
    assert_eq!(v.cfg_download_dir, "/mnt/ext1/Books");
    assert_eq!(v.cfg_formats, "EPUB, FB2");
    assert_eq!(v.cfg_limit, "50");
    let d = show_config(&Config::default());
    assert_eq!(d.cfg_password, "—");
    assert_eq!(d.cfg_user, "—");
}

#[test]
fn cancelled_answer_changes_nothing() {
    let mut c = sample();
    apply_answer(&mut c, Field::Server, None);
    assert_eq!(c.server, "http://h:8080");
}

#[test]
fn server_answer_trimmed_and_slashes_dropped() {
    let mut c = sample();
    apply_answer(&mut c, Field::Server, Some("  http://x:1//  ".to_string()));
    assert_eq!(c.server, "http://x:1");
    assert_eq!(c.user.as_deref(), Some("ann"));
}

#[test]
fn empty_answer_unsets_optional() {
    let mut c = sample();
    apply_answer(&mut c, Field::User, Some("   ".to_string()));
    assert_eq!(c.user, None);
    apply_answer(&mut c, Field::Library, Some(" main ".to_string()));
    assert_eq!(c.library.as_deref(), Some("main"));
    apply_answer(&mut c, Field::Password, Some("".to_string()));
    assert_eq!(c.password, None);
}

#[test]
fn empty_answer_keeps_folder_and_formats() {
    let mut c = sample();
    apply_answer(&mut c, Field::DownloadDir, Some(" ".to_string()));
    assert_eq!(c.download_dir, "/mnt/ext1/Books");
    apply_answer(&mut c, Field::Formats, Some("".to_string()));
    assert_eq!(c.formats, vec!["EPUB", "FB2"]);
    apply_answer(&mut c, Field::DownloadDir, Some(" /mnt/ext1/Мои ".to_string()));
    assert_eq!(c.download_dir, "/mnt/ext1/Мои");
}

#[test]
fn formats_answer_split_trimmed_uppercased() {
    let mut c = sample();
    apply_answer(&mut c, Field::Formats, Some(" pdf , ,epub,, mobi ".to_string()));
    assert_eq!(c.formats, vec!["PDF", "EPUB", "MOBI"]);
    apply_answer(&mut c, Field::Formats, Some(",".to_string()));
    assert_eq!(c.formats, vec!["PDF", "EPUB", "MOBI"]);
    apply_answer(&mut c, Field::Formats, Some(" , ,".to_string()));
    assert_eq!(c.formats, vec!["PDF", "EPUB", "MOBI"]);
}

#[test]
fn limit_answer_clamped() {
    let mut c = sample();
    apply_answer(&mut c, Field::Limit, Some(" 0 ".to_string()));
    assert_eq!(c.limit, 1);
    apply_answer(&mut c, Field::Limit, Some("100000".to_string()));
    assert_eq!(c.limit, 5000);
    apply_answer(&mut c, Field::Limit, Some("+300".to_string()));
    assert_eq!(c.limit, 300);
    apply_answer(&mut c, Field::Limit, Some("many".to_string()));
    assert_eq!(c.limit, 300);
}

#[test]
fn limit_round_trip() {
    let mut c = sample();
    let shown = current_value(&c, Field::Limit);
    apply_answer(&mut c, Field::Limit, Some(shown));
    assert_eq!(c.limit, 50);
}

#[test]
fn formats_round_trip() {
    let mut c = sample();
    let shown = current_value(&c, Field::Formats);
    apply_answer(&mut c, Field::Formats, Some(shown));
    assert_eq!(c.formats, vec!["EPUB", "FB2"]);
}

#[test]
fn status_after_saving() {
    assert_eq!(save_status(Ok(())), "Настройки сохранены");
    assert_eq!(
        save_status(Err("read-only".to_string())),
        "Не удалось сохранить настройки: read-only"
    );
}

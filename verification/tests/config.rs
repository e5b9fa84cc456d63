use pocket_calibre::config::{sanitize_filename, Config, HEADER};

/// The settings held by a parsed settings file; absent keys stay absent.
fn from_table(t: &toml::Table) -> Config {
    let text = |k: &str| t.get(k).and_then(|v| v.as_str()).map(|s| s.to_string());
    let formats = t.get("formats").and_then(|v| v.as_array()).map(|a| {
        a.iter()
            .map(|f| f.as_str().unwrap().to_string())
            .collect::<Vec<String>>()
    });
    let limit = t
        .get("limit")
        .and_then(|v| v.as_integer())
        .map(|n| n as usize);
    Config::from_fields(
        text("server"),
        text("user"),
        text("password"),
        text("library"),
        text("download_dir"),
        formats,
        limit,
    )
}

/// The keys of the settings file, unset optional settings left out.
fn to_table(cfg: &Config) -> toml::Table {
    let mut t = toml::Table::new();
    t.insert("server".into(), cfg.server.clone().into());
    if let Some(u) = &cfg.user {
        t.insert("user".into(), u.clone().into());
    }
    if let Some(p) = &cfg.password {
        t.insert("password".into(), p.clone().into());
    }
    if let Some(l) = &cfg.library {
        t.insert("library".into(), l.clone().into());
    }
    t.insert("download_dir".into(), cfg.download_dir.clone().into());
    t.insert(
        "formats".into(),
        toml::Value::Array(cfg.formats.iter().map(|f| f.clone().into()).collect()),
    );
    t.insert("limit".into(), (cfg.limit as i64).into());
    t
}

#[test]
fn save_and_load_round_trip() {
    let cfg = Config {
        server: "http://192.0.2.10:8080".to_string(),
        library: Some("Calibre_Library".to_string()),
        password: Some("па \"роль\" с = и #".to_string()),
        download_dir: "/mnt/ext1/Мои книги".to_string(),
        ..Default::default()
    };

    let body = toml::to_string_pretty(&to_table(&cfg)).unwrap();
    let text = Config::file_text(&body);
    let parsed = from_table(&text.parse::<toml::Table>().unwrap());

    assert_eq!(parsed.server, cfg.server);
    assert_eq!(parsed.library, cfg.library);
    assert_eq!(parsed.password, cfg.password);
    assert_eq!(parsed.download_dir, cfg.download_dir);
    assert_eq!(parsed.formats, cfg.formats);
    assert_eq!(parsed.limit, cfg.limit);
}

#[test]
fn missing_keys_fall_back_to_defaults() {
    let parsed = from_table(&"server = \"http://host:8080\"".parse::<toml::Table>().unwrap());

    assert_eq!(parsed.server, "http://host:8080");
    assert_eq!(parsed.user, None);
    assert_eq!(parsed.limit, Config::default().limit);
    assert_eq!(parsed.formats, Config::default().formats);
}

#[test]
fn defaults_are_the_documented_ones() {
    let d = Config::default();
    assert_eq!(d.server, "http://192.168.1.10:8080");
    assert_eq!(d.user, None);
    assert_eq!(d.password, None);
    assert_eq!(d.library, None);
    assert_eq!(d.download_dir, "/mnt/ext1/Books");
    assert_eq!(d.formats, vec!["FB2", "EPUB", "PDF", "MOBI"]);
    assert_eq!(d.limit, 200);
}

#[test]
fn empty_file_gives_defaults() {
    let c = Config::from_fields(None, None, None, None, None, None, None);
    let d = Config::default();
    assert_eq!(c.server, d.server);
    assert_eq!(c.user, d.user);
    assert_eq!(c.download_dir, d.download_dir);
    assert_eq!(c.formats, d.formats);
    assert_eq!(c.limit, d.limit);
}

#[test]
fn given_keys_are_kept() {
    let c = Config::from_fields(
        Some("http://a".to_string()),
        Some("u".to_string()),
        None,
        Some("lib".to_string()),
        Some("/tmp".to_string()),
        Some(vec!["EPUB".to_string()]),
        Some(7),
    );
    assert_eq!(c.server, "http://a");
    assert_eq!(c.user.as_deref(), Some("u"));
    assert_eq!(c.password, None);
    assert_eq!(c.library.as_deref(), Some("lib"));
    assert_eq!(c.download_dir, "/tmp");
    assert_eq!(c.formats, vec!["EPUB"]);
    assert_eq!(c.limit, 7);
}

#[test]
fn file_text_starts_with_header() {
    let t = Config::file_text("server = \"x\"\n");
    assert!(t.starts_with("# pocket_calibre — настройки."));
    assert_eq!(t, format!("{HEADER}server = \"x\"\n"));
    assert!(t.parse::<toml::Table>().is_ok());
}

#[test]
fn candidate_paths_in_order() {
    let p = Config::candidate_paths(Some("/mnt/ext1/applications".to_string()));
    assert_eq!(
        p,
        vec![
            "/mnt/ext1/applications/pocket_calibre.toml",
            "/mnt/ext1/applications/pocket_calibre.toml",
            "/mnt/ext1/system/config/pocket_calibre.toml",
        ]
    );
    let q = Config::candidate_paths(Some("/".to_string()));
    assert_eq!(q[0], "/pocket_calibre.toml");
    let r = Config::candidate_paths(None);
    assert_eq!(r.len(), 2);
    assert_eq!(r[0], "/mnt/ext1/applications/pocket_calibre.toml");
}

#[test]
fn fallback_target_is_first_candidate() {
    let c = vec!["/a/x.toml".to_string(), "/b".to_string()];
    assert_eq!(Config::fallback_target(&c), "/a/x.toml");
    assert_eq!(Config::fallback_target(&Vec::new()), "pocket_calibre.toml");
}

#[test]
fn settle_loaded_cases() {
    let ok = Config::settle_loaded(
        "/p.toml".to_string(),
        Ok(Config::from_fields(Some("s".into()), None, None, None, None, None, None)),
    );
    assert_eq!(ok.0.server, "s");
    assert_eq!(ok.1, "/p.toml");
    assert_eq!(ok.2, None);

    let bad = Config::settle_loaded("/p.toml".to_string(), Err("boom".to_string()));
    assert_eq!(bad.0.server, Config::default().server);
    assert_eq!(bad.1, "/p.toml");
    assert_eq!(bad.2.as_deref(), Some("Ошибка в /p.toml: boom"));
}

#[test]
fn creation_notes() {
    assert_eq!(
        Config::creation_note("/x", Ok(())),
        "Настройки не найдены — укажите адрес сервера"
    );
    assert_eq!(
        Config::creation_note("/x", Err("denied".to_string())),
        "Не удалось создать /x: denied"
    );
}

#[test]
fn sanitize_replaces_unsafe_characters() {
    assert_eq!(sanitize_filename("a/b\\c:d*e?f\"g<h>i|j"), "a_b_c_d_e_f_g_h_i_j");
    assert_eq!(sanitize_filename("tab\there"), "tab_here");
    assert_eq!(sanitize_filename("Война и мир"), "Война и мир");
}

#[test]
fn sanitize_trims_spaces_and_trailing_dots() {
    assert_eq!(sanitize_filename("  title.  "), "title");
    assert_eq!(sanitize_filename("name..."), "name");
    assert_eq!(sanitize_filename("a . ."), "a");
    assert_eq!(sanitize_filename("a ."), "a");
    assert_eq!(sanitize_filename("\u{3000}wide\u{a0}"), "wide");
}

#[test]
fn sanitize_empty_gives_book() {
    assert_eq!(sanitize_filename(""), "book");
    assert_eq!(sanitize_filename("   "), "book");
    assert_eq!(sanitize_filename("..."), "book");
}

#[test]
fn sanitize_cuts_to_120_characters() {
    let long = "я".repeat(200);
    let r = sanitize_filename(&long);
    assert_eq!(r.chars().count(), 120);
    assert_eq!(r, "я".repeat(120));
    let exact = "b".repeat(120);
    assert_eq!(sanitize_filename(&exact), exact);
    // a dot or space that the cut leaves last is dropped too
    let dotted = format!("{}.{}", "c".repeat(119), "d".repeat(10));
    assert_eq!(sanitize_filename(&dotted), "c".repeat(119));
    let spaced = format!("{} {}", "e".repeat(119), "f".repeat(10));
    assert_eq!(sanitize_filename(&spaced), "e".repeat(119));
    let dots = format!("{}x", ".".repeat(130));
    assert_eq!(sanitize_filename(&dots), "book");
}

#[test]
fn sanitize_twice_changes_nothing() {
    for name in ["a .", " x/y. ", "..", "Война и мир.fb2", &"я.".repeat(100)] {
        let once = sanitize_filename(name);
        assert_eq!(sanitize_filename(&once), once);
        assert!(!once.ends_with('.') && !once.ends_with(' '));
    }
}

#[test]
fn first_readable_file_decides() {
    let none = Config::pick_loaded(vec![("/a".to_string(), None), ("/b".to_string(), None)]);
    assert!(none.is_none());

    let reads = vec![
        ("/a".to_string(), None),
        ("/b".to_string(), Some(Err("bad".to_string()))),
        (
            "/c".to_string(),
            Some(Ok(Config::from_fields(Some("s".into()), None, None, None, None, None, None))),
        ),
    ];
    let (cfg, path, note) = Config::pick_loaded(reads).unwrap();
    assert_eq!(path, "/b");
    assert_eq!(cfg.server, Config::default().server);
    assert_eq!(note.as_deref(), Some("Ошибка в /b: bad"));

    let reads = vec![(
        "/c".to_string(),
        Some(Ok(Config::from_fields(Some("s".into()), None, None, None, None, None, None))),
    )];
    let (cfg, path, note) = Config::pick_loaded(reads).unwrap();
    assert_eq!((cfg.server.as_str(), path.as_str(), note), ("s", "/c", None));
}

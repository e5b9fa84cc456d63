use pocket_calibre::config::Config;
use pocket_calibre::worker::{Book, Cmd, Event, Msg, Request, Worker};

fn book(id: i64, title: &str, format: Option<&str>) -> Book {
    Book {
        id,
        title: title.to_string(),
        author: "A".to_string(),
        format: format.map(|f| f.to_string()),
    }
}

fn status(m: &Msg) -> Option<&str> {
    match m {
        Msg::Status(s) => Some(s.as_str()),
        _ => None,
    }
}

fn is_busy(m: &Msg, b: bool) -> bool {
    matches!(m, Msg::Busy(x) if *x == b)
}

fn listed(w: &mut Worker, books: Vec<Book>) {
    w.step(Event::Command(Cmd::Refresh));
    w.step(Event::Online(Ok(())));
    w.step(Event::Listed(Ok(books)));
}

#[test]
fn refresh_flow() {
    let mut w = Worker::new(Config::default());
    let s = w.step(Event::Command(Cmd::Refresh));
    assert_eq!(s.msgs.len(), 2);
    assert!(is_busy(&s.msgs[0], true));
    assert_eq!(status(&s.msgs[1]), Some("Проверяю сеть…"));
    assert!(matches!(s.request, Some(Request::CheckOnline)));

    let s = w.step(Event::Online(Ok(())));
    assert_eq!(status(&s.msgs[0]), Some("Загружаю список книг…"));
    assert!(matches!(s.request, Some(Request::ListBooks)));

    let s = w.step(Event::Listed(Ok(vec![book(1, "T", Some("EPUB")), book(2, "U", None)])));
    assert_eq!(s.msgs.len(), 3);
    assert_eq!(status(&s.msgs[0]), Some("Книг в списке: 2"));
    match &s.msgs[1] {
        Msg::Books(v) => assert_eq!(v.len(), 2),
        _ => panic!("expected the book list"),
    }
    assert!(is_busy(&s.msgs[2], false));
    assert!(s.request.is_none());
}

#[test]
fn refresh_offline() {
    let mut w = Worker::new(Config::default());
    w.step(Event::Command(Cmd::Refresh));
    let s = w.step(Event::Online(Err("нет сети".to_string())));
    assert_eq!(s.msgs.len(), 2);
    assert_eq!(status(&s.msgs[0]), Some("нет сети"));
    assert!(is_busy(&s.msgs[1], false));
    assert!(s.request.is_none());
}

#[test]
fn refresh_list_fails() {
    let mut w = Worker::new(Config::default());
    w.step(Event::Command(Cmd::Refresh));
    w.step(Event::Online(Ok(())));
    let s = w.step(Event::Listed(Err("500".to_string())));
    assert_eq!(status(&s.msgs[0]), Some("Не удалось получить список: 500"));
    assert!(is_busy(&s.msgs[1], false));
}

#[test]
fn download_unknown_book() {
    let mut w = Worker::new(Config::default());
    let s = w.step(Event::Command(Cmd::Download(5)));
    assert_eq!(s.msgs.len(), 3);
    assert!(is_busy(&s.msgs[0], true));
    assert_eq!(status(&s.msgs[1]), Some("Книга не найдена, обновите список"));
    assert!(is_busy(&s.msgs[2], false));
    assert!(s.request.is_none());
}

#[test]
fn download_without_format() {
    let mut w = Worker::new(Config::default());
    listed(&mut w, vec![book(2, "Без формата", None)]);
    let s = w.step(Event::Command(Cmd::Download(2)));
    assert_eq!(s.msgs.len(), 4);
    assert!(matches!(s.msgs[1], Msg::BookState(2, "нет формата")));
    assert_eq!(
        status(&s.msgs[2]),
        Some("«Без формата»: нет ни одного из нужных форматов")
    );
    assert!(is_busy(&s.msgs[3], false));
}

#[test]
fn download_success_and_failure() {
    let mut w = Worker::new(Config::default());
    listed(&mut w, vec![book(3, "Книга", Some("EPUB"))]);
    let s = w.step(Event::Command(Cmd::Download(3)));
    assert!(matches!(s.msgs[1], Msg::BookState(3, "…")));
    assert_eq!(status(&s.msgs[2]), Some("Скачиваю «Книга»…"));
    match s.request {
        Some(Request::Download(b, dir)) => {
            assert_eq!(b.id, 3);
            assert_eq!(dir, "/mnt/ext1/Books");
        }
        _ => panic!("expected a download request"),
    }
    let s = w.step(Event::Downloaded(Ok("Книга.epub".to_string())));
    assert!(matches!(s.msgs[0], Msg::BookState(3, "готово")));
    assert_eq!(status(&s.msgs[1]), Some("Сохранено: Книга.epub"));
    assert!(is_busy(&s.msgs[2], false));

    w.step(Event::Command(Cmd::Download(3)));
    let s = w.step(Event::Downloaded(Err("timeout".to_string())));
    assert!(matches!(s.msgs[0], Msg::BookState(3, "ошибка")));
    assert_eq!(status(&s.msgs[1]), Some("Ошибка загрузки: timeout"));
}

#[test]
fn download_id_cut_to_32_bits() {
    let mut w = Worker::new(Config::default());
    let big = (1i64 << 32) + 9;
    listed(&mut w, vec![book(big, "Далёкая", Some("FB2"))]);
    let s = w.step(Event::Command(Cmd::Download(9)));
    assert!(matches!(s.request, Some(Request::Download(ref b, _)) if b.id == big));
}

#[test]
fn reconfigure_forgets_books() {
    let mut w = Worker::new(Config::default());
    listed(&mut w, vec![book(1, "T", Some("EPUB"))]);
    let mut cfg = Config::default();
    cfg.download_dir = "/other".to_string();
    let s = w.step(Event::Command(Cmd::Reconfigure(cfg)));
    assert!(is_busy(&s.msgs[0], true));
    assert!(matches!(s.request, Some(Request::Reconnect)));
    assert_eq!(w.config().download_dir, "/other");
    let s = w.step(Event::Reconnected);
    assert!(matches!(&s.msgs[0], Msg::Books(v) if v.is_empty()));
    assert!(is_busy(&s.msgs[1], false));
    let s = w.step(Event::Command(Cmd::Download(1)));
    assert_eq!(status(&s.msgs[1]), Some("Книга не найдена, обновите список"));
}

#[test]
fn covers_are_fetched_silently() {
    let mut w = Worker::new(Config::default());
    let s = w.step(Event::Command(Cmd::Covers(vec![4, 5])));
    assert!(s.msgs.is_empty());
    assert!(matches!(s.request, Some(Request::Thumbnail(4, 120, 170))));
    let s = w.step(Event::Thumbnail(Some(vec![1, 2, 3])));
    assert!(s.msgs.is_empty());
    assert!(matches!(s.request, Some(Request::Thumbnail(5, 120, 170))));
    let s = w.step(Event::Thumbnail(None));
    assert!(s.msgs.is_empty());
    assert!(s.request.is_none());
    let s = w.step(Event::Command(Cmd::Covers(Vec::new())));
    assert!(s.msgs.is_empty() && s.request.is_none());
}

#[test]
fn cover_decoded_into_message() {
    let jpeg = tiny_jpeg();
    let mut w = Worker::new(Config::default());
    w.step(Event::Command(Cmd::Covers(vec![8])));
    let s = w.step(Event::Thumbnail(Some(jpeg)));
    match &s.msgs[0] {
        Msg::Cover { id, rgb, width, height } => {
            assert_eq!(*id, 8);
            assert_eq!((*width, *height), (2, 2));
            assert_eq!(rgb.len(), 12);
        }
        _ => panic!("expected a cover"),
    }
}

#[test]
fn stray_outcomes_are_ignored() {
    let mut w = Worker::new(Config::default());
    let s = w.step(Event::Online(Ok(())));
    assert!(s.msgs.is_empty() && s.request.is_none());
    let s = w.step(Event::Downloaded(Ok("x".to_string())));
    assert!(s.msgs.is_empty() && s.request.is_none());
    let s = w.step(Event::Reconnected);
    assert!(s.msgs.is_empty() && s.request.is_none());
}

fn tiny_jpeg() -> Vec<u8> {
    let mut out = Vec::new();
    let pixels = [255u8, 0, 0, 0, 255, 0, 0, 0, 255, 255, 255, 255];
    image::codecs::jpeg::JpegEncoder::new(&mut out)
        .encode(&pixels, 2, 2, image::ExtendedColorType::Rgb8)
        .unwrap();
    out
}

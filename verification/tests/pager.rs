use pocket_calibre::pager::{book_row, Pager, ScreenUpdate};
use pocket_calibre::worker::Msg;
use pocket_calibre::worker::Book;

fn book(id: i64) -> Book {
    Book {
        id,
        title: format!("T{id}"),
        author: "A".to_string(),
        format: if id % 2 == 0 { Some("EPUB".to_string()) } else { None },
    }
}

fn books(n: i64) -> Vec<Book> {
    (1..=n).map(book).collect()
}

#[test]
fn empty_list_has_one_page_and_no_label() {
    let mut p: Pager<u32> = Pager::new();
    assert_eq!(p.total_pages(), 1);
    let v = p.render();
    assert_eq!((v.start, v.end, v.page, v.total), (0, 0, 0, 1));
    assert_eq!(v.label, "");
    assert!(!v.has_prev && !v.has_next);
    assert!(v.missing.is_empty());
    assert!(v.rows.is_empty());
}

#[test]
fn pages_of_a_list() {
    let mut p: Pager<u32> = Pager::new();
    p.set_books(books(7));
    assert!(p.set_rows(3));
    assert!(!p.set_rows(3));
    assert_eq!(p.total_pages(), 3);
    p.set_cover(2, 42);
    p.set_state(3, "готово");
    let v = p.render();
    assert_eq!((v.start, v.end), (0, 3));
    assert_eq!(v.label, "стр. 1 / 3");
    assert!(!v.has_prev && v.has_next);
    assert_eq!(v.missing, vec![1, 3]);
    let ids: Vec<i32> = v.rows.iter().map(|r| r.id).collect();
    assert_eq!(ids, vec![1, 2, 3]);
    assert_eq!(v.rows[1].cover, Some(42));
    assert_eq!(v.rows[0].cover, None);
    assert_eq!(v.rows[2].state, "готово");
    assert_eq!(v.rows[0].state, "");
    assert_eq!(v.rows[0].format, "—");
    assert_eq!(v.rows[1].format, "EPUB");
    assert_eq!(v.rows[0].title, "T1");
}

#[test]
fn later_state_replaces_earlier() {
    let mut p: Pager<u32> = Pager::new();
    p.set_books(books(2));
    p.set_rows(3);
    p.set_state(1, "…");
    p.set_state(1, "ошибка");
    p.set_cover(1, 5);
    p.set_cover(1, 6);
    let v = p.render();
    assert_eq!(v.rows[0].state, "ошибка");
    assert_eq!(v.rows[0].cover, Some(6));
    assert_eq!(v.missing, vec![2]);
}

#[test]
fn new_list_drops_covers_and_states() {
    let mut p: Pager<u32> = Pager::new();
    p.set_books(books(2));
    p.set_rows(3);
    p.set_state(1, "готово");
    p.set_cover(1, 5);
    p.set_books(books(2));
    let v = p.render();
    assert_eq!(v.rows[0].state, "");
    assert_eq!(v.rows[0].cover, None);
    assert_eq!(v.missing, vec![1, 2]);
}

#[test]
fn turning_pages() {
    let mut p: Pager<u32> = Pager::new();
    p.set_books(books(7));
    p.set_rows(3);
    assert!(!p.turn(false));
    assert!(p.turn(true));
    assert!(p.turn(true));
    assert!(!p.turn(true));
    let v = p.render();
    assert_eq!((v.start, v.end, v.page), (6, 7, 2));
    assert_eq!(v.label, "стр. 3 / 3");
    assert!(v.has_prev && !v.has_next);
    assert_eq!(v.missing, vec![7]);
    assert!(p.turn(false));
    let w = p.render();
    assert_eq!(w.page, 1);
}

#[test]
fn every_book_on_one_page() {
    let mut p: Pager<u32> = Pager::new();
    p.set_books(books(10));
    p.set_rows(4);
    let mut seen = Vec::new();
    loop {
        let v = p.render();
        seen.extend(v.rows.iter().map(|r| r.id));
        if !p.turn(true) {
            break;
        }
    }
    assert_eq!(seen, (1..=10).collect::<Vec<i32>>());
}

#[test]
fn page_moves_back_onto_shorter_list() {
    let mut p: Pager<u32> = Pager::new();
    p.set_books(books(10));
    p.set_rows(2);
    for _ in 0..4 {
        p.turn(true);
    }
    assert_eq!(p.render().page, 4);
    p.set_rows(5);
    let v = p.render();
    assert_eq!(v.page, 1);
    assert_eq!((v.start, v.end), (5, 10));
    p.set_books(books(3));
    assert_eq!(p.render().page, 0);
}

#[test]
fn zero_rows_means_one() {
    let mut p: Pager<u32> = Pager::new();
    p.set_books(books(2));
    assert!(!p.set_rows(0));
    assert_eq!(p.total_pages(), 2);
}

#[test]
fn rows_show_format_or_dash() {
    let b = Book {
        id: (1i64 << 32) + 4,
        title: "Т".to_string(),
        author: "А".to_string(),
        format: None,
    };
    let r = book_row::<u8>(&b, None, None);
    assert_eq!(r.id, 4);
    assert_eq!(r.format, "—");
    assert_eq!(r.state, "");
    assert_eq!(r.cover, None);
    let c = Book { format: Some("EPUB".to_string()), ..b };
    let r = book_row(&c, Some("готово"), Some(&7u8));
    assert_eq!(r.format, "EPUB");
    assert_eq!(r.state, "готово");
    assert_eq!(r.cover, Some(7));
    assert_eq!((r.title.as_str(), r.author.as_str()), ("Т", "А"));
}

#[test]
fn worker_messages_reach_the_pager() {
    let mut p: Pager<u32> = Pager::new();
    p.set_rows(5);
    assert!(matches!(p.apply(Msg::Books(books(3))), ScreenUpdate::Redraw));
    assert!(matches!(p.apply(Msg::BookState(2, "…")), ScreenUpdate::Redraw));
    assert!(matches!(p.apply(Msg::Busy(true)), ScreenUpdate::Busy(true)));
    match p.apply(Msg::Status("ok".to_string())) {
        ScreenUpdate::Status(s) => assert_eq!(s, "ok"),
        _ => panic!("expected a status line"),
    }
    match p.apply(Msg::Cover { id: 1, rgb: vec![1, 2, 3], width: 1, height: 1 }) {
        ScreenUpdate::Cover { id, rgb, width, height } => {
            assert_eq!((id, rgb, width, height), (1, vec![1, 2, 3], 1, 1));
        }
        _ => panic!("expected a cover"),
    }
    let v = p.render();
    assert_eq!(v.rows.len(), 3);
    assert_eq!(v.rows[1].state, "…");
    assert_eq!(v.missing, vec![1, 2, 3]);
}

//! The decisions of the background worker. The worker receives commands from
//! the screen, talks to the network and the server, and answers with
//! messages. Each outside step (connecting, listing, downloading, fetching a
//! thumbnail) is a request that the caller carries out; its outcome comes back
//! as the next event.

use vstd::prelude::*;
use vstd::string::*;
use crate::config::{Config, ConfigModel};
use crate::cover::{decode_cover, jpeg_rgb8};
use crate::text::{decimal, usize_to_string};

verus! {

/// A book of the server's list.
#[derive(Clone, Debug)]
pub struct Book {
    pub id: i64,
    pub title: String,
    pub author: String,
    /// The preferred format that the book exists in, if any.
    pub format: Option<String>,
}

/// The mathematical content of a [`Book`].
pub struct BookModel {
    pub id: i64,
    pub title: Seq<char>,
    pub author: Seq<char>,
    pub format: Option<Seq<char>>,
}

impl View for Book {
    type V = BookModel;

    open spec fn view(&self) -> BookModel {
        BookModel {
            id: self.id,
            title: self.title@,
            author: self.author@,
            format: match self.format {
                Some(f) => Some(f@),
                None => None,
            },
        }
    }
}

/// The contents of a list of books.
pub open spec fn books_view(v: Seq<Book>) -> Seq<BookModel> {
    v.map_values(|b: Book| b@)
}

impl Book {
    /// An equal copy of the book.
    pub fn copy(&self) -> (r: Book)
        ensures
            r@ == self@,
    {
        Book {
            id: self.id,
            title: self.title.clone(),
            author: self.author.clone(),
            format: match &self.format {
                Some(f) => Some(f.clone()),
                None => None,
            },
        }
    }
}

/// An equal copy of a list of books.
pub fn copy_books(v: &Vec<Book>) -> (r: Vec<Book>)
    ensures
        books_view(r@) == books_view(v@),
{
    let mut r: Vec<Book> = Vec::new();
    let mut i: usize = 0;
    while i < v.len()
        invariant
            i <= v.len(),
            books_view(r@) == books_view(v@.take(i as int)),
        decreases v.len() - i,
    {
        let b = v[i].copy();
        let ghost before = r@;
        r.push(b);
        assert(books_view(r@) =~= books_view(before).push(b@));
        assert(v@.take(i + 1) =~= v@.take(i as int).push(v@[i as int]));
        assert(books_view(v@.take(i + 1)) =~= books_view(v@.take(i as int)).push(v@[i as int]@));
        i = i + 1;
    }
    assert(v@.take(v.len() as int) =~= v@);
    r
}

/// The width of the cover thumbnails asked of the server. It suits both
/// likely screen scales: the list shrinks what is larger, and a full cover
/// would be far too much for one row.
pub const COVER_WIDTH: u32 = 120;

/// The height of the cover thumbnails asked of the server.
pub const COVER_HEIGHT: u32 = 170;

/// A command from the screen.
pub enum Cmd {
    /// Fetch the book list again.
    Refresh,
    /// Download the book with this id.
    Download(i32),
    /// Use new settings.
    Reconfigure(Config),
    /// Fetch the covers of these books.
    Covers(Vec<i64>),
}

/// A message to the screen.
pub enum Msg {
    /// A line for the status bar.
    Status(String),
    /// Whether the worker is busy with a command that the user waits for.
    Busy(bool),
    /// The new book list.
    Books(Vec<Book>),
    /// The download state shown beside a book.
    BookState(i32, &'static str),
    /// The decoded cover of a book: RGB pixels, width and height.
    Cover { id: i64, rgb: Vec<u8>, width: u32, height: u32 },
}

/// The mathematical content of a [`Msg`].
pub enum MsgModel {
    Status(Seq<char>),
    Busy(bool),
    Books(Seq<BookModel>),
    BookState(i32, Seq<char>),
    Cover(i64, Seq<u8>, u32, u32),
}

impl Msg {
    pub open spec fn model(&self) -> MsgModel {
        match self {
            Msg::Status(s) => MsgModel::Status(s@),
            Msg::Busy(b) => MsgModel::Busy(*b),
            Msg::Books(v) => MsgModel::Books(books_view(v@)),
            Msg::BookState(id, s) => MsgModel::BookState(*id, s@),
            Msg::Cover { id, rgb, width, height } => MsgModel::Cover(*id, rgb@, *width, *height),
        }
    }
}

/// The contents of a list of messages.
pub open spec fn msgs_view(v: Seq<Msg>) -> Seq<MsgModel> {
    v.map_values(|m: Msg| m.model())
}

/// An outside step that the worker asks its caller to carry out.
pub enum Request {
    /// Make a new server client from [`Worker::config`]; then `Reconnected`.
    Reconnect,
    /// Make sure the network is up; then `Online`.
    CheckOnline,
    /// Fetch the book list; then `Listed`.
    ListBooks,
    /// Make sure the network is up and download this book into this folder;
    /// then `Downloaded`.
    Download(Book, String),
    /// Fetch the thumbnail of this book at this width and height (always
    /// [`COVER_WIDTH`] by [`COVER_HEIGHT`]); then `Thumbnail`.
    Thumbnail(i64, u32, u32),
}

/// The mathematical content of a [`Request`].
pub enum RequestModel {
    Reconnect,
    CheckOnline,
    ListBooks,
    Download(BookModel, Seq<char>),
    Thumbnail(i64, u32, u32),
}

impl Request {
    pub open spec fn model(&self) -> RequestModel {
        match self {
            Request::Reconnect => RequestModel::Reconnect,
            Request::CheckOnline => RequestModel::CheckOnline,
            Request::ListBooks => RequestModel::ListBooks,
            Request::Download(b, d) => RequestModel::Download(b@, d@),
            Request::Thumbnail(id, w, h) => RequestModel::Thumbnail(*id, *w, *h),
        }
    }
}

/// The contents of an optional request.
pub open spec fn request_view(r: Option<Request>) -> Option<RequestModel> {
    match r {
        Some(q) => Some(q.model()),
        None => None,
    }
}

/// What comes to the worker: a command, or the outcome of its last request.
pub enum Event {
    Command(Cmd),
    /// The new client is ready.
    Reconnected,
    /// The network is up, or why not.
    Online(Result<(), String>),
    /// The book list, or why it could not be fetched.
    Listed(Result<Vec<Book>, String>),
    /// The name of the saved file, or why the download failed.
    Downloaded(Result<String, String>),
    /// The thumbnail's JPEG data, or `None` when it could not be fetched.
    Thumbnail(Option<Vec<u8>>),
}

/// The mathematical content of a [`Cmd`].
pub enum CmdModel {
    Refresh,
    Download(i32),
    Reconfigure(ConfigModel),
    Covers(Seq<i64>),
}

/// The mathematical content of an [`Event`].
pub enum EventModel {
    Command(CmdModel),
    Reconnected,
    Online(Result<(), Seq<char>>),
    Listed(Result<Seq<BookModel>, Seq<char>>),
    Downloaded(Result<Seq<char>, Seq<char>>),
    Thumbnail(Option<Seq<u8>>),
}

impl Event {
    pub open spec fn model(&self) -> EventModel {
        match self {
            Event::Command(c) => EventModel::Command(
                match c {
                    Cmd::Refresh => CmdModel::Refresh,
                    Cmd::Download(id) => CmdModel::Download(*id),
                    Cmd::Reconfigure(cfg) => CmdModel::Reconfigure(cfg@),
                    Cmd::Covers(ids) => CmdModel::Covers(ids@),
                },
            ),
            Event::Reconnected => EventModel::Reconnected,
            Event::Online(r) => EventModel::Online(
                match r {
                    Ok(()) => Ok(()),
                    Err(e) => Err(e@),
                },
            ),
            Event::Listed(r) => EventModel::Listed(
                match r {
                    Ok(v) => Ok(books_view(v@)),
                    Err(e) => Err(e@),
                },
            ),
            Event::Downloaded(r) => EventModel::Downloaded(
                match r {
                    Ok(n) => Ok(n@),
                    Err(e) => Err(e@),
                },
            ),
            Event::Thumbnail(r) => EventModel::Thumbnail(
                match r {
                    Some(v) => Some(v@),
                    None => None,
                },
            ),
        }
    }
}

/// What the worker is in the middle of.
#[derive(Clone, Copy, PartialEq, Eq, Debug, Structural)]
pub enum Stage {
    Idle,
    Reconfiguring,
    Refreshing,
    /// Downloading the book with this id.
    Downloading(i32),
    /// Fetching the cover at this position of the pending list.
    Covers(usize),
}

/// The state of the worker.
pub struct WorkerModel {
    pub config: ConfigModel,
    /// The last book list received.
    pub known: Seq<BookModel>,
    /// The books whose covers were asked for last.
    pub pending: Seq<i64>,
    pub stage: Stage,
}

/// What one step gives: the messages to send, in order, and the next request.
pub struct Step {
    pub msgs: Vec<Msg>,
    pub request: Option<Request>,
}

/// The status line while the network is checked.
pub open spec fn checking_note() -> Seq<char> {
    "Проверяю сеть…"@
}

/// The status line while the list is fetched.
pub open spec fn loading_note() -> Seq<char> {
    "Загружаю список книг…"@
}

/// The status line when the book to download is not in the list.
pub open spec fn not_found_note() -> Seq<char> {
    "Книга не найдена, обновите список"@
}

/// The status line after a list of `n` books arrived.
pub open spec fn count_note(n: nat) -> Seq<char> {
    "Книг в списке: "@ + decimal(n)
}

/// The status line when the list could not be fetched.
pub open spec fn list_failed_note(e: Seq<char>) -> Seq<char> {
    "Не удалось получить список: "@ + e
}

/// The status line for a book in none of the wanted formats.
pub open spec fn no_format_note(title: Seq<char>) -> Seq<char> {
    "«"@ + title + "»: нет ни одного из нужных форматов"@
}

/// The status line while a book downloads.
pub open spec fn downloading_note(title: Seq<char>) -> Seq<char> {
    "Скачиваю «"@ + title + "»…"@
}

/// The status line after a book was saved under the file name `name`.
pub open spec fn saved_note(name: Seq<char>) -> Seq<char> {
    "Сохранено: "@ + name
}

/// The status line after a download failed.
pub open spec fn download_failed_note(e: Seq<char>) -> Seq<char> {
    "Ошибка загрузки: "@ + e
}

/// The position of the first book of `s`, from `i` on, whose id, cut to 32
/// bits as the screen gives it, is `id`.
pub open spec fn find_from(s: Seq<BookModel>, id: i32, i: int) -> Option<int>
    decreases s.len() - i,
{
    if i < 0 || i >= s.len() {
        None
    } else if s[i].id as i32 == id {
        Some(i)
    } else {
        find_from(s, id, i + 1)
    }
}

/// The position of the first book of `s` whose id, cut to 32 bits, is `id`.
pub open spec fn find_book(s: Seq<BookModel>, id: i32) -> Option<int> {
    find_from(s, id, 0)
}

pub proof fn lemma_find_from_bounds(s: Seq<BookModel>, id: i32, i: int)
    ensures
        find_from(s, id, i) matches Some(k) ==> 0 <= i <= k < s.len() && s[k].id as i32 == id,
    decreases s.len() - i,
{
    if 0 <= i < s.len() && s[i].id as i32 != id {
        lemma_find_from_bounds(s, id, i + 1);
    }
}

/// What one event does to the worker: the new state, the messages sent, in
/// order, and the next request. A command that the user waits for is framed
/// by `Busy(true)` and `Busy(false)`; cover fetching is silent. An outcome
/// that does not belong to the current stage is ignored.
pub open spec fn step_model(w: WorkerModel, e: EventModel) -> (
    WorkerModel,
    Seq<MsgModel>,
    Option<RequestModel>,
) {
    let idle = WorkerModel { stage: Stage::Idle, ..w };
    let ignored = (w, Seq::<MsgModel>::empty(), None::<RequestModel>);
    match e {
        EventModel::Command(c) => match c {
            CmdModel::Reconfigure(cfg) => (
                WorkerModel { config: cfg, stage: Stage::Reconfiguring, ..w },
                seq![MsgModel::Busy(true)],
                Some(RequestModel::Reconnect),
            ),
            CmdModel::Covers(ids) => if ids.len() == 0 {
                (WorkerModel { pending: ids, stage: Stage::Idle, ..w }, Seq::empty(), None)
            } else {
                (
                    WorkerModel { pending: ids, stage: Stage::Covers(0), ..w },
                    Seq::empty(),
                    Some(RequestModel::Thumbnail(ids[0], COVER_WIDTH, COVER_HEIGHT)),
                )
            },
            CmdModel::Refresh => (
                WorkerModel { stage: Stage::Refreshing, ..w },
                seq![MsgModel::Busy(true), MsgModel::Status(checking_note())],
                Some(RequestModel::CheckOnline),
            ),
            CmdModel::Download(id) => match find_book(w.known, id) {
                None => (
                    idle,
                    seq![
                        MsgModel::Busy(true),
                        MsgModel::Status(not_found_note()),
                        MsgModel::Busy(false),
                    ],
                    None,
                ),
                Some(k) => {
                    let b = w.known[k];
                    if b.format is None {
                        (
                            idle,
                            seq![
                                MsgModel::Busy(true),
                                MsgModel::BookState(id, "нет формата"@),
                                MsgModel::Status(no_format_note(b.title)),
                                MsgModel::Busy(false),
                            ],
                            None,
                        )
                    } else {
                        (
                            WorkerModel { stage: Stage::Downloading(id), ..w },
                            seq![
                                MsgModel::Busy(true),
                                MsgModel::BookState(id, "…"@),
                                MsgModel::Status(downloading_note(b.title)),
                            ],
                            Some(RequestModel::Download(b, w.config.download_dir)),
                        )
                    }
                },
            },
        },
        EventModel::Reconnected => if w.stage == Stage::Reconfiguring {
            (
                WorkerModel { known: Seq::empty(), stage: Stage::Idle, ..w },
                seq![MsgModel::Books(Seq::empty()), MsgModel::Busy(false)],
                None,
            )
        } else {
            ignored
        },
        EventModel::Online(r) => if w.stage == Stage::Refreshing {
            match r {
                Ok(()) => (w, seq![MsgModel::Status(loading_note())], Some(RequestModel::ListBooks)),
                Err(msg) => (idle, seq![MsgModel::Status(msg), MsgModel::Busy(false)], None),
            }
        } else {
            ignored
        },
        EventModel::Listed(r) => if w.stage == Stage::Refreshing {
            match r {
                Ok(list) => (
                    WorkerModel { known: list, stage: Stage::Idle, ..w },
                    seq![
                        MsgModel::Status(count_note(list.len())),
                        MsgModel::Books(list),
                        MsgModel::Busy(false),
                    ],
                    None,
                ),
                Err(msg) => (
                    idle,
                    seq![MsgModel::Status(list_failed_note(msg)), MsgModel::Busy(false)],
                    None,
                ),
            }
        } else {
            ignored
        },
        EventModel::Downloaded(r) => match w.stage {
            Stage::Downloading(id) => match r {
                Ok(name) => (
                    idle,
                    seq![
                        MsgModel::BookState(id, "готово"@),
                        MsgModel::Status(saved_note(name)),
                        MsgModel::Busy(false),
                    ],
                    None,
                ),
                Err(msg) => (
                    idle,
                    seq![
                        MsgModel::BookState(id, "ошибка"@),
                        MsgModel::Status(download_failed_note(msg)),
                        MsgModel::Busy(false),
                    ],
                    None,
                ),
            },
            _ => ignored,
        },
        EventModel::Thumbnail(r) => match w.stage {
            Stage::Covers(pos) => if pos < w.pending.len() {
                let id = w.pending[pos as int];
                let msgs = match r {
                    Some(data) => match jpeg_rgb8(data) {
                        Some((px, wd, ht)) => seq![MsgModel::Cover(id, px, wd, ht)],
                        None => Seq::empty(),
                    },
                    None => Seq::empty(),
                };
                if pos + 1 < w.pending.len() {
                    (
                        WorkerModel { stage: Stage::Covers((pos + 1) as usize), ..w },
                        msgs,
                        Some(RequestModel::Thumbnail(w.pending[pos + 1], COVER_WIDTH, COVER_HEIGHT)),
                    )
                } else {
                    (idle, msgs, None)
                }
            } else {
                (idle, Seq::empty(), None)
            },
            _ => ignored,
        },
    }
}

/// The background worker.
pub struct Worker {
    config: Config,
    known: Vec<Book>,
    pending: Vec<i64>,
    stage: Stage,
}

impl View for Worker {
    type V = WorkerModel;

    closed spec fn view(&self) -> WorkerModel {
        WorkerModel {
            config: self.config@,
            known: books_view(self.known@),
            pending: self.pending@,
            stage: self.stage,
        }
    }
}

/// A message made of a literal followed by `tail`.
fn note(head: &str, tail: &str) -> (r: String)
    ensures
        r@ == head@ + tail@,
{
    let mut r = String::from_str(head);
    r.append(tail);
    r
}

impl Worker {
    /// A worker with these settings and no books.
    pub fn new(config: Config) -> (r: Worker)
        ensures
            r@ == (WorkerModel {
                config: config@,
                known: Seq::empty(),
                pending: Seq::empty(),
                stage: Stage::Idle,
            }),
    {
        let r = Worker { config, known: Vec::new(), pending: Vec::new(), stage: Stage::Idle };
        assert(books_view(r.known@) =~= Seq::<BookModel>::empty());
        r
    }

    /// The settings in use, from which the server client is made.
    pub fn config(&self) -> (r: &Config)
        ensures
            r@ == self@.config,
    {
        &self.config
    }

    /// The position of the first known book whose id, cut to 32 bits, is `id`.
    fn find(&self, id: i32) -> (r: Option<usize>)
        ensures
            match r {
                Some(k) => find_book(self@.known, id) == Some(k as int),
                None => find_book(self@.known, id) is None,
            },
    {
        let ghost s = self@.known;
        let mut i: usize = 0;
        while i < self.known.len()
            invariant
                i <= self.known.len(),
                s == books_view(self.known@),
                find_book(s, id) == find_from(s, id, i as int),
            decreases self.known.len() - i,
        {
            #[verifier::truncate]
            let short = self.known[i].id as i32;
            if short == id {
                assert(s[i as int].id == self.known@[i as int].id);
                return Some(i);
            }
            i = i + 1;
        }
        None
    }

    /// Handles one event: updates the state and gives the messages to send and
    /// the next outside step to take.
    pub fn step(&mut self, event: Event) -> (out: Step)
        ensures
            (final(self)@, msgs_view(out.msgs@), request_view(out.request)) == step_model(
                old(self)@,
                event.model(),
            ),
    {
        let ghost w = self@;
        let ghost e = event.model();
        let mut msgs: Vec<Msg> = Vec::new();
        let mut request: Option<Request> = None;
        match event {
            Event::Command(Cmd::Reconfigure(cfg)) => {
                self.config = cfg;
                self.stage = Stage::Reconfiguring;
                msgs.push(Msg::Busy(true));
                request = Some(Request::Reconnect);
            },
            Event::Command(Cmd::Covers(ids)) => {
                if ids.len() == 0 {
                    self.pending = ids;
                    self.stage = Stage::Idle;
                } else {
                    let first = ids[0];
                    self.pending = ids;
                    self.stage = Stage::Covers(0);
                    request = Some(Request::Thumbnail(first, COVER_WIDTH, COVER_HEIGHT));
                }
            },
            Event::Command(Cmd::Refresh) => {
                self.stage = Stage::Refreshing;
                msgs.push(Msg::Busy(true));
                msgs.push(Msg::Status(String::from_str("Проверяю сеть…")));
                request = Some(Request::CheckOnline);
            },
            Event::Command(Cmd::Download(id)) => {
                msgs.push(Msg::Busy(true));
                match self.find(id) {
                    None => {
                        self.stage = Stage::Idle;
                        msgs.push(Msg::Status(String::from_str("Книга не найдена, обновите список")));
                        msgs.push(Msg::Busy(false));
                    },
                    Some(k) => {
                        proof {
                            lemma_find_from_bounds(w.known, id, 0);
                        }
                        let book = self.known[k].copy();
                        if book.format.is_none() {
                            self.stage = Stage::Idle;
                            msgs.push(Msg::BookState(id, "нет формата"));
                            let mut s = String::from_str("«");
                            s.append(book.title.as_str());
                            s.append("»: нет ни одного из нужных форматов");
                            msgs.push(Msg::Status(s));
                            msgs.push(Msg::Busy(false));
                        } else {
                            self.stage = Stage::Downloading(id);
                            msgs.push(Msg::BookState(id, "…"));
                            let mut s = String::from_str("Скачиваю «");
                            s.append(book.title.as_str());
                            s.append("»…");
                            msgs.push(Msg::Status(s));
                            let dir = self.config.download_dir.clone();
                            request = Some(Request::Download(book, dir));
                        }
                    },
                }
            },
            Event::Reconnected => {
                if self.stage == Stage::Reconfiguring {
                    self.known = Vec::new();
                    self.stage = Stage::Idle;
                    msgs.push(Msg::Books(Vec::new()));
                    msgs.push(Msg::Busy(false));
                    assert(books_view(self.known@) =~= Seq::<BookModel>::empty());
                }
            },
            Event::Online(r) => {
                if self.stage == Stage::Refreshing {
                    match r {
                        Ok(()) => {
                            msgs.push(Msg::Status(String::from_str("Загружаю список книг…")));
                            request = Some(Request::ListBooks);
                        },
                        Err(m) => {
                            self.stage = Stage::Idle;
                            msgs.push(Msg::Status(m));
                            msgs.push(Msg::Busy(false));
                        },
                    }
                }
            },
            Event::Listed(r) => {
                if self.stage == Stage::Refreshing {
                    match r {
                        Ok(list) => {
                            let n = usize_to_string(list.len());
                            msgs.push(Msg::Status(note("Книг в списке: ", n.as_str())));
                            self.known = copy_books(&list);
                            self.stage = Stage::Idle;
                            msgs.push(Msg::Books(list));
                            msgs.push(Msg::Busy(false));
                        },
                        Err(m) => {
                            self.stage = Stage::Idle;
                            msgs.push(Msg::Status(note("Не удалось получить список: ", m.as_str())));
                            msgs.push(Msg::Busy(false));
                        },
                    }
                }
            },
            Event::Downloaded(r) => {
                if let Stage::Downloading(id) = self.stage {
                    self.stage = Stage::Idle;
                    match r {
                        Ok(name) => {
                            msgs.push(Msg::BookState(id, "готово"));
                            msgs.push(Msg::Status(note("Сохранено: ", name.as_str())));
                            msgs.push(Msg::Busy(false));
                        },
                        Err(m) => {
                            msgs.push(Msg::BookState(id, "ошибка"));
                            msgs.push(Msg::Status(note("Ошибка загрузки: ", m.as_str())));
                            msgs.push(Msg::Busy(false));
                        },
                    }
                }
            },
            Event::Thumbnail(r) => {
                if let Stage::Covers(pos) = self.stage {
                    if pos < self.pending.len() {
                        let id = self.pending[pos];
                        if let Some(data) = r {
                            if let Ok((rgb, width, height)) = decode_cover(data.as_slice()) {
                                msgs.push(Msg::Cover { id, rgb, width, height });
                            }
                        }
                        if pos + 1 < self.pending.len() {
                            self.stage = Stage::Covers(pos + 1);
                            request = Some(Request::Thumbnail(self.pending[pos + 1], COVER_WIDTH, COVER_HEIGHT));
                        } else {
                            self.stage = Stage::Idle;
                        }
                    } else {
                        self.stage = Stage::Idle;
                    }
                }
            },
        }
        let out = Step { msgs, request };
        assert(msgs_view(out.msgs@) =~= step_model(w, e).1);
        out
    }
}

/// Whether a stage is work that the user waits for.
pub open spec fn noisy_stage(s: Stage) -> bool {
    s == Stage::Reconfiguring || s == Stage::Refreshing || s is Downloading
}

/// Every command that the user waits for (all but fetching covers) first
/// reports the worker busy.
pub proof fn law_command_reports_busy(w: WorkerModel, c: CmdModel)
    requires
        !(c is Covers),
    ensures
        step_model(w, EventModel::Command(c)).1.len() >= 1,
        step_model(w, EventModel::Command(c)).1[0] == MsgModel::Busy(true),
{
}

/// When work that the user waits for ends, its last message reports the
/// worker idle again.
pub proof fn law_finished_work_reports_idle(w: WorkerModel, e: EventModel)
    requires
        match e {
            EventModel::Command(c) => !(c is Covers),
            _ => noisy_stage(w.stage),
        },
        step_model(w, e).2 is None,
        step_model(w, e).0.stage == Stage::Idle,
    ensures
        step_model(w, e).1.len() >= 1,
        step_model(w, e).1.last() == MsgModel::Busy(false),
{
}

/// Fetching covers never reports the worker busy or idle, and says nothing
/// but covers.
pub proof fn law_covers_are_silent(w: WorkerModel, e: EventModel, i: int)
    requires
        e is Thumbnail || (e matches EventModel::Command(c) && c is Covers),
        0 <= i < step_model(w, e).1.len(),
    ensures
        step_model(w, e).1[i] is Cover,
{
}

/// A list that arrived is what a later download looks the book up in, and
/// the settings stay those last given.
pub proof fn law_listed_books_are_known(w: WorkerModel, list: Seq<BookModel>)
    requires
        w.stage == Stage::Refreshing,
    ensures
        step_model(w, EventModel::Listed(Ok(list))).0.known == list,
        step_model(w, EventModel::Listed(Ok(list))).0.config == w.config,
{
}

/// New settings drop the known books: the screen gets an empty list once the
/// new client is ready.
pub proof fn law_reconfigure_forgets_books(w: WorkerModel, cfg: ConfigModel)
    ensures
        ({
            let after = step_model(w, EventModel::Command(CmdModel::Reconfigure(cfg))).0;
            let done = step_model(after, EventModel::Reconnected);
            &&& done.0.config == cfg
            &&& done.0.known.len() == 0
            &&& done.1 == seq![MsgModel::Books(Seq::empty()), MsgModel::Busy(false)]
        }),
{
}

/// Whether the event `e` is an outcome of the request `r`.
pub open spec fn answers(r: RequestModel, e: EventModel) -> bool {
    match r {
        RequestModel::Reconnect => e is Reconnected,
        RequestModel::CheckOnline => e is Online,
        RequestModel::ListBooks => e is Listed,
        RequestModel::Download(..) => e is Downloaded,
        RequestModel::Thumbnail(..) => e is Thumbnail,
    }
}

/// The worker handling `outcomes` in turn while a request is pending: the
/// final state, all messages sent, in order, and the request left pending.
pub open spec fn run_outcomes(
    w: WorkerModel,
    pending: Option<RequestModel>,
    outcomes: Seq<EventModel>,
) -> (WorkerModel, Seq<MsgModel>, Option<RequestModel>)
    decreases outcomes.len(),
{
    if outcomes.len() == 0 || pending is None {
        (w, Seq::empty(), pending)
    } else {
        let s = step_model(w, outcomes[0]);
        let rest = run_outcomes(s.0, s.2, outcomes.drop_first());
        (rest.0, s.1 + rest.1, rest.2)
    }
}

/// Whether each of `outcomes` is an outcome of the request pending before
/// it, and none comes when nothing is pending.
pub open spec fn well_answered(
    w: WorkerModel,
    pending: Option<RequestModel>,
    outcomes: Seq<EventModel>,
) -> bool
    decreases outcomes.len(),
{
    if outcomes.len() == 0 {
        true
    } else {
        match pending {
            None => false,
            Some(r) => answers(r, outcomes[0]) && {
                let s = step_model(w, outcomes[0]);
                well_answered(s.0, s.2, outcomes.drop_first())
            },
        }
    }
}

/// The whole handling of the command `c`, its requests answered by
/// `outcomes`: the final state, all messages sent, in order, and the request
/// left pending.
pub open spec fn run_command(w: WorkerModel, c: CmdModel, outcomes: Seq<EventModel>) -> (
    WorkerModel,
    Seq<MsgModel>,
    Option<RequestModel>,
) {
    let s = step_model(w, EventModel::Command(c));
    let rest = run_outcomes(s.0, s.2, outcomes);
    (rest.0, s.1 + rest.1, rest.2)
}

/// Whether no message of `m` reports the worker busy or idle.
pub open spec fn no_busy(m: Seq<MsgModel>) -> bool {
    forall|i: int| 0 <= i < m.len() ==> !(#[trigger] m[i] is Busy)
}

/// A stage of waited-for work together with the request it waits on.
pub open spec fn noisy_pair(stage: Stage, r: RequestModel) -> bool {
    ||| stage == Stage::Reconfiguring && r is Reconnect
    ||| stage == Stage::Refreshing && r is CheckOnline
    ||| stage == Stage::Refreshing && r is ListBooks
    ||| stage is Downloading && r is Download
}

proof fn lemma_noisy_run(w: WorkerModel, r: RequestModel, outcomes: Seq<EventModel>)
    requires
        noisy_pair(w.stage, r),
        well_answered(w, Some(r), outcomes),
        run_outcomes(w, Some(r), outcomes).2 is None,
    ensures
        ({
            let m = run_outcomes(w, Some(r), outcomes).1;
            &&& m.len() >= 1
            &&& m.last() == MsgModel::Busy(false)
            &&& no_busy(m.drop_last())
        }),
    decreases outcomes.len(),
{
    let s = step_model(w, outcomes[0]);
    let tail = outcomes.drop_first();
    let rest = run_outcomes(s.0, s.2, tail);
    let m = s.1 + rest.1;
    if s.2 is None {
        assert(rest.1 =~= Seq::<MsgModel>::empty());
        assert(m =~= s.1);
        assert(no_busy(s.1.drop_last()));
    } else {
        lemma_noisy_run(s.0, s.2->0, tail);
        assert(m.drop_last() =~= s.1 + rest.1.drop_last());
        assert(no_busy(s.1));
        assert forall|i: int| 0 <= i < m.drop_last().len() implies !(#[trigger] m.drop_last()[i] is Busy) by {
            if i >= s.1.len() {
                assert(m.drop_last()[i] == rest.1.drop_last()[i - s.1.len()]);
            }
        }
    }
}

/// Every command that the user waits for (all but fetching covers), carried
/// out to its end with each request answered, reports the worker busy
/// first, idle last, and neither in between.
pub proof fn law_command_framed_by_busy(w: WorkerModel, c: CmdModel, outcomes: Seq<EventModel>)
    requires
        !(c is Covers),
        well_answered(
            step_model(w, EventModel::Command(c)).0,
            step_model(w, EventModel::Command(c)).2,
            outcomes,
        ),
        run_command(w, c, outcomes).2 is None,
    ensures
        ({
            let m = run_command(w, c, outcomes).1;
            &&& m.len() >= 2
            &&& m[0] == MsgModel::Busy(true)
            &&& m.last() == MsgModel::Busy(false)
            &&& no_busy(m.subrange(1, m.len() - 1))
        }),
{
    let s = step_model(w, EventModel::Command(c));
    let rest = run_outcomes(s.0, s.2, outcomes);
    let m = s.1 + rest.1;
    if s.2 is None {
        assert(rest.1 =~= Seq::<MsgModel>::empty());
        assert(m =~= s.1);
        assert(no_busy(m.subrange(1, m.len() - 1)));
    } else {
        lemma_noisy_run(s.0, s.2->0, outcomes);
        assert(m.subrange(1, m.len() - 1) =~= s.1.subrange(1, s.1.len() as int) + rest.1.drop_last());
        assert(no_busy(s.1.subrange(1, s.1.len() as int)));
        let a = s.1.subrange(1, s.1.len() as int);
        let b = rest.1.drop_last();
        assert forall|i: int| 0 <= i < (a + b).len() implies !(#[trigger] (a + b)[i] is Busy) by {
            if i >= a.len() {
                assert((a + b)[i] == b[i - a.len()]);
            } else {
                assert((a + b)[i] == a[i]);
            }
        }
    }
}

proof fn lemma_cover_run(w: WorkerModel, pending: Option<RequestModel>, outcomes: Seq<EventModel>)
    requires
        well_answered(w, pending, outcomes),
        pending is None || pending->0 is Thumbnail,
    ensures
        forall|i: int|
            0 <= i < run_outcomes(w, pending, outcomes).1.len() ==> (
            #[trigger] run_outcomes(w, pending, outcomes).1[i]) is Cover,
    decreases outcomes.len(),
{
    if outcomes.len() > 0 && pending is Some {
        let s = step_model(w, outcomes[0]);
        let tail = outcomes.drop_first();
        lemma_cover_run(s.0, s.2, tail);
        let rest = run_outcomes(s.0, s.2, tail);
        let m = s.1 + rest.1;
        assert forall|i: int| 0 <= i < m.len() implies (#[trigger] m[i]) is Cover by {
            if i >= s.1.len() {
                assert(m[i] == rest.1[i - s.1.len()]);
            }
        }
    }
}

/// Fetching covers, with each thumbnail request answered, reports only
/// covers: never busy, idle or a status line.
pub proof fn law_cover_command_silent(w: WorkerModel, ids: Seq<i64>, outcomes: Seq<EventModel>)
    requires
        well_answered(
            step_model(w, EventModel::Command(CmdModel::Covers(ids))).0,
            step_model(w, EventModel::Command(CmdModel::Covers(ids))).2,
            outcomes,
        ),
    ensures
        forall|i: int|
            0 <= i < run_command(w, CmdModel::Covers(ids), outcomes).1.len() ==> (
            #[trigger] run_command(w, CmdModel::Covers(ids), outcomes).1[i]) is Cover,
{
    let s = step_model(w, EventModel::Command(CmdModel::Covers(ids)));
    lemma_cover_run(s.0, s.2, outcomes);
    assert(s.1 =~= Seq::<MsgModel>::empty());
    assert(run_command(w, CmdModel::Covers(ids), outcomes).1 =~= run_outcomes(s.0, s.2, outcomes).1);
}

/// The known book list changes only when a list arrives during a refresh,
/// and when new settings are put in use (it is then emptied).
pub proof fn law_only_a_list_changes_known(w: WorkerModel, e: EventModel)
    requires
        !(w.stage == Stage::Refreshing && e is Listed),
        !(w.stage == Stage::Reconfiguring && e is Reconnected),
    ensures
        step_model(w, e).0.known == w.known,
{
}

/// With no known books (as after new settings, until a list arrives), a
/// download finds nothing and asks to refresh the list.
pub proof fn law_download_without_list(w: WorkerModel, id: i32)
    requires
        w.known.len() == 0,
    ensures
        step_model(w, EventModel::Command(CmdModel::Download(id))).1 == seq![
            MsgModel::Busy(true),
            MsgModel::Status(not_found_note()),
            MsgModel::Busy(false),
        ],
        step_model(w, EventModel::Command(CmdModel::Download(id))).2 is None,
{
}

proof fn lemma_find_first(s: Seq<BookModel>, id: i32, i: int, k: int)
    requires
        0 <= i <= k < s.len(),
        s[k].id as i32 == id,
        forall|j: int| i <= j < k ==> (#[trigger] s[j]).id as i32 != id,
    ensures
        find_from(s, id, i) == Some(k),
    decreases k - i,
{
    if i < k {
        lemma_find_first(s, id, i + 1, k);
    }
}

/// Downloading asks for exactly the tapped book: the first known book whose
/// id, cut to 32 bits, is the tapped id, into the configured folder. The
/// book is marked as downloading and the status line names its title.
pub proof fn law_download_asks_for_tapped_book(w: WorkerModel, id: i32, k: int)
    requires
        0 <= k < w.known.len(),
        w.known[k].id as i32 == id,
        forall|j: int| 0 <= j < k ==> (#[trigger] w.known[j]).id as i32 != id,
        w.known[k].format is Some,
    ensures
        ({
            let s = step_model(w, EventModel::Command(CmdModel::Download(id)));
            &&& s.2 == Some(RequestModel::Download(w.known[k], w.config.download_dir))
            &&& s.0.stage == Stage::Downloading(id)
            &&& s.0.known == w.known
            &&& s.1.len() == 3
            &&& s.1[1] == MsgModel::BookState(id, "…"@)
            &&& s.1[2] == MsgModel::Status("Скачиваю «"@ + w.known[k].title + "»…"@)
        }),
{
    lemma_find_first(w.known, id, 0, k);
}

/// A tapped book that exists in none of the wanted formats is not
/// downloaded: it is marked so, and the status line names its title.
pub proof fn law_download_without_format(w: WorkerModel, id: i32, k: int)
    requires
        0 <= k < w.known.len(),
        w.known[k].id as i32 == id,
        forall|j: int| 0 <= j < k ==> (#[trigger] w.known[j]).id as i32 != id,
        w.known[k].format is None,
    ensures
        ({
            let s = step_model(w, EventModel::Command(CmdModel::Download(id)));
            &&& s.2 is None
            &&& s.0.stage == Stage::Idle
            &&& s.1.len() == 4
            &&& s.1[1] == MsgModel::BookState(id, "нет формата"@)
            &&& s.1[2] == MsgModel::Status(
                "«"@ + w.known[k].title + "»: нет ни одного из нужных форматов"@,
            )
        }),
{
    lemma_find_first(w.known, id, 0, k);
}

/// A tapped id that no known book has asks for nothing and says so.
pub proof fn law_download_unknown_book(w: WorkerModel, id: i32)
    requires
        forall|j: int| 0 <= j < w.known.len() ==> (#[trigger] w.known[j]).id as i32 != id,
    ensures
        step_model(w, EventModel::Command(CmdModel::Download(id))).2 is None,
        step_model(w, EventModel::Command(CmdModel::Download(id))).1[1] == MsgModel::Status(
            "Книга не найдена, обновите список"@,
        ),
{
    assert(find_book(w.known, id) is None) by {
        lemma_find_from_bounds(w.known, id, 0);
    }
}

/// The outcome of a download marks the book that was being downloaded:
/// done, or failed; the worker is then idle.
pub proof fn law_download_outcome_marks_its_book(
    w: WorkerModel,
    id: i32,
    r: Result<Seq<char>, Seq<char>>,
)
    requires
        w.stage == Stage::Downloading(id),
    ensures
        ({
            let s = step_model(w, EventModel::Downloaded(r));
            &&& s.1[0] == MsgModel::BookState(
                id,
                if r is Ok {
                    "готово"@
                } else {
                    "ошибка"@
                },
            )
            &&& s.1[1] == MsgModel::Status(
                match r {
                    Ok(name) => "Сохранено: "@ + name,
                    Err(e) => "Ошибка загрузки: "@ + e,
                },
            )
            &&& s.1.last() == MsgModel::Busy(false)
            &&& s.0.stage == Stage::Idle
            &&& s.2 is None
        }),
{
}

/// Fetching covers asks for the thumbnail of the first listed book first, at
/// the fixed thumbnail size, and remembers the whole list.
pub proof fn law_covers_start_with_first_book(w: WorkerModel, ids: Seq<i64>)
    requires
        ids.len() > 0,
    ensures
        ({
            let s = step_model(w, EventModel::Command(CmdModel::Covers(ids)));
            &&& s.2 == Some(RequestModel::Thumbnail(ids[0], 120, 170))
            &&& s.0.pending == ids
            &&& s.0.stage == Stage::Covers(0)
            &&& s.1.len() == 0
        }),
{
}

/// A thumbnail that arrives while fetching the cover at position `pos` goes
/// to the book at that position: when it decodes, exactly one cover is sent,
/// with that book's id and the decoded pixels; otherwise nothing is sent.
/// Then the thumbnail of the next book in the list is asked for, until the
/// list is done.
pub proof fn law_cover_goes_to_its_book(w: WorkerModel, pos: usize, data: Option<Seq<u8>>)
    requires
        w.stage == Stage::Covers(pos),
        pos < w.pending.len(),
    ensures
        ({
            let s = step_model(w, EventModel::Thumbnail(data));
            &&& s.1 == match data {
                Some(d) => match jpeg_rgb8(d) {
                    Some((px, wd, ht)) => seq![MsgModel::Cover(w.pending[pos as int], px, wd, ht)],
                    None => Seq::<MsgModel>::empty(),
                },
                None => Seq::<MsgModel>::empty(),
            }
            &&& s.0.pending == w.pending
            &&& s.0.known == w.known
            &&& (pos + 1 < w.pending.len() ==> s.2 == Some(
                RequestModel::Thumbnail(w.pending[pos + 1], 120, 170),
            ) && s.0.stage == Stage::Covers((pos + 1) as usize))
            &&& (pos + 1 >= w.pending.len() ==> s.2 is None && s.0.stage == Stage::Idle)
        }),
{
}

/// The list that arrives during a refresh is handed to the screen as it
/// arrived, in the same order, and becomes the known list; the status line
/// gives its length.
pub proof fn law_listed_books_sent_as_arrived(w: WorkerModel, list: Seq<BookModel>)
    requires
        w.stage == Stage::Refreshing,
    ensures
        ({
            let s = step_model(w, EventModel::Listed(Ok(list)));
            &&& s.1.len() == 3
            &&& s.1[0] == MsgModel::Status("Книг в списке: "@ + decimal(list.len()))
            &&& s.1[1] == MsgModel::Books(list)
            &&& s.0.known == list
            &&& s.1[2] == MsgModel::Busy(false)
        }),
{
}

/// A refresh that finds the network down shows why, as it came, and ends.
pub proof fn law_offline_reason_shown(w: WorkerModel, e: Seq<char>)
    requires
        w.stage == Stage::Refreshing,
    ensures
        step_model(w, EventModel::Online(Err(e))).1 == seq![
            MsgModel::Status(e),
            MsgModel::Busy(false),
        ],
        step_model(w, EventModel::Online(Err(e))).0.known == w.known,
{
}

} // verus!

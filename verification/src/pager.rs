//! The paged book list. E-ink redraws the whole screen for every frame, so the
//! list has no scrolling: it is cut into pages of as many rows as the window
//! holds, and one page is shown at a time. Covers are fetched only for the
//! books on the shown page.

use vstd::prelude::*;
use vstd::string::*;
use vstd::arithmetic::div_mod::lemma_fundamental_div_mod;
use vstd::arithmetic::mul::lemma_mul_inequality;
use crate::text::{decimal, law_parse_reads_back_decimal, parsed_usize, usize_to_string};
use crate::worker::{Book, BookModel, Msg, books_view};
use std::collections::HashMap;

verus! {

/// `a / b` rounded up.
pub open spec fn ceil_div(a: int, b: int) -> int {
    a / b + if a % b != 0 {
        1int
    } else {
        0int
    }
}

/// The number of pages of a list of `len` books with `rows` rows per page:
/// at least one, even for an empty list.
pub open spec fn page_count(len: int, rows: int) -> int {
    if ceil_div(len, rows) < 1 {
        1
    } else {
        ceil_div(len, rows)
    }
}

/// The position in a list of `len` books of the first book of page `k`.
pub open spec fn range_start(len: int, rows: int, k: int) -> int {
    if k * rows < len {
        k * rows
    } else {
        len
    }
}

/// The position in a list of `len` books just after the last book of page
/// `k`.
pub open spec fn range_end(len: int, rows: int, k: int) -> int {
    if range_start(len, rows, k) + rows < len {
        range_start(len, rows, k) + rows
    } else {
        len
    }
}

/// The state of the paged list: all books in order, the covers fetched and
/// the download states set for them, the page shown, and the rows per page.
pub struct PagerModel<C> {
    pub books: Seq<BookModel>,
    pub covers: Map<i64, C>,
    pub states: Map<i64, &'static str>,
    pub page: int,
    pub rows: int,
}

impl<C> PagerModel<C> {
    /// The number of books.
    pub open spec fn len(self) -> int {
        self.books.len() as int
    }

    /// The ids of the books, in order.
    pub open spec fn ids(self) -> Seq<i64> {
        self.books.map_values(|b: BookModel| b.id)
    }

    /// The number of pages of this list.
    pub open spec fn total(self) -> int {
        page_count(self.len(), self.rows)
    }

    /// A state that the pager can be in: at least one row per page, and the
    /// page within the list.
    pub open spec fn valid(self) -> bool {
        &&& self.rows >= 1
        &&& self.page >= 0
        &&& (self.page == 0 || self.page < self.len())
    }
}

/// The page label: empty for an empty list, else `стр. <page> / <total>`
/// counting pages from one.
pub open spec fn page_label(len: int, page: int, total: int) -> Seq<char> {
    if len == 0 {
        Seq::<char>::empty()
    } else {
        "стр. "@ + decimal((page + 1) as nat) + " / "@ + decimal(total as nat)
    }
}

/// The page that is shown: the current one, moved back onto the list when
/// the list got shorter or the pages longer.
pub open spec fn shown_page<C>(m: PagerModel<C>) -> int {
    if m.page < m.total() - 1 {
        m.page
    } else {
        m.total() - 1
    }
}

/// The position in the list of the first book on the shown page.
pub open spec fn page_start<C>(m: PagerModel<C>) -> int {
    range_start(m.len(), m.rows, shown_page(m))
}

/// The position in the list just after the last book on the shown page.
pub open spec fn page_end<C>(m: PagerModel<C>) -> int {
    range_end(m.len(), m.rows, shown_page(m))
}

/// The state after turning one page forward or back, or `None` when there
/// is no such page.
pub open spec fn turned<C>(m: PagerModel<C>, forward: bool) -> Option<PagerModel<C>> {
    let next = if forward {
        m.page + 1
    } else if m.page > 0 {
        m.page - 1
    } else {
        0
    };
    if next != m.page && next < m.total() {
        Some(PagerModel { page: next, ..m })
    } else {
        None
    }
}

/// The ids of `ids` that have no cover in `covers`, in order.
pub open spec fn without_cover<C>(ids: Seq<i64>, covers: Map<i64, C>) -> Seq<i64> {
    ids.filter(|id: i64| !covers.dom().contains(id))
}

/// One row of the list as the screen shows it.
pub struct BookRow<C> {
    /// The book's id, cut to 32 bits, as the screen hands it back on a tap.
    pub id: i32,
    pub title: String,
    pub author: String,
    /// The format that would be downloaded, or a dash when there is none.
    pub format: String,
    /// The download state, or empty.
    pub state: String,
    /// The book's cover, when it was fetched.
    pub cover: Option<C>,
}

/// The format column of a book: the format, or a dash.
pub open spec fn format_text(f: Option<Seq<char>>) -> Seq<char> {
    match f {
        Some(s) => s,
        None => "—"@,
    }
}

/// Whether `r` is the row that shows the book `b` with the download states
/// `states` and the covers `covers`.
pub open spec fn shows<C: Clone>(
    r: BookRow<C>,
    b: BookModel,
    states: Map<i64, &'static str>,
    covers: Map<i64, C>,
) -> bool {
    &&& r.id == b.id as i32
    &&& r.title@ == b.title
    &&& r.author@ == b.author
    &&& r.format@ == format_text(b.format)
    &&& r.state@ == (if states.dom().contains(b.id) {
        states[b.id]@
    } else {
        Seq::<char>::empty()
    })
    &&& (if covers.dom().contains(b.id) {
        r.cover matches Some(x) && cloned(covers[b.id], x)
    } else {
        r.cover is None
    })
}

/// What one page shows.
pub struct PageView<C> {
    /// The shown books are `start..end` of the list.
    pub start: usize,
    pub end: usize,
    /// The page shown, counting from zero, and the number of pages.
    pub page: usize,
    pub total: usize,
    pub label: String,
    pub has_prev: bool,
    pub has_next: bool,
    /// The rows of the shown books, in order.
    pub rows: Vec<BookRow<C>>,
    /// The shown books whose cover is still to be fetched, in list order.
    pub missing: Vec<i64>,
}

/// The paged book list; `C` is the type of a decoded cover. Covers and
/// download states are kept by book id.
pub struct Pager<C> {
    books: Vec<Book>,
    covers: HashMap<i64, C>,
    states: HashMap<i64, &'static str>,
    page: usize,
    rows: usize,
}

impl<C> View for Pager<C> {
    type V = PagerModel<C>;

    closed spec fn view(&self) -> PagerModel<C> {
        PagerModel {
            books: books_view(self.books@),
            covers: self.covers@,
            states: self.states@,
            page: self.page as int,
            rows: self.rows as int,
        }
    }
}

proof fn lemma_ceil_div_bounds(len: int, rows: int)
    requires
        rows >= 1,
        len >= 0,
    ensures
        len >= 1 ==> 1 <= ceil_div(len, rows) <= len,
        len == 0 ==> ceil_div(len, rows) == 0,
        len == rows * (len / rows) + len % rows,
        0 <= len % rows < rows,
        len / rows >= 0,
{
    lemma_fundamental_div_mod(len, rows);
    let q = len / rows;
    let r = len % rows;
    if rows >= 2 && len >= 1 {
        assert(q * 2 <= len) by (nonlinear_arith)
            requires
                len == rows * q + r,
                rows >= 2,
                0 <= r,
                q >= 0,
        ;
        if r == 0 {
            assert(q >= 1) by (nonlinear_arith)
                requires
                    len == rows * q + r,
                    rows >= 2,
                    r == 0,
                    len >= 1,
            ;
        }
    }
    if rows == 1 {
        assert(r == 0);
    }
}

/// The first book of any page lies within the list.
proof fn lemma_page_start(len: int, rows: int, page: int)
    requires
        rows >= 1,
        len >= 1,
        0 <= page < ceil_div(len, rows),
    ensures
        page * rows < len,
        0 <= page * rows,
{
    lemma_ceil_div_bounds(len, rows);
    let q = len / rows;
    let r = len % rows;
    let top = if r != 0 {
        q
    } else {
        q - 1
    };
    assert(page <= top);
    lemma_mul_inequality(page, top, rows);
    assert(top * rows < len) by (nonlinear_arith)
        requires
            len == rows * q + r,
            top == (if r != 0 {
                q
            } else {
                q - 1
            }),
            0 <= r < rows,
    ;
    assert(0 <= page * rows) by (nonlinear_arith)
        requires
            page >= 0,
            rows >= 1,
    ;
}

impl<C> Pager<C> {
    #[verifier::type_invariant]
    spec fn inv(self) -> bool {
        self@.valid()
    }

    /// An empty list on its first page, one row per page.
    pub fn new() -> (r: Pager<C>)
        ensures
            r@.books.len() == 0,
            r@.covers == Map::<i64, C>::empty(),
            r@.states == Map::<i64, &'static str>::empty(),
            r@.page == 0,
            r@.rows == 1,
            r@.valid(),
    {
        let r = Pager {
            books: Vec::new(),
            covers: HashMap::new(),
            states: HashMap::new(),
            page: 0,
            rows: 1,
        };
        assert(books_view(r.books@) =~= Seq::<BookModel>::empty());
        r
    }

    /// A new list of books, shown from its first page; the covers and
    /// download states of the old list are dropped.
    pub fn set_books(&mut self, books: Vec<Book>)
        ensures
            final(self)@ == (PagerModel {
                books: books_view(books@),
                covers: Map::<i64, C>::empty(),
                states: Map::<i64, &'static str>::empty(),
                page: 0,
                ..old(self)@
            }),
            final(self)@.valid(),
    {
        proof {
            use_type_invariant(&*self);
        }
        proof {
            broadcast use vstd::std_specs::hash::group_hash_axioms;
        }
        *self = Pager {
            books,
            covers: HashMap::new(),
            states: HashMap::new(),
            page: 0,
            rows: self.rows,
        };
        proof {
            use_type_invariant(&*self);
        }
    }

    /// Records the download state shown beside the book `id`.
    pub fn set_state(&mut self, id: i64, state: &'static str)
        ensures
            final(self)@ == (PagerModel { states: old(self)@.states.insert(id, state), ..old(self)@ }),
            final(self)@.valid(),
    {
        proof {
            use_type_invariant(&*self);
        }
        let ghost before = self.states@;
        let mut entries: HashMap<i64, &'static str> = HashMap::new();
        std::mem::swap(&mut entries, &mut self.states);
        entries.insert(id, state);
        self.states = entries;
        proof {
            broadcast use vstd::std_specs::hash::group_hash_axioms;

            assert(self.states@ =~= before.insert(id, state));
            use_type_invariant(&*self);
        }
    }

    /// Records the fetched cover of the book `id`.
    pub fn set_cover(&mut self, id: i64, cover: C)
        ensures
            final(self)@ == (PagerModel { covers: old(self)@.covers.insert(id, cover), ..old(self)@ }),
            final(self)@.valid(),
    {
        proof {
            use_type_invariant(&*self);
        }
        let ghost before = self.covers@;
        let mut entries: HashMap<i64, C> = HashMap::new();
        std::mem::swap(&mut entries, &mut self.covers);
        entries.insert(id, cover);
        self.covers = entries;
        proof {
            broadcast use vstd::std_specs::hash::group_hash_axioms;

            assert(self.covers@ =~= before.insert(id, cover));
            use_type_invariant(&*self);
        }
    }

    /// The rows per page, which the window reports whenever its size changes;
    /// at least one. Returns whether the number changed, so that the page must
    /// be redrawn.
    pub fn set_rows(&mut self, rows: usize) -> (changed: bool)
        ensures
            final(self)@ == (PagerModel {
                rows: if rows >= 1 {
                    rows as int
                } else {
                    1
                },
                ..old(self)@
            }),
            changed == (old(self)@.rows != final(self)@.rows),
            final(self)@.valid(),
    {
        proof {
            use_type_invariant(&*self);
        }
        let r = if rows >= 1 {
            rows
        } else {
            1
        };
        let changed = self.rows != r;
        self.rows = r;
        proof {
            use_type_invariant(&*self);
        }
        changed
    }

    /// The number of pages; at least one.
    pub fn total_pages(&self) -> (r: usize)
        ensures
            r == self@.total(),
            self@.valid(),
    {
        proof {
            use_type_invariant(self);
            lemma_ceil_div_bounds(self.books.len() as int, self.rows as int);
        }
        let len = self.books.len();
        let t = len / self.rows + if len % self.rows != 0 {
            1
        } else {
            0
        };
        if t < 1 {
            1
        } else {
            t
        }
    }

    /// Turns one page forward or back. Nothing happens before the first or
    /// after the last page. Returns whether the page changed.
    pub fn turn(&mut self, forward: bool) -> (moved: bool)
        ensures
            match turned(old(self)@, forward) {
                Some(m) => moved && final(self)@ == m,
                None => !moved && final(self)@ == old(self)@,
            },
            old(self)@.valid(),
            final(self)@.valid(),
    {
        proof {
            use_type_invariant(&*self);
            assert(self.books.len() == self.books@.len());
        }
        let page = self.page;
        let next = if forward {
            page + 1
        } else if page > 0 {
            page - 1
        } else {
            0
        };
        let total = self.total_pages();
        if next != page && next < total {
            proof {
                lemma_ceil_div_bounds(self.books.len() as int, self.rows as int);
            }
            self.page = next;
            proof {
                use_type_invariant(&*self);
            }
            true
        } else {
            false
        }
    }
}

/// What the screen does after a message from the worker, beyond what the
/// pager keeps.
pub enum ScreenUpdate {
    /// Show this status line.
    Status(String),
    /// Show or hide the busy mark.
    Busy(bool),
    /// Redraw the list, whose books or download states changed.
    Redraw,
    /// Turn these RGB pixels into a cover image, record it with
    /// [`Pager::set_cover`], and redraw the list.
    Cover { id: i64, rgb: Vec<u8>, width: u32, height: u32 },
}

impl<C> Pager<C> {
    /// Takes a message from the worker: a new list or a download state goes
    /// into the pager; a status line, the busy mark and a decoded cover are
    /// handed to the screen.
    pub fn apply(&mut self, msg: Msg) -> (u: ScreenUpdate)
        ensures
            match msg {
                Msg::Status(s) => (u matches ScreenUpdate::Status(t) && t@ == s@) && final(self)@
                    == old(self)@,
                Msg::Busy(b) => (u matches ScreenUpdate::Busy(x) && x == b) && final(self)@ == old(
                    self,
                )@,
                Msg::Books(list) => u is Redraw && final(self)@ == (PagerModel {
                    books: books_view(list@),
                    covers: Map::<i64, C>::empty(),
                    states: Map::<i64, &'static str>::empty(),
                    page: 0,
                    ..old(self)@
                }),
                Msg::BookState(id, st) => u is Redraw && final(self)@ == (PagerModel {
                    states: old(self)@.states.insert(id as i64, st),
                    ..old(self)@
                }),
                Msg::Cover { id, rgb, width, height } => (u matches ScreenUpdate::Cover {
                    id: i,
                    rgb: px,
                    width: w,
                    height: h,
                } && i == id && px@ == rgb@ && w == width && h == height) && final(self)@ == old(
                    self,
                )@,
            },
            final(self)@.valid(),
    {
        proof {
            use_type_invariant(&*self);
        }
        match msg {
            Msg::Status(s) => ScreenUpdate::Status(s),
            Msg::Busy(b) => ScreenUpdate::Busy(b),
            Msg::Books(list) => {
                self.set_books(list);
                ScreenUpdate::Redraw
            },
            Msg::BookState(id, st) => {
                self.set_state(id as i64, st);
                ScreenUpdate::Redraw
            },
            Msg::Cover { id, rgb, width, height } => ScreenUpdate::Cover { id, rgb, width, height },
        }
    }
}

impl<C: Clone> Pager<C> {
    /// The page to show: the page is first moved back onto the list if the
    /// list got shorter or the pages longer, then its rows, label and
    /// navigation are given, with the shown books that have no cover yet.
    pub fn render(&mut self) -> (v: PageView<C>)
        ensures
            ({
                let m = old(self)@;
                let page = shown_page(m);
                &&& final(self)@ == (PagerModel { page: page, ..m })
                &&& v.page == page
                &&& v.total == m.total()
                &&& v.start == page_start(m)
                &&& v.end == page_end(m)
                &&& v.label@ == page_label(m.len(), page, m.total())
                &&& v.has_prev == (page > 0)
                &&& v.has_next == (page + 1 < m.total())
                &&& v.rows@.len() == page_end(m) - page_start(m)
                &&& forall|k: int|
                    0 <= k < v.rows@.len() ==> shows(
                        #[trigger] v.rows@[k],
                        m.books[page_start(m) + k],
                        m.states,
                        m.covers,
                    )
                &&& v.missing@ == without_cover(m.ids().subrange(page_start(m), page_end(m)), m.covers)
            }),
            old(self)@.valid(),
            final(self)@.valid(),
    {
        proof {
            use_type_invariant(&*self);
            lemma_ceil_div_bounds(self.books.len() as int, self.rows as int);
        }
        let ghost m0 = self@;
        let len = self.books.len();
        let rows = self.rows;
        let total = self.total_pages();
        let page = if self.page < total - 1 {
            self.page
        } else {
            total - 1
        };
        proof {
            if len >= 1 {
                lemma_page_start(len as int, rows as int, page as int);
            }
        }
        self.page = page;
        proof {
            use_type_invariant(&*self);
        }
        let ghost m = self@;
        let first = if len == 0 {
            0
        } else {
            page * rows
        };
        let start = if first < len {
            first
        } else {
            len
        };
        let end = if rows < len - start {
            start + rows
        } else {
            len
        };
        let label = if len == 0 {
            String::new()
        } else {
            let mut l = String::from_str("стр. ");
            let p = usize_to_string(page + 1);
            l.append(p.as_str());
            l.append(" / ");
            let t = usize_to_string(total);
            l.append(t.as_str());
            l
        };
        let mut shown: Vec<BookRow<C>> = Vec::new();
        let mut missing: Vec<i64> = Vec::new();
        let mut i: usize = start;
        assert(m.ids().subrange(start as int, start as int) =~= Seq::<i64>::empty());
        assert(missing@ =~= without_cover(m.ids().subrange(start as int, start as int), m.covers))
            by {
            reveal(Seq::filter);
        }
        while i < end
            invariant
                m == self@,
                start <= i <= end <= self.books.len(),
                shown@.len() == i - start,
                forall|k: int|
                    0 <= k < shown@.len() ==> shows(
                        #[trigger] shown@[k],
                        m.books[start + k],
                        m.states,
                        m.covers,
                    ),
                missing@ == without_cover(m.ids().subrange(start as int, i as int), m.covers),
            decreases end - i,
        {
            let b = &self.books[i];
            let id = b.id;
            let state = match self.states.get(&id) {
                Some(s) => Some(*s),
                None => None,
            };
            let cover = self.covers.get(&id);
            let row = book_row(b, state, cover);
            proof {
                broadcast use vstd::std_specs::hash::group_hash_axioms;

                let before = m.ids().subrange(start as int, i as int);
                assert(m.ids()[i as int] == id);
                assert(m.ids().subrange(start as int, i + 1) =~= before.push(id));
                before.lemma_filter_push(id, |x: i64| !m.covers.dom().contains(x));
            }
            if cover.is_none() {
                missing.push(id);
            }
            let ghost old_shown = shown@;
            shown.push(row);
            proof {
                assert(m.books[i as int] == self.books@[i as int]@);
                assert forall|k: int| 0 <= k < shown@.len() implies shows(
                    #[trigger] shown@[k],
                    m.books[start + k],
                    m.states,
                    m.covers,
                ) by {
                    if k < old_shown.len() {
                        assert(shown@[k] == old_shown[k]);
                    }
                }
            }
            i = i + 1;
        }
        PageView {
            start,
            end,
            page,
            total,
            label,
            has_prev: page > 0,
            has_next: page + 1 < total,
            rows: shown,
            missing,
        }
    }
}

/// The row that shows `book` with its download state `state` and its cover
/// `cover`, if any.
pub fn book_row<C: Clone>(book: &Book, state: Option<&str>, cover: Option<&C>) -> (r: BookRow<C>)
    ensures
        r.id == book.id as i32,
        r.title@ == book.title@,
        r.author@ == book.author@,
        r.format@ == format_text(book@.format),
        r.state@ == (match state {
            Some(s) => s@,
            None => Seq::<char>::empty(),
        }),
        match cover {
            Some(c) => r.cover matches Some(x) && cloned(*c, x),
            None => r.cover is None,
        },
{
    #[verifier::truncate]
    let id = book.id as i32;
    BookRow {
        id,
        title: book.title.clone(),
        author: book.author.clone(),
        format: match &book.format {
            Some(f) => f.clone(),
            None => String::from_str("—"),
        },
        state: match state {
            Some(s) => String::from_str(s),
            None => String::new(),
        },
        cover: match cover {
            Some(c) => Some(c.clone()),
            None => None,
        },
    }
}

/// Turning one page forward and then one page back shows the page shown
/// before.
pub proof fn law_back_undoes_forward<C>(m: PagerModel<C>)
    requires
        m.valid(),
        turned(m, true) is Some,
    ensures
        turned(turned(m, true)->0, false) == Some(m),
{
}

/// Turning one page back and then one page forward shows the page shown
/// before, when that page is one of the list's pages (as it is after every
/// redraw).
pub proof fn law_forward_undoes_back<C>(m: PagerModel<C>)
    requires
        m.valid(),
        m.page < m.total(),
        turned(m, false) is Some,
    ensures
        turned(turned(m, false)->0, true) == Some(m),
{
    lemma_ceil_div_bounds(m.len(), m.rows);
}

/// Turning keeps the pager in a valid state, on an existing page.
pub proof fn law_turn_stays_on_list<C>(m: PagerModel<C>, forward: bool)
    requires
        m.valid(),
        turned(m, forward) is Some,
    ensures
        turned(m, forward)->0.valid(),
        0 <= turned(m, forward)->0.page < m.total(),
{
    lemma_ceil_div_bounds(m.len(), m.rows);
}

/// The page shown always exists: it is one of the pages of the list, its
/// books lie within the list, there are at most `rows` of them, it starts
/// at `page * rows`, and a non-empty list never shows an empty page.
pub proof fn law_shown_page_on_list<C>(m: PagerModel<C>)
    requires
        m.valid(),
    ensures
        0 <= shown_page(m) < m.total(),
        0 <= page_start(m) <= page_end(m) <= m.len(),
        page_end(m) - page_start(m) <= m.rows,
        m.len() > 0 ==> page_start(m) == shown_page(m) * m.rows && page_start(m) < page_end(
            m,
        ),
        (PagerModel { page: shown_page(m), ..m }).valid(),
{
    let len = m.len();
    lemma_ceil_div_bounds(len, m.rows);
    if len > 0 {
        lemma_page_start(len, m.rows, shown_page(m));
    }
}

/// Consecutive pages follow each other without gap or overlap: the books of
/// page `p + 1` start where those of page `p` end.
pub proof fn law_pages_adjacent<C>(m: PagerModel<C>)
    requires
        m.valid(),
        m.len() > 0,
        shown_page(m) + 1 < m.total(),
    ensures
        page_end(m) == page_start(PagerModel { page: shown_page(m) + 1, ..m }),
{
    let len = m.len();
    lemma_ceil_div_bounds(len, m.rows);
    let p = shown_page(m);
    let n = PagerModel { page: p + 1, ..m };
    assert(shown_page(n) == p + 1);
    lemma_page_start(len, m.rows, p + 1);
    lemma_page_start(len, m.rows, p);
    assert((p + 1) * m.rows == p * m.rows + m.rows) by (nonlinear_arith);
}

/// The books of pages `0..k` of `s`, one page after the other.
pub open spec fn pages_upto<A>(s: Seq<A>, rows: int, k: int) -> Seq<A>
    decreases k,
{
    if k <= 0 {
        Seq::empty()
    } else {
        pages_upto(s, rows, k - 1) + s.subrange(
            range_start(s.len() as int, rows, k - 1),
            range_end(s.len() as int, rows, k - 1),
        )
    }
}

#[verifier::spinoff_prover]
proof fn lemma_pages_upto<A>(s: Seq<A>, rows: int, k: int)
    requires
        rows >= 1,
        k >= 0,
    ensures
        0 <= range_start(s.len() as int, rows, k) <= s.len(),
        pages_upto(s, rows, k) == s.take(range_start(s.len() as int, rows, k)),
    decreases k,
{
    let len = s.len() as int;
    assert(k * rows >= 0) by (nonlinear_arith)
        requires
            k >= 0,
            rows >= 1,
    ;
    if k == 0 {
        assert(0 * rows == 0);
        assert(range_start(len, rows, 0) == 0);
        assert(s.take(0) =~= Seq::<A>::empty());
        assert(pages_upto(s, rows, 0) =~= Seq::<A>::empty());
    } else {
        lemma_pages_upto(s, rows, k - 1);
        let a = range_start(len, rows, k - 1);
        let b = range_end(len, rows, k - 1);
        assert((k - 1) * rows + rows == k * rows) by (nonlinear_arith);
        assert((k - 1) * rows <= k * rows) by (nonlinear_arith)
            requires
                rows >= 1,
        ;
        assert(b == range_start(len, rows, k));
        assert(pages_upto(s, rows, k) == pages_upto(s, rows, k - 1) + s.subrange(a, b));
        assert(s.take(a) + s.subrange(a, b) =~= s.take(b));
    }
}

/// The pages cut the whole list into consecutive runs: one after the other
/// they give every book exactly once and in order; every page but the last
/// holds `rows` books, and the last holds between one and `rows`.
#[verifier::spinoff_prover]
pub proof fn law_pages_partition<A>(s: Seq<A>, rows: int)
    requires
        rows >= 1,
        s.len() >= 1,
    ensures
        pages_upto(s, rows, page_count(s.len() as int, rows)) == s,
        forall|k: int|
            0 <= k < page_count(s.len() as int, rows) - 1 ==> #[trigger] range_end(
                s.len() as int,
                rows,
                k,
            ) - range_start(s.len() as int, rows, k) == rows,
        1 <= range_end(s.len() as int, rows, page_count(s.len() as int, rows) - 1) - range_start(
            s.len() as int,
            rows,
            page_count(s.len() as int, rows) - 1,
        ) <= rows,
{
    let len = s.len() as int;
    lemma_ceil_div_bounds(len, rows);
    let total = page_count(len, rows);
    assert(total == ceil_div(len, rows));
    let q = len / rows;
    let r = len % rows;
    assert(total * rows >= len) by (nonlinear_arith)
        requires
            len == rows * q + r,
            0 <= r < rows,
            total == q + (if r != 0 {
                1int
            } else {
                0int
            }),
    ;
    lemma_pages_upto(s, rows, total);
    assert(s.take(len) =~= s);
    assert forall|k: int| 0 <= k < total - 1 implies #[trigger] range_end(len, rows, k) - range_start(
        len,
        rows,
        k,
    ) == rows by {
        lemma_page_start(len, rows, k + 1);
        lemma_page_start(len, rows, k);
        assert((k + 1) * rows == k * rows + rows) by (nonlinear_arith);
    }
    lemma_page_start(len, rows, total - 1);
}

/// A row shows its own book: the book's id (cut to 32 bits), title, author,
/// format (a dash when none), the download state recorded for that id
/// (empty when none), and the cover recorded for that id (none when none).
pub proof fn law_row_shows_its_book<C: Clone>(
    r: BookRow<C>,
    b: BookModel,
    states: Map<i64, &'static str>,
    covers: Map<i64, C>,
)
    requires
        shows(r, b, states, covers),
    ensures
        r.id == b.id as i32,
        r.title@ == b.title,
        r.author@ == b.author,
        b.format matches Some(f) ==> r.format@ == f,
        b.format is None ==> r.format@ == "—"@,
        states.dom().contains(b.id) ==> r.state@ == states[b.id]@,
        !states.dom().contains(b.id) ==> r.state@.len() == 0,
        covers.dom().contains(b.id) ==> (r.cover matches Some(x) && cloned(covers[b.id], x)),
        !covers.dom().contains(b.id) ==> r.cover is None,
{
}

/// The books still missing a cover are exactly the given books that have no
/// cover recorded, in their order.
pub proof fn law_missing_are_uncovered<C>(ids: Seq<i64>, covers: Map<i64, C>)
    ensures
        forall|i: int|
            0 <= i < without_cover(ids, covers).len() ==> !covers.dom().contains(
                #[trigger] without_cover(ids, covers)[i],
            ),
        forall|i: int|
            0 <= i < ids.len() && !covers.dom().contains(ids[i]) ==> without_cover(
                ids,
                covers,
            ).contains(#[trigger] ids[i]),
        forall|x: i64| #[trigger]
            without_cover(ids, covers).contains(x) ==> ids.contains(x),
        without_cover(ids, covers).len() <= ids.len(),
{
    let p = |id: i64| !covers.dom().contains(id);
    ids.lemma_filter_len(p);
    assert forall|i: int| 0 <= i < without_cover(ids, covers).len() implies !covers.dom().contains(
        #[trigger] without_cover(ids, covers)[i],
    ) by {
        ids.lemma_filter_pred(p, i);
    }
    assert forall|i: int| 0 <= i < ids.len() && !covers.dom().contains(ids[i]) implies without_cover(
        ids,
        covers,
    ).contains(#[trigger] ids[i]) by {
        ids.lemma_filter_contains(p, i);
    }
    assert forall|x: i64| #[trigger] without_cover(ids, covers).contains(x) implies ids.contains(
        x,
    ) by {
        ids.lemma_filter_contains_rev(p, x);
    }
}

/// The label of a non-empty list starts with `стр. ` followed by the number
/// of the shown page counted from one; an empty list has no label.
pub proof fn law_label_counts_from_one(len: int, page: int, total: int)
    requires
        page >= 0,
        total >= 1,
        page + 1 <= usize::MAX,
    ensures
        len == 0 ==> page_label(len, page, total).len() == 0,
        len > 0 ==> ({
            let l = page_label(len, page, total);
            let d = decimal((page + 1) as nat);
            &&& l.take(5) == "стр. "@
            &&& parsed_usize(l.subrange(5, 5 + d.len() as int)) == Some((page + 1) as nat)
            &&& l[5 + d.len() as int] == ' '
        }),
{
    if len > 0 {
        reveal_strlit("стр. ");
        reveal_strlit(" / ");
        let d = decimal((page + 1) as nat);
        let l = page_label(len, page, total);
        law_parse_reads_back_decimal((page + 1) as usize);
        assert(l.take(5) =~= "стр. "@);
        assert(l.subrange(5, 5 + d.len() as int) =~= d);
        assert(l[5 + d.len() as int] == " / "@[0]);
    }
}

} // verus!

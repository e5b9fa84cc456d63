//! Settings: their defaults, how a settings file with missing keys is filled
//! in, the text written to disk, where the file is looked for, and how a
//! book's title becomes a file name that the reader's FAT partition accepts.

use vstd::prelude::*;
use vstd::string::*;
use crate::text::{
    chars_of, is_whitespace, lead_ws, lead_ws_end, lemma_lead_ws_bound, push_char, string_of,
    strings_view, white_space,
};

verus! {

/// Settings of the application. A settings file may leave out any key: the
/// missing ones come from [`Config::default`].
#[derive(Clone, Debug)]
pub struct Config {
    pub server: String,
    pub user: Option<String>,
    pub password: Option<String>,
    pub library: Option<String>,
    pub download_dir: String,
    pub formats: Vec<String>,
    pub limit: usize,
}

/// The mathematical content of [`Config`].
pub struct ConfigModel {
    pub server: Seq<char>,
    pub user: Option<Seq<char>>,
    pub password: Option<Seq<char>>,
    pub library: Option<Seq<char>>,
    pub download_dir: Seq<char>,
    pub formats: Seq<Seq<char>>,
    pub limit: usize,
}

/// The characters of an optional string.
pub open spec fn opt_view(o: Option<String>) -> Option<Seq<char>> {
    match o {
        Some(s) => Some(s@),
        None => None,
    }
}

impl View for Config {
    type V = ConfigModel;

    open spec fn view(&self) -> ConfigModel {
        ConfigModel {
            server: self.server@,
            user: opt_view(self.user),
            password: opt_view(self.password),
            library: opt_view(self.library),
            download_dir: self.download_dir@,
            formats: strings_view(self.formats@),
            limit: self.limit,
        }
    }
}

/// The server address used when none is configured.
pub open spec fn default_server() -> Seq<char> {
    "http://192.168.1.10:8080"@
}

/// The download folder used when none is configured.
pub open spec fn default_download_dir() -> Seq<char> {
    "/mnt/ext1/Books"@
}

/// The preferred formats used when none are configured, most wanted first.
pub open spec fn default_formats() -> Seq<Seq<char>> {
    seq!["FB2"@, "EPUB"@, "PDF"@, "MOBI"@]
}

/// The book list limit used when none is configured.
pub open spec fn default_limit() -> usize {
    200
}

/// The settings used when there are none.
pub open spec fn default_model() -> ConfigModel {
    ConfigModel {
        server: default_server(),
        user: None,
        password: None,
        library: None,
        download_dir: default_download_dir(),
        formats: default_formats(),
        limit: default_limit(),
    }
}

/// The list of the preferred formats used when none are configured.
fn default_format_list() -> (v: Vec<String>)
    ensures
        strings_view(v@) == default_formats(),
{
    let mut v: Vec<String> = Vec::new();
    v.push(String::from_str("FB2"));
    v.push(String::from_str("EPUB"));
    v.push(String::from_str("PDF"));
    v.push(String::from_str("MOBI"));
    assert(strings_view(v@) =~= default_formats());
    v
}

impl Default for Config {
    fn default() -> (r: Self)
        ensures
            r@ == default_model(),
    {
        Config {
            server: String::from_str("http://192.168.1.10:8080"),
            user: None,
            password: None,
            library: None,
            download_dir: String::from_str("/mnt/ext1/Books"),
            formats: default_format_list(),
            limit: 200,
        }
    }
}

/// The value of a key that a settings file may leave out.
pub open spec fn or_default<T>(given: Option<T>, default: T) -> T {
    match given {
        Some(v) => v,
        None => default,
    }
}

/// The settings that a file with the given keys describes: each key it holds
/// is taken as it stands, each one it lacks comes from the defaults.
pub open spec fn filled_model(
    server: Option<Seq<char>>,
    user: Option<Seq<char>>,
    password: Option<Seq<char>>,
    library: Option<Seq<char>>,
    download_dir: Option<Seq<char>>,
    formats: Option<Seq<Seq<char>>>,
    limit: Option<usize>,
) -> ConfigModel {
    ConfigModel {
        server: or_default(server, default_server()),
        user: user,
        password: password,
        library: library,
        download_dir: or_default(download_dir, default_download_dir()),
        formats: or_default(formats, default_formats()),
        limit: or_default(limit, default_limit()),
    }
}

/// The character sequences of an optional list of strings.
pub open spec fn opt_strings_view(o: Option<Vec<String>>) -> Option<Seq<Seq<char>>> {
    match o {
        Some(v) => Some(strings_view(v@)),
        None => None,
    }
}

/// The text that the settings file starts with: comment lines that tell a
/// reader of the file what each key means.
pub const HEADER: &'static str = "# pocket_calibre — настройки. Файл перезаписывается экраном настроек.
# server        — адрес calibre content server
# user/password — если сервер требует авторизацию (только basic)
# library       — id библиотеки; без него берётся библиотека по умолчанию
# formats       — по убыванию предпочтения, качается первый доступный

";

/// The name of the settings file.
pub const FILE_NAME: &'static str = "pocket_calibre.toml";

/// The settings file in the applications folder of the reader.
pub const APPS_PATH: &'static str = "/mnt/ext1/applications/pocket_calibre.toml";

/// The settings file in the system configuration folder of the reader.
pub const SYSTEM_PATH: &'static str = "/mnt/ext1/system/config/pocket_calibre.toml";

/// `dir` joined with the relative file name `name`: a `/` goes between them
/// unless `dir` is empty or already ends with one.
pub open spec fn joined_path(dir: Seq<char>, name: Seq<char>) -> Seq<char> {
    if dir.len() == 0 || dir.last() == '/' {
        dir + name
    } else {
        dir + seq!['/'] + name
    }
}

/// Where the settings file is looked for, in this order.
pub open spec fn candidates(exe_dir: Option<Seq<char>>) -> Seq<Seq<char>> {
    let fixed = seq![APPS_PATH@, SYSTEM_PATH@];
    match exe_dir {
        Some(d) => seq![joined_path(d, FILE_NAME@)] + fixed,
        None => fixed,
    }
}

/// The message shown when the settings file cannot be read as settings.
pub open spec fn parse_failure_note(path: Seq<char>, err: Seq<char>) -> Seq<char> {
    "Ошибка в "@ + path + ": "@ + err
}

/// The message shown after a missing settings file was (or was not) created.
pub open spec fn creation_note(target: Seq<char>, saved: Result<(), Seq<char>>) -> Seq<char> {
    match saved {
        Ok(()) => "Настройки не найдены — укажите адрес сервера"@,
        Err(e) => "Не удалось создать "@ + target + ": "@ + e,
    }
}

/// The position of the first file, from `i` on, that could be read.
pub open spec fn first_read(reads: Seq<(String, Option<Result<Config, String>>)>, i: int) -> Option<int>
    decreases reads.len() - i,
{
    if i < 0 || i >= reads.len() {
        None
    } else if reads[i].1 is Some {
        Some(i)
    } else {
        first_read(reads, i + 1)
    }
}

proof fn lemma_first_read_bounds(reads: Seq<(String, Option<Result<Config, String>>)>, i: int)
    ensures
        first_read(reads, i) matches Some(k) ==> 0 <= i <= k < reads.len() && reads[k].1 is Some,
    decreases reads.len() - i,
{
    if 0 <= i < reads.len() && reads[i].1 is None {
        lemma_first_read_bounds(reads, i + 1);
    }
}

impl Config {
    /// The settings that a file with the given keys describes: a key that the
    /// file lacks (`None`) takes its default value.
    pub fn from_fields(
        server: Option<String>,
        user: Option<String>,
        password: Option<String>,
        library: Option<String>,
        download_dir: Option<String>,
        formats: Option<Vec<String>>,
        limit: Option<usize>,
    ) -> (r: Config)
        ensures
            r@ == filled_model(
                opt_view(server),
                opt_view(user),
                opt_view(password),
                opt_view(library),
                opt_view(download_dir),
                opt_strings_view(formats),
                limit,
            ),
    {
        let d = Config::default();
        Config {
            server: match server {
                Some(s) => s,
                None => d.server,
            },
            user: user,
            password: password,
            library: library,
            download_dir: match download_dir {
                Some(s) => s,
                None => d.download_dir,
            },
            formats: match formats {
                Some(f) => f,
                None => d.formats,
            },
            limit: match limit {
                Some(n) => n,
                None => d.limit,
            },
        }
    }

    /// The whole text of the settings file: the comment header followed by the
    /// serialised settings `body`.
    pub fn file_text(body: &str) -> (r: String)
        ensures
            r@ == HEADER@ + body@,
    {
        let mut r = String::from_str(HEADER);
        r.append(body);
        r
    }

    /// Where the settings file is looked for: beside the executable (when its
    /// folder `exe_dir` is known), then in the reader's standard folders.
    pub fn candidate_paths(exe_dir: Option<String>) -> (r: Vec<String>)
        ensures
            strings_view(r@) == candidates(opt_view(exe_dir)),
    {
        let mut paths: Vec<String> = Vec::new();
        if let Some(dir) = exe_dir {
            let ghost d = dir@;
            let mut p = dir;
            if p.as_str().unicode_len() != 0 && p.as_str().get_char(p.as_str().unicode_len() - 1) != '/' {
                push_char(&mut p, '/');
            }
            p.append(FILE_NAME);
            assert(p@ =~= joined_path(d, FILE_NAME@));
            paths.push(p);
        }
        paths.push(String::from_str(APPS_PATH));
        paths.push(String::from_str(SYSTEM_PATH));
        assert(strings_view(paths@) =~= candidates(opt_view(exe_dir)));
        paths
    }

    /// The file to create when no settings file was found: the first place
    /// looked at, or the bare file name when there was none.
    pub fn fallback_target(candidates: &Vec<String>) -> (r: String)
        ensures
            r@ == (if candidates.len() > 0 {
                candidates@[0]@
            } else {
                FILE_NAME@
            }),
    {
        if candidates.len() > 0 {
            candidates[0].clone()
        } else {
            String::from_str(FILE_NAME)
        }
    }

    /// What loading gives once the file at `path` was read and `parsed`: the
    /// settings and no message, or, when the text is not valid settings, the
    /// defaults and a message that names the file and the error. A broken file
    /// is left as it is.
    pub fn settle_loaded(path: String, parsed: Result<Config, String>) -> (r: (
        Config,
        String,
        Option<String>,
    ))
        ensures
            r.1@ == path@,
            match parsed {
                Ok(c) => r.0 == c && r.2 is None,
                Err(e) => r.0@ == default_model() && opt_view(r.2) == Some(
                    parse_failure_note(path@, e@),
                ),
            },
    {
        match parsed {
            Ok(c) => (c, path, None),
            Err(e) => {
                let mut note = String::from_str("Ошибка в ");
                note.append(path.as_str());
                note.append(": ");
                note.append(e.as_str());
                (Config::default(), path, Some(note))
            },
        }
    }

    /// What loading gives, from the places looked at in order, each with the
    /// outcome of reading it there: `None` where no file could be read,
    /// else the settings it holds or why it does not hold valid ones. The
    /// first file that could be read decides, as [`Config::settle_loaded`]
    /// says; with none, the result is `None` and the defaults are to be
    /// written.
    pub fn pick_loaded(reads: Vec<(String, Option<Result<Config, String>>)>) -> (r: Option<(
        Config,
        String,
        Option<String>,
    )>)
        ensures
            match first_read(reads@, 0) {
                None => r is None,
                Some(k) => r matches Some(out) && out.1@ == reads@[k].0@ && match reads@[k].1 {
                    Some(Ok(c)) => out.0 == c && out.2 is None,
                    Some(Err(e)) => out.0@ == default_model() && opt_view(out.2) == Some(
                        parse_failure_note(reads@[k].0@, e@),
                    ),
                    None => false,
                },
            },
    {
        let mut i: usize = 0;
        while i < reads.len()
            invariant
                i <= reads.len(),
                first_read(reads@, 0) == first_read(reads@, i as int),
            decreases reads.len() - i,
        {
            if reads[i].1.is_some() {
                proof {
                    lemma_first_read_bounds(reads@, 0);
                }
                let mut reads = reads;
                let (path, read) = reads.remove(i);
                return match read {
                    Some(parsed) => Some(Config::settle_loaded(path, parsed)),
                    None => None,
                };
            }
            i = i + 1;
        }
        None
    }

    /// The message shown after a missing settings file was written to
    /// `target` with the defaults, or failed to be.
    pub fn creation_note(target: &str, saved: Result<(), String>) -> (r: String)
        ensures
            r@ == creation_note(
                target@,
                match saved {
                    Ok(()) => Ok(()),
                    Err(e) => Err(e@),
                },
            ),
    {
        match saved {
            Ok(()) => String::from_str("Настройки не найдены — укажите адрес сервера"),
            Err(e) => {
                let mut note = String::from_str("Не удалось создать ");
                note.append(target);
                note.append(": ");
                note.append(e.as_str());
                note
            },
        }
    }
}

/// Characters that a FAT file name cannot hold or that the reader chokes on:
/// path separators, the reserved punctuation and control characters.
pub open spec fn unsafe_in_name(c: char) -> bool {
    c == '/' || c == '\\' || c == ':' || c == '*' || c == '?' || c == '"' || c == '<' || c == '>'
        || c == '|' || (c as u32) < 0x20
}

/// A character as it stands in a cleaned file name.
pub open spec fn name_char(c: char) -> char {
    if unsafe_in_name(c) {
        '_'
    } else {
        c
    }
}

/// The longest file name, in characters, that cleaning keeps.
pub const MAX_NAME_CHARS: usize = 120;

/// A character that a file name must not end with: whitespace or a dot.
pub open spec fn tail_junk(c: char) -> bool {
    white_space(c) || c == '.'
}

/// Number of whitespace characters and dots at the end of `s`.
pub open spec fn trail_junk(s: Seq<char>) -> nat
    decreases s.len(),
{
    if s.len() > 0 && tail_junk(s.last()) {
        1 + trail_junk(s.drop_last())
    } else {
        0
    }
}

/// `s` without the whitespace and dots at its end.
pub open spec fn strip_tail(s: Seq<char>) -> Seq<char> {
    s.take(s.len() - trail_junk(s))
}

proof fn lemma_trail_junk_stops(s: Seq<char>)
    ensures
        trail_junk(s) <= s.len(),
        trail_junk(s) < s.len() ==> !tail_junk(s[s.len() - trail_junk(s) - 1]),
    decreases s.len(),
{
    if s.len() > 0 && tail_junk(s.last()) {
        lemma_trail_junk_stops(s.drop_last());
        if trail_junk(s) < s.len() {
            let d = s.drop_last();
            assert(d[d.len() - trail_junk(d) - 1] == s[s.len() - trail_junk(s) - 1]);
        }
    }
}

/// The end `k` of `strip_tail(v[from..to])` inside `v`.
fn strip_tail_bound(v: &Vec<char>, from: usize, to: usize) -> (k: usize)
    requires
        from <= to <= v.len(),
    ensures
        from <= k <= to,
        v@.subrange(from as int, k as int) == strip_tail(v@.subrange(from as int, to as int)),
{
    let mut k: usize = to;
    while k > from && (is_whitespace(v[k - 1]) || v[k - 1] == '.')
        invariant
            from <= k <= to <= v.len(),
            trail_junk(v@.subrange(from as int, to as int)) == (to - k) + trail_junk(
                v@.subrange(from as int, k as int),
            ),
        decreases k - from,
    {
        proof {
            let t = v@.subrange(from as int, k as int);
            assert(t.drop_last() =~= v@.subrange(from as int, k - 1));
        }
        k = k - 1;
    }
    proof {
        let t = v@.subrange(from as int, to as int);
        assert(t.take(t.len() - trail_junk(t)) =~= v@.subrange(from as int, k as int));
    }
    k
}

/// The file name that `name` becomes: each unsafe character turned into `_`,
/// leading whitespace dropped, trailing whitespace and dots dropped, cut to
/// 120 characters (and trailing whitespace and dots dropped again after the
/// cut), and `book` when nothing is left.
pub open spec fn sanitized(name: Seq<char>) -> Seq<char> {
    let mapped = name.map_values(|c: char| name_char(c));
    let cleaned = strip_tail(mapped.skip(lead_ws(mapped) as int));
    let cut = if cleaned.len() > MAX_NAME_CHARS {
        strip_tail(cleaned.take(MAX_NAME_CHARS as int))
    } else {
        cleaned
    };
    if cut.len() == 0 {
        "book"@
    } else {
        cut
    }
}

/// Turns a book title into a file name that the reader's FAT partition takes.
pub fn sanitize_filename(name: &str) -> (r: String)
    ensures
        r@ == sanitized(name@),
{
    let src = chars_of(name);
    let mut mapped: Vec<char> = Vec::new();
    let mut i: usize = 0;
    while i < src.len()
        invariant
            i <= src.len(),
            src@ == name@,
            mapped@ == name@.take(i as int).map_values(|c: char| name_char(c)),
        decreases src.len() - i,
    {
        let c = src[i];
        let out = if c == '/' || c == '\\' || c == ':' || c == '*' || c == '?' || c == '"' || c
            == '<' || c == '>' || c == '|' || (c as u32) < 0x20 {
            '_'
        } else {
            c
        };
        mapped.push(out);
        i = i + 1;
        assert(mapped@ =~= name@.take(i as int).map_values(|c: char| name_char(c)));
    }
    assert(name@.take(src.len() as int) =~= name@);
    let ghost m = mapped@;
    assert(m == name@.map_values(|c: char| name_char(c)));
    let len = mapped.len();
    assert(m.subrange(0, len as int) =~= m);
    let a = lead_ws_end(&mapped, 0, len);
    assert(m.subrange(a as int, len as int) =~= m.skip(lead_ws(m) as int));
    let k = strip_tail_bound(&mapped, a, len);
    let end = if k - a > MAX_NAME_CHARS {
        let e = strip_tail_bound(&mapped, a, a + MAX_NAME_CHARS);
        assert(m.subrange(a as int, a + MAX_NAME_CHARS) =~= m.subrange(a as int, k as int).take(
            MAX_NAME_CHARS as int,
        ));
        e
    } else {
        k
    };
    if end == a {
        String::from_str("book")
    } else {
        string_of(&mapped, a, end)
    }
}

/// A settings file that holds no key at all describes the default settings.
pub proof fn law_empty_file_gives_defaults()
    ensures
        filled_model(None, None, None, None, None, None, None) == default_model(),
{
}

/// A key that the settings file lacks takes its default value, and a key
/// that it holds is taken as it stands, whatever the other keys are.
pub proof fn law_missing_keys_take_defaults(
    server: Option<Seq<char>>,
    user: Option<Seq<char>>,
    password: Option<Seq<char>>,
    library: Option<Seq<char>>,
    download_dir: Option<Seq<char>>,
    formats: Option<Seq<Seq<char>>>,
    limit: Option<usize>,
)
    ensures
        ({
            let m = filled_model(server, user, password, library, download_dir, formats, limit);
            &&& server is None ==> m.server == default_model().server
            &&& user is None ==> m.user == default_model().user
            &&& password is None ==> m.password == default_model().password
            &&& library is None ==> m.library == default_model().library
            &&& download_dir is None ==> m.download_dir == default_model().download_dir
            &&& formats is None ==> m.formats == default_model().formats
            &&& limit is None ==> m.limit == default_model().limit
            &&& server matches Some(v) ==> m.server == v
            &&& m.user == user && m.password == password && m.library == library
            &&& download_dir matches Some(v) ==> m.download_dir == v
            &&& formats matches Some(v) ==> m.formats == v
            &&& limit matches Some(v) ==> m.limit == v
        }),
{
}

/// A cleaned file name is never empty, has at most 120 characters, holds
/// none of the characters that a FAT file name cannot hold (path separators,
/// `: * ? " < > |`, control characters), starts with no whitespace and ends
/// with neither whitespace nor a dot; cleaning it again changes nothing.
pub proof fn law_sanitized_name_is_safe(name: Seq<char>)
    ensures
        sanitized(name).len() >= 1,
        sanitized(name).len() <= MAX_NAME_CHARS,
        forall|i: int|
            0 <= i < sanitized(name).len() ==> !unsafe_in_name(#[trigger] sanitized(name)[i]),
        !white_space(sanitized(name)[0]),
        !tail_junk(sanitized(name).last()),
        sanitized(sanitized(name)) == sanitized(name),
{
    let mapped = name.map_values(|c: char| name_char(c));
    assert forall|j: int| 0 <= j < mapped.len() implies !unsafe_in_name(#[trigger] mapped[j]) by {
        assert(mapped[j] == name_char(name[j]));
    }
    lemma_lead_ws_bound(mapped);
    let start = mapped.skip(lead_ws(mapped) as int);
    lemma_trail_junk_stops(start);
    let cleaned = strip_tail(start);
    let cut = if cleaned.len() > MAX_NAME_CHARS {
        strip_tail(cleaned.take(MAX_NAME_CHARS as int))
    } else {
        cleaned
    };
    if cleaned.len() > MAX_NAME_CHARS {
        lemma_trail_junk_stops(cleaned.take(MAX_NAME_CHARS as int));
    }
    // every character of `cut` is the character at the same place of `start`
    assert forall|j: int| 0 <= j < cut.len() implies #[trigger] cut[j] == start[j] by {}
    let r = sanitized(name);
    if cut.len() == 0 {
        reveal_strlit("book");
        assert(r == "book"@);
        assert forall|i: int| 0 <= i < r.len() implies !unsafe_in_name(#[trigger] r[i]) by {
            assert(r[i] == 'b' || r[i] == 'o' || r[i] == 'k');
        }
    } else {
        assert(r == cut);
        assert forall|i: int| 0 <= i < r.len() implies !unsafe_in_name(#[trigger] r[i]) by {
            assert(r[i] == start[i]);
            assert(start[i] == mapped[i + lead_ws(mapped)]);
        }
        assert(r[0] == start[0]);
    }
    lemma_sanitized_fixed(r);
}

/// A name that is already clean stays as it is.
proof fn lemma_sanitized_fixed(r: Seq<char>)
    requires
        1 <= r.len() <= MAX_NAME_CHARS,
        forall|i: int| 0 <= i < r.len() ==> !unsafe_in_name(#[trigger] r[i]),
        !white_space(r[0]),
        !tail_junk(r.last()),
    ensures
        sanitized(r) == r,
{
    let mapped = r.map_values(|c: char| name_char(c));
    assert(mapped =~= r);
    assert(lead_ws(r) == 0);
    assert(r.skip(0) =~= r);
    assert(trail_junk(r) == 0);
    assert(r.take(r.len() as int) =~= r);
}

/// Loading is decided by the first place whose file could be read: every
/// place before it had none, and when no place had one nothing is decided.
pub proof fn law_first_readable_decides(reads: Seq<(String, Option<Result<Config, String>>)>)
    ensures
        first_read(reads, 0) matches Some(k) ==> 0 <= k < reads.len() && reads[k].1 is Some && (
        forall|j: int| 0 <= j < k ==> (#[trigger] reads[j]).1 is None),
        first_read(reads, 0) is None ==> forall|j: int|
            0 <= j < reads.len() ==> (#[trigger] reads[j]).1 is None,
{
    lemma_first_read_scan(reads, 0);
}

proof fn lemma_first_read_scan(reads: Seq<(String, Option<Result<Config, String>>)>, i: int)
    requires
        0 <= i <= reads.len(),
    ensures
        first_read(reads, i) matches Some(k) ==> i <= k < reads.len() && reads[k].1 is Some && (
        forall|j: int| i <= j < k ==> (#[trigger] reads[j]).1 is None),
        first_read(reads, i) is None ==> forall|j: int|
            i <= j < reads.len() ==> (#[trigger] reads[j]).1 is None,
    decreases reads.len() - i,
{
    if i < reads.len() && reads[i].1 is None {
        lemma_first_read_scan(reads, i + 1);
    }
}

} // verus!

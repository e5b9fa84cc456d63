//! The settings screen: what it shows for each setting, what the on-screen
//! keyboard starts from, and how a typed answer changes the settings.

use vstd::prelude::*;
use vstd::string::*;
use crate::config::{Config, ConfigModel, opt_view};
use crate::text::{
    lead_ws, lemma_join_ends, lemma_lead_ws_bound, lemma_split_join, lemma_trail_ws_bound,
    trail_char, trail_ws, white_space,
    decimal, join, lemma_trim_decimal, law_parse_reads_back_decimal, join_strings, parse_usize, parsed_usize, split_on,
    string_of, strings_view, to_uppercase, trim, trim_bounds, trim_end_char,
    trim_end_char_bound, upper, usize_to_string, chars_of,
};

verus! {

/// A setting that can be edited on the device.
#[derive(Clone, Copy, PartialEq, Eq, Debug, Structural)]
pub enum Field {
    Server,
    User,
    Password,
    Library,
    DownloadDir,
    Formats,
    Limit,
}

/// An optional setting shown as text: empty when unset.
pub open spec fn or_empty(o: Option<Seq<char>>) -> Seq<char> {
    match o {
        Some(s) => s,
        None => Seq::<char>::empty(),
    }
}

/// The current value of a setting as text.
pub open spec fn value_of(c: ConfigModel, f: Field) -> Seq<char> {
    match f {
        Field::Server => c.server,
        Field::User => or_empty(c.user),
        Field::Password => or_empty(c.password),
        Field::Library => or_empty(c.library),
        Field::DownloadDir => c.download_dir,
        Field::Formats => join(c.formats, ","@),
        Field::Limit => decimal(c.limit as nat),
    }
}

/// The string of an optional setting, or the empty string.
fn text_or_empty(o: &Option<String>) -> (r: String)
    ensures
        r@ == or_empty(opt_view(*o)),
{
    match o {
        Some(s) => s.clone(),
        None => String::new(),
    }
}

/// The current value of a setting as text, as the keyboard edits it.
pub fn current_value(cfg: &Config, field: Field) -> (r: String)
    ensures
        r@ == value_of(cfg@, field),
{
    match field {
        Field::Server => cfg.server.clone(),
        Field::User => text_or_empty(&cfg.user),
        Field::Password => text_or_empty(&cfg.password),
        Field::Library => text_or_empty(&cfg.library),
        Field::DownloadDir => cfg.download_dir.clone(),
        Field::Formats => join_strings(&cfg.formats, ","),
        Field::Limit => usize_to_string(cfg.limit),
    }
}

/// The text the keyboard opens with: the current value, except for the
/// password, which is always typed anew.
pub open spec fn initial_text(c: ConfigModel, f: Field) -> Seq<char> {
    if f == Field::Password {
        Seq::<char>::empty()
    } else {
        value_of(c, f)
    }
}

/// The text the keyboard opens with for a setting.
pub fn initial_value(cfg: &Config, field: Field) -> (r: String)
    ensures
        r@ == initial_text(cfg@, field),
{
    match field {
        Field::Password => String::new(),
        other => current_value(cfg, other),
    }
}

/// What the settings screen shows, one text per line.
pub struct ConfigView {
    pub server: String,
    pub cfg_server: String,
    pub cfg_user: String,
    pub cfg_password: String,
    pub cfg_library: String,
    pub cfg_download_dir: String,
    pub cfg_formats: String,
    pub cfg_limit: String,
}

/// An optional setting as shown on screen: a dash when unset.
pub open spec fn or_dash(o: Option<Seq<char>>) -> Seq<char> {
    match o {
        Some(s) => s,
        None => "—"@,
    }
}

/// The string of an optional setting, or a dash.
fn text_or_dash(o: &Option<String>) -> (r: String)
    ensures
        r@ == or_dash(opt_view(*o)),
{
    match o {
        Some(s) => s.clone(),
        None => String::from_str("—"),
    }
}

/// What the settings screen shows for `cfg`: the password only as a mask.
pub fn show_config(cfg: &Config) -> (r: ConfigView)
    ensures
        r.server@ == cfg@.server,
        r.cfg_server@ == cfg@.server,
        r.cfg_user@ == or_dash(cfg@.user),
        r.cfg_password@ == (if cfg@.password is Some {
            "••••••"@
        } else {
            "—"@
        }),
        r.cfg_library@ == or_dash(cfg@.library),
        r.cfg_download_dir@ == cfg@.download_dir,
        r.cfg_formats@ == join(cfg@.formats, ", "@),
        r.cfg_limit@ == decimal(cfg@.limit as nat),
{
    ConfigView {
        server: cfg.server.clone(),
        cfg_server: cfg.server.clone(),
        cfg_user: text_or_dash(&cfg.user),
        cfg_password: if cfg.password.is_some() {
            String::from_str("••••••")
        } else {
            String::from_str("—")
        },
        cfg_library: text_or_dash(&cfg.library),
        cfg_download_dir: cfg.download_dir.clone(),
        cfg_formats: join_strings(&cfg.formats, ", "),
        cfg_limit: usize_to_string(cfg.limit),
    }
}

/// The status line after the settings were (or were not) written to disk.
pub open spec fn saved_note(saved: Result<(), Seq<char>>) -> Seq<char> {
    match saved {
        Ok(()) => "Настройки сохранены"@,
        Err(e) => "Не удалось сохранить настройки: "@ + e,
    }
}

/// The status line after an answer was applied and the settings written,
/// given how writing them went.
pub fn save_status(saved: Result<(), String>) -> (r: String)
    ensures
        r@ == saved_note(
            match saved {
                Ok(()) => Ok(()),
                Err(e) => Err(e@),
            },
        ),
{
    match saved {
        Ok(()) => String::from_str("Настройки сохранены"),
        Err(e) => {
            let mut r = String::from_str("Не удалось сохранить настройки: ");
            r.append(e.as_str());
            r
        },
    }
}

/// One entry of a typed list of formats: trimmed and upper-cased (a blank
/// entry stays empty).
pub open spec fn format_entry(p: Seq<char>) -> Seq<char> {
    if trim(p).len() == 0 {
        Seq::<char>::empty()
    } else {
        upper(trim(p))
    }
}

/// The function [`format_entry`].
pub open spec fn format_entry_fn() -> spec_fn(Seq<char>) -> Seq<char> {
    |p: Seq<char>| format_entry(p)
}

/// Whether a format entry is kept: it is not empty.
pub open spec fn keep_format_fn() -> spec_fn(Seq<char>) -> bool {
    |f: Seq<char>| f.len() > 0
}

/// The formats that a comma-separated answer lists: each piece trimmed and
/// upper-cased, empty pieces dropped.
pub open spec fn formats_from(v: Seq<char>) -> Seq<Seq<char>> {
    split_on(v, ',').map_values(format_entry_fn()).filter(keep_format_fn())
}

/// Appends the format entry of `v[from..to]` to `out` when it is not empty.
fn push_format(out: &mut Vec<String>, v: &Vec<char>, from: usize, to: usize)
    requires
        from <= to <= v.len(),
    ensures
        strings_view(final(out)@) == (if format_entry(v@.subrange(from as int, to as int)).len()
            > 0 {
            strings_view(old(out)@).push(format_entry(v@.subrange(from as int, to as int)))
        } else {
            strings_view(old(out)@)
        }),
{
    let (a, b) = trim_bounds(v, from, to);
    if a == b {
        return;
    }
    let t = string_of(v, a, b);
    let u = to_uppercase(t.as_str());
    if !u.as_str().is_empty() {
        let ghost before = out@;
        out.push(u);
        assert(strings_view(out@) =~= strings_view(before).push(u@));
    }
}

/// The formats listed by the typed answer `v`.
fn parse_formats(v: &Vec<char>) -> (r: Vec<String>)
    ensures
        strings_view(r@) == formats_from(v@),
{
    let ghost s = v@;
    let mut out: Vec<String> = Vec::new();
    let mut start: usize = 0;
    let mut i: usize = 0;
    let ghost mut done: Seq<Seq<char>> = Seq::empty();
    assert(s.take(0) =~= Seq::<char>::empty());
    assert(s.subrange(0, 0) =~= Seq::<char>::empty());
    assert(split_on(s.take(0), ',') =~= done.push(s.subrange(0, 0)));
    assert(strings_view(out@) =~= done.map_values(format_entry_fn()).filter(keep_format_fn()))
        by {
        reveal(Seq::filter);
    }
    while i < v.len()
        invariant
            s == v@,
            start <= i <= v.len(),
            split_on(s.take(i as int), ',') == done.push(s.subrange(start as int, i as int)),
            strings_view(out@) == done.map_values(format_entry_fn()).filter(keep_format_fn()),
        decreases v.len() - i,
    {
        let ghost piece = s.subrange(start as int, i as int);
        proof {
            assert(s.take(i + 1).drop_last() =~= s.take(i as int));
            assert(s.take(i + 1).last() == s[i as int]);
        }
        if v[i] == ',' {
            push_format(&mut out, v, start, i);
            proof {
                let m = done.map_values(format_entry_fn());
                assert(done.push(piece).map_values(format_entry_fn()) =~= m.push(
                    format_entry(piece),
                ));
                m.lemma_filter_push(format_entry(piece), keep_format_fn());
                done = done.push(piece);
                assert(s.subrange(i + 1, i + 1) =~= Seq::<char>::empty());
                assert(split_on(s.take(i + 1), ',') =~= done.push(s.subrange(i + 1, i + 1)));
            }
            start = i + 1;
        } else {
            proof {
                assert(piece.push(s[i as int]) =~= s.subrange(start as int, i + 1));
                assert(split_on(s.take(i + 1), ',') =~= done.push(
                    s.subrange(start as int, i + 1),
                ));
            }
        }
        i = i + 1;
    }
    let ghost piece = s.subrange(start as int, v.len() as int);
    push_format(&mut out, v, start, v.len());
    proof {
        let m = done.map_values(format_entry_fn());
        assert(done.push(piece).map_values(format_entry_fn()) =~= m.push(format_entry(piece)));
        m.lemma_filter_push(format_entry(piece), keep_format_fn());
        assert(s.take(v.len() as int) =~= s);
    }
    out
}

/// An optional setting from a typed answer: unset when the answer is empty.
pub open spec fn optional(v: Seq<char>) -> Option<Seq<char>> {
    if v.len() == 0 {
        None
    } else {
        Some(v)
    }
}

/// The smallest and the largest book list limit that can be typed in.
pub const MIN_LIMIT: usize = 1;

pub const MAX_LIMIT: usize = 5000;

/// `n` brought into `MIN_LIMIT..=MAX_LIMIT`.
pub open spec fn clamp_limit(n: nat) -> usize {
    if n < MIN_LIMIT {
        MIN_LIMIT
    } else if n > MAX_LIMIT {
        MAX_LIMIT
    } else {
        n as usize
    }
}

/// The settings after the answer `value` was typed for `field`. The answer is
/// trimmed first; the server loses its trailing slashes; an empty answer
/// unsets an optional setting and leaves the folder as it was; an answer that
/// names no format leaves the formats as they were, since the list is
/// required; a limit that is not a number changes nothing.
pub open spec fn answered(c: ConfigModel, f: Field, value: Seq<char>) -> ConfigModel {
    let v = trim(value);
    match f {
        Field::Server => ConfigModel { server: trim_end_char(v, '/'), ..c },
        Field::User => ConfigModel { user: optional(v), ..c },
        Field::Password => ConfigModel { password: optional(v), ..c },
        Field::Library => ConfigModel { library: optional(v), ..c },
        Field::DownloadDir => if v.len() > 0 {
            ConfigModel { download_dir: v, ..c }
        } else {
            c
        },
        Field::Formats => if v.len() > 0 && formats_from(v).len() > 0 {
            ConfigModel { formats: formats_from(v), ..c }
        } else {
            c
        },
        Field::Limit => match parsed_usize(v) {
            Some(n) => ConfigModel { limit: clamp_limit(n), ..c },
            None => c,
        },
    }
}

/// An optional setting from the characters `v[from..to]`.
fn optional_string(v: &Vec<char>, from: usize, to: usize) -> (r: Option<String>)
    requires
        from <= to <= v.len(),
    ensures
        opt_view(r) == optional(v@.subrange(from as int, to as int)),
{
    if from == to {
        None
    } else {
        Some(string_of(v, from, to))
    }
}

/// Applies what was typed on the keyboard for `field` to the settings. No
/// answer (`None`: the keyboard was cancelled) changes nothing.
pub fn apply_answer(cfg: &mut Config, field: Field, value: Option<String>)
    ensures
        match value {
            Some(v) => final(cfg)@ == answered(old(cfg)@, field, v@),
            None => final(cfg)@ == old(cfg)@,
        },
{
    let value = match value {
        Some(v) => v,
        None => return,
    };
    let chars = chars_of(value.as_str());
    assert(chars@.subrange(0, chars.len() as int) =~= chars@);
    let (a, b) = trim_bounds(&chars, 0, chars.len());
    let ghost v = chars@.subrange(a as int, b as int);
    assert(v == trim(value@));
    match field {
        Field::Server => {
            let k = trim_end_char_bound(&chars, a, b, '/');
            cfg.server = string_of(&chars, a, k);
        },
        Field::User => {
            cfg.user = optional_string(&chars, a, b);
        },
        Field::Password => {
            cfg.password = optional_string(&chars, a, b);
        },
        Field::Library => {
            cfg.library = optional_string(&chars, a, b);
        },
        Field::DownloadDir => {
            if a < b {
                cfg.download_dir = string_of(&chars, a, b);
            }
        },
        Field::Formats => {
            if a < b {
                let piece = string_of(&chars, a, b);
                let pchars = chars_of(piece.as_str());
                let formats = parse_formats(&pchars);
                if formats.len() > 0 {
                    cfg.formats = formats;
                }
            }
        },
        Field::Limit => {
            let t = string_of(&chars, a, b);
            match parse_usize(t.as_str()) {
                Some(n) => {
                    cfg.limit = if n < MIN_LIMIT {
                        MIN_LIMIT
                    } else if n > MAX_LIMIT {
                        MAX_LIMIT
                    } else {
                        n
                    };
                },
                None => {},
            }
        },
    }
}

/// Whatever number is typed as the limit, the limit set lies within
/// `MIN_LIMIT..=MAX_LIMIT`.
pub proof fn law_typed_limit_in_range(c: ConfigModel, value: Seq<char>)
    requires
        parsed_usize(trim(value)) is Some,
    ensures
        MIN_LIMIT <= answered(c, Field::Limit, value).limit <= MAX_LIMIT,
{
}

/// Confirming the limit as the keyboard shows it changes nothing, when the
/// limit lies within `MIN_LIMIT..=MAX_LIMIT`.
pub proof fn law_limit_round_trip(c: ConfigModel)
    requires
        MIN_LIMIT <= c.limit <= MAX_LIMIT,
    ensures
        answered(c, Field::Limit, value_of(c, Field::Limit)) == c,
{
    lemma_trim_decimal(c.limit as nat);
    law_parse_reads_back_decimal(c.limit);
}

/// Confirming an optional setting (user, password, library) as the keyboard
/// shows it changes nothing, when the setting is unset or has no surrounding
/// whitespace.
pub proof fn law_optional_round_trip(c: ConfigModel, f: Field)
    requires
        f == Field::User || f == Field::Password || f == Field::Library,
        ({
            let o = if f == Field::User {
                c.user
            } else if f == Field::Password {
                c.password
            } else {
                c.library
            };
            o matches Some(v) ==> v.len() > 0 && trim(v) == v
        }),
    ensures
        answered(c, f, value_of(c, f)) == c,
{
    let e = Seq::<char>::empty();
    assert(e.skip(0) =~= e);
    assert(e.take(0) =~= e);
    assert(trim(e) == e);
}

/// Confirming the server address as the keyboard shows it changes nothing,
/// when it has no surrounding whitespace and no trailing slash.
pub proof fn law_server_round_trip(c: ConfigModel)
    requires
        trim(c.server) == c.server,
        c.server.len() == 0 || c.server.last() != '/',
    ensures
        answered(c, Field::Server, value_of(c, Field::Server)) == c,
{
    assert(c.server.take(c.server.len() as int) =~= c.server);
}

/// Confirming the download folder as the keyboard shows it changes nothing,
/// when it has no surrounding whitespace.
pub proof fn law_download_dir_round_trip(c: ConfigModel)
    requires
        trim(c.download_dir) == c.download_dir,
    ensures
        answered(c, Field::DownloadDir, value_of(c, Field::DownloadDir)) == c,
{
}

/// The keyboard never shows the password: it opens empty for it.
pub proof fn law_password_never_shown(c: ConfigModel)
    ensures
        initial_text(c, Field::Password) == Seq::<char>::empty(),
{
}

/// An answer that names no format (such as `,`) leaves the formats as they
/// were: the list is required and is never emptied by an answer.
pub proof fn law_blank_formats_answer_keeps_list(c: ConfigModel)
    ensures
        formats_from(","@).len() == 0,
        answered(c, Field::Formats, ","@) == c,
{
    reveal_strlit(",");
    let s = ","@;
    let e = Seq::<char>::empty();
    assert(s.len() == 1 && s[0] == ',');
    assert(s.drop_last() =~= e);
    assert(split_on(e, ',') =~= seq![e]);
    assert(split_on(s, ',') =~= seq![e, e]);
    assert(lead_ws(s) == 0);
    assert(s.skip(0) =~= s);
    assert(trail_ws(s) == 0);
    assert(s.take(1) =~= s);
    assert(trim(s) == s);
    assert(e.skip(0) =~= e);
    assert(e.take(0) =~= e);
    assert(trim(e).len() == 0);
    let m = seq![e, e].map_values(format_entry_fn());
    assert(m =~= seq![e, e]);
    assert(m.filter(keep_format_fn()).len() == 0) by {
        reveal_with_fuel(Seq::filter, 3);
        assert(m.drop_last() =~= seq![e]);
        assert(m.drop_last().drop_last() =~= Seq::<Seq<char>>::empty());
    }
}

/// A non-empty list of formats is never emptied by an answer.
pub proof fn law_formats_never_cleared(c: ConfigModel, value: Seq<char>)
    requires
        c.formats.len() > 0,
    ensures
        answered(c, Field::Formats, value).formats.len() > 0,
{
}

proof fn lemma_filter_all<A>(s: Seq<A>, p: spec_fn(A) -> bool)
    requires
        forall|i: int| 0 <= i < s.len() ==> p(#[trigger] s[i]),
    ensures
        s.filter(p) == s,
    decreases s.len(),
{
    reveal(Seq::filter);
    if s.len() > 0 {
        let d = s.drop_last();
        assert forall|i: int| 0 <= i < d.len() implies p(#[trigger] d[i]) by {
            assert(d[i] == s[i]);
        }
        lemma_filter_all(d, p);
        assert(p(s[s.len() - 1]));
        assert(d.push(s.last()) =~= s);
    }
}

/// A trimmed non-empty text starts and ends with a character that is not
/// whitespace.
proof fn lemma_trimmed_ends(f: Seq<char>)
    requires
        f.len() > 0,
        trim(f) == f,
    ensures
        !white_space(f[0]),
        !white_space(f.last()),
{
    lemma_lead_ws_bound(f);
    let t = f.skip(lead_ws(f) as int);
    lemma_trail_ws_bound(t);
    if white_space(f[0]) {
        assert(lead_ws(f) >= 1);
        assert(trim(f).len() < f.len());
    }
    assert(lead_ws(f) == 0);
    assert(t =~= f);
    if white_space(f.last()) {
        assert(trail_ws(f) >= 1);
        assert(trim(f).len() < f.len());
    }
}

/// Confirming the formats as the keyboard shows them changes nothing, when
/// the list is not empty and each format is non-empty, trimmed, upper-case
/// already and free of commas.
pub proof fn law_formats_round_trip(c: ConfigModel)
    requires
        c.formats.len() >= 1,
        forall|k: int| 0 <= k < c.formats.len() ==> (#[trigger] c.formats[k]).len() >= 1,
        forall|k: int| 0 <= k < c.formats.len() ==> trim(#[trigger] c.formats[k]) == c.formats[k],
        forall|k: int| 0 <= k < c.formats.len() ==> upper(#[trigger] c.formats[k]) == c.formats[k],
        forall|k: int, i: int|
            0 <= k < c.formats.len() && 0 <= i < c.formats[k].len() ==> #[trigger] c.formats[k][i]
                != ',',
    ensures
        answered(c, Field::Formats, value_of(c, Field::Formats)) == c,
{
    let fs = c.formats;
    reveal_strlit(",");
    assert(","@ =~= seq![',']);
    let j = join(fs, seq![',']);
    assert(value_of(c, Field::Formats) == j);
    lemma_split_join(fs, ',');
    lemma_trimmed_ends(fs[0]);
    lemma_trimmed_ends(fs[fs.len() - 1]);
    lemma_join_ends(fs, seq![',']);
    assert(lead_ws(j) == 0);
    assert(j.skip(0) =~= j);
    assert(trail_ws(j) == 0);
    assert(j.take(j.len() as int) =~= j);
    assert(trim(j) == j);
    let m = fs.map_values(format_entry_fn());
    assert forall|k: int| 0 <= k < fs.len() implies #[trigger] m[k] == fs[k] by {
        assert(trim(fs[k]) == fs[k]);
    }
    assert(m =~= fs);
    lemma_filter_all(fs, keep_format_fn());
    assert(formats_from(j) == fs);
    assert(answered(c, Field::Formats, j) =~= c);
}

/// Whether `a` and `c` agree on every setting but `f`.
pub open spec fn same_except(a: ConfigModel, c: ConfigModel, f: Field) -> bool {
    &&& (f != Field::Server ==> a.server == c.server)
    &&& (f != Field::User ==> a.user == c.user)
    &&& (f != Field::Password ==> a.password == c.password)
    &&& (f != Field::Library ==> a.library == c.library)
    &&& (f != Field::DownloadDir ==> a.download_dir == c.download_dir)
    &&& (f != Field::Formats ==> a.formats == c.formats)
    &&& (f != Field::Limit ==> a.limit == c.limit)
}

/// An answer changes only the setting it was typed for.
pub proof fn law_answer_changes_only_its_field(c: ConfigModel, f: Field, value: Seq<char>)
    ensures
        same_except(answered(c, f, value), c, f),
{
}

/// A typed user name, password or library id is taken trimmed; a blank
/// answer unsets it.
pub proof fn law_typed_optional_is_set(c: ConfigModel, f: Field, value: Seq<char>)
    requires
        f == Field::User || f == Field::Password || f == Field::Library,
    ensures
        ({
            let a = answered(c, f, value);
            let got = if f == Field::User {
                a.user
            } else if f == Field::Password {
                a.password
            } else {
                a.library
            };
            &&& trim(value).len() > 0 ==> got == Some(trim(value))
            &&& trim(value).len() == 0 ==> got is None
        }),
{
}

/// A typed server address is taken trimmed and without its trailing
/// slashes: what is set is the trimmed answer up to a run of slashes at its
/// end, and does not itself end with a slash.
pub proof fn law_typed_server(c: ConfigModel, value: Seq<char>)
    ensures
        ({
            let t = trim(value);
            let srv = answered(c, Field::Server, value).server;
            &&& srv.len() <= t.len()
            &&& t.take(srv.len() as int) == srv
            &&& forall|i: int| srv.len() <= i < t.len() ==> #[trigger] t[i] == '/'
            &&& srv.len() == 0 || srv.last() != '/'
        }),
{
    let t = trim(value);
    lemma_trail_char_run(t, '/');
}

proof fn lemma_trail_char_run(s: Seq<char>, c: char)
    ensures
        trail_char(s, c) <= s.len(),
        forall|i: int| s.len() - trail_char(s, c) <= i < s.len() ==> #[trigger] s[i] == c,
        trail_char(s, c) < s.len() ==> s[s.len() - trail_char(s, c) - 1] != c,
        s.take(s.len() - trail_char(s, c)) == trim_end_char(s, c),
    decreases s.len(),
{
    if s.len() > 0 && s.last() == c {
        let d = s.drop_last();
        lemma_trail_char_run(d, c);
        assert forall|i: int| s.len() - trail_char(s, c) <= i < s.len() implies #[trigger] s[i] == c by {
            if i < s.len() - 1 {
                assert(s[i] == d[i]);
            }
        }
        if trail_char(s, c) < s.len() {
            assert(s[s.len() - trail_char(s, c) - 1] == d[d.len() - trail_char(d, c) - 1]);
        }
    }
}

/// A non-blank typed folder is taken trimmed; a blank one changes nothing.
pub proof fn law_typed_folder(c: ConfigModel, value: Seq<char>)
    ensures
        trim(value).len() > 0 ==> answered(c, Field::DownloadDir, value).download_dir == trim(value),
        trim(value).len() == 0 ==> answered(c, Field::DownloadDir, value) == c,
{
}

/// A typed number within `MIN_LIMIT..=MAX_LIMIT` becomes the limit as it is;
/// a smaller one gives `MIN_LIMIT`, a larger one `MAX_LIMIT`; what is not a
/// number changes nothing.
pub proof fn law_typed_limit(c: ConfigModel, value: Seq<char>)
    ensures
        ({
            let l = answered(c, Field::Limit, value).limit;
            match parsed_usize(trim(value)) {
                Some(n) => (MIN_LIMIT <= n <= MAX_LIMIT ==> l == n) && (n < MIN_LIMIT ==> l
                    == MIN_LIMIT) && (n > MAX_LIMIT ==> l == MAX_LIMIT),
                None => answered(c, Field::Limit, value) == c,
            }
        }),
{
}

/// The keyboard opens with the current value of every setting but the
/// password: the server address, the user name or library id (empty when
/// unset), the download folder, the formats joined by commas, and the limit
/// in decimal.
pub proof fn law_keyboard_opens_with_current_value(c: ConfigModel, f: Field)
    ensures
        f != Field::Password ==> initial_text(c, f) == value_of(c, f),
        initial_text(c, Field::Server) == c.server,
        initial_text(c, Field::DownloadDir) == c.download_dir,
        c.user matches Some(u) ==> initial_text(c, Field::User) == u,
        c.user is None ==> initial_text(c, Field::User).len() == 0,
        c.library matches Some(l) ==> initial_text(c, Field::Library) == l,
        c.library is None ==> initial_text(c, Field::Library).len() == 0,
        parsed_usize(initial_text(c, Field::Limit)) == Some(c.limit as nat),
        c.formats.len() >= 1 && (forall|k: int, i: int|
            0 <= k < c.formats.len() && 0 <= i < c.formats[k].len() ==> #[trigger] c.formats[k][i]
                != ',') ==> split_on(initial_text(c, Field::Formats), ',') == c.formats,
{
    law_parse_reads_back_decimal(c.limit);
    reveal_strlit(",");
    assert(","@ =~= seq![',']);
    if c.formats.len() >= 1 && (forall|k: int, i: int|
        0 <= k < c.formats.len() && 0 <= i < c.formats[k].len() ==> #[trigger] c.formats[k][i]
            != ',') {
        lemma_split_join(c.formats, ',');
    }
}

} // verus!

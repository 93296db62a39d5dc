//! Looking applications up by name, command or desktop id, with a scored
//! fuzzy fallback. Scanning the desktop-file directories stays with the
//! shell, which feeds parsed applications in through `register_app`.

use vstd::prelude::*;

use crate::text::chars_of;
use crate::text::clone_strings;
use crate::text::contains_chars;
use crate::text::eq_chars;
use crate::text::find_space;
use crate::text::lower_of;
use crate::text::remove_all_chars;
use crate::text::rfind_char;
use crate::text::spec_contains_seq;
use crate::text::spec_find_space;
use crate::text::spec_is_prefix;
use crate::text::spec_remove_all;
use crate::text::spec_rfind_char;
use crate::text::spec_trim;
use crate::text::spec_views_of;
use crate::text::spec_lines;
use crate::text::split_lines_chars;
use crate::text::split_at_char;
use crate::text::spec_split;
use crate::text::find_char;
use crate::text::spec_find_char;
use crate::text::spec_words;
use crate::text::split_whitespace_chars;
use crate::text::starts_with_chars;
use crate::text::string_from_chars;
use crate::text::sub_chars;
use crate::text::to_lowercase;
use crate::text::trim_chars;
use crate::text::alnum_of;
use crate::text::is_alphanumeric_char;

verus! {

/// One launchable application, as its desktop file describes it.
#[derive(Debug)]
pub struct AppInfo {
    pub desktop_id: String,
    pub name: String,
    pub icon: String,
    pub exec_cmd: String,
    pub generic_name: Option<String>,
    pub keywords: Vec<String>,
}

/// The mathematical shape of an application record.
pub struct AppInfoView {
    pub desktop_id: Seq<char>,
    pub name: Seq<char>,
    pub icon: Seq<char>,
    pub exec_cmd: Seq<char>,
    pub generic_name: Option<Seq<char>>,
    pub keywords: Seq<Seq<char>>,
}

impl View for AppInfo {
    type V = AppInfoView;

    open spec fn view(&self) -> AppInfoView {
        AppInfoView {
            desktop_id: self.desktop_id@,
            name: self.name@,
            icon: self.icon@,
            exec_cmd: self.exec_cmd@,
            generic_name: match self.generic_name {
                Some(g) => Some(g@),
                None => None,
            },
            keywords: self.keywords@.map_values(|k: String| k@),
        }
    }
}

/// A copy of an application record; the copy describes the same application.
pub fn duplicate_app(info: &AppInfo) -> (r: AppInfo)
    ensures
        r@ == info@,
{
    let generic_name = match &info.generic_name {
        Some(g) => Some(g.clone()),
        None => None,
    };
    let r = AppInfo {
        desktop_id: info.desktop_id.clone(),
        name: info.name.clone(),
        icon: info.icon.clone(),
        exec_cmd: info.exec_cmd.clone(),
        generic_name,
        keywords: clone_strings(&info.keywords),
    };
    proof {
        assert(r@.keywords =~= info@.keywords);
        assert(r@ =~= info@);
    }
    r
}

/// One entry of a lookup table: a lowercased key and the application it leads
/// to.
#[derive(Debug)]
pub struct AppEntry {
    pub key: String,
    pub info: AppInfo,
}

/// The mathematical shape of a lookup table.
pub open spec fn spec_entries_view(entries: Seq<AppEntry>) -> Seq<(Seq<char>, AppInfoView)> {
    entries.map_values(|e: AppEntry| (e.key@, e.info@))
}

/// The application a key leads to: the first entry under it.
pub open spec fn spec_lookup(table: Seq<(Seq<char>, AppInfoView)>, key: Seq<char>) -> Option<
    AppInfoView,
>
    decreases table.len(),
{
    if table.len() == 0 {
        None
    } else if table[0].0 == key {
        Some(table[0].1)
    } else {
        spec_lookup(table.drop_first(), key)
    }
}

/// Whether a key has an entry.
pub open spec fn spec_has_key(table: Seq<(Seq<char>, AppInfoView)>, key: Seq<char>) -> bool {
    spec_lookup(table, key) is Some
}

/// The table after binding `key` to `info`: an existing entry under the key is
/// replaced in place, a new key is appended.
pub open spec fn spec_insert(
    table: Seq<(Seq<char>, AppInfoView)>,
    key: Seq<char>,
    info: AppInfoView,
) -> Seq<(Seq<char>, AppInfoView)>
    decreases table.len(),
{
    if table.len() == 0 {
        seq![(key, info)]
    } else if table[0].0 == key {
        seq![(key, info)] + table.drop_first()
    } else {
        seq![table[0]] + spec_insert(table.drop_first(), key, info)
    }
}

/// Looks a key up in a table.
fn map_get<'a>(entries: &'a Vec<AppEntry>, key: &String) -> (r: Option<&'a AppInfo>)
    ensures
        match r {
            Some(a) => spec_lookup(spec_entries_view(entries@), key@) == Some(a@),
            None => spec_lookup(spec_entries_view(entries@), key@) is None,
        },
{
    let ghost table = spec_entries_view(entries@);
    let mut i: usize = 0;
    proof {
        assert(table.skip(0) =~= table);
    }
    while i < entries.len()
        invariant
            0 <= i <= entries@.len(),
            table == spec_entries_view(entries@),
            spec_lookup(table, key@) == spec_lookup(table.skip(i as int), key@),
        decreases entries@.len() - i,
    {
        proof {
            assert(table.skip(i as int)[0] == table[i as int]);
            assert(table.skip(i as int).drop_first() =~= table.skip(i + 1));
        }
        if entries[i].key.eq(key) {
            return Some(&entries[i].info);
        }
        i = i + 1;
    }
    proof {
        assert(table.skip(table.len() as int).len() == 0);
    }
    None
}

/// Whether a key has an entry.
fn map_contains(entries: &Vec<AppEntry>, key: &String) -> (r: bool)
    ensures
        r == spec_has_key(spec_entries_view(entries@), key@),
{
    match map_get(entries, key) {
        Some(_) => true,
        None => false,
    }
}

/// Binds `key` to `info`, replacing any entry the key already has.
fn map_insert(entries: &mut Vec<AppEntry>, key: String, info: AppInfo)
    ensures
        spec_entries_view(final(entries)@) == spec_insert(
            spec_entries_view(old(entries)@),
            key@,
            info@,
        ),
{
    let ghost table = spec_entries_view(entries@);
    let mut i: usize = 0;
    proof {
        assert(table.skip(0) =~= table);
        assert(table.take(0) + spec_insert(table, key@, info@) =~= spec_insert(
            table,
            key@,
            info@,
        ));
    }
    while i < entries.len()
        invariant
            0 <= i <= entries@.len(),
            entries@ == old(entries)@,
            table == spec_entries_view(entries@),
            forall|j: int| 0 <= j < i ==> table[j].0 != key@,
            spec_insert(table, key@, info@) == table.take(i as int) + spec_insert(
                table.skip(i as int),
                key@,
                info@,
            ),
        decreases entries@.len() - i,
    {
        proof {
            assert(table.skip(i as int)[0] == table[i as int]);
            assert(table.skip(i as int).drop_first() =~= table.skip(i + 1));
        }
        if entries[i].key.eq(&key) {
            entries.remove(i);
            entries.insert(i, AppEntry { key, info });
            proof {
                assert(spec_insert(table.skip(i as int), key@, info@) =~= seq![(key@, info@)]
                    + table.skip(i + 1));
                assert(spec_entries_view(entries@) =~= table.take(i as int) + (seq![(key@, info@)]
                    + table.skip(i + 1)));
                assert(spec_entries_view(entries@) == spec_insert(table, key@, info@));
            }
            return ;
        }
        proof {
            assert(table.take(i + 1) =~= table.take(i as int) + seq![table[i as int]]);
            assert(table.take(i as int) + (seq![table[i as int]] + spec_insert(
                table.skip(i + 1),
                key@,
                info@,
            )) =~= (table.take(i as int) + seq![table[i as int]]) + spec_insert(
                table.skip(i + 1),
                key@,
                info@,
            ));
        }
        i = i + 1;
    }
    proof {
        assert(table.skip(table.len() as int).len() == 0);
    }
    entries.push(AppEntry { key, info });
    proof {
        assert(spec_entries_view(entries@) =~= table.take(table.len() as int) + seq![
            (key@, info@),
        ]);
        assert(table.take(table.len() as int) =~= table);
        assert(spec_entries_view(entries@) =~= spec_insert(table, key@, info@));
    }
}

/// Resolves queries against the registered applications, by name, command or
/// desktop id, with a scored fuzzy fallback over everything it knows.
#[derive(Debug)]
pub struct AppResolver {
    pub apps_by_name: Vec<AppEntry>,
    pub apps_by_exec: Vec<AppEntry>,
    pub apps_by_desktop_id: Vec<AppEntry>,
}

impl AppResolver {
    /// An empty resolver; the shell registers the applications it finds.
    pub fn new() -> (r: AppResolver)
        ensures
            r.apps_by_name@.len() == 0,
            r.apps_by_exec@.len() == 0,
            r.apps_by_desktop_id@.len() == 0,
    {
        AppResolver {
            apps_by_name: Vec::new(),
            apps_by_exec: Vec::new(),
            apps_by_desktop_id: Vec::new(),
        }
    }

    /// Looks an application up by its desktop id, case-insensitively.
    pub fn resolve_by_desktop_id(&self, desktop_id: &str) -> (r: Option<&AppInfo>)
        ensures
            match r {
                Some(a) => spec_lookup(
                    spec_entries_view(self.apps_by_desktop_id@),
                    lower_of(desktop_id@),
                ) == Some(a@),
                None => spec_lookup(
                    spec_entries_view(self.apps_by_desktop_id@),
                    lower_of(desktop_id@),
                ) is None,
            },
    {
        let key = to_lowercase(desktop_id);
        map_get(&self.apps_by_desktop_id, &key)
    }

    /// The words of an `Exec=` command line, with every field code
    /// (`%`-prefixed word) dropped.
    pub fn clean_exec(exec: &str) -> (r: Vec<String>)
        ensures
            r@.map_values(|w: String| w@) == spec_clean_exec(exec@),
    {
        let cs = chars_of(exec);
        let words = split_whitespace_chars(&cs);
        let ghost wv = spec_views_of(words@);
        let mut out: Vec<String> = Vec::new();
        let mut i: usize = 0;
        proof {
            assert(wv.take(0).filter(spec_keep_word()) =~= Seq::<Seq<char>>::empty());
            assert(out@.map_values(|w: String| w@) =~= Seq::<Seq<char>>::empty());
        }
        while i < words.len()
            invariant
                0 <= i <= words@.len(),
                wv == spec_views_of(words@),
                out@.map_values(|w: String| w@) == wv.take(i as int).filter(spec_keep_word()),
            decreases words@.len() - i,
        {
            proof {
                assert(wv.take(i + 1) == wv.take(i as int).push(wv[i as int]));
                wv.take(i as int).lemma_filter_push(wv[i as int], spec_keep_word());
                assert(wv[i as int] == words@[i as int]@);
            }
            let w = &words[i];
            let keep = if w.len() > 0 {
                w[0] != '%'
            } else {
                true
            };
            if keep {
                let ghost prev = out@.map_values(|w2: String| w2@);
                out.push(string_from_chars(w));
                proof {
                    assert(out@.map_values(|w2: String| w2@) =~= prev.push(words@[i as int]@));
                }
            }
            i = i + 1;
        }
        proof {
            assert(wv.take(wv.len() as int) == wv);
        }
        out
    }

    /// The bare command name of an `Exec=` line: field codes and the common
    /// browser window flags removed, then the first word, then the last path
    /// segment.
    pub fn extract_command_name(&self, exec: &str) -> (r: String)
        ensures
            r@ == spec_extract_command(exec@),
    {
        let cs = chars_of(exec);
        proof {
            reveal_strlit("%u");
            reveal_strlit("%U");
            reveal_strlit("%f");
            reveal_strlit("%F");
            reveal_strlit("--new-window");
            reveal_strlit("--incognito");
            reveal_strlit("--private-window");
            assert("%u"@.len() == 2);
            assert("%U"@.len() == 2);
            assert("%f"@.len() == 2);
            assert("%F"@.len() == 2);
            assert("--new-window"@.len() == 12);
            assert("--incognito"@.len() == 11);
            assert("--private-window"@.len() == 16);
        }
        let c1 = remove_all_chars(&cs, &chars_of("%u"));
        let c2 = remove_all_chars(&c1, &chars_of("%U"));
        let c3 = remove_all_chars(&c2, &chars_of("%f"));
        let c4 = remove_all_chars(&c3, &chars_of("%F"));
        let c5 = remove_all_chars(&c4, &chars_of("--new-window"));
        let c6 = remove_all_chars(&c5, &chars_of("--incognito"));
        let c7 = remove_all_chars(&c6, &chars_of("--private-window"));
        let trimmed = trim_chars(&c7);
        let command = match find_space(&trimmed) {
            Some(j) => {
                proof {
                    assert(trimmed@.subrange(0, j as int) =~= trimmed@.take(j as int));
                }
                sub_chars(&trimmed, 0, j)
            },
            None => trimmed,
        };
        proof {
            assert(command@ == spec_first_word(spec_trim(c7@)));
        }
        let tail = match rfind_char(&command, '/') {
            Some(j) => {
                proof {
                    assert(command@.subrange(j + 1, command@.len() as int) =~= command@.skip(
                        j + 1,
                    ));
                }
                sub_chars(&command, j + 1, command.len())
            },
            None => command,
        };
        proof {
            assert(tail@ == spec_extract_command(exec@));
        }
        string_from_chars(&tail)
    }
}

impl AppResolver {
    /// Files an application under its lowercased name, command and desktop
    /// id; its generic name and keywords also lead to it, where they do not
    /// collide with a name already taken.
    pub fn register_app(&mut self, app_info: AppInfo)
        ensures
            spec_entries_view(final(self).apps_by_name@) == spec_register_name(
                spec_entries_view(old(self).apps_by_name@),
                app_info@,
            ),
            spec_entries_view(final(self).apps_by_exec@) == spec_insert(
                spec_entries_view(old(self).apps_by_exec@),
                lower_of(spec_extract_command(app_info@.exec_cmd)),
                app_info@,
            ),
            spec_entries_view(final(self).apps_by_desktop_id@) == spec_insert(
                spec_entries_view(old(self).apps_by_desktop_id@),
                lower_of(app_info@.desktop_id),
                app_info@,
            ),
    {
        let name_key = to_lowercase(app_info.name.as_str());
        let command = self.extract_command_name(app_info.exec_cmd.as_str());
        let exec_key = to_lowercase(command.as_str());
        let desktop_key = to_lowercase(app_info.desktop_id.as_str());

        map_insert(&mut self.apps_by_name, name_key, duplicate_app(&app_info));
        map_insert(&mut self.apps_by_exec, exec_key, duplicate_app(&app_info));
        map_insert(&mut self.apps_by_desktop_id, desktop_key, duplicate_app(&app_info));

        match &app_info.generic_name {
            Some(generic) => {
                let generic_key = to_lowercase(generic.as_str());
                if !map_contains(&self.apps_by_name, &generic_key) {
                    map_insert(&mut self.apps_by_name, generic_key, duplicate_app(&app_info));
                }
            },
            None => {},
        }

        let ghost after_generic = spec_entries_view(self.apps_by_name@);
        let ghost exec_table = self.apps_by_exec@;
        let ghost desktop_table = self.apps_by_desktop_id@;
        let ghost kws = app_info@.keywords;
        let mut i: usize = 0;
        while i < app_info.keywords.len()
            invariant
                0 <= i <= kws.len(),
                kws == app_info@.keywords,
                self.apps_by_exec@ == exec_table,
                self.apps_by_desktop_id@ == desktop_table,
                spec_register_keywords(after_generic, kws, 0, app_info@)
                    == spec_register_keywords(
                    spec_entries_view(self.apps_by_name@),
                    kws,
                    i as int,
                    app_info@,
                ),
            decreases kws.len() - i,
        {
            proof {
                assert(kws[i as int] == app_info.keywords@[i as int]@);
            }
            let keyword = app_info.keywords[i].clone();
            if !map_contains(&self.apps_by_name, &keyword) {
                map_insert(&mut self.apps_by_name, keyword, duplicate_app(&app_info));
            }
            i = i + 1;
        }
    }
}

/// The name table after filing an application: the lowercased name always,
/// the lowercased generic name and each keyword only where the key is still
/// free.
pub open spec fn spec_register_name(
    by_name: Seq<(Seq<char>, AppInfoView)>,
    info: AppInfoView,
) -> Seq<(Seq<char>, AppInfoView)> {
    let with_name = spec_insert(by_name, lower_of(info.name), info);
    let with_generic = match info.generic_name {
        Some(g) => if spec_has_key(with_name, lower_of(g)) {
            with_name
        } else {
            spec_insert(with_name, lower_of(g), info)
        },
        None => with_name,
    };
    spec_register_keywords(with_generic, info.keywords, 0, info)
}

/// Files the keywords from `i` on, each only where its key is still free.
pub open spec fn spec_register_keywords(
    table: Seq<(Seq<char>, AppInfoView)>,
    kws: Seq<Seq<char>>,
    i: int,
    info: AppInfoView,
) -> Seq<(Seq<char>, AppInfoView)>
    recommends
        0 <= i <= kws.len(),
    decreases kws.len() - i,
{
    if i < 0 || i >= kws.len() {
        table
    } else if spec_has_key(table, kws[i]) {
        spec_register_keywords(table, kws, i + 1, info)
    } else {
        spec_register_keywords(spec_insert(table, kws[i], info), kws, i + 1, info)
    }
}

/// The predicate that keeps a word of an `Exec=` line: it is no field code.
pub open spec fn spec_keep_word() -> spec_fn(Seq<char>) -> bool {
    |w: Seq<char>| !(w.len() > 0 && w[0] == '%')
}

/// The words `clean_exec` returns for this command line.
pub open spec fn spec_clean_exec(exec: Seq<char>) -> Seq<Seq<char>> {
    spec_words(exec).filter(spec_keep_word())
}

/// The first white-space-delimited word, or all of `t` when it has no white
/// space.
pub open spec fn spec_first_word(t: Seq<char>) -> Seq<char> {
    match spec_find_space(t) {
        Some(j) => t.take(j),
        None => t,
    }
}

/// The part after the last `/`, or all of `s` without one.
pub open spec fn spec_after_last_slash(s: Seq<char>) -> Seq<char> {
    match spec_rfind_char(s, '/') {
        Some(j) => s.skip(j + 1),
        None => s,
    }
}

/// The command name `extract_command_name` returns for this `Exec=` line.
pub open spec fn spec_extract_command(exec: Seq<char>) -> Seq<char> {
    let cleaned = spec_remove_all(
        spec_remove_all(
            spec_remove_all(
                spec_remove_all(
                    spec_remove_all(
                        spec_remove_all(spec_remove_all(exec, "%u"@), "%U"@),
                        "%f"@,
                    ),
                    "%F"@,
                ),
                "--new-window"@,
            ),
            "--incognito"@,
        ),
        "--private-window"@,
    );
    spec_after_last_slash(spec_first_word(spec_trim(cleaned)))
}

/// The larger of two scores.
pub open spec fn spec_imax(a: int, b: int) -> int {
    if a >= b {
        a
    } else {
        b
    }
}

/// The predicate that keeps a character when names are normalized: it is no
/// separator.
pub open spec fn spec_keep_nonsep() -> spec_fn(char) -> bool {
    |c: char| !(c == '-' || c == '_' || c == ' ')
}

/// `s` with every dash, underscore and space removed.
pub open spec fn spec_strip_seps(s: Seq<char>) -> Seq<char> {
    s.filter(spec_keep_nonsep())
}

/// Removes every dash, underscore and space.
fn strip_separators(s: &Vec<char>) -> (r: Vec<char>)
    ensures
        r@ == spec_strip_seps(s@),
{
    let mut out: Vec<char> = Vec::new();
    let mut i: usize = 0;
    proof {
        assert(s@.take(0).filter(spec_keep_nonsep()) =~= Seq::<char>::empty());
    }
    while i < s.len()
        invariant
            0 <= i <= s@.len(),
            out@ == s@.take(i as int).filter(spec_keep_nonsep()),
        decreases s@.len() - i,
    {
        proof {
            assert(s@.take(i + 1) == s@.take(i as int).push(s@[i as int]));
            s@.take(i as int).lemma_filter_push(s@[i as int], spec_keep_nonsep());
        }
        let c = s[i];
        if !(c == '-' || c == '_' || c == ' ') {
            out.push(c);
        }
        i = i + 1;
    }
    proof {
        assert(s@.take(s@.len() as int) == s@);
    }
    out
}

/// The maximal alphanumeric runs of `s`, accumulated left to right: `cur` is
/// the word under construction when the scan stands at `i`.
pub open spec fn spec_alnum_words_from(s: Seq<char>, i: int, cur: Seq<char>) -> Seq<Seq<char>>
    recommends
        0 <= i <= s.len(),
    decreases s.len() - i,
{
    if i < 0 || i >= s.len() {
        if cur.len() > 0 {
            seq![cur]
        } else {
            Seq::<Seq<char>>::empty()
        }
    } else if !alnum_of(s[i]) {
        (if cur.len() > 0 {
            seq![cur]
        } else {
            Seq::<Seq<char>>::empty()
        }) + spec_alnum_words_from(s, i + 1, Seq::<char>::empty())
    } else {
        spec_alnum_words_from(s, i + 1, cur.push(s[i]))
    }
}

/// The words of `s` when everything non-alphanumeric separates.
pub open spec fn spec_alnum_words(s: Seq<char>) -> Seq<Seq<char>> {
    spec_alnum_words_from(s, 0, Seq::<char>::empty())
}

/// Splits `s` at non-alphanumeric characters into its words.
fn split_alnum_words(s: &Vec<char>) -> (r: Vec<Vec<char>>)
    ensures
        spec_views_of(r@) == spec_alnum_words(s@),
{
    let mut out: Vec<Vec<char>> = Vec::new();
    let mut cur: Vec<char> = Vec::new();
    let mut i: usize = 0;
    proof {
        assert(spec_views_of(out@) =~= Seq::<Seq<char>>::empty());
        assert(Seq::<Seq<char>>::empty() + spec_alnum_words(s@) =~= spec_alnum_words(s@));
    }
    while i < s.len()
        invariant
            0 <= i <= s@.len(),
            spec_views_of(out@) + spec_alnum_words_from(s@, i as int, cur@) == spec_alnum_words(
                s@,
            ),
        decreases s@.len() - i,
    {
        if !is_alphanumeric_char(s[i]) {
            proof {
                assert(spec_alnum_words_from(s@, i as int, cur@) == (if cur@.len() > 0 {
                    seq![cur@]
                } else {
                    Seq::<Seq<char>>::empty()
                }) + spec_alnum_words_from(s@, i + 1, Seq::<char>::empty()));
            }
            if cur.len() > 0 {
                let ghost vo = spec_views_of(out@);
                let ghost cv = cur@;
                out.push(cur);
                cur = Vec::new();
                proof {
                    assert(cur@ =~= Seq::<char>::empty());
                    assert(spec_views_of(out@) =~= vo.push(cv));
                    assert(vo.push(cv) =~= vo + seq![cv]);
                    assert((vo + seq![cv]) + spec_alnum_words_from(s@, i + 1, cur@) =~= vo + (
                    seq![cv] + spec_alnum_words_from(s@, i + 1, cur@)));
                }
            } else {
                proof {
                    assert(cur@ =~= Seq::<char>::empty());
                    assert(Seq::<Seq<char>>::empty() + spec_alnum_words_from(s@, i + 1, cur@)
                        =~= spec_alnum_words_from(s@, i + 1, cur@));
                }
            }
        } else {
            proof {
                assert(spec_alnum_words_from(s@, i as int, cur@) == spec_alnum_words_from(
                    s@,
                    i + 1,
                    cur@.push(s@[i as int]),
                ));
            }
            cur.push(s[i]);
        }
        i = i + 1;
    }
    proof {
        assert(spec_alnum_words_from(s@, s@.len() as int, cur@) == (if cur@.len() > 0 {
            seq![cur@]
        } else {
            Seq::<Seq<char>>::empty()
        }));
    }
    if cur.len() > 0 {
        let ghost vo = spec_views_of(out@);
        let ghost cv = cur@;
        out.push(cur);
        proof {
            assert(spec_views_of(out@) =~= vo.push(cv));
            assert(vo.push(cv) =~= vo + seq![cv]);
            assert(spec_views_of(out@) =~= spec_alnum_words(s@));
        }
    } else {
        proof {
            assert(spec_views_of(out@) + Seq::<Seq<char>>::empty() =~= spec_views_of(out@));
            assert(spec_views_of(out@) =~= spec_alnum_words(s@));
        }
    }
    out
}

/// Whether some word of `kws` starts, case-folded, with the case-folded `q`.
pub open spec fn spec_word_matches(q: Seq<char>, kws: Seq<Seq<char>>) -> bool {
    exists|j: int| 0 <= j < kws.len() && spec_is_prefix(lower_of(q), lower_of(kws[j]))
}

/// How many words of `qws` find a case-folded prefix match among `kws`.
pub open spec fn spec_prefix_matches(qws: Seq<Seq<char>>, kws: Seq<Seq<char>>) -> int
    decreases qws.len(),
{
    if qws.len() == 0 {
        0
    } else {
        spec_prefix_matches(qws.drop_last(), kws) + (if spec_word_matches(qws.last(), kws) {
            1int
        } else {
            0int
        })
    }
}

/// The case-folded characters of a word.
fn lower_chars(w: &Vec<char>) -> (r: Vec<char>)
    ensures
        r@ == lower_of(w@),
{
    let s = string_from_chars(w);
    let l = to_lowercase(s.as_str());
    chars_of(l.as_str())
}

/// Whether some word of `kws` starts, case-folded, with the case-folded `q`.
fn word_has_prefix_match(q: &Vec<char>, kws: &Vec<Vec<char>>) -> (r: bool)
    ensures
        r == spec_word_matches(q@, spec_views_of(kws@)),
{
    let ghost kv = spec_views_of(kws@);
    let lq = lower_chars(q);
    let mut j: usize = 0;
    while j < kws.len()
        invariant
            0 <= j <= kws@.len(),
            kv == spec_views_of(kws@),
            lq@ == lower_of(q@),
            forall|k: int| 0 <= k < j ==> !spec_is_prefix(lower_of(q@), lower_of(kv[k])),
        decreases kws@.len() - j,
    {
        let lk = lower_chars(&kws[j]);
        proof {
            assert(kv[j as int] == kws@[j as int]@);
        }
        if starts_with_chars(&lk, &lq) {
            return true;
        }
        j = j + 1;
    }
    false
}

/// Counts the words of `qws` with a case-folded prefix match among `kws`.
fn count_prefix_matches(qws: &Vec<Vec<char>>, kws: &Vec<Vec<char>>) -> (r: usize)
    ensures
        r as int == spec_prefix_matches(spec_views_of(qws@), spec_views_of(kws@)),
        r <= qws@.len(),
{
    let ghost qv = spec_views_of(qws@);
    let ghost kv = spec_views_of(kws@);
    let mut count: usize = 0;
    let mut i: usize = 0;
    proof {
        assert(qv.take(0) =~= Seq::<Seq<char>>::empty());
    }
    while i < qws.len()
        invariant
            0 <= i <= qws@.len(),
            qv == spec_views_of(qws@),
            kv == spec_views_of(kws@),
            count <= i,
            count as int == spec_prefix_matches(qv.take(i as int), kv),
        decreases qws@.len() - i,
    {
        proof {
            assert(qv.take(i + 1) == qv.take(i as int).push(qv[i as int]));
            assert(qv.take(i + 1).drop_last() =~= qv.take(i as int));
            assert(qv[i as int] == qws@[i as int]@);
        }
        if word_has_prefix_match(&qws[i], kws) {
            count = count + 1;
        }
        i = i + 1;
    }
    proof {
        assert(qv.take(qv.len() as int) == qv);
    }
    count
}

/// The score a query earns against one lookup key and its display name.
///
/// An exact key hit scores 100, a key prefix 90, a key substring 70, a
/// substring of the folded display name 60; with separators stripped the same
/// substring checks score 65 and 55; otherwise the share of query words with
/// a prefix match among the key's words — or, failing that, the display
/// name's — scores up to 50.
pub open spec fn spec_score(query: Seq<char>, key: Seq<char>, display: Seq<char>) -> int {
    if key == query {
        100
    } else if spec_is_prefix(query, key) {
        90
    } else if spec_contains_seq(key, query) {
        70
    } else if spec_contains_seq(lower_of(display), query) {
        60
    } else {
        let qn = spec_strip_seps(query);
        let kn = spec_strip_seps(key);
        let dn = spec_strip_seps(lower_of(display));
        if spec_contains_seq(kn, qn) {
            65
        } else if spec_contains_seq(dn, qn) {
            55
        } else {
            let qw = spec_alnum_words(query);
            let kw = spec_alnum_words(key);
            let dw = spec_alnum_words(display);
            let m1 = spec_prefix_matches(qw, kw);
            let m = if m1 == 0 {
                spec_prefix_matches(qw, dw)
            } else {
                m1
            };
            if m > 0 {
                (m * 50) / (qw.len() as int)
            } else {
                0
            }
        }
    }
}

impl AppResolver {
    /// Scores `query` against one lookup key and the display name behind it.
    pub fn calculate_match_score(&self, query: &str, key: &str, display_name: &str) -> (r: i32)
        ensures
            r as int == spec_score(query@, key@, display_name@),
            0 <= r <= 100,
    {
        let qv = chars_of(query);
        let kv = chars_of(key);
        if eq_chars(&kv, &qv) {
            return 100;
        }
        if starts_with_chars(&kv, &qv) {
            return 90;
        }
        if contains_chars(&kv, &qv) {
            return 70;
        }
        let dl = to_lowercase(display_name);
        let dlv = chars_of(dl.as_str());
        if contains_chars(&dlv, &qv) {
            return 60;
        }
        let qn = strip_separators(&qv);
        let kn = strip_separators(&kv);
        let dn = strip_separators(&dlv);
        if contains_chars(&kn, &qn) {
            return 65;
        }
        if contains_chars(&dn, &qn) {
            return 55;
        }
        let dv = chars_of(display_name);
        let qw = split_alnum_words(&qv);
        let kw = split_alnum_words(&kv);
        let dw = split_alnum_words(&dv);
        let m1 = count_prefix_matches(&qw, &kw);
        let m = if m1 == 0 {
            count_prefix_matches(&qw, &dw)
        } else {
            m1
        };
        if m > 0 {
            let total = qw.len();
            proof {
                assert(1 <= total);
                assert(((m as int) * 50) / (total as int) <= 50) by (nonlinear_arith)
                    requires
                        1 <= total as int,
                        0 <= m as int <= total as int,
                ;
                assert(((m as int) * 50) / (total as int) >= 0) by (nonlinear_arith)
                    requires
                        1 <= total as int,
                        0 < m as int,
                ;
            }
            let share = (m as u128) * 50 / (total as u128);
            proof {
                assert(share == ((m as int) * 50) / (total as int));
            }
            share as i32
        } else {
            0
        }
    }
}

/// The best keyword score folded onto `base`, keyword by keyword.
pub open spec fn spec_kw_fold(q: Seq<char>, kws: Seq<Seq<char>>, base: int) -> int
    decreases kws.len(),
{
    if kws.len() == 0 {
        base
    } else {
        spec_imax(spec_kw_fold(q, kws.drop_last(), base), spec_score(q, kws.last(), kws.last()))
    }
}

/// The score one registered application earns against a query: the best its
/// name, desktop id, command, generic name or any keyword achieves.
pub open spec fn spec_app_score(q: Seq<char>, app: AppInfoView) -> int {
    let s1 = spec_score(q, lower_of(app.name), app.name);
    let s2 = spec_score(q, lower_of(app.desktop_id), app.desktop_id);
    let s3 = spec_score(q, lower_of(spec_extract_command(app.exec_cmd)), app.exec_cmd);
    let base0 = spec_imax(spec_imax(spec_imax(0, s1), s2), s3);
    let base = match app.generic_name {
        Some(g) => spec_imax(base0, spec_score(q, lower_of(g), g)),
        None => base0,
    };
    spec_kw_fold(q, app.keywords, base)
}

/// The running best over the applications from entry `i` on, carried through
/// the scan: a strictly better score takes the lead.
pub open spec fn spec_fuzzy_from(
    table: Seq<(Seq<char>, AppInfoView)>,
    q: Seq<char>,
    i: int,
    best_score: int,
    best: Option<AppInfoView>,
) -> (int, Option<AppInfoView>)
    recommends
        0 <= i <= table.len(),
    decreases table.len() - i,
{
    if i < 0 || i >= table.len() {
        (best_score, best)
    } else {
        let sc = spec_app_score(q, table[i].1);
        if sc > best_score {
            spec_fuzzy_from(table, q, i + 1, sc, Some(table[i].1))
        } else {
            spec_fuzzy_from(table, q, i + 1, best_score, best)
        }
    }
}

/// The fuzzy fallback's answer: the first application with the best score,
/// provided that score clears 30.
pub open spec fn spec_fuzzy(table: Seq<(Seq<char>, AppInfoView)>, q: Seq<char>) -> Option<
    AppInfoView,
> {
    let best = spec_fuzzy_from(table, q, 0, 0, None);
    if best.0 > 30 {
        best.1
    } else {
        None
    }
}

/// What `resolve` answers: the exact lookups by name, command and desktop id
/// in that order, then the fuzzy fallback over the registered applications.
pub open spec fn spec_resolve(
    name_table: Seq<(Seq<char>, AppInfoView)>,
    exec_table: Seq<(Seq<char>, AppInfoView)>,
    desktop_table: Seq<(Seq<char>, AppInfoView)>,
    q: Seq<char>,
) -> Option<AppInfoView> {
    match spec_lookup(name_table, q) {
        Some(a) => Some(a),
        None => match spec_lookup(exec_table, q) {
            Some(a) => Some(a),
            None => match spec_lookup(desktop_table, q) {
                Some(a) => Some(a),
                None => spec_fuzzy(desktop_table, q),
            },
        },
    }
}

impl AppResolver {
    /// Scores `query` against everything known of one application.
    fn app_score(&self, query: &str, app: &AppInfo) -> (r: i32)
        ensures
            r as int == spec_app_score(query@, app@),
            0 <= r <= 100,
    {
        let mut score: i32 = 0;
        let ln = to_lowercase(app.name.as_str());
        let c1 = self.calculate_match_score(query, ln.as_str(), app.name.as_str());
        if c1 > score {
            score = c1;
        }
        let ld = to_lowercase(app.desktop_id.as_str());
        let c2 = self.calculate_match_score(query, ld.as_str(), app.desktop_id.as_str());
        if c2 > score {
            score = c2;
        }
        let cmd = self.extract_command_name(app.exec_cmd.as_str());
        let lc = to_lowercase(cmd.as_str());
        let c3 = self.calculate_match_score(query, lc.as_str(), app.exec_cmd.as_str());
        if c3 > score {
            score = c3;
        }
        match &app.generic_name {
            Some(g) => {
                let lg = to_lowercase(g.as_str());
                let cg = self.calculate_match_score(query, lg.as_str(), g.as_str());
                if cg > score {
                    score = cg;
                }
            },
            None => {},
        }
        let ghost base = score as int;
        let ghost kws = app@.keywords;
        let mut i: usize = 0;
        proof {
            assert(kws.take(0).len() == 0);
        }
        while i < app.keywords.len()
            invariant
                0 <= i <= kws.len(),
                kws == app@.keywords,
                0 <= score <= 100,
                score as int == spec_kw_fold(query@, kws.take(i as int), base),
                spec_app_score(query@, app@) == spec_kw_fold(query@, kws, base),
            decreases kws.len() - i,
        {
            proof {
                assert(kws.take(i + 1).drop_last() =~= kws.take(i as int));
                assert(kws.take(i + 1).last() == kws[i as int]);
                assert(kws[i as int] == app.keywords@[i as int]@);
            }
            let kw = &app.keywords[i];
            let ck = self.calculate_match_score(query, kw.as_str(), kw.as_str());
            if ck > score {
                score = ck;
            }
            i = i + 1;
        }
        proof {
            assert(kws.take(kws.len() as int) == kws);
        }
        score
    }

    /// The scored fallback: scans every registered application and answers
    /// with the first best-scoring one, provided its score clears 30.
    fn fuzzy_search(&self, query: &str) -> (r: Option<&AppInfo>)
        ensures
            match r {
                Some(a) => spec_fuzzy(spec_entries_view(self.apps_by_desktop_id@), query@)
                    == Some(a@),
                None => spec_fuzzy(spec_entries_view(self.apps_by_desktop_id@), query@) is None,
            },
    {
        let ghost table = spec_entries_view(self.apps_by_desktop_id@);
        let mut best: Option<usize> = None;
        let mut best_score: i32 = 0;
        let mut i: usize = 0;
        while i < self.apps_by_desktop_id.len()
            invariant
                0 <= i <= self.apps_by_desktop_id@.len(),
                table == spec_entries_view(self.apps_by_desktop_id@),
                0 <= best_score,
                best is None ==> best_score == 0,
                match best {
                    Some(bi) => bi < self.apps_by_desktop_id@.len() && spec_fuzzy_from(
                        table,
                        query@,
                        0,
                        0,
                        None,
                    ) == spec_fuzzy_from(
                        table,
                        query@,
                        i as int,
                        best_score as int,
                        Some(table[bi as int].1),
                    ),
                    None => spec_fuzzy_from(table, query@, 0, 0, None) == spec_fuzzy_from(
                        table,
                        query@,
                        i as int,
                        best_score as int,
                        None,
                    ),
                },
            decreases self.apps_by_desktop_id@.len() - i,
        {
            proof {
                assert(table[i as int].1 == self.apps_by_desktop_id@[i as int].info@);
            }
            let sc = self.app_score(query, &self.apps_by_desktop_id[i].info);
            if sc > best_score {
                best_score = sc;
                best = Some(i);
            }
            i = i + 1;
        }
        if best_score > 30 {
            match best {
                Some(bi) => Some(&self.apps_by_desktop_id[bi].info),
                None => None,
            }
        } else {
            None
        }
    }

    /// Resolves a query, case-insensitively: by exact name (generic names and
    /// keywords count as names), then by command, then by desktop id, then by
    /// the scored fuzzy fallback.
    pub fn resolve(&self, query: &str) -> (r: Option<&AppInfo>)
        ensures
            match r {
                Some(a) => spec_resolve(
                    spec_entries_view(self.apps_by_name@),
                    spec_entries_view(self.apps_by_exec@),
                    spec_entries_view(self.apps_by_desktop_id@),
                    lower_of(query@),
                ) == Some(a@),
                None => spec_resolve(
                    spec_entries_view(self.apps_by_name@),
                    spec_entries_view(self.apps_by_exec@),
                    spec_entries_view(self.apps_by_desktop_id@),
                    lower_of(query@),
                ) is None,
            },
    {
        let query_lower = to_lowercase(query);
        match map_get(&self.apps_by_name, &query_lower) {
            Some(a) => {
                return Some(a);
            },
            None => {},
        }
        match map_get(&self.apps_by_exec, &query_lower) {
            Some(a) => {
                return Some(a);
            },
            None => {},
        }
        match map_get(&self.apps_by_desktop_id, &query_lower) {
            Some(a) => {
                return Some(a);
            },
            None => {},
        }
        self.fuzzy_search(query_lower.as_str())
    }
}

/// The fields a scan of a desktop file has collected so far.
pub struct DesktopScan {
    pub in_entry: bool,
    pub name: Option<Seq<char>>,
    pub icon: Option<Seq<char>>,
    pub exec_line: Option<Seq<char>>,
    pub generic_name: Option<Seq<char>>,
    pub keywords: Seq<Seq<char>>,
    pub no_display: bool,
    pub app_type: Option<Seq<char>>,
}

/// A scan before any line was read.
pub open spec fn spec_desktop_scan_start() -> DesktopScan {
    DesktopScan {
        in_entry: false,
        name: None,
        icon: None,
        exec_line: None,
        generic_name: None,
        keywords: Seq::<Seq<char>>::empty(),
        no_display: false,
        app_type: None,
    }
}

/// An `Exec=` value as the scan stores it: the basic field codes removed,
/// then trimmed.
pub open spec fn spec_clean_exec_value(v: Seq<char>) -> Seq<char> {
    spec_trim(
        spec_remove_all(
            spec_remove_all(spec_remove_all(spec_remove_all(v, "%u"@), "%U"@), "%f"@),
            "%F"@,
        ),
    )
}

/// The keywords from `i` on of a `Keywords=` value's segments: each trimmed
/// and case-folded, empty ones dropped.
pub open spec fn spec_keywords_from(segs: Seq<Seq<char>>, i: int) -> Seq<Seq<char>>
    recommends
        0 <= i <= segs.len(),
    decreases segs.len() - i,
{
    if i < 0 || i >= segs.len() {
        Seq::<Seq<char>>::empty()
    } else {
        let k = lower_of(spec_trim(segs[i]));
        (if k.len() > 0 {
            seq![k]
        } else {
            Seq::<Seq<char>>::empty()
        }) + spec_keywords_from(segs, i + 1)
    }
}

/// The keywords a `Keywords=` value yields.
pub open spec fn spec_keywords_of(v: Seq<char>) -> Seq<Seq<char>> {
    spec_keywords_from(spec_split(v, ';'), 0)
}

/// How one line moves the scan: group headers toggle whether the scan is
/// inside `[Desktop Entry]`; inside it, the known keys update their fields,
/// the last occurrence winning.
pub open spec fn spec_desktop_step(st: DesktopScan, line: Seq<char>) -> DesktopScan {
    let t = spec_trim(line);
    if t == "[Desktop Entry]"@ {
        DesktopScan { in_entry: true, ..st }
    } else if t.len() > 0 && t[0] == '[' && t.last() == ']' {
        DesktopScan { in_entry: false, ..st }
    } else if !st.in_entry {
        st
    } else if spec_is_prefix("Name="@, t) && spec_find_char(t, '[') is None {
        DesktopScan { name: Some(t.skip(5)), ..st }
    } else if spec_is_prefix("Icon="@, t) {
        if t.skip(5).len() > 0 {
            DesktopScan { icon: Some(t.skip(5)), ..st }
        } else {
            st
        }
    } else if spec_is_prefix("Exec="@, t) {
        DesktopScan { exec_line: Some(spec_clean_exec_value(t.skip(5))), ..st }
    } else if spec_is_prefix("GenericName="@, t) && spec_find_char(t, '[') is None {
        DesktopScan { generic_name: Some(t.skip(12)), ..st }
    } else if spec_is_prefix("Keywords="@, t) {
        DesktopScan { keywords: spec_keywords_of(t.skip(9)), ..st }
    } else if t == "NoDisplay=true"@ {
        DesktopScan { no_display: true, ..st }
    } else if spec_is_prefix("Type="@, t) {
        DesktopScan { app_type: Some(t.skip(5)), ..st }
    } else {
        st
    }
}

/// The scan over the lines from `i` on.
pub open spec fn spec_desktop_scan(lines: Seq<Seq<char>>, i: int, st: DesktopScan) -> DesktopScan
    recommends
        0 <= i <= lines.len(),
    decreases lines.len() - i,
{
    if i < 0 || i >= lines.len() {
        st
    } else {
        spec_desktop_scan(lines, i + 1, spec_desktop_step(st, lines[i]))
    }
}

/// What `parse_desktop_file` yields: the application a desktop file under
/// this id describes, or nothing for files that are hidden, are no
/// application, or lack a name or command.
pub open spec fn spec_parse_desktop_file(content: Seq<char>, desktop_id: Seq<char>) -> Option<
    AppInfoView,
> {
    let st = spec_desktop_scan(spec_lines(content), 0, spec_desktop_scan_start());
    let is_application = match st.app_type {
        Some(t) => t == "Application"@,
        None => false,
    };
    if st.no_display || !is_application {
        None
    } else {
        match (st.name, st.exec_line) {
            (Some(name), Some(exec_line)) => Some(
                AppInfoView {
                    desktop_id: desktop_id,
                    name: name,
                    icon: match st.icon {
                        Some(icon) => icon,
                        None => "application-x-executable"@,
                    },
                    exec_cmd: exec_line,
                    generic_name: st.generic_name,
                    keywords: st.keywords,
                },
            ),
            _ => None,
        }
    }
}

/// The view of an optional character vector.
pub open spec fn spec_opt_chars_view(v: Option<Vec<char>>) -> Option<Seq<char>> {
    match v {
        Some(w) => Some(w@),
        None => None,
    }
}

impl AppResolver {
    /// Reads one desktop file's text into an application record: the
    /// `[Desktop Entry]` group's name, icon, command, generic name and
    /// keywords, unless the entry is hidden, is no application, or lacks a
    /// name or command.
    pub fn parse_desktop_file(content: &str, desktop_id: String) -> (r: Option<AppInfo>)
        ensures
            match r {
                Some(a) => spec_parse_desktop_file(content@, desktop_id@) == Some(a@),
                None => spec_parse_desktop_file(content@, desktop_id@) is None,
            },
    {
        let cs = chars_of(content);
        let lines = split_lines_chars(&cs);
        let ghost lv = spec_views_of(lines@);
        proof {
            assert(lv == spec_lines(content@));
        }

        let mut in_entry: bool = false;
        let mut name: Option<Vec<char>> = None;
        let mut icon: Option<Vec<char>> = None;
        let mut exec_line: Option<Vec<char>> = None;
        let mut generic_name: Option<Vec<char>> = None;
        let mut keywords: Vec<String> = Vec::new();
        let mut no_display: bool = false;
        let mut app_type: Option<Vec<char>> = None;

        let key_name = chars_of("Name=");
        let key_icon = chars_of("Icon=");
        let key_exec = chars_of("Exec=");
        let key_generic = chars_of("GenericName=");
        let key_keywords = chars_of("Keywords=");
        let key_type = chars_of("Type=");
        proof {
            reveal_strlit("Name=");
            reveal_strlit("Icon=");
            reveal_strlit("Exec=");
            reveal_strlit("GenericName=");
            reveal_strlit("Keywords=");
            reveal_strlit("Type=");
            assert("Name="@.len() == 5);
            assert("Icon="@.len() == 5);
            assert("Exec="@.len() == 5);
            assert("GenericName="@.len() == 12);
            assert("Keywords="@.len() == 9);
            assert("Type="@.len() == 5);
        }

        let mut i: usize = 0;
        proof {
            assert(keywords@.map_values(|k: String| k@) =~= Seq::<Seq<char>>::empty());
            assert(DesktopScan {
                in_entry,
                name: spec_opt_chars_view(name),
                icon: spec_opt_chars_view(icon),
                exec_line: spec_opt_chars_view(exec_line),
                generic_name: spec_opt_chars_view(generic_name),
                keywords: keywords@.map_values(|k: String| k@),
                no_display,
                app_type: spec_opt_chars_view(app_type),
            } == spec_desktop_scan_start());
        }
        while i < lines.len()
            invariant
                0 <= i <= lines@.len(),
                lv == spec_views_of(lines@),
                key_name@ == "Name="@ && key_name@.len() == 5,
                key_icon@ == "Icon="@ && key_icon@.len() == 5,
                key_exec@ == "Exec="@ && key_exec@.len() == 5,
                key_generic@ == "GenericName="@ && key_generic@.len() == 12,
                key_keywords@ == "Keywords="@ && key_keywords@.len() == 9,
                key_type@ == "Type="@ && key_type@.len() == 5,
                spec_desktop_scan(lv, 0, spec_desktop_scan_start()) == spec_desktop_scan(
                    lv,
                    i as int,
                    DesktopScan {
                        in_entry,
                        name: spec_opt_chars_view(name),
                        icon: spec_opt_chars_view(icon),
                        exec_line: spec_opt_chars_view(exec_line),
                        generic_name: spec_opt_chars_view(generic_name),
                        keywords: keywords@.map_values(|k: String| k@),
                        no_display,
                        app_type: spec_opt_chars_view(app_type),
                    },
                ),
            decreases lines@.len() - i,
        {
            let ghost st0 = DesktopScan {
                in_entry,
                name: spec_opt_chars_view(name),
                icon: spec_opt_chars_view(icon),
                exec_line: spec_opt_chars_view(exec_line),
                generic_name: spec_opt_chars_view(generic_name),
                keywords: keywords@.map_values(|k: String| k@),
                no_display,
                app_type: spec_opt_chars_view(app_type),
            };
            let t = trim_chars(&lines[i]);
            proof {
                assert(lv[i as int] == lines@[i as int]@);
                assert(t@ == spec_trim(lv[i as int]));
            }
            if eq_chars(&t, &chars_of("[Desktop Entry]")) {
                in_entry = true;
            } else if t.len() > 0 && t[0] == '[' && t[t.len() - 1] == ']' {
                proof {
                    reveal_strlit("[Desktop Entry]");
                }
                in_entry = false;
            } else if !in_entry {
            } else if starts_with_chars(&t, &key_name) && find_char(&t, '[').is_none() {
                name = Some(sub_chars(&t, 5, t.len()));
                proof {
                    assert(t@.subrange(5, t@.len() as int) =~= t@.skip(5));
                }
            } else if starts_with_chars(&t, &key_icon) {
                let value = sub_chars(&t, 5, t.len());
                proof {
                    assert(value@ =~= t@.skip(5));
                }
                if value.len() > 0 {
                    icon = Some(value);
                }
            } else if starts_with_chars(&t, &key_exec) {
                let raw = sub_chars(&t, 5, t.len());
                proof {
                    assert(raw@ =~= t@.skip(5));
                    reveal_strlit("%u");
                    reveal_strlit("%U");
                    reveal_strlit("%f");
                    reveal_strlit("%F");
                    assert("%u"@.len() == 2);
                    assert("%U"@.len() == 2);
                    assert("%f"@.len() == 2);
                    assert("%F"@.len() == 2);
                }
                let c1 = remove_all_chars(&raw, &chars_of("%u"));
                let c2 = remove_all_chars(&c1, &chars_of("%U"));
                let c3 = remove_all_chars(&c2, &chars_of("%f"));
                let c4 = remove_all_chars(&c3, &chars_of("%F"));
                exec_line = Some(trim_chars(&c4));
            } else if starts_with_chars(&t, &key_generic) && find_char(&t, '[').is_none() {
                generic_name = Some(sub_chars(&t, 12, t.len()));
                proof {
                    assert(t@.subrange(12, t@.len() as int) =~= t@.skip(12));
                }
            } else if starts_with_chars(&t, &key_keywords) {
                let value = sub_chars(&t, 9, t.len());
                proof {
                    assert(value@ =~= t@.skip(9));
                }
                keywords = parse_keywords(&value);
            } else if eq_chars(&t, &chars_of("NoDisplay=true")) {
                no_display = true;
            } else if starts_with_chars(&t, &key_type) {
                app_type = Some(sub_chars(&t, 5, t.len()));
                proof {
                    assert(t@.subrange(5, t@.len() as int) =~= t@.skip(5));
                }
            }
            proof {
                let st1 = DesktopScan {
                    in_entry,
                    name: spec_opt_chars_view(name),
                    icon: spec_opt_chars_view(icon),
                    exec_line: spec_opt_chars_view(exec_line),
                    generic_name: spec_opt_chars_view(generic_name),
                    keywords: keywords@.map_values(|k: String| k@),
                    no_display,
                    app_type: spec_opt_chars_view(app_type),
                };
                assert(st1 == spec_desktop_step(st0, lv[i as int]));
                assert(spec_desktop_scan(lv, i as int, st0) == spec_desktop_scan(lv, i + 1, st1));
            }
            i = i + 1;
        }

        let is_application = match &app_type {
            Some(t) => eq_chars(t, &chars_of("Application")),
            None => false,
        };
        if no_display || !is_application {
            return None;
        }
        match (name, exec_line) {
            (Some(name_v), Some(exec_v)) => {
                let icon_s = match &icon {
                    Some(icon_v) => string_from_chars(icon_v),
                    None => String::from_str("application-x-executable"),
                };
                let generic_s = match &generic_name {
                    Some(g) => Some(string_from_chars(g)),
                    None => None,
                };
                let info = AppInfo {
                    desktop_id,
                    name: string_from_chars(&name_v),
                    icon: icon_s,
                    exec_cmd: string_from_chars(&exec_v),
                    generic_name: generic_s,
                    keywords,
                };
                proof {
                    assert(info@ =~= spec_parse_desktop_file(content@, desktop_id@)->0);
                }
                Some(info)
            },
            _ => None,
        }
    }
}

/// Reads a `Keywords=` value: semicolon-separated entries, trimmed and
/// case-folded, empty ones dropped.
fn parse_keywords(v: &Vec<char>) -> (r: Vec<String>)
    ensures
        r@.map_values(|k: String| k@) == spec_keywords_of(v@),
{
    let segs = split_at_char(v, ';');
    let ghost sv = spec_views_of(segs@);
    let mut out: Vec<String> = Vec::new();
    let mut i: usize = 0;
    proof {
        assert(out@.map_values(|k: String| k@) =~= Seq::<Seq<char>>::empty());
        assert(Seq::<Seq<char>>::empty() + spec_keywords_from(sv, 0) =~= spec_keywords_from(
            sv,
            0,
        ));
    }
    while i < segs.len()
        invariant
            0 <= i <= segs@.len(),
            sv == spec_views_of(segs@),
            out@.map_values(|k: String| k@) + spec_keywords_from(sv, i as int)
                == spec_keywords_from(sv, 0),
        decreases segs@.len() - i,
    {
        proof {
            assert(sv[i as int] == segs@[i as int]@);
        }
        let trimmed = trim_chars(&segs[i]);
        let lowered = lower_chars(&trimmed);
        if lowered.len() > 0 {
            let ghost prev = out@.map_values(|k: String| k@);
            out.push(string_from_chars(&lowered));
            proof {
                assert(out@.map_values(|k: String| k@) =~= prev.push(lower_of(spec_trim(
                    sv[i as int],
                ))));
                assert(prev.push(lower_of(spec_trim(sv[i as int]))) =~= prev + seq![
                    lower_of(spec_trim(sv[i as int])),
                ]);
                assert((prev + seq![lower_of(spec_trim(sv[i as int]))]) + spec_keywords_from(
                    sv,
                    i + 1,
                ) =~= prev + (seq![lower_of(spec_trim(sv[i as int]))] + spec_keywords_from(
                    sv,
                    i + 1,
                )));
            }
        } else {
            proof {
                assert(Seq::<Seq<char>>::empty() + spec_keywords_from(sv, i + 1)
                    =~= spec_keywords_from(sv, i + 1));
            }
        }
        i = i + 1;
    }
    out
}

} // verus!

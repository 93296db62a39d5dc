//! Picking the distribution's icon out of the `os-release` text. Reading the
//! file stays with the shell; the parsing and the choice live here.

use vstd::prelude::*;

use crate::text::chars_of;
use crate::text::eq_chars;
use crate::text::find_char;
use crate::text::spec_find_char;
use crate::text::spec_lines;
use crate::text::spec_trim;
use crate::text::spec_trim_char;
use crate::text::spec_views_of;
use crate::text::split_lines_chars;
use crate::text::string_from_chars;
use crate::text::sub_chars;
use crate::text::trim_char;
use crate::text::trim_chars;

verus! {

/// What can go wrong reading the `os-release` text; the payloads carry the
/// underlying error's text or the offending line.
#[derive(Debug, Clone, PartialEq, Eq)]
pub enum DistroInfoError {
    Io(String),
    ParseError(String),
}

/// A value as `os-release` quoting leaves it: trimmed, then stripped of
/// surrounding double and single quotes.
pub open spec fn spec_unquote(v: Seq<char>) -> Seq<char> {
    spec_trim_char(spec_trim_char(spec_trim(v), '"'), '\'')
}

/// The scan over the `os-release` lines, from line `i` on, carrying the last
/// `LOGO` and `ID` values seen so far: blank lines and comments are skipped,
/// a line without `=` stops the scan with that line as the error, and a
/// `key=value` line updates the carried values when its key is `LOGO` or
/// `ID`.
pub open spec fn spec_scan_os_release(
    lines: Seq<Seq<char>>,
    i: int,
    logo: Option<Seq<char>>,
    id: Option<Seq<char>>,
) -> Result<(Option<Seq<char>>, Option<Seq<char>>), Seq<char>>
    recommends
        0 <= i <= lines.len(),
    decreases lines.len() - i,
{
    if i < 0 || i >= lines.len() {
        Ok((logo, id))
    } else {
        let t = spec_trim(lines[i]);
        if t.len() == 0 || t[0] == '#' {
            spec_scan_os_release(lines, i + 1, logo, id)
        } else {
            match spec_find_char(t, '=') {
                None => Err(t),
                Some(j) => {
                    let key = spec_trim(t.take(j));
                    let value = spec_unquote(t.skip(j + 1));
                    spec_scan_os_release(
                        lines,
                        i + 1,
                        if key == "LOGO"@ {
                            Some(value)
                        } else {
                            logo
                        },
                        if key == "ID"@ {
                            Some(value)
                        } else {
                            id
                        },
                    )
                },
            }
        }
    }
}

/// The icon `get_distro_icon_name` picks for a completed scan: the last
/// non-empty `LOGO` value, else the last non-empty `ID` value, else none.
pub open spec fn spec_icon_choice(logo: Option<Seq<char>>, id: Option<Seq<char>>) -> Option<
    Seq<char>,
> {
    match logo {
        Some(v) if v.len() > 0 => Some(v),
        _ => match id {
            Some(v) if v.len() > 0 => Some(v),
            _ => None,
        },
    }
}

/// The view of a carried optional value.
pub open spec fn spec_opt_view(v: Option<Vec<char>>) -> Option<Seq<char>> {
    match v {
        Some(w) => Some(w@),
        None => None,
    }
}

/// Picks the distribution icon from the text of `os-release`: the `LOGO`
/// variable if it is set and non-empty, else `ID`, else none. A non-blank,
/// non-comment line without `=` is a parse error carrying that line.
pub fn get_distro_icon_name(content: &str) -> (r: Result<Option<String>, DistroInfoError>)
    ensures
        match spec_scan_os_release(spec_lines(content@), 0, None, None) {
            Err(l) => r matches Err(DistroInfoError::ParseError(e)) && e@ == l,
            Ok((logo, id)) => r matches Ok(o) && (match spec_icon_choice(logo, id) {
                Some(v) => o matches Some(x) && x@ == v,
                None => o is None,
            }),
        },
{
    let cs = chars_of(content);
    let lines = split_lines_chars(&cs);
    let ghost lv = spec_views_of(lines@);
    proof {
        assert(lv == spec_lines(content@));
    }
    let mut logo: Option<Vec<char>> = None;
    let mut id: Option<Vec<char>> = None;
    let mut i: usize = 0;
    while i < lines.len()
        invariant
            0 <= i <= lines@.len(),
            lv == spec_views_of(lines@),
            lv == spec_lines(content@),
            spec_scan_os_release(lv, 0, None, None) == spec_scan_os_release(
                lv,
                i as int,
                spec_opt_view(logo),
                spec_opt_view(id),
            ),
        decreases lines@.len() - i,
    {
        let ghost logo0 = spec_opt_view(logo);
        let ghost id0 = spec_opt_view(id);
        let t = trim_chars(&lines[i]);
        proof {
            assert(lv[i as int] == lines@[i as int]@);
            assert(t@ == spec_trim(lv[i as int]));
        }
        if t.len() == 0 || t[0] == '#' {
            proof {
                assert(spec_scan_os_release(lv, i as int, logo0, id0) == spec_scan_os_release(
                    lv,
                    i + 1,
                    logo0,
                    id0,
                ));
            }
        } else {
            match find_char(&t, '=') {
                None => {
                    proof {
                        assert(spec_scan_os_release(lv, i as int, logo0, id0) == Err::<
                            (Option<Seq<char>>, Option<Seq<char>>),
                            Seq<char>,
                        >(t@));
                    }
                    return Err(DistroInfoError::ParseError(string_from_chars(&t)));
                },
                Some(j) => {
                    let key = trim_chars(&sub_chars(&t, 0, j));
                    let value_raw = sub_chars(&t, j + 1, t.len());
                    let value = trim_char(&trim_char(&trim_chars(&value_raw), '"'), '\'');
                    proof {
                        reveal_strlit("LOGO");
                        reveal_strlit("ID");
                        assert("LOGO"@.len() == 4);
                        assert("ID"@.len() == 2);
                        assert("LOGO"@ != "ID"@);
                        assert(t@.take(j as int) =~= t@.subrange(0, j as int));
                        assert(value_raw@ =~= t@.skip(j + 1));
                        assert(key@ == spec_trim(t@.take(j as int)));
                        assert(value@ == spec_unquote(t@.skip(j + 1)));
                    }
                    if eq_chars(&key, &chars_of("LOGO")) {
                        logo = Some(value);
                    } else if eq_chars(&key, &chars_of("ID")) {
                        id = Some(value);
                    }
                    proof {
                        assert(spec_scan_os_release(lv, i as int, logo0, id0)
                            == spec_scan_os_release(
                            lv,
                            i + 1,
                            spec_opt_view(logo),
                            spec_opt_view(id),
                        ));
                    }
                },
            }
        }
        i = i + 1;
    }
    match logo {
        Some(v) => {
            if v.len() > 0 {
                return Ok(Some(string_from_chars(&v)));
            }
            match id {
                Some(w) => {
                    if w.len() > 0 {
                        Ok(Some(string_from_chars(&w)))
                    } else {
                        Ok(None)
                    }
                },
                None => Ok(None),
            }
        },
        None => match id {
            Some(w) => {
                if w.len() > 0 {
                    Ok(Some(string_from_chars(&w)))
                } else {
                    Ok(None)
                }
            },
            None => Ok(None),
        },
    }
}

} // verus!

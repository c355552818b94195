//! The single-source providers: each turns one raw text into one display value.
use vstd::prelude::*;
use crate::error::ProviderError;
use crate::text::{
    append_chars, chars_of, decimal, decimal_spec, lemma_split_nonempty, lines_of, parse_u64,
    parse_u64_spec, split, split_spec, string_of, trim, trim_of, views, words, words_spec,
};
use crate::text::nonempty_pieces;

verus! {

/// A one-value source (kernel release, device name, public address): its
/// text trimmed, which must not be empty.
pub open spec fn single_value_spec(raw: Seq<char>) -> Result<Seq<char>, ProviderError> {
    if trim_of(raw).len() == 0 {
        Err(ProviderError::ParseFailure)
    } else {
        Ok(trim_of(raw))
    }
}

/// The value of a one-value source.
pub fn single_value(raw: &str) -> (r: Result<String, ProviderError>)
    ensures
        match (r, single_value_spec(raw@)) {
            (Ok(v), Ok(s)) => v@ == s,
            (Err(e), Err(se)) => e == se,
            _ => false,
        },
{
    let t = trim(&chars_of(raw));
    if t.len() == 0 {
        Err(ProviderError::ParseFailure)
    } else {
        Ok(string_of(&t))
    }
}

/// Whole seconds of an uptime report: the first word, up to any `.`.
pub open spec fn uptime_seconds(raw: Seq<char>) -> Option<u64> {
    let ws = words_spec(lines_of(raw)[0]);
    if ws.len() == 0 {
        None
    } else {
        parse_u64_spec(split_spec(ws[0], '.')[0])
    }
}

/// `Xd Yh Zm` for a number of seconds.
pub open spec fn duration_text(s: nat) -> Seq<char> {
    decimal_spec(s / 86400) + seq!['d', ' '] + decimal_spec((s % 86400) / 3600) + seq!['h', ' ']
        + decimal_spec((s % 3600) / 60) + seq!['m']
}

pub open spec fn uptime_spec(raw: Seq<char>) -> Result<Seq<char>, ProviderError> {
    match uptime_seconds(raw) {
        Some(s) => Ok(duration_text(s as nat)),
        None => Err(ProviderError::ParseFailure),
    }
}

/// The time since boot, from an uptime report such as `12345.67 54321.00`.
pub fn uptime(raw: &str) -> (r: Result<String, ProviderError>)
    ensures
        match (r, uptime_spec(raw@)) {
            (Ok(v), Ok(s)) => v@ == s,
            (Err(e), Err(se)) => e == se,
            _ => false,
        },
{
    let lines = split(&chars_of(raw), '\n');
    proof {
        lemma_split_nonempty(raw@, '\n');
    }
    let ws = words(&lines[0]);
    if ws.len() == 0 {
        return Err(ProviderError::ParseFailure);
    }
    let whole = split(&ws[0], '.');
    proof {
        lemma_split_nonempty(ws@[0]@, '.');
    }
    let s = match parse_u64(&whole[0]) {
        Some(s) => s,
        None => return Err(ProviderError::ParseFailure),
    };
    let mut c = decimal((s / 86400) as u128);
    c.push('d');
    c.push(' ');
    append_chars(&mut c, &decimal(((s % 86400) / 3600) as u128));
    c.push('h');
    c.push(' ');
    append_chars(&mut c, &decimal(((s % 3600) / 60) as u128));
    c.push('m');
    assert(c@ =~= duration_text(s as nat));
    Ok(string_of(&c))
}

/// `v` without one pair of surrounding double quotes.
pub open spec fn unquote(v: Seq<char>) -> Seq<char> {
    if v.len() >= 2 && v[0] == '"' && v[v.len() - 1] == '"' {
        v.subrange(1, v.len() - 1)
    } else {
        v
    }
}

/// The value of the last line of `lines` whose key before `=` is `key`.
pub open spec fn assignment(lines: Seq<Seq<char>>, key: Seq<char>) -> Option<Seq<char>>
    decreases lines.len(),
{
    if lines.len() == 0 {
        None
    } else {
        let parts = split_spec(lines.last(), '=');
        if parts.len() > 1 && trim_of(parts[0]) == key {
            Some(parts[1])
        } else {
            assignment(lines.drop_last(), key)
        }
    }
}

pub open spec fn distro_spec(os_release: Seq<char>) -> Result<Seq<char>, ProviderError> {
    match assignment(lines_of(os_release), "PRETTY_NAME"@) {
        Some(v) => Ok(unquote(trim_of(v))),
        None => Err(ProviderError::ParseFailure),
    }
}

/// The distribution's name, from the `PRETTY_NAME` line of an os-release file.
pub fn distro(os_release: &str) -> (r: Result<String, ProviderError>)
    ensures
        match (r, distro_spec(os_release@)) {
            (Ok(v), Ok(s)) => v@ == s,
            (Err(e), Err(se)) => e == se,
            _ => false,
        },
{
    let lines = split(&chars_of(os_release), '\n');
    let key = chars_of("PRETTY_NAME");
    let mut j: usize = lines.len();
    assert(views(lines@).take(j as int) == views(lines@));
    while j > 0
        invariant
            j <= lines@.len(),
            key@ == "PRETTY_NAME"@,
            views(lines@) == lines_of(os_release@),
            assignment(views(lines@).take(j as int), key@) == assignment(views(lines@), key@),
        decreases j,
    {
        let ghost pre = views(lines@).take(j as int);
        assert(pre.drop_last() == views(lines@).take(j - 1));
        assert(pre.last() == lines@[j - 1]@);
        let parts = split(&lines[j - 1], '=');
        if parts.len() > 1 && crate::text::same_chars(&trim(&parts[0]), &key) {
            let v = trim(&parts[1]);
            let n = v.len();
            if n >= 2 && v[0] == '"' && v[n - 1] == '"' {
                let mut inner: Vec<char> = Vec::new();
                let mut i: usize = 1;
                while i < n - 1
                    invariant
                        1 <= i <= n - 1,
                        n == v@.len(),
                        inner@ == v@.subrange(1, i as int),
                    decreases n - 1 - i,
                {
                    inner.push(v[i]);
                    i = i + 1;
                    assert(inner@ =~= v@.subrange(1, i as int));
                }
                return Ok(string_of(&inner));
            }
            return Ok(string_of(&v));
        }
        j = j - 1;
    }
    Err(ProviderError::ParseFailure)
}

/// The number of non-empty lines of a package manager's listing.
pub open spec fn package_count_spec(listing: Seq<char>) -> Seq<char> {
    decimal_spec(nonempty_pieces(lines_of(listing)).len())
}

/// The package count, from a listing with one package per line.
pub fn package_count(listing: &str) -> (r: String)
    ensures
        r@ == package_count_spec(listing@),
{
    let lines = split(&chars_of(listing), '\n');
    let mut n: usize = 0;
    let mut i: usize = 0;
    while i < lines.len()
        invariant
            i <= lines@.len(),
            views(lines@) == lines_of(listing@),
            n as nat == nonempty_pieces(views(lines@).take(i as int)).len(),
            n <= i,
        decreases lines@.len() - i,
    {
        let ghost pre = views(lines@).take(i + 1);
        assert(pre.drop_last() == views(lines@).take(i as int));
        assert(pre.last() == lines@[i as int]@);
        if lines[i].len() > 0 {
            n = n + 1;
        }
        i = i + 1;
    }
    assert(views(lines@).take(i as int) == views(lines@));
    string_of(&decimal(n as u128))
}

/// The last non-empty line of `lines`, trimmed.
pub open spec fn last_filled(lines: Seq<Seq<char>>) -> Option<Seq<char>>
    decreases lines.len(),
{
    if lines.len() == 0 {
        None
    } else if trim_of(lines.last()).len() > 0 {
        Some(trim_of(lines.last()))
    } else {
        last_filled(lines.drop_last())
    }
}

/// The window manager a session script starts: the last word of its last
/// non-empty line (`exec i3` gives `i3`).
pub open spec fn window_manager_spec(xinitrc: Seq<char>) -> Result<Seq<char>, ProviderError> {
    match last_filled(lines_of(xinitrc)) {
        Some(l) => if words_spec(l).len() > 0 {
            Ok(words_spec(l).last())
        } else {
            Err(ProviderError::ParseFailure)
        },
        None => Err(ProviderError::ParseFailure),
    }
}

/// The window manager or desktop, from a session start-up script.
pub fn window_manager(xinitrc: &str) -> (r: Result<String, ProviderError>)
    ensures
        match (r, window_manager_spec(xinitrc@)) {
            (Ok(v), Ok(s)) => v@ == s,
            (Err(e), Err(se)) => e == se,
            _ => false,
        },
{
    let lines = split(&chars_of(xinitrc), '\n');
    let mut j: usize = lines.len();
    assert(views(lines@).take(j as int) == views(lines@));
    while j > 0
        invariant
            j <= lines@.len(),
            views(lines@) == lines_of(xinitrc@),
            last_filled(views(lines@).take(j as int)) == last_filled(views(lines@)),
        decreases j,
    {
        let ghost pre = views(lines@).take(j as int);
        assert(pre.drop_last() == views(lines@).take(j - 1));
        assert(pre.last() == lines@[j - 1]@);
        let t = trim(&lines[j - 1]);
        if t.len() > 0 {
            let ws = words(&t);
            if ws.len() == 0 {
                return Err(ProviderError::ParseFailure);
            }
            return Ok(string_of(&ws[ws.len() - 1]));
        }
        j = j - 1;
    }
    Err(ProviderError::ParseFailure)
}

} // verus!

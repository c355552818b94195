//! The environment provider: user name, login shell and preferred editor.
use vstd::prelude::*;
use crate::error::ProviderError;
use crate::text::{chars_of, split, split_spec, lemma_split_nonempty, string_of, trim, trim_of};

verus! {

/// Which environment fact to read.
#[derive(PartialEq, Eq, Structural, Debug, Clone, Copy)]
pub enum EnvItem {
    User,
    Shell,
    Editor,
}

/// What the environment offers, as the caller found it: the output of the
/// user-id query if it ran, and the `USER`, `SHELL`, `VISUAL` and `EDITOR`
/// variables if they are set.
pub struct EnvSources {
    pub id_output: Option<String>,
    pub user: Option<String>,
    pub shell: Option<String>,
    pub visual: Option<String>,
    pub editor: Option<String>,
}

/// `s` with every newline removed.
pub open spec fn without_newlines(s: Seq<char>) -> Seq<char>
    decreases s.len(),
{
    if s.len() == 0 {
        s
    } else if s.last() == '\n' {
        without_newlines(s.drop_last())
    } else {
        without_newlines(s.drop_last()).push(s.last())
    }
}

pub open spec fn trimmed_var(v: Option<String>) -> Result<Seq<char>, ProviderError> {
    match v {
        Some(s) => Ok(trim_of(s@)),
        None => Err(ProviderError::SourceUnavailable),
    }
}

/// The user name: the id query's output without newlines if that is not
/// empty, else the trimmed `USER` variable.
pub open spec fn user_spec(src: EnvSources) -> Result<Seq<char>, ProviderError> {
    match src.id_output {
        Some(o) if without_newlines(o@).len() > 0 => Ok(without_newlines(o@)),
        _ => trimmed_var(src.user),
    }
}

/// The shell's name: the last path component of `SHELL`, trimmed.
pub open spec fn shell_spec(src: EnvSources) -> Result<Seq<char>, ProviderError> {
    match src.shell {
        Some(s) => Ok(trim_of(split_spec(s@, '/').last())),
        None => Err(ProviderError::SourceUnavailable),
    }
}

/// The editor: `VISUAL` if set, else `EDITOR`, trimmed.
pub open spec fn editor_spec(src: EnvSources) -> Result<Seq<char>, ProviderError> {
    match src.visual {
        Some(v) => Ok(trim_of(v@)),
        None => trimmed_var(src.editor),
    }
}

pub open spec fn item_spec(item: EnvItem, src: EnvSources) -> Result<Seq<char>, ProviderError> {
    match item {
        EnvItem::User => user_spec(src),
        EnvItem::Shell => shell_spec(src),
        EnvItem::Editor => editor_spec(src),
    }
}

fn strip_newlines(s: &str) -> (r: Vec<char>)
    ensures
        r@ == without_newlines(s@),
{
    let c = chars_of(s);
    let mut r: Vec<char> = Vec::new();
    let mut i: usize = 0;
    while i < c.len()
        invariant
            i <= c@.len(),
            c@ == s@,
            r@ == without_newlines(c@.take(i as int)),
        decreases c@.len() - i,
    {
        assert(c@.take(i + 1).drop_last() == c@.take(i as int));
        if c[i] != '\n' {
            r.push(c[i]);
        }
        i = i + 1;
    }
    assert(c@.take(i as int) == c@);
    r
}

fn trimmed(v: &Option<String>) -> (r: Result<String, ProviderError>)
    ensures
        match (r, trimmed_var(*v)) {
            (Ok(s), Ok(t)) => s@ == t,
            (Err(e), Err(te)) => e == te,
            _ => false,
        },
{
    match v {
        Some(s) => Ok(string_of(&trim(&chars_of(s.as_str())))),
        None => Err(ProviderError::SourceUnavailable),
    }
}

pub struct EnvInfo {
    user: Option<String>,
    shell: Option<String>,
    editor: Option<String>,
}

pub open spec fn opt_chars(o: Option<String>) -> Option<Seq<char>> {
    match o {
        Some(s) => Some(s@),
        None => None,
    }
}

impl View for EnvInfo {
    /// `(user, shell, editor)`, each `None` until it is acquired.
    type V = (Option<Seq<char>>, Option<Seq<char>>, Option<Seq<char>>);

    closed spec fn view(&self) -> Self::V {
        (opt_chars(self.user), opt_chars(self.shell), opt_chars(self.editor))
    }
}

/// The display of a fact: its value, or `?` before it is acquired.
pub open spec fn fact_text(v: Option<Seq<char>>) -> Seq<char> {
    match v {
        Some(s) => s,
        None => seq!['?'],
    }
}

/// The field of `v` that `item` names.
pub open spec fn item_of(
    v: (Option<Seq<char>>, Option<Seq<char>>, Option<Seq<char>>),
    item: EnvItem,
) -> Option<Seq<char>> {
    match item {
        EnvItem::User => v.0,
        EnvItem::Shell => v.1,
        EnvItem::Editor => v.2,
    }
}

impl EnvInfo {
    /// No fact acquired yet.
    pub fn new() -> (r: EnvInfo)
        ensures
            r@ == (None::<Seq<char>>, None::<Seq<char>>, None::<Seq<char>>),
    {
        EnvInfo { user: None, shell: None, editor: None }
    }

    /// Resolves `item` from `src`; on success that fact alone changes, on a
    /// failure nothing does.
    pub fn get(&mut self, item: EnvItem, src: &EnvSources) -> (r: Result<(), ProviderError>)
        ensures
            match item_spec(item, *src) {
                Ok(v) => r is Ok && item_of(final(self)@, item) == Some(v)
                    && forall|other: EnvItem| other != item ==> item_of(final(self)@, other) == item_of(old(self)@, other),
                Err(e) => r == Err::<(), ProviderError>(e) && final(self)@ == old(self)@,
            },
    {
        match item {
            EnvItem::User => {
                if let Some(o) = &src.id_output {
                    let u = strip_newlines(o.as_str());
                    if u.len() > 0 {
                        self.user = Some(string_of(&u));
                        return Ok(());
                    }
                }
                match trimmed(&src.user) {
                    Ok(u) => self.user = Some(u),
                    Err(e) => return Err(e),
                }
            },
            EnvItem::Shell => match &src.shell {
                Some(s) => {
                    let pieces = split(&chars_of(s.as_str()), '/');
                    proof {
                        lemma_split_nonempty(s@, '/');
                    }
                    self.shell = Some(string_of(&trim(&pieces[pieces.len() - 1])));
                },
                None => return Err(ProviderError::SourceUnavailable),
            },
            EnvItem::Editor => {
                let e = match &src.visual {
                    Some(v) => string_of(&trim(&chars_of(v.as_str()))),
                    None => match trimmed(&src.editor) {
                        Ok(e) => e,
                        Err(e) => return Err(e),
                    },
                };
                self.editor = Some(e);
            },
        }
        Ok(())
    }

    /// The fact `item` names, as last acquired (possibly empty), or `?`
    /// before it is acquired.
    pub fn format(&self, item: EnvItem) -> (r: String)
        ensures
            r@ == fact_text(item_of(self@, item)),
    {
        let v = match item {
            EnvItem::User => &self.user,
            EnvItem::Shell => &self.shell,
            EnvItem::Editor => &self.editor,
        };
        match v {
            Some(s) => s.clone(),
            None => {
                let q = vec!['?'];
                assert(q@ =~= seq!['?']);
                string_of(&q)
            },
        }
    }
}

} // verus!

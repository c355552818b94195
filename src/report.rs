//! Orchestration: which facts are collected, in which order, under which labels.
use vstd::prelude::*;
use crate::output::{bold, bold_text, render_spec, OutputHelper};
use crate::text::{append_chars, chars_of, same_chars, string_of};

verus! {

/// A fact the report can show.
#[derive(PartialEq, Eq, Structural, Debug, Clone, Copy)]
pub enum Fact {
    User,
    Host,
    Uptime,
    Distro,
    Kernel,
    WindowManager,
    Editor,
    Shell,
    Cpu,
    IpAddress,
    Packages,
    Music,
}

/// The fixed order in which facts appear in the report.
pub open spec fn priority_spec() -> Seq<Fact> {
    seq![
        Fact::User,
        Fact::Host,
        Fact::Uptime,
        Fact::Distro,
        Fact::Kernel,
        Fact::WindowManager,
        Fact::Editor,
        Fact::Shell,
        Fact::Cpu,
        Fact::IpAddress,
        Fact::Packages,
        Fact::Music,
    ]
}

/// The facts of `p` that `requested` holds, in the order of `p`.
pub open spec fn select(p: Seq<Fact>, requested: Seq<Fact>) -> Seq<Fact>
    decreases p.len(),
{
    if p.len() == 0 {
        Seq::empty()
    } else if requested.contains(p.last()) {
        select(p.drop_last(), requested).push(p.last())
    } else {
        select(p.drop_last(), requested)
    }
}

/// The facts to collect for a request: each requested fact once, in the
/// fixed order.
pub open spec fn plan_spec(requested: Seq<Fact>) -> Seq<Fact> {
    select(priority_spec(), requested)
}

/// The fixed order of facts.
pub fn priority() -> (r: Vec<Fact>)
    ensures
        r@ == priority_spec(),
{
    let r = vec![
        Fact::User,
        Fact::Host,
        Fact::Uptime,
        Fact::Distro,
        Fact::Kernel,
        Fact::WindowManager,
        Fact::Editor,
        Fact::Shell,
        Fact::Cpu,
        Fact::IpAddress,
        Fact::Packages,
        Fact::Music,
    ];
    assert(r@ =~= priority_spec());
    r
}

fn holds(requested: &Vec<Fact>, f: Fact) -> (r: bool)
    ensures
        r == requested@.contains(f),
{
    let mut i: usize = 0;
    while i < requested.len()
        invariant
            i <= requested@.len(),
            forall|j: int| 0 <= j < i ==> requested@[j] != f,
        decreases requested@.len() - i,
    {
        if requested[i] == f {
            return true;
        }
        i = i + 1;
    }
    false
}

/// The facts to collect for `requested`, whatever order they were asked in.
pub fn plan(requested: &Vec<Fact>) -> (r: Vec<Fact>)
    ensures
        r@ == plan_spec(requested@),
{
    let p = priority();
    let mut r: Vec<Fact> = Vec::new();
    let mut i: usize = 0;
    while i < p.len()
        invariant
            i <= p@.len(),
            p@ == priority_spec(),
            r@ == select(p@.take(i as int), requested@),
        decreases p@.len() - i,
    {
        assert(p@.take(i + 1).drop_last() == p@.take(i as int));
        if holds(requested, p[i]) {
            r.push(p[i]);
        }
        i = i + 1;
    }
    assert(p@.take(i as int) == p@);
    r
}

proof fn lemma_select_same_facts(p: Seq<Fact>, a: Seq<Fact>, b: Seq<Fact>)
    requires
        forall|f: Fact| a.contains(f) <==> b.contains(f),
    ensures
        select(p, a) == select(p, b),
    decreases p.len(),
{
    if p.len() > 0 {
        lemma_select_same_facts(p.drop_last(), a, b);
    }
}

/// The report's order does not depend on the order of the request: two
/// requests naming the same facts collect the same facts in the same order.
pub proof fn lemma_plan_ignores_request_order(a: Seq<Fact>, b: Seq<Fact>)
    requires
        forall|f: Fact| a.contains(f) <==> b.contains(f),
    ensures
        plan_spec(a) == plan_spec(b),
{
    lemma_select_same_facts(priority_spec(), a, b);
}

/// A character in ASCII capitals; other characters are kept.
pub open spec fn ascii_upper_char(c: char) -> char {
    if 'a' <= c && c <= 'z' {
        ((c as u32 - 32) as u8) as char
    } else {
        c
    }
}

pub open spec fn ascii_upper(s: Seq<char>) -> Seq<char> {
    s.map_values(|c: char| ascii_upper_char(c))
}

fn to_ascii_upper(s: &str) -> (r: Vec<char>)
    ensures
        r@ == ascii_upper(s@),
{
    let c = chars_of(s);
    let mut r: Vec<char> = Vec::new();
    let mut i: usize = 0;
    while i < c.len()
        invariant
            i <= c@.len(),
            c@ == s@,
            r@ == ascii_upper(c@.take(i as int)),
        decreases c@.len() - i,
    {
        let x = c[i];
        let u = if 'a' <= x && x <= 'z' { ((x as u32 - 32) as u8) as char } else { x };
        r.push(u);
        i = i + 1;
        assert(r@ =~= ascii_upper(c@.take(i as int)));
    }
    assert(c@.take(i as int) == c@);
    r
}

/// The label a fact is shown under; the package count names its package
/// manager in capitals.
pub open spec fn label_spec(f: Fact, manager: Seq<char>) -> Seq<char> {
    match f {
        Fact::User => "USER"@,
        Fact::Host => "HOST"@,
        Fact::Uptime => "UPTIME"@,
        Fact::Distro => "DISTRO"@,
        Fact::Kernel => "KERNEL"@,
        Fact::WindowManager => "WM/DE"@,
        Fact::Editor => "EDITOR"@,
        Fact::Shell => "SHELL"@,
        Fact::Cpu => "CPU"@,
        Fact::IpAddress => "IP ADDRESS"@,
        Fact::Packages => "PACKAGES ("@ + ascii_upper(manager) + ")"@,
        Fact::Music => "MUSIC (MPD)"@,
    }
}

/// The label `fact` is shown under, `manager` being the package manager asked for.
pub fn label(fact: Fact, manager: &str) -> (r: String)
    ensures
        r@ == label_spec(fact, manager@),
{
    match fact {
        Fact::User => string_of(&chars_of("USER")),
        Fact::Host => string_of(&chars_of("HOST")),
        Fact::Uptime => string_of(&chars_of("UPTIME")),
        Fact::Distro => string_of(&chars_of("DISTRO")),
        Fact::Kernel => string_of(&chars_of("KERNEL")),
        Fact::WindowManager => string_of(&chars_of("WM/DE")),
        Fact::Editor => string_of(&chars_of("EDITOR")),
        Fact::Shell => string_of(&chars_of("SHELL")),
        Fact::Cpu => string_of(&chars_of("CPU")),
        Fact::IpAddress => string_of(&chars_of("IP ADDRESS")),
        Fact::Packages => {
            let mut c = chars_of("PACKAGES (");
            append_chars(&mut c, &to_ascii_upper(manager));
            append_chars(&mut c, &chars_of(")"));
            string_of(&c)
        },
        Fact::Music => string_of(&chars_of("MUSIC (MPD)")),
    }
}

/// Whether the music source asked for is one the report can read.
pub fn music_selected(source: &str) -> (r: bool)
    ensures
        r == (source@ == "mpd"@),
{
    same_chars(&chars_of(source), &chars_of("mpd"))
}

// ---------------------------------------------------------------------------
// Assembling the entries

pub open spec fn outcome_views(outs: Seq<(Fact, Option<String>)>) -> Seq<(Fact, Option<Seq<char>>)> {
    outs.map_values(|o: (Fact, Option<String>)| (o.0, match o.1 {
        Some(v) => Some(v@),
        None => None,
    }))
}

/// The entries for the outcome of each provider, in order: a fact whose
/// provider failed (`None`) contributes nothing.
pub open spec fn entries_spec(outs: Seq<(Fact, Option<Seq<char>>)>, manager: Seq<char>) -> Seq<(Seq<char>, Seq<char>)>
    decreases outs.len(),
{
    if outs.len() == 0 {
        Seq::empty()
    } else {
        let prev = entries_spec(outs.drop_last(), manager);
        match outs.last().1 {
            Some(v) => prev.push((label_spec(outs.last().0, manager), v)),
            None => prev,
        }
    }
}

/// Adds to `helper` an entry for each fact whose provider succeeded, in the
/// order of `outcomes`, and skips those that failed.
pub fn record_all(helper: &mut OutputHelper, outcomes: &Vec<(Fact, Option<String>)>, manager: &str)
    ensures
        final(helper)@ == (old(helper)@.0, old(helper)@.1, old(helper)@.2 + entries_spec(
            outcome_views(outcomes@),
            manager@,
        )),
{
    let mut i: usize = 0;
    while i < outcomes.len()
        invariant
            i <= outcomes@.len(),
            helper@ == (old(helper)@.0, old(helper)@.1, old(helper)@.2 + entries_spec(
                outcome_views(outcomes@).take(i as int),
                manager@,
            )),
        decreases outcomes@.len() - i,
    {
        let ghost pre = outcome_views(outcomes@).take(i + 1);
        assert(pre.drop_last() == outcome_views(outcomes@).take(i as int));
        let ghost before = helper@.2;
        match &outcomes[i].1 {
            Some(v) => {
                let l = label(outcomes[i].0, manager);
                helper.add(l.as_str(), v.as_str());
                assert(before.push((l@, v@)) =~= old(helper)@.2 + entries_spec(pre, manager@));
            },
            None => {},
        }
        i = i + 1;
    }
    assert(outcome_views(outcomes@).take(i as int) == outcome_views(outcomes@));
}

/// A provider that fails contributes no entry and takes none away: the
/// entries are those the other providers give on their own.
pub proof fn lemma_failed_provider_omitted(outs: Seq<(Fact, Option<Seq<char>>)>, k: int, manager: Seq<char>)
    requires
        0 <= k < outs.len(),
        outs[k].1 is None,
    ensures
        entries_spec(outs, manager) == entries_spec(outs.remove(k), manager),
    decreases outs.len(),
{
    if k == outs.len() - 1 {
        assert(outs.remove(k) == outs.drop_last());
    } else {
        lemma_failed_provider_omitted(outs.drop_last(), k, manager);
        assert(outs.remove(k).drop_last() == outs.drop_last().remove(k));
        assert(outs.remove(k).last() == outs.last());
    }
}

/// The outcomes of a run over `planned`, when the provider of each fact `f`
/// gives `result(f)`.
pub open spec fn outcomes_for(planned: Seq<Fact>, result: spec_fn(Fact) -> Option<Seq<char>>) -> Seq<(Fact, Option<Seq<char>>)> {
    planned.map_values(|f: Fact| (f, result(f)))
}

/// Two requests naming the same facts, in whatever order, give the same
/// report entries, in the fixed order.
pub proof fn lemma_entries_ignore_request_order(
    a: Seq<Fact>,
    b: Seq<Fact>,
    result: spec_fn(Fact) -> Option<Seq<char>>,
    manager: Seq<char>,
)
    requires
        forall|f: Fact| a.contains(f) <==> b.contains(f),
    ensures
        entries_spec(outcomes_for(plan_spec(a), result), manager) == entries_spec(
            outcomes_for(plan_spec(b), result),
            manager,
        ),
{
    lemma_plan_ignores_request_order(a, b);
}

proof fn lemma_select_members(p: Seq<Fact>, requested: Seq<Fact>, f: Fact)
    ensures
        select(p, requested).contains(f) <==> (p.contains(f) && requested.contains(f)),
    decreases p.len(),
{
    if p.len() > 0 {
        lemma_select_members(p.drop_last(), requested, f);
        let q = select(p.drop_last(), requested);
        if requested.contains(p.last()) {
            if q.push(p.last()).contains(f) && f != p.last() {
                let i = choose|i: int| 0 <= i < q.push(p.last()).len() && q.push(p.last())[i] == f;
                assert(q[i] == f);
            }
            if q.contains(f) {
                let i = choose|i: int| 0 <= i < q.len() && q[i] == f;
                assert(q.push(p.last())[i] == f);
            }
            assert(q.push(p.last())[q.len() as int] == p.last());
        }
        if p.contains(f) && f != p.last() {
            let i = choose|i: int| 0 <= i < p.len() && p[i] == f;
            assert(p.drop_last()[i] == f);
        }
        if p.drop_last().contains(f) {
            let i = choose|i: int| 0 <= i < p.drop_last().len() && p.drop_last()[i] == f;
            assert(p[i] == f);
        }
        assert(p[p.len() - 1] == p.last());
    }
}

/// The plan holds exactly the facts that were requested.
pub proof fn lemma_plan_holds_requested(requested: Seq<Fact>, f: Fact)
    ensures
        plan_spec(requested).contains(f) <==> requested.contains(f),
{
    lemma_select_members(priority_spec(), requested, f);
    let p = priority_spec();
    let i: int = match f {
        Fact::User => 0,
        Fact::Host => 1,
        Fact::Uptime => 2,
        Fact::Distro => 3,
        Fact::Kernel => 4,
        Fact::WindowManager => 5,
        Fact::Editor => 6,
        Fact::Shell => 7,
        Fact::Cpu => 8,
        Fact::IpAddress => 9,
        Fact::Packages => 10,
        Fact::Music => 11,
    };
    assert(p[i] == f);
}

// ---------------------------------------------------------------------------
// The whole report

/// What a run prints: nothing when no fact and no logo was asked for;
/// otherwise a blank line first if the logo was asked for, then the
/// rendering, then a blank line.
pub open spec fn document_spec(
    view: (Seq<char>, crate::output::OutputOptions, Seq<(Seq<char>, Seq<char>)>),
    nothing_asked: bool,
    logo: bool,
) -> Seq<char> {
    if nothing_asked {
        Seq::empty()
    } else {
        (if logo { seq!['\n'] } else { Seq::empty() }) + render_spec(view.0, view.1, view.2) + seq!['\n']
    }
}

/// The text of a run that asked for `requested` and, if `logo`, the logo.
pub fn document(helper: &OutputHelper, requested: &Vec<Fact>, logo: bool) -> (r: String)
    ensures
        r@ == document_spec(helper@, requested@.len() == 0 && !logo, logo),
        requested@.len() == 0 && !logo ==> r@.len() == 0,
{
    let mut c: Vec<char> = Vec::new();
    if requested.len() == 0 && !logo {
        return string_of(&c);
    }
    if logo {
        c.push('\n');
    }
    append_chars(&mut c, &chars_of(helper.output().as_str()));
    c.push('\n');
    assert(c@ =~= document_spec(helper@, false, logo));
    string_of(&c)
}

/// The default logo: three lines of block capitals, each in bold.
pub open spec fn default_logo_spec() -> Seq<char> {
    bold_text(" \\    / /\\   |    |    |--- \\   /\n"@) + bold_text("  \\  / /__\\  |    |    |---  \\ /"@)
        + seq!['\n'] + bold_text("   \\/ /----\\ |___ |___ |---   |"@) + seq!['\n']
}

/// The logo shown when no logo file is given.
pub fn get_default_logo() -> (r: String)
    ensures
        r@ == default_logo_spec(),
{
    let mut c = chars_of(bold(" \\    / /\\   |    |    |--- \\   /\n").as_str());
    append_chars(&mut c, &chars_of(bold("  \\  / /__\\  |    |    |---  \\ /").as_str()));
    c.push('\n');
    append_chars(&mut c, &chars_of(bold("   \\/ /----\\ |___ |___ |---   |").as_str()));
    c.push('\n');
    assert(c@ =~= default_logo_spec());
    string_of(&c)
}

} // verus!

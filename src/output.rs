//! The report renderer: one ordered list of label/value entries, three styles.
use vstd::prelude::*;
use crate::text::{append_chars, chars_of, string_of};
use prettytable::format::{FormatBuilder, LinePosition, LineSeparator};

verus! {

/// How the report is laid out.
#[derive(PartialEq, Eq, Structural, Debug, Clone, Copy)]
pub enum OutputType {
    /// Values only, one per line.
    Minimal,
    /// The logo, then a framed table of labels and values.
    Bordered,
    /// The logo, then labels and values in aligned columns without a frame.
    Plain,
}

/// Formatting choices, fixed for one run.
#[derive(PartialEq, Eq, Structural, Debug, Clone, Copy)]
pub struct OutputOptions {
    pub output_type: OutputType,
    /// Keep labels in capitals; otherwise they are lowercased.
    pub caps: bool,
    /// Wrap labels in the terminal's bold escape.
    pub bold: bool,
    /// Put an `=` column between labels and values.
    pub use_borders: bool,
    /// The glyph at the frame's corners.
    pub borders: char,
}

/// One report entry: a label and its value.
pub struct KeyValue {
    pub key: String,
    pub val: String,
}

impl View for KeyValue {
    type V = (Seq<char>, Seq<char>);

    open spec fn view(&self) -> (Seq<char>, Seq<char>) {
        (self.key@, self.val@)
    }
}

pub open spec fn entry_views(data: Seq<KeyValue>) -> Seq<(Seq<char>, Seq<char>)> {
    data.map_values(|kv: KeyValue| kv@)
}

pub open spec fn row_views(rows: Seq<Vec<String>>) -> Seq<Seq<Seq<char>>> {
    rows.map_values(|r: Vec<String>| r@.map_values(|s: String| s@))
}

// ---------------------------------------------------------------------------
// Outside text functions

/// A name for what `str::to_lowercase` returns.
pub uninterp spec fn lower_of(s: Seq<char>) -> Seq<char>;

/// Relies on `str::to_lowercase`: the result depends on the characters alone.
#[verifier::external_body]
fn lowercase(s: &str) -> (r: String)
    ensures
        r@ == lower_of(s@),
{
    s.to_lowercase()
}

/// A name for what `str::to_uppercase` returns.
pub uninterp spec fn upper_of(s: Seq<char>) -> Seq<char>;

/// Relies on `str::to_uppercase`: the result depends on the characters alone.
#[verifier::external_body]
fn uppercase(s: &str) -> (r: String)
    ensures
        r@ == upper_of(s@),
{
    s.to_uppercase()
}

/// The parameters of a select-graphic-rendition escape: ASCII digits and `;`.
pub open spec fn sgr_params(s: Seq<char>, from: int, to: int) -> bool {
    forall|k: int| from <= k < to ==> ('0' <= #[trigger] s[k] && s[k] <= '9') || s[k] == ';'
}

/// The escape character at `i` opens a complete `ESC [ params m` sequence.
pub open spec fn closed_escape_at(s: Seq<char>, i: int) -> bool {
    exists|j: int|
        i + 2 <= j < s.len() && s[i + 1] == '[' && #[trigger] s[j] == 'm' && sgr_params(s, i + 2, j)
}

/// Every escape character of `s` opens a complete graphic-rendition
/// sequence; the width prettytable computes for a cell is defined only then.
pub open spec fn escapes_closed(s: Seq<char>) -> bool {
    forall|i: int| 0 <= i < s.len() && s[i] == '\x1b' ==> #[trigger] closed_escape_at(s, i)
}

/// Every cell of `rows` has only complete escapes.
pub open spec fn cells_closed(rows: Seq<Seq<Seq<char>>>) -> bool {
    forall|r: int, c: int| 0 <= r < rows.len() && 0 <= c < rows[r].len() ==> escapes_closed(#[trigger] rows[r][c])
}

/// A name for the text of a prettytable `Table` holding `rows`, with `rule`
/// lines above and below ending in `corner`, `border` on both sides,
/// `column` between cells and `pad` spaces around each cell.
pub uninterp spec fn framed_table_text(
    rows: Seq<Seq<Seq<char>>>,
    rule: char,
    corner: char,
    border: char,
    column: char,
    pad: nat,
) -> Seq<char>;

/// Relies on prettytable's `Table`: built from rows of cells, given a format
/// through `FormatBuilder`, and printed through its `Display`, which writes
/// to a string and reads nothing else. Measuring a cell asserts that its
/// escape sequences are complete, hence the precondition.
#[verifier::external_body]
fn framed_table(rows: &Vec<Vec<String>>, rule: char, corner: char, border: char, column: char, pad: usize) -> (r: String)
    requires
        cells_closed(row_views(rows@)),
    ensures
        r@ == framed_table_text(row_views(rows@), rule, corner, border, column, pad as nat),
{
    let mut table: prettytable::Table = rows.iter().collect();
    let format = FormatBuilder::new()
        .column_separator(column)
        .borders(border)
        .separators(&[LinePosition::Top, LinePosition::Bottom], LineSeparator::new(rule, rule, corner, corner))
        .padding(pad, pad)
        .build();
    table.set_format(format);
    table.to_string()
}

// ---------------------------------------------------------------------------
// What each style prints

pub const RULE: char = '─';
pub const BORDER: char = '│';
pub const COLUMN: char = ' ';
pub const PADDING: usize = 1;

/// `t` between the terminal's bold-on and reset escapes.
pub open spec fn bold_text(t: Seq<char>) -> Seq<char> {
    seq!['\x1b', '[', '1', 'm'] + t + seq!['\x1b', '[', '0', 'm']
}

/// `s` without escape characters.
pub open spec fn without_escapes(s: Seq<char>) -> Seq<char>
    decreases s.len(),
{
    if s.len() == 0 {
        s
    } else if s.last() == '\x1b' {
        without_escapes(s.drop_last())
    } else {
        without_escapes(s.drop_last()).push(s.last())
    }
}

/// A label as displayed: in capitals or lowercased, stripped of escape
/// characters, then bold if asked.
pub open spec fn label_text(key: Seq<char>, o: OutputOptions) -> Seq<char> {
    let k = without_escapes(if o.caps { upper_of(key) } else { lower_of(key) });
    if o.bold { bold_text(k) } else { k }
}

/// An entry's row in a table: label and value, with an `=` column between
/// them when borders are on. Escape characters in the entry are dropped, so
/// that only the renderer's own reach the terminal inside a table.
pub open spec fn row_spec(e: (Seq<char>, Seq<char>), o: OutputOptions) -> Seq<Seq<char>> {
    if o.use_borders {
        seq![label_text(e.0, o), seq!['='], without_escapes(e.1)]
    } else {
        seq![label_text(e.0, o), without_escapes(e.1)]
    }
}

proof fn lemma_without_escapes(s: Seq<char>)
    ensures
        forall|i: int| 0 <= i < without_escapes(s).len() ==> #[trigger] without_escapes(s)[i] != '\x1b',
    decreases s.len(),
{
    if s.len() > 0 {
        lemma_without_escapes(s.drop_last());
        let p = without_escapes(s.drop_last());
        if s.last() != '\x1b' {
            assert forall|i: int| 0 <= i < p.push(s.last()).len() implies #[trigger] p.push(s.last())[i] != '\x1b' by {
                if i < p.len() {
                    assert(p.push(s.last())[i] == p[i]);
                }
            }
        }
    }
}

proof fn lemma_plain_closed(t: Seq<char>)
    requires
        forall|i: int| 0 <= i < t.len() ==> #[trigger] t[i] != '\x1b',
    ensures
        escapes_closed(t),
{
}

proof fn lemma_bold_closed(t: Seq<char>)
    requires
        forall|i: int| 0 <= i < t.len() ==> #[trigger] t[i] != '\x1b',
    ensures
        escapes_closed(bold_text(t)),
{
    let b = bold_text(t);
    let n = t.len();
    assert forall|i: int| 0 <= i < b.len() && b[i] == '\x1b' implies #[trigger] closed_escape_at(b, i) by {
        if 4 <= i < 4 + n {
            assert(b[i] == t[i - 4]);
        } else if i < 4 {
            assert(i == 0);
            assert(b[3] == 'm' && sgr_params(b, 2, 3));
        } else {
            assert(i == 4 + n);
            assert(b[i + 3] == 'm' && sgr_params(b, i + 2, i + 3));
        }
    }
}

proof fn lemma_rows_closed(es: Seq<(Seq<char>, Seq<char>)>, o: OutputOptions)
    ensures
        cells_closed(rows_spec(es, o)),
{
    let rs = rows_spec(es, o);
    assert forall|r: int, c: int| 0 <= r < rs.len() && 0 <= c < rs[r].len() implies escapes_closed(#[trigger] rs[r][c]) by {
        let e = es[r];
        let k = without_escapes(if o.caps { upper_of(e.0) } else { lower_of(e.0) });
        lemma_without_escapes(if o.caps { upper_of(e.0) } else { lower_of(e.0) });
        lemma_without_escapes(e.1);
        lemma_plain_closed(without_escapes(e.1));
        lemma_plain_closed(k);
        lemma_plain_closed(seq!['=']);
        if o.bold {
            lemma_bold_closed(k);
        }
    }
}

pub open spec fn rows_spec(es: Seq<(Seq<char>, Seq<char>)>, o: OutputOptions) -> Seq<Seq<Seq<char>>> {
    es.map_values(|e: (Seq<char>, Seq<char>)| row_spec(e, o))
}

/// Minimal style: each value on a line of its own, in order.
pub open spec fn minimal_text(es: Seq<(Seq<char>, Seq<char>)>) -> Seq<char>
    decreases es.len(),
{
    if es.len() == 0 {
        Seq::empty()
    } else {
        minimal_text(es.drop_last()) + es.last().1 + seq!['\n']
    }
}

/// The logo in bold on its own line, or nothing when there is none.
pub open spec fn logo_text(ascii: Seq<char>) -> Seq<char> {
    if ascii.len() == 0 {
        Seq::empty()
    } else {
        bold_text(ascii) + seq!['\n']
    }
}

pub open spec fn first_width(r: Seq<Seq<char>>) -> nat {
    if r.len() > 0 { r[0].len() } else { 0 }
}

/// The widest first cell among `rows`.
pub open spec fn label_width(rows: Seq<Seq<Seq<char>>>) -> nat
    decreases rows.len(),
{
    if rows.len() == 0 {
        0
    } else {
        let w = label_width(rows.drop_last());
        if first_width(rows.last()) > w { first_width(rows.last()) } else { w }
    }
}

pub open spec fn spaces(n: nat) -> Seq<char> {
    Seq::new(n, |i: int| ' ')
}

/// The cells of `cs`, each after one space.
pub open spec fn cells_after(cs: Seq<Seq<char>>) -> Seq<char>
    decreases cs.len(),
{
    if cs.len() == 0 {
        Seq::empty()
    } else {
        cells_after(cs.drop_last()) + seq![' '] + cs.last()
    }
}

/// A plain row: its first cell padded to `w`, then the other cells.
pub open spec fn plain_line(r: Seq<Seq<char>>, w: nat) -> Seq<char> {
    if r.len() == 0 {
        spaces(w) + seq!['\n']
    } else {
        r[0] + spaces((w - r[0].len()) as nat) + cells_after(r.drop_first()) + seq!['\n']
    }
}

pub open spec fn plain_lines(rows: Seq<Seq<Seq<char>>>, w: nat) -> Seq<char>
    decreases rows.len(),
{
    if rows.len() == 0 {
        Seq::empty()
    } else {
        plain_lines(rows.drop_last(), w) + plain_line(rows.last(), w)
    }
}

/// Plain style: rows in columns aligned on the widest label.
pub open spec fn plain_text(rows: Seq<Seq<Seq<char>>>) -> Seq<char> {
    plain_lines(rows, label_width(rows))
}

/// The whole rendering of `es` under `o`, with the logo `ascii`.
pub open spec fn render_spec(ascii: Seq<char>, o: OutputOptions, es: Seq<(Seq<char>, Seq<char>)>) -> Seq<char> {
    match o.output_type {
        OutputType::Minimal => minimal_text(es),
        OutputType::Bordered => logo_text(ascii) + framed_table_text(
            rows_spec(es, o),
            RULE,
            o.borders,
            BORDER,
            COLUMN,
            PADDING as nat,
        ),
        OutputType::Plain => logo_text(ascii) + plain_text(rows_spec(es, o)),
    }
}

// ---------------------------------------------------------------------------
// Executable rendering

/// `text` in the terminal's bold escapes.
pub fn bold(text: &str) -> (r: String)
    ensures
        r@ == bold_text(text@),
{
    let mut c: Vec<char> = vec!['\x1b', '[', '1', 'm'];
    append_chars(&mut c, &chars_of(text));
    append_chars(&mut c, &vec!['\x1b', '[', '0', 'm']);
    assert(c@ =~= bold_text(text@));
    string_of(&c)
}

fn strip_escapes(s: &Vec<char>) -> (r: Vec<char>)
    ensures
        r@ == without_escapes(s@),
{
    let mut r: Vec<char> = Vec::new();
    let mut i: usize = 0;
    while i < s.len()
        invariant
            i <= s@.len(),
            r@ == without_escapes(s@.take(i as int)),
        decreases s@.len() - i,
    {
        assert(s@.take(i + 1).drop_last() == s@.take(i as int));
        if s[i] != '\x1b' {
            r.push(s[i]);
        }
        i = i + 1;
    }
    assert(s@.take(i as int) == s@);
    r
}

fn label(key: &String, o: &OutputOptions) -> (r: String)
    ensures
        r@ == label_text(key@, *o),
{
    let k = if o.caps { uppercase(key.as_str()) } else { lowercase(key.as_str()) };
    let clean = string_of(&strip_escapes(&chars_of(k.as_str())));
    if o.bold { bold(clean.as_str()) } else { clean }
}

fn row(kv: &KeyValue, o: &OutputOptions) -> (r: Vec<String>)
    ensures
        r@.map_values(|s: String| s@) == row_spec(kv@, *o),
{
    let l = label(&kv.key, o);
    let mut r: Vec<String> = Vec::new();
    r.push(l);
    if o.use_borders {
        let eq = vec!['='];
        assert(eq@ =~= seq!['=']);
        r.push(string_of(&eq));
    }
    r.push(string_of(&strip_escapes(&chars_of(kv.val.as_str()))));
    assert(r@.map_values(|s: String| s@) =~= row_spec(kv@, *o));
    r
}

fn rows(data: &Vec<KeyValue>, o: &OutputOptions) -> (r: Vec<Vec<String>>)
    ensures
        row_views(r@) == rows_spec(entry_views(data@), *o),
{
    let mut r: Vec<Vec<String>> = Vec::new();
    let mut i: usize = 0;
    while i < data.len()
        invariant
            i <= data@.len(),
            row_views(r@) == rows_spec(entry_views(data@.take(i as int)), *o),
        decreases data@.len() - i,
    {
        let ghost before = r@;
        let x = row(&data[i], o);
        r.push(x);
        proof {
            let ii = i as int;
            assert(row_views(r@) =~= row_views(before).push(row_spec(data@[ii]@, *o)));
            assert(entry_views(data@.take(ii + 1)) =~= entry_views(data@.take(ii)).push(data@[ii]@));
            assert(rows_spec(entry_views(data@.take(ii + 1)), *o) =~= rows_spec(
                entry_views(data@.take(ii)),
                *o,
            ).push(row_spec(data@[ii]@, *o)));
        }
        i = i + 1;
    }
    assert(data@.take(i as int) == data@);
    r
}

fn minimal(data: &Vec<KeyValue>) -> (r: Vec<char>)
    ensures
        r@ == minimal_text(entry_views(data@)),
{
    let mut r: Vec<char> = Vec::new();
    let mut i: usize = 0;
    while i < data.len()
        invariant
            i <= data@.len(),
            r@ == minimal_text(entry_views(data@.take(i as int))),
        decreases data@.len() - i,
    {
        let ghost es = entry_views(data@.take(i + 1));
        assert(es.drop_last() == entry_views(data@.take(i as int)));
        assert(es.last() == data@[i as int]@);
        append_chars(&mut r, &chars_of(data[i].val.as_str()));
        r.push('\n');
        i = i + 1;
    }
    assert(data@.take(i as int) == data@);
    r
}

fn logo(ascii: &String) -> (r: Vec<char>)
    ensures
        r@ == logo_text(ascii@),
{
    let mut r: Vec<char> = Vec::new();
    let c = chars_of(ascii.as_str());
    if c.len() > 0 {
        append_chars(&mut r, &chars_of(bold(ascii.as_str()).as_str()));
        r.push('\n');
    }
    r
}

proof fn lemma_label_width_bounds(rows: Seq<Seq<Seq<char>>>, k: int)
    requires
        0 <= k < rows.len(),
    ensures
        first_width(rows[k]) <= label_width(rows),
    decreases rows.len(),
{
    if k < rows.len() - 1 {
        assert(rows.drop_last()[k] == rows[k]);
        lemma_label_width_bounds(rows.drop_last(), k);
    }
}

fn push_spaces(out: &mut Vec<char>, n: usize)
    ensures
        final(out)@ == old(out)@ + spaces(n as nat),
{
    let mut k: usize = 0;
    while k < n
        invariant
            k <= n,
            out@ == old(out)@ + spaces(k as nat),
        decreases n - k,
    {
        out.push(' ');
        k = k + 1;
        assert(out@ =~= old(out)@ + spaces(k as nat));
    }
}

fn width(rows: &Vec<Vec<String>>) -> (w: usize)
    ensures
        w as nat == label_width(row_views(rows@)),
{
    let mut w: usize = 0;
    let mut i: usize = 0;
    while i < rows.len()
        invariant
            i <= rows@.len(),
            w as nat == label_width(row_views(rows@).take(i as int)),
        decreases rows@.len() - i,
    {
        let ghost pre = row_views(rows@).take(i + 1);
        assert(pre.drop_last() == row_views(rows@).take(i as int));
        assert(pre.last() == rows@[i as int]@.map_values(|s: String| s@));
        if rows[i].len() > 0 {
            let n = chars_of(rows[i][0].as_str()).len();
            if n > w {
                w = n;
            }
        }
        i = i + 1;
    }
    assert(row_views(rows@).take(i as int) == row_views(rows@));
    w
}

fn plain_row(r: &Vec<String>, w: usize) -> (out: Vec<char>)
    requires
        first_width(r@.map_values(|s: String| s@)) <= w,
    ensures
        out@ == plain_line(r@.map_values(|s: String| s@), w as nat),
{
    let ghost rv = r@.map_values(|s: String| s@);
    let mut out: Vec<char> = Vec::new();
    if r.len() == 0 {
        push_spaces(&mut out, w);
        out.push('\n');
        assert(out@ =~= plain_line(rv, w as nat));
        return out;
    }
    let first = chars_of(r[0].as_str());
    append_chars(&mut out, &first);
    push_spaces(&mut out, w - first.len());
    let mut j: usize = 1;
    while j < r.len()
        invariant
            1 <= j <= r@.len(),
            rv == r@.map_values(|s: String| s@),
            out@ == rv[0] + spaces((w - rv[0].len()) as nat) + cells_after(rv.drop_first().take(j - 1)),
        decreases r@.len() - j,
    {
        let ghost pre = rv.drop_first().take(j as int);
        assert(pre.drop_last() == rv.drop_first().take(j - 1));
        assert(pre.last() == r@[j as int]@);
        out.push(' ');
        append_chars(&mut out, &chars_of(r[j].as_str()));
        j = j + 1;
        assert(out@ =~= rv[0] + spaces((w - rv[0].len()) as nat) + cells_after(rv.drop_first().take(j - 1)));
    }
    assert(rv.drop_first().take(j - 1) == rv.drop_first());
    out.push('\n');
    assert(out@ =~= plain_line(rv, w as nat));
    out
}

fn plain(rows: &Vec<Vec<String>>) -> (out: Vec<char>)
    ensures
        out@ == plain_text(row_views(rows@)),
{
    let w = width(rows);
    let ghost rv = row_views(rows@);
    let mut out: Vec<char> = Vec::new();
    let mut i: usize = 0;
    while i < rows.len()
        invariant
            i <= rows@.len(),
            rv == row_views(rows@),
            w as nat == label_width(rv),
            out@ == plain_lines(rv.take(i as int), w as nat),
        decreases rows@.len() - i,
    {
        let ghost pre = rv.take(i + 1);
        assert(pre.drop_last() == rv.take(i as int));
        assert(pre.last() == rv[i as int]);
        assert(rv[i as int] == rows@[i as int]@.map_values(|s: String| s@));
        proof {
            lemma_label_width_bounds(rv, i as int);
        }
        let line = plain_row(&rows[i], w);
        append_chars(&mut out, &line);
        i = i + 1;
    }
    assert(rv.take(i as int) == rv);
    out
}

/// Collects the report entries and renders them once all are in.
pub struct OutputHelper {
    ascii: String,
    options: OutputOptions,
    data: Vec<KeyValue>,
}

impl View for OutputHelper {
    /// The logo, the options, and the entries in insertion order.
    type V = (Seq<char>, OutputOptions, Seq<(Seq<char>, Seq<char>)>);

    closed spec fn view(&self) -> Self::V {
        (self.ascii@, self.options, entry_views(self.data@))
    }
}

impl OutputHelper {
    /// An empty report under `options`, with no logo.
    pub fn new(options: OutputOptions) -> (r: OutputHelper)
        ensures
            r@ == (Seq::<char>::empty(), options, Seq::<(Seq<char>, Seq<char>)>::empty()),
    {
        let r = OutputHelper { ascii: String::new(), options, data: Vec::new() };
        assert(entry_views(r.data@) =~= Seq::<(Seq<char>, Seq<char>)>::empty());
        r
    }

    /// Appends the entry `key`/`val` after those already added.
    pub fn add(&mut self, key: &str, val: &str)
        ensures
            final(self)@ == (old(self)@.0, old(self)@.1, old(self)@.2.push((key@, val@))),
    {
        let item = KeyValue { key: string_of(&chars_of(key)), val: string_of(&chars_of(val)) };
        let ghost before = self.data@;
        self.data.push(item);
        assert(entry_views(self.data@) =~= entry_views(before).push((key@, val@)));
    }

    /// Sets the logo printed above the table.
    pub fn ascii(&mut self, ascii: String)
        ensures
            final(self)@ == (ascii@, old(self)@.1, old(self)@.2),
    {
        self.ascii = ascii;
    }

    /// The report as text, in the style its options name.
    pub fn output(&self) -> (r: String)
        ensures
            r@ == render_spec(self@.0, self@.1, self@.2),
    {
        match self.options.output_type {
            OutputType::Minimal => string_of(&minimal(&self.data)),
            OutputType::Bordered => {
                let mut out = logo(&self.ascii);
                proof {
                    lemma_rows_closed(entry_views(self.data@), self.options);
                }
                let table = framed_table(
                    &rows(&self.data, &self.options),
                    RULE,
                    self.options.borders,
                    BORDER,
                    COLUMN,
                    PADDING,
                );
                append_chars(&mut out, &chars_of(table.as_str()));
                string_of(&out)
            },
            OutputType::Plain => {
                let mut out = logo(&self.ascii);
                append_chars(&mut out, &plain(&rows(&self.data, &self.options)));
                string_of(&out)
            },
        }
    }
}

/// Rendering reads nothing but the logo, the options and the entries: two
/// reports that agree on them print the same text, and printing one twice
/// gives the same text twice.
pub proof fn lemma_render_deterministic(a: OutputHelper, b: OutputHelper)
    requires
        a@ == b@,
    ensures
        render_spec(a@.0, a@.1, a@.2) == render_spec(b@.0, b@.1, b@.2),
{
}

} // verus!

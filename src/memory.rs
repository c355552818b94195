//! Memory accounting: one derivation of "used" and "total" per platform.
//!
//! Amounts are held in bytes. The NetBSD reading mirrors its sources as
//! they are combined: the raw physical byte count and the kilobyte free
//! count are subtracted unconverted and the difference is taken as mebibytes.
use vstd::prelude::*;
use crate::error::ProviderError;
use crate::text::{
    append_chars, chars_of, lines_of, decimal, decimal_spec, digit, digit_char, lemma_split_nonempty, parse_u64,
    parse_u64_spec, same_chars, split, split_spec, string_of, trim, trim_of, views, words,
    words_spec,
};

verus! {

pub const KIB: i128 = 1024;
pub const MIB: i128 = 1048576;
pub const GIB: i128 = 1073741824;

/// The largest magnitude any platform derivation can produce, with room to spare.
pub const BOUND: i128 = 0x4_0000_0000_0000_0000_0000_0000;

/// The operating-system variant that decides the memory formula.
#[derive(PartialEq, Eq, Structural, Debug, Clone, Copy)]
pub enum Platform {
    Linux,
    OpenBSD,
    FreeBSD,
    DragonflyBSD,
    NetBSD,
    Unknown,
}

/// The raw text a platform's memory derivation reads; a caller fills in
/// the sources its platform uses and leaves the rest empty.
pub struct RawMemory {
    /// A colon-delimited key/value block in kilobytes (`/proc/meminfo`).
    pub meminfo: String,
    /// The physical memory size in bytes (`hw.physmem` or `hw.physmem64`).
    pub physmem: String,
    /// A virtual-memory status report (OpenBSD's `vmstat`).
    pub vmstat: String,
    /// Page size, then the inactive, free and cache page counts, one per line.
    pub page_counts: String,
}

// ---------------------------------------------------------------------------
// Reading the raw text

/// `t` without a trailing `kB` unit.
pub open spec fn strip_kb(t: Seq<char>) -> Seq<char> {
    if t.len() >= 2 && t[t.len() - 2] == 'k' && t[t.len() - 1] == 'B' {
        t.take(t.len() - 2)
    } else {
        t
    }
}

/// The number text of a meminfo value such as ` 16384000 kB`.
pub open spec fn kib_text(v: Seq<char>) -> Seq<char> {
    trim_of(strip_kb(trim_of(v)))
}

/// A meminfo counter: the value of the last line whose trimmed key is
/// `key`, zero when no line has it, and a parse failure when any line with
/// that key holds a value that is not a number.
pub open spec fn meminfo_counter(lines: Seq<Seq<char>>, key: Seq<char>) -> Result<u64, ProviderError>
    decreases lines.len(),
{
    if lines.len() == 0 {
        Ok(0)
    } else {
        let prev = meminfo_counter(lines.drop_last(), key);
        let parts = split_spec(lines.last(), ':');
        if parts.len() > 1 && trim_of(parts[0]) == key {
            match parse_u64_spec(kib_text(parts[1])) {
                Some(n) => if prev is Err { prev } else { Ok(n) },
                None => Err(ProviderError::ParseFailure),
            }
        } else {
            prev
        }
    }
}

/// A scalar byte count printed by a system query.
pub open spec fn scalar_spec(s: Seq<char>) -> Result<u64, ProviderError> {
    match parse_u64_spec(trim_of(s)) {
        Some(n) => Ok(n),
        None => Err(ProviderError::ParseFailure),
    }
}

// ---------------------------------------------------------------------------
// The formulas, in each platform's own units

/// Linux, in kilobytes: `MemTotal + Shmem - SReclaimable - Buffers - Cached - MemFree`.
pub open spec fn linux_used(total: int, free: int, buffers: int, cached: int, shmem: int, reclaimable: int) -> int {
    total + shmem - reclaimable - buffers - cached - free
}

/// FreeBSD and DragonFly, in bytes: total less the inactive, free and cached pages.
pub open spec fn bsd_used(total: int, page_size: int, inactive: int, free: int, cache: int) -> int {
    total - (inactive + free + cache) * page_size
}

/// NetBSD: the physical byte count less the kilobyte free count, unconverted.
pub open spec fn netbsd_used(total: int, free: int) -> int {
    total - free
}

// ---------------------------------------------------------------------------
// Each platform's derivation, as `(used, total)` in bytes

pub open spec fn linux_snapshot(meminfo: Seq<char>) -> Result<(int, int), ProviderError> {
    let lines = lines_of(meminfo);
    let total = meminfo_counter(lines, "MemTotal"@);
    let free = meminfo_counter(lines, "MemFree"@);
    let buffers = meminfo_counter(lines, "Buffers"@);
    let cached = meminfo_counter(lines, "Cached"@);
    let shmem = meminfo_counter(lines, "Shmem"@);
    let reclaimable = meminfo_counter(lines, "SReclaimable"@);
    if total is Ok && free is Ok && buffers is Ok && cached is Ok && shmem is Ok && reclaimable is Ok {
        let t = total->Ok_0 as int;
        Ok((
            linux_used(t, free->Ok_0 as int, buffers->Ok_0 as int, cached->Ok_0 as int,
                shmem->Ok_0 as int, reclaimable->Ok_0 as int) * KIB,
            t * KIB,
        ))
    } else {
        Err(ProviderError::ParseFailure)
    }
}

/// The third word of the last line of a `vmstat` report.
pub open spec fn vmstat_used(vmstat: Seq<char>) -> Result<u64, ProviderError> {
    let lines = lines_of(trim_of(vmstat));
    let words = words_spec(lines.last());
    if words.len() < 3 {
        Err(ProviderError::ParseFailure)
    } else {
        match parse_u64_spec(words[2]) {
            Some(n) => Ok(n),
            None => Err(ProviderError::ParseFailure),
        }
    }
}

pub open spec fn openbsd_snapshot(physmem: Seq<char>, vmstat: Seq<char>) -> Result<(int, int), ProviderError> {
    match (scalar_spec(physmem), vmstat_used(vmstat)) {
        (Ok(t), Ok(u)) => Ok((u as int, t as int)),
        _ => Err(ProviderError::ParseFailure),
    }
}

/// The four numbers of a page-count report: page size, inactive, free, cache.
pub open spec fn page_counts_spec(counts: Seq<char>) -> Option<(u64, u64, u64, u64)> {
    let lines = lines_of(counts);
    if lines.len() < 4 {
        None
    } else {
        match (
            parse_u64_spec(trim_of(lines[0])),
            parse_u64_spec(trim_of(lines[1])),
            parse_u64_spec(trim_of(lines[2])),
            parse_u64_spec(trim_of(lines[3])),
        ) {
            (Some(p), Some(i), Some(f), Some(c)) => Some((p, i, f, c)),
            _ => None,
        }
    }
}

/// FreeBSD and DragonFly; the bytes held by the counted pages must fit in 64 bits.
pub open spec fn bsd_snapshot(physmem: Seq<char>, counts: Seq<char>) -> Result<(int, int), ProviderError> {
    match (scalar_spec(physmem), page_counts_spec(counts)) {
        (Ok(t), Some((p, i, f, c))) => {
            if (i + f + c) * p > u64::MAX {
                Err(ProviderError::ParseFailure)
            } else {
                Ok((bsd_used(t as int, p as int, i as int, f as int, c as int), t as int))
            }
        },
        _ => Err(ProviderError::ParseFailure),
    }
}

pub open spec fn netbsd_snapshot(physmem: Seq<char>, meminfo: Seq<char>) -> Result<(int, int), ProviderError> {
    match (scalar_spec(physmem), meminfo_counter(lines_of(meminfo), "MemFree"@)) {
        (Ok(t), Ok(f)) => Ok((netbsd_used(t as int, f as int) * MIB, t as int * MIB)),
        _ => Err(ProviderError::ParseFailure),
    }
}

/// What acquisition yields on `platform`; `None` where the platform is not
/// recognized and nothing is read.
pub open spec fn snapshot_spec(platform: Platform, raw: RawMemory) -> Option<Result<(int, int), ProviderError>> {
    match platform {
        Platform::Linux => Some(linux_snapshot(raw.meminfo@)),
        Platform::OpenBSD => Some(openbsd_snapshot(raw.physmem@, raw.vmstat@)),
        Platform::FreeBSD | Platform::DragonflyBSD => Some(bsd_snapshot(raw.physmem@, raw.page_counts@)),
        Platform::NetBSD => Some(netbsd_snapshot(raw.physmem@, raw.meminfo@)),
        Platform::Unknown => None,
    }
}

/// Whether an executable reading agrees with its derivation.
pub open spec fn agrees(r: Result<(i128, i128), ProviderError>, s: Result<(int, int), ProviderError>) -> bool {
    match (r, s) {
        (Ok((u, t)), Ok((su, st))) => u as int == su && t as int == st,
        (Err(e), Err(se)) => e == se,
        _ => false,
    }
}

fn parse_kib(v: &Vec<char>) -> (r: Option<u64>)
    ensures
        r == parse_u64_spec(kib_text(v@)),
{
    let mut t = trim(v);
    let n = t.len();
    if n >= 2 && t[n - 2] == 'k' && t[n - 1] == 'B' {
        t.truncate(n - 2);
    }
    assert(t@ == strip_kb(trim_of(v@)));
    let u = trim(&t);
    parse_u64(&u)
}

fn meminfo_counter_of(lines: &Vec<Vec<char>>, key: &str) -> (r: Result<u64, ProviderError>)
    ensures
        r == meminfo_counter(views(lines@), key@),
        r is Err ==> r == Err::<u64, ProviderError>(ProviderError::ParseFailure),
{
    let key_chars = chars_of(key);
    let mut acc: Result<u64, ProviderError> = Ok(0);
    let mut i: usize = 0;
    while i < lines.len()
        invariant
            i <= lines@.len(),
            key_chars@ == key@,
            acc == meminfo_counter(views(lines@).take(i as int), key@),
            acc is Err ==> acc == Err::<u64, ProviderError>(ProviderError::ParseFailure),
        decreases lines@.len() - i,
    {
        let ghost pre = views(lines@).take(i + 1);
        assert(pre.drop_last() == views(lines@).take(i as int));
        assert(pre.last() == lines@[i as int]@);
        let parts = split(&lines[i], ':');
        if parts.len() > 1 && same_chars(&trim(&parts[0]), &key_chars) {
            match parse_kib(&parts[1]) {
                Some(n) => if let Ok(_) = acc {
                    acc = Ok(n);
                },
                None => acc = Err(ProviderError::ParseFailure),
            }
        }
        i = i + 1;
    }
    assert(views(lines@).take(i as int) == views(lines@));
    acc
}

fn scalar(s: &String) -> (r: Result<u64, ProviderError>)
    ensures
        r == scalar_spec(s@),
{
    let c = chars_of(s.as_str());
    let t = trim(&c);
    match parse_u64(&t) {
        Some(n) => Ok(n),
        None => Err(ProviderError::ParseFailure),
    }
}

fn linux_reading(meminfo: &String) -> (r: Result<(i128, i128), ProviderError>)
    ensures
        agrees(r, linux_snapshot(meminfo@)),
{
    let c = chars_of(meminfo.as_str());
    let lines = split(&c, '\n');
    let total = match meminfo_counter_of(&lines, "MemTotal") {
        Ok(n) => n,
        Err(e) => return Err(e),
    };
    let free = match meminfo_counter_of(&lines, "MemFree") {
        Ok(n) => n,
        Err(e) => return Err(e),
    };
    let buffers = match meminfo_counter_of(&lines, "Buffers") {
        Ok(n) => n,
        Err(e) => return Err(e),
    };
    let cached = match meminfo_counter_of(&lines, "Cached") {
        Ok(n) => n,
        Err(e) => return Err(e),
    };
    let shmem = match meminfo_counter_of(&lines, "Shmem") {
        Ok(n) => n,
        Err(e) => return Err(e),
    };
    let reclaimable = match meminfo_counter_of(&lines, "SReclaimable") {
        Ok(n) => n,
        Err(e) => return Err(e),
    };
    let used: i128 = total as i128 + shmem as i128 - reclaimable as i128 - buffers as i128
        - cached as i128 - free as i128;
    Ok((used * KIB, total as i128 * KIB))
}

fn vmstat_reading(vmstat: &String) -> (r: Result<u64, ProviderError>)
    ensures
        r == vmstat_used(vmstat@),
{
    let c = chars_of(vmstat.as_str());
    let t = trim(&c);
    let lines = split(&t, '\n');
    proof {
        lemma_split_nonempty(t@, '\n');
    }
    let ws = words(&lines[lines.len() - 1]);
    if ws.len() < 3 {
        return Err(ProviderError::ParseFailure);
    }
    match parse_u64(&ws[2]) {
        Some(n) => Ok(n),
        None => Err(ProviderError::ParseFailure),
    }
}

fn openbsd_reading(physmem: &String, vmstat: &String) -> (r: Result<(i128, i128), ProviderError>)
    ensures
        agrees(r, openbsd_snapshot(physmem@, vmstat@)),
{
    let total = scalar(physmem);
    let used = vmstat_reading(vmstat);
    match (total, used) {
        (Ok(t), Ok(u)) => Ok((u as i128, t as i128)),
        _ => Err(ProviderError::ParseFailure),
    }
}

fn page_counts(counts: &String) -> (r: Option<(u64, u64, u64, u64)>)
    ensures
        r == page_counts_spec(counts@),
{
    let c = chars_of(counts.as_str());
    let lines = split(&c, '\n');
    if lines.len() < 4 {
        return None;
    }
    let p = parse_u64(&trim(&lines[0]));
    let i = parse_u64(&trim(&lines[1]));
    let f = parse_u64(&trim(&lines[2]));
    let k = parse_u64(&trim(&lines[3]));
    match (p, i, f, k) {
        (Some(p), Some(i), Some(f), Some(k)) => Some((p, i, f, k)),
        _ => None,
    }
}

fn bsd_reading(physmem: &String, counts: &String) -> (r: Result<(i128, i128), ProviderError>)
    ensures
        agrees(r, bsd_snapshot(physmem@, counts@)),
{
    let total = scalar(physmem);
    let pages = page_counts(counts);
    match (total, pages) {
        (Ok(t), Some((p, i, f, c))) => {
            let sum: u128 = i as u128 + f as u128 + c as u128;
            if p != 0 && sum > (u64::MAX as u128) / (p as u128) {
                assert(sum * p > u64::MAX) by (nonlinear_arith)
                    requires
                        p > 0,
                        sum > (u64::MAX as u128) / (p as u128),
                ;
                return Err(ProviderError::ParseFailure);
            }
            assert(sum * p <= u64::MAX) by (nonlinear_arith)
                requires
                    p == 0 || sum <= (u64::MAX as u128) / (p as u128),
            ;
            let held: u128 = sum * (p as u128);
            Ok((t as i128 - held as i128, t as i128))
        },
        _ => Err(ProviderError::ParseFailure),
    }
}

fn netbsd_reading(physmem: &String, meminfo: &String) -> (r: Result<(i128, i128), ProviderError>)
    ensures
        agrees(r, netbsd_snapshot(physmem@, meminfo@)),
{
    let total = scalar(physmem);
    let c = chars_of(meminfo.as_str());
    let lines = split(&c, '\n');
    let free = meminfo_counter_of(&lines, "MemFree");
    match (total, free) {
        (Ok(t), Ok(f)) => Ok(((t as i128 - f as i128) * MIB, t as i128 * MIB)),
        _ => Err(ProviderError::ParseFailure),
    }
}

// ---------------------------------------------------------------------------
// Display

pub open spec fn two_digits(n: nat) -> Seq<char> {
    seq![digit_char(n / 10), digit_char(n % 10)]
}

/// A byte amount for display: whole mebibytes below one gibibyte, else
/// gibibytes with two decimals; both rounded half up.
pub open spec fn size_text(b: int) -> Seq<char> {
    if b < 0 {
        seq!['-'] + decimal_spec(((-b + MIB as int / 2) / MIB as int) as nat) + "MiB"@
    } else if b < GIB as int {
        decimal_spec(((b + MIB as int / 2) / MIB as int) as nat) + "MiB"@
    } else {
        let h = (b * 100 + GIB as int / 2) / GIB as int;
        decimal_spec((h / 100) as nat) + seq!['.'] + two_digits((h % 100) as nat) + "GiB"@
    }
}

/// One side of the display: the amount, or `?` when it is unknown.
pub open spec fn amount_text(o: Option<int>) -> Seq<char> {
    match o {
        Some(b) => size_text(b),
        None => seq!['?'],
    }
}

/// The display of a memory reading: `used / total`.
pub open spec fn ram_text(used: Option<int>, total: Option<int>) -> Seq<char> {
    amount_text(used) + seq![' ', '/', ' '] + amount_text(total)
}

fn size_chars(b: i128) -> (r: Vec<char>)
    requires
        -BOUND <= b <= BOUND,
    ensures
        r@ == size_text(b as int),
{
    let mut r: Vec<char> = Vec::new();
    if b < 0 {
        r.push('-');
        let m = (-b + MIB / 2) / MIB;
        append_chars(&mut r, &decimal(m as u128));
        append_chars(&mut r, &chars_of("MiB"));
    } else if b < GIB {
        let m = (b + MIB / 2) / MIB;
        append_chars(&mut r, &decimal(m as u128));
        append_chars(&mut r, &chars_of("MiB"));
    } else {
        let h = (b * 100 + GIB / 2) / GIB;
        append_chars(&mut r, &decimal((h / 100) as u128));
        r.push('.');
        let d = (h % 100) as u128;
        r.push(digit(d / 10));
        r.push(digit(d % 10));
        append_chars(&mut r, &chars_of("GiB"));
        assert(r@ =~= size_text(b as int));
    }
    r
}

fn amount_chars(o: Option<i128>) -> (r: Vec<char>)
    requires
        in_bound(o),
    ensures
        r@ == amount_text(opt_int(o)),
{
    match o {
        Some(b) => size_chars(b),
        None => vec!['?'],
    }
}

pub open spec fn opt_int(o: Option<i128>) -> Option<int> {
    match o {
        Some(v) => Some(v as int),
        None => None,
    }
}

pub open spec fn in_bound(o: Option<i128>) -> bool {
    match o {
        Some(v) => -BOUND <= v <= BOUND,
        None => true,
    }
}

/// Memory in use and installed, in bytes; either may be unknown.
pub struct RAMInfo {
    total: Option<i128>,
    used: Option<i128>,
}

impl View for RAMInfo {
    /// `(used, total)`.
    type V = (Option<int>, Option<int>);

    closed spec fn view(&self) -> (Option<int>, Option<int>) {
        (opt_int(self.used), opt_int(self.total))
    }
}

impl RAMInfo {
    #[verifier::type_invariant]
    spec fn inv(self) -> bool {
        in_bound(self.used) && in_bound(self.total)
    }

    /// A reading with both amounts unknown.
    pub fn new() -> (r: RAMInfo)
        ensures
            r@ == (None::<int>, None::<int>),
    {
        RAMInfo { total: None, used: None }
    }

    /// Derives the amounts from `raw` by the formula of `os`. On an
    /// unrecognized platform nothing is read and the reading stays as it
    /// was; on a failure it stays as it was too.
    pub fn get(&mut self, os: &Platform, raw: &RawMemory) -> (r: Result<(), ProviderError>)
        ensures
            match snapshot_spec(*os, *raw) {
                None => r is Ok && final(self)@ == old(self)@,
                Some(Ok((u, t))) => r is Ok && final(self)@ == (Some(u), Some(t)),
                Some(Err(e)) => r == Err::<(), ProviderError>(e) && final(self)@ == old(self)@,
            },
    {
        let reading = match os {
            Platform::Linux => linux_reading(&raw.meminfo),
            Platform::OpenBSD => openbsd_reading(&raw.physmem, &raw.vmstat),
            Platform::FreeBSD | Platform::DragonflyBSD => bsd_reading(&raw.physmem, &raw.page_counts),
            Platform::NetBSD => netbsd_reading(&raw.physmem, &raw.meminfo),
            Platform::Unknown => return Ok(()),
        };
        match reading {
            Ok((u, t)) => {
                *self = RAMInfo { total: Some(t), used: Some(u) };
                Ok(())
            },
            Err(e) => Err(e),
        }
    }

    /// The reading as `used / total`, with `?` for an unknown side.
    pub fn format(&self) -> (r: String)
        ensures
            r@ == ram_text(self@.0, self@.1),
    {
        proof {
            use_type_invariant(self);
        }
        let mut c = amount_chars(self.used);
        c.push(' ');
        c.push('/');
        c.push(' ');
        append_chars(&mut c, &amount_chars(self.total));
        assert(c@ =~= ram_text(self@.0, self@.1));
        string_of(&c)
    }
}

// ---------------------------------------------------------------------------
// Laws

/// A reading whose amounts are both unknown displays as `? / ?`; on an
/// unrecognized platform acquisition reads nothing, so a fresh reading
/// stays that way.
pub proof fn lemma_unknown_amounts_text(raw: RawMemory)
    ensures
        ram_text(None, None) == seq!['?', ' ', '/', ' ', '?'],
        snapshot_spec(Platform::Unknown, raw) is None,
{
    assert(ram_text(None, None) =~= seq!['?', ' ', '/', ' ', '?']);
}

/// On Linux, the shared memory does not exceed what is free, buffered,
/// cached and reclaimable, as on any real machine.
pub open spec fn linux_consistent(meminfo: Seq<char>) -> bool {
    let lines = lines_of(meminfo);
    meminfo_counter(lines, "Shmem"@)->Ok_0 <= meminfo_counter(lines, "MemFree"@)->Ok_0
        + meminfo_counter(lines, "Buffers"@)->Ok_0 + meminfo_counter(lines, "Cached"@)->Ok_0
        + meminfo_counter(lines, "SReclaimable"@)->Ok_0
}

/// On OpenBSD, the reported usage does not exceed the physical memory.
pub open spec fn openbsd_consistent(physmem: Seq<char>, vmstat: Seq<char>) -> bool {
    vmstat_used(vmstat)->Ok_0 <= scalar_spec(physmem)->Ok_0
}

/// After a successful acquisition the amount in use never exceeds the total:
/// always on FreeBSD, DragonFly and NetBSD, and on Linux and OpenBSD
/// whenever the raw counters are consistent.
pub proof fn lemma_used_within_total(platform: Platform, raw: RawMemory)
    requires
        snapshot_spec(platform, raw) matches Some(Ok(_)),
        platform == Platform::Linux ==> linux_consistent(raw.meminfo@),
        platform == Platform::OpenBSD ==> openbsd_consistent(raw.physmem@, raw.vmstat@),
    ensures
        snapshot_spec(platform, raw)->Some_0->Ok_0.0 <= snapshot_spec(platform, raw)->Some_0->Ok_0.1,
{
    if platform == Platform::NetBSD {
        let (u, t) = snapshot_spec(platform, raw)->Some_0->Ok_0;
        let total = scalar_spec(raw.physmem@)->Ok_0 as int;
        let free = meminfo_counter(lines_of(raw.meminfo@), "MemFree"@)->Ok_0 as int;
        assert(u == (total - free) * MIB);
        assert(t == total * MIB);
        assert((total - free) * MIB <= total * MIB) by (nonlinear_arith)
            requires
                free >= 0,
        ;
    }
    if platform == Platform::FreeBSD || platform == Platform::DragonflyBSD {
        let pc = page_counts_spec(raw.page_counts@)->Some_0;
        assert((pc.1 + pc.2 + pc.3) * pc.0 >= 0) by (nonlinear_arith);
    }
}

} // verus!

//! The CPU provider: model name, core count and top frequency.
use vstd::prelude::*;
use crate::error::ProviderError;
use crate::text::{
    append_chars, chars_of, decimal, decimal_spec, lemma_split_nonempty, lines_of, parse_u64,
    parse_u64_spec, same_chars, split, split_spec, string_of, trim, trim_of, views,
};

verus! {

/// The state carried through the lines of a cpuinfo block: the last model
/// name and the last core count seen.
pub type CpuScan = (Option<Seq<char>>, Option<usize>);

/// One cpuinfo line: `Hardware` names the model and `processor` numbers a
/// core (counting from zero); other keys are ignored.
pub open spec fn cpu_step(line: Seq<char>, acc: CpuScan) -> Result<CpuScan, ProviderError> {
    let parts = split_spec(line, ':');
    let key = trim_of(parts[0]);
    if key == "Hardware"@ || key == "processor"@ {
        if parts.len() < 2 {
            Err(ProviderError::ParseFailure)
        } else if key == "Hardware"@ {
            Ok((Some(trim_of(parts[1])), acc.1))
        } else {
            match parse_u64_spec(trim_of(parts[1])) {
                Some(n) => if n < usize::MAX {
                    Ok((acc.0, Some((n + 1) as usize)))
                } else {
                    Err(ProviderError::ParseFailure)
                },
                None => Err(ProviderError::ParseFailure),
            }
        }
    } else {
        Ok(acc)
    }
}

pub open spec fn cpu_scan(lines: Seq<Seq<char>>) -> Result<CpuScan, ProviderError>
    decreases lines.len(),
{
    if lines.len() == 0 {
        Ok((None, None))
    } else {
        match cpu_scan(lines.drop_last()) {
            Ok(acc) => cpu_step(lines.last(), acc),
            Err(e) => Err(e),
        }
    }
}

/// A malformed line fails the whole block.
proof fn lemma_scan_failure_persists(lines: Seq<Seq<char>>, k: int)
    requires
        0 <= k <= lines.len(),
        cpu_scan(lines.take(k)) is Err,
    ensures
        cpu_scan(lines) == cpu_scan(lines.take(k)),
    decreases lines.len(),
{
    if k < lines.len() {
        assert(lines.drop_last().take(k) == lines.take(k));
        lemma_scan_failure_persists(lines.drop_last(), k);
    } else {
        assert(lines.take(k) == lines);
    }
}

/// The top frequency in MHz, from a kHz count.
pub open spec fn freq_spec(max_freq: Seq<char>) -> Result<usize, ProviderError> {
    match parse_u64_spec(trim_of(max_freq)) {
        Some(n) => if n / 1000 <= usize::MAX {
            Ok((n / 1000) as usize)
        } else {
            Err(ProviderError::ParseFailure)
        },
        None => Err(ProviderError::ParseFailure),
    }
}

/// `Some(v)` or else `d`.
pub open spec fn or_else<T>(o: Option<T>, d: T) -> T {
    match o {
        Some(v) => v,
        None => d,
    }
}

/// The display of a CPU: `model (cores) @ freqMHz`, with `?` for an unknown model.
pub open spec fn cpu_text(model: Seq<char>, cores: usize, freq: usize) -> Seq<char> {
    (if model.len() == 0 { seq!['?'] } else { model }) + seq![' ', '('] + decimal_spec(cores as nat)
        + seq![')', ' ', '@', ' '] + decimal_spec(freq as nat) + "MHz"@
}

pub struct CPUInfo {
    pub model: String,
    pub cores: usize,
    /// The top frequency in MHz.
    pub freq: usize,
    /// Whether an acquisition has succeeded.
    pub acquired: bool,
}

fn cpu_step_exec(line: &Vec<char>, acc: (Option<Vec<char>>, Option<usize>)) -> (r: Result<(Option<Vec<char>>, Option<usize>), ProviderError>)
    ensures
        match (r, cpu_step(line@, (opt_view(acc.0), acc.1))) {
            (Ok((m, c)), Ok((sm, sc))) => opt_view(m) == sm && c == sc,
            (Err(e), Err(se)) => e == se,
            _ => false,
        },
{
    let parts = split(line, ':');
    proof {
        lemma_split_nonempty(line@, ':');
    }
    let key = trim(&parts[0]);
    let hardware = same_chars(&key, &chars_of("Hardware"));
    let processor = same_chars(&key, &chars_of("processor"));
    if !hardware && !processor {
        return Ok(acc);
    }
    if parts.len() < 2 {
        return Err(ProviderError::ParseFailure);
    }
    let value = trim(&parts[1]);
    if hardware {
        return Ok((Some(value), acc.1));
    }
    match parse_u64(&value) {
        Some(n) => if (n as u128) < (usize::MAX as u128) {
            Ok((acc.0, Some((n + 1) as usize)))
        } else {
            Err(ProviderError::ParseFailure)
        },
        None => Err(ProviderError::ParseFailure),
    }
}

pub open spec fn opt_view(o: Option<Vec<char>>) -> Option<Seq<char>> {
    match o {
        Some(v) => Some(v@),
        None => None,
    }
}

fn freq_of(max_freq: &str) -> (r: Result<usize, ProviderError>)
    ensures
        r == freq_spec(max_freq@),
{
    match parse_u64(&trim(&chars_of(max_freq))) {
        Some(n) => if ((n / 1000) as u128) <= (usize::MAX as u128) {
            Ok((n / 1000) as usize)
        } else {
            Err(ProviderError::ParseFailure)
        },
        None => Err(ProviderError::ParseFailure),
    }
}

impl CPUInfo {
    /// An unknown CPU.
    pub fn new() -> (r: CPUInfo)
        ensures
            r.model@ == Seq::<char>::empty(),
            r.cores == 0,
            r.freq == 0,
            !r.acquired,
    {
        CPUInfo { model: String::new(), cores: 0, freq: 0, acquired: false }
    }

    /// Reads the model and core count from a cpuinfo block and the top
    /// frequency from a kHz count. A key missing from the block leaves its
    /// field as it was; on a failure nothing changes.
    pub fn get(&mut self, cpuinfo: &str, max_freq: &str) -> (r: Result<(), ProviderError>)
        ensures
            match (cpu_scan(lines_of(cpuinfo@)), freq_spec(max_freq@)) {
                (Ok((m, c)), Ok(f)) => r is Ok && final(self).model@ == or_else(m, old(self).model@)
                    && final(self).cores == or_else(c, old(self).cores) && final(self).freq == f
                    && final(self).acquired,
                (Err(e), _) => r == Err::<(), ProviderError>(e) && *final(self) == *old(self),
                (Ok(_), Err(e)) => r == Err::<(), ProviderError>(e) && *final(self) == *old(self),
            },
    {
        let lines = split(&chars_of(cpuinfo), '\n');
        let mut acc: (Option<Vec<char>>, Option<usize>) = (None, None);
        let mut i: usize = 0;
        while i < lines.len()
            invariant
                i <= lines@.len(),
                views(lines@) == lines_of(cpuinfo@),
                cpu_scan(views(lines@).take(i as int)) == Ok::<CpuScan, ProviderError>((opt_view(acc.0), acc.1)),
            decreases lines@.len() - i,
        {
            let ghost pre = views(lines@).take(i + 1);
            assert(pre.drop_last() == views(lines@).take(i as int));
            assert(pre.last() == lines@[i as int]@);
            match cpu_step_exec(&lines[i], acc) {
                Ok(next) => acc = next,
                Err(e) => {
                    proof {
                        lemma_scan_failure_persists(views(lines@), i + 1);
                    }
                    return Err(e);
                },
            }
            i = i + 1;
        }
        assert(views(lines@).take(i as int) == views(lines@));
        let freq = match freq_of(max_freq) {
            Ok(f) => f,
            Err(e) => return Err(e),
        };
        if let Some(m) = acc.0 {
            self.model = string_of(&m);
        }
        if let Some(c) = acc.1 {
            self.cores = c;
        }
        self.freq = freq;
        self.acquired = true;
        Ok(())
    }

    /// The CPU as `model (cores) @ freqMHz`, or `?` before any acquisition.
    pub fn format(&self) -> (r: String)
        ensures
            r@ == (if self.acquired { cpu_text(self.model@, self.cores, self.freq) } else { seq!['?'] }),
    {
        if !self.acquired {
            let q = vec!['?'];
            assert(q@ =~= seq!['?']);
            return string_of(&q);
        }
        let mut c = chars_of(self.model.as_str());
        if c.len() == 0 {
            c.push('?');
        }
        c.push(' ');
        c.push('(');
        append_chars(&mut c, &decimal(self.cores as u128));
        append_chars(&mut c, &vec![')', ' ', '@', ' ']);
        append_chars(&mut c, &decimal(self.freq as u128));
        append_chars(&mut c, &chars_of("MHz"));
        assert(c@ =~= cpu_text(self.model@, self.cores, self.freq));
        string_of(&c)
    }
}

} // verus!

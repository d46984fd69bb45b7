//! How much memory the system has and how much of it a test may take,
//! from what the operating system reports.

use vstd::prelude::*;

use crate::text::{
    chars_of, has_prefix, parse_decimal, parse_unsigned, split_words, starts_with_chars,
    words,
};

verus! {

/// What the operating system reported of its memory.
pub enum MemorySource {
    /// The text of `/proc/meminfo` (Linux).
    ProcMeminfo(String),
    /// The physical memory in bytes, total and available, as the system
    /// status call reports it (Windows).
    SystemStatus { total_phys: u64, avail_phys: u64 },
    /// Nothing could be read (the file, or the call, failed; or another
    /// system).
    Unknown,
}

/// The lines of `s`: the pieces between line feeds. The last piece is the
/// text after the last line feed (empty where `s` ends in one).
pub open spec fn split_lines(s: Seq<char>) -> Seq<Seq<char>>
    decreases s.len(),
{
    if s.len() == 0 {
        seq![Seq::empty()]
    } else {
        let t = split_lines(s.drop_last());
        if s.last() == '\n' {
            t.push(Seq::empty())
        } else {
            t.update(t.len() - 1, t.last().push(s.last()))
        }
    }
}

proof fn lemma_split_lines_nonempty(s: Seq<char>)
    ensures
        split_lines(s).len() >= 1,
    decreases s.len(),
{
    if s.len() > 0 {
        lemma_split_lines_nonempty(s.drop_last());
    }
}

/// A number of KiB in bytes, modulo 2^64 (the multiplication wraps, as in
/// a release build); a value that does not parse counts as 0.
pub open spec fn kib_in_bytes(parsed: Option<nat>) -> u64 {
    match parsed {
        Some(v) => (v as u64).wrapping_mul(1024),
        None => 0,
    }
}

/// The value a `/proc/meminfo` line gives in bytes: its second word, read
/// as a number of KiB; `None` where the line has no second word.
pub open spec fn line_value(line: Seq<char>) -> Option<u64> {
    let w = words(line);
    if w.len() >= 2 {
        Some(kib_in_bytes(parse_unsigned(w[1], u64::MAX as nat)))
    } else {
        None
    }
}

/// Total and available memory, in bytes, after reading `lines` in order:
/// each line that begins with `MemTotal:` (or `MemAvailable:`) and has a
/// second word sets the total (or the available amount); both start at 0.
pub open spec fn meminfo_totals(lines: Seq<Seq<char>>) -> (u64, u64)
    decreases lines.len(),
{
    if lines.len() == 0 {
        (0, 0)
    } else {
        let prev = meminfo_totals(lines.drop_last());
        let l = lines.last();
        if has_prefix(l, "MemTotal:"@) {
            match line_value(l) {
                Some(v) => (v, prev.1),
                None => prev,
            }
        } else if has_prefix(l, "MemAvailable:"@) {
            match line_value(l) {
                Some(v) => (prev.0, v),
                None => prev,
            }
        } else {
            prev
        }
    }
}

/// Nine tenths of `x`, rounded down.
pub open spec fn ninety_percent(x: u64) -> u64 {
    (x as int * 9 / 10) as u64
}

/// Total memory and the amount a test may take (nine tenths of what is
/// available), in bytes; (0, 0) where nothing could be read.
pub open spec fn available_memory(src: MemorySource) -> (u64, u64) {
    match src {
        MemorySource::ProcMeminfo(s) => {
            let t = meminfo_totals(split_lines(s@));
            (t.0, ninety_percent(t.1))
        },
        MemorySource::SystemStatus { total_phys, avail_phys } => (
            total_phys,
            ninety_percent(avail_phys),
        ),
        MemorySource::Unknown => (0, 0),
    }
}

/// Nine tenths of `x`, rounded down.
pub fn ninety_percent_of(x: u64) -> (r: u64)
    ensures
        r == ninety_percent(x),
{
    let wide: u128 = x as u128 * 9 / 10;
    wide as u64
}

/// The value a `/proc/meminfo` line gives in bytes, if it has one.
pub fn meminfo_line_value(line: &Vec<char>) -> (r: Option<u64>)
    ensures
        r == line_value(line@),
{
    let w = split_words(line);
    if w.len() >= 2 {
        assert(w@[1]@ == words(line@)[1]);
        let parsed = parse_decimal(&w[1], u64::MAX);
        match parsed {
            Some(v) => Some(v.wrapping_mul(1024)),
            None => Some(0),
        }
    } else {
        None
    }
}

/// Total and available memory, in bytes, read from the text of
/// `/proc/meminfo`.
pub fn parse_meminfo(content: &str) -> (r: (u64, u64))
    ensures
        r == meminfo_totals(split_lines(content@)),
{
    let s = chars_of(content);
    let key_total = chars_of("MemTotal:");
    let key_avail = chars_of("MemAvailable:");
    let mut total: u64 = 0;
    let mut avail: u64 = 0;
    let mut cur: Vec<char> = Vec::new();
    let mut i: usize = 0;
    proof {
        assert(s@.take(0) =~= Seq::<char>::empty());
    }
    while i < s.len()
        invariant
            0 <= i <= s@.len(),
            key_total@ == "MemTotal:"@,
            key_avail@ == "MemAvailable:"@,
            split_lines(s@.take(i as int)).len() >= 1,
            (total, avail) == meminfo_totals(split_lines(s@.take(i as int)).drop_last()),
            cur@ == split_lines(s@.take(i as int)).last(),
        decreases s@.len() - i,
    {
        let c = s[i];
        let ghost ls = split_lines(s@.take(i as int));
        assert(s@.take(i + 1).drop_last() =~= s@.take(i as int));
        if c == '\n' {
            assert(ls.drop_last().push(cur@) =~= ls);
            let (t, a) = process_line(&cur, &key_total, &key_avail, total, avail);
            assert(meminfo_totals(ls.drop_last().push(cur@)) == (t, a));
            total = t;
            avail = a;
            cur = Vec::new();
            assert(split_lines(s@.take(i + 1)).drop_last() =~= ls);
        } else {
            cur.push(c);
            assert(split_lines(s@.take(i + 1)).drop_last() =~= ls.drop_last());
        }
        i = i + 1;
        proof {
            lemma_split_lines_nonempty(s@.take(i as int));
        }
    }
    let (t, a) = process_line(&cur, &key_total, &key_avail, total, avail);
    proof {
        let ls = split_lines(s@.take(i as int));
        assert(ls.drop_last().push(cur@) =~= ls);
        assert(meminfo_totals(ls.drop_last().push(cur@)) == (t, a));
        assert(s@.take(i as int) =~= content@);
    }
    (t, a)
}

/// The totals after one more line of `/proc/meminfo`.
fn process_line(line: &Vec<char>, key_total: &Vec<char>, key_avail: &Vec<char>, total: u64, avail: u64) -> (r: (u64, u64))
    requires
        key_total@ == "MemTotal:"@,
        key_avail@ == "MemAvailable:"@,
    ensures
        forall|ls: Seq<Seq<char>>|
            meminfo_totals(ls) == (total, avail) ==> #[trigger] meminfo_totals(ls.push(line@))
                == r,
{
    let mut r = (total, avail);
    if starts_with_chars(line, key_total) {
        if let Some(v) = meminfo_line_value(line) {
            r = (v, avail);
        }
    } else if starts_with_chars(line, key_avail) {
        if let Some(v) = meminfo_line_value(line) {
            r = (total, v);
        }
    }
    assert forall|ls: Seq<Seq<char>>|
        meminfo_totals(ls) == (total, avail) implies #[trigger] meminfo_totals(ls.push(line@))
        == r by {
        assert(ls.push(line@).drop_last() =~= ls);
    }
    r
}

/// Total memory and the amount a test may take (nine tenths of what is
/// available), in bytes, from what the system reported; (0, 0) where it
/// reported nothing.
pub fn get_available_memory(src: &MemorySource) -> (r: (u64, u64))
    ensures
        r == available_memory(*src),
{
    match src {
        MemorySource::ProcMeminfo(s) => {
            let (total, avail) = parse_meminfo(s.as_str());
            (total, ninety_percent_of(avail))
        },
        MemorySource::SystemStatus { total_phys, avail_phys } => (
            *total_phys,
            ninety_percent_of(*avail_phys),
        ),
        MemorySource::Unknown => (0, 0),
    }
}

} // verus!

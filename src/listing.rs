//! The network manager's listing: one `SSID:SIGNAL` line per visible network.
use vstd::prelude::*;
use vstd::slice::slice_subrange;
use crate::text::{decode_lossy, lossy_text};

verus! {

pub const LINE_BREAK: u8 = 0x0a;

pub const CARRIAGE_RETURN: u8 = 0x0d;

pub const FIELD_SEPARATOR: u8 = 0x3a;

pub const DIGIT_ZERO: u8 = 0x30;

pub const DIGIT_NINE: u8 = 0x39;

/// A line as it is finished by a line break: a carriage return just before
/// the break belongs to the break.
pub open spec fn trim_cr(l: Seq<u8>) -> Seq<u8> {
    if l.len() > 0 && l.last() == CARRIAGE_RETURN {
        l.drop_last()
    } else {
        l
    }
}

/// Reading `b` from its start: the non-empty lines finished so far, and the
/// line still open after the last line break.
pub open spec fn scan(b: Seq<u8>) -> (Seq<Seq<u8>>, Seq<u8>)
    decreases b.len(),
{
    if b.len() == 0 {
        (seq![], seq![])
    } else {
        let (done, open) = scan(b.drop_last());
        if b.last() == LINE_BREAK {
            let l = trim_cr(open);
            (if l.len() > 0 { done.push(l) } else { done }, seq![])
        } else {
            (done, open.push(b.last()))
        }
    }
}

/// The non-empty lines of `b`, in order; the last one needs no line break.
pub open spec fn listing(b: Seq<u8>) -> Seq<Seq<u8>> {
    let (done, open) = scan(b);
    if open.len() > 0 {
        done.push(open)
    } else {
        done
    }
}

/// Where the network name of `l` ends: at its first ':', or at its end if
/// it has none.
pub open spec fn name_end(l: Seq<u8>) -> int
    decreases l.len(),
{
    if l.len() == 0 {
        0
    } else if l[0] == FIELD_SEPARATOR {
        0
    } else {
        1 + name_end(l.drop_first())
    }
}

/// The network name of a listing line: the text before its first ':'.
pub open spec fn name_bytes(l: Seq<u8>) -> Seq<u8> {
    l.take(name_end(l))
}

pub open spec fn is_digit(c: u8) -> bool {
    DIGIT_ZERO <= c <= DIGIT_NINE
}

pub open spec fn all_digits(s: Seq<u8>) -> bool {
    forall|i: int| 0 <= i < s.len() ==> is_digit(#[trigger] s[i])
}

/// The number that the decimal digits `s` write.
pub open spec fn decimal(s: Seq<u8>) -> nat
    decreases s.len(),
{
    if s.len() == 0 {
        0
    } else {
        decimal(s.drop_last()) * 10 + (s.last() - DIGIT_ZERO) as nat
    }
}

/// The signal strength of a listing line: the text after its first ':',
/// when that is a non-empty run of decimal digits whose value fits a `u32`.
pub open spec fn signal_of(l: Seq<u8>) -> Option<u32> {
    let f = l.skip(name_end(l) + 1);
    if name_end(l) < l.len() && f.len() > 0 && all_digits(f) && decimal(f) <= u32::MAX {
        Some(decimal(f) as u32)
    } else {
        None
    }
}

/// Each entry's line, in order.
pub open spec fn lines_of(es: Seq<NetworkEntry>) -> Seq<Seq<u8>> {
    es.map_values(|e: NetworkEntry| e@)
}

proof fn lemma_name_end_bounds(l: Seq<u8>)
    ensures
        0 <= name_end(l) <= l.len(),
        name_end(l) < l.len() ==> l[name_end(l)] == FIELD_SEPARATOR,
        forall|j: int| 0 <= j < name_end(l) ==> l[j] != FIELD_SEPARATOR,
    decreases l.len(),
{
    if l.len() > 0 && l[0] != FIELD_SEPARATOR {
        lemma_name_end_bounds(l.drop_first());
        assert forall|j: int| 0 <= j < name_end(l) implies l[j] != FIELD_SEPARATOR by {
            if j > 0 {
                assert(l[j] == l.drop_first()[j - 1]);
            }
        }
    }
}

proof fn lemma_name_end_at(l: Seq<u8>, i: int)
    requires
        0 <= i <= l.len(),
        i == l.len() || l[i] == FIELD_SEPARATOR,
        forall|j: int| 0 <= j < i ==> l[j] != FIELD_SEPARATOR,
    ensures
        name_end(l) == i,
{
    lemma_name_end_bounds(l);
}

/// One network as the listing gave it: a non-empty line.
pub struct NetworkEntry {
    line: Vec<u8>,
}

impl View for NetworkEntry {
    type V = Seq<u8>;

    closed spec fn view(&self) -> Seq<u8> {
        self.line@
    }
}

impl NetworkEntry {
    fn name_end_index(&self) -> (r: usize)
        ensures
            r == name_end(self@),
            r <= self@.len(),
    {
        let mut i: usize = 0;
        while i < self.line.len() && self.line[i] != FIELD_SEPARATOR
            invariant
                i <= self.line@.len(),
                forall|j: int| 0 <= j < i ==> self.line@[j] != FIELD_SEPARATOR,
            decreases self.line@.len() - i,
        {
            i += 1;
        }
        proof {
            lemma_name_end_at(self.line@, i as int);
        }
        i
    }

    /// The whole line, as text.
    pub fn label(&self) -> (r: String)
        ensures
            r@ == lossy_text(self@),
    {
        decode_lossy(self.line.as_slice())
    }

    /// The network name: the text before the first ':'.
    pub fn ssid(&self) -> (r: String)
        ensures
            r@ == lossy_text(name_bytes(self@)),
    {
        let end = self.name_end_index();
        let name = slice_subrange(self.line.as_slice(), 0, end);
        proof {
            assert(name@ =~= name_bytes(self@));
        }
        decode_lossy(name)
    }

    /// The signal strength, when the text after the first ':' is a number
    /// that fits a `u32`.
    pub fn signal(&self) -> (r: Option<u32>)
        ensures
            r == signal_of(self@),
    {
        let end = self.name_end_index();
        if end == self.line.len() {
            return None;
        }
        let ghost f = self@.skip(end + 1);
        let start = end + 1;
        if start == self.line.len() {
            return None;
        }
        let cap: u64 = 0x1_0000_0000;
        let mut value: u64 = 0;
        let mut k: usize = start;
        while k < self.line.len()
            invariant
                start <= k <= self.line@.len(),
                start == name_end(self@) + 1,
                f == self.line@.skip(start as int),
                cap == 0x1_0000_0000u64,
                value <= cap,
                all_digits(f.take(k - start)),
                value == if decimal(f.take(k - start)) < cap {
                    decimal(f.take(k - start))
                } else {
                    cap as nat
                },
            decreases self.line@.len() - k,
        {
            let c = self.line[k];
            if c < DIGIT_ZERO || c > DIGIT_NINE {
                assert(f[k - start] == c);
                assert(!all_digits(f));
                return None;
            }
            proof {
                let p = f.take(k - start + 1);
                assert(p.drop_last() =~= f.take(k - start));
                assert(p.last() == c);
                assert forall|i: int| 0 <= i < p.len() implies is_digit(#[trigger] p[i]) by {
                    if i < p.len() - 1 {
                        assert(p[i] == f.take(k - start)[i]);
                    }
                }
            }
            value = value * 10 + (c - DIGIT_ZERO) as u64;
            if value > cap {
                value = cap;
            }
            k += 1;
        }
        assert(f.take(k - start) =~= f);
        if value < cap {
            Some(value as u32)
        } else {
            None
        }
    }
}

/// The entries of a listing: one for each non-empty line of `out`, in order.
pub fn parse_listing(out: &[u8]) -> (r: Vec<NetworkEntry>)
    ensures
        lines_of(r@) == listing(out@),
{
    let mut done: Vec<NetworkEntry> = Vec::new();
    let mut open: Vec<u8> = Vec::new();
    let mut i: usize = 0;
    while i < out.len()
        invariant
            i <= out@.len(),
            scan(out@.take(i as int)) == (lines_of(done@), open@),
        decreases out@.len() - i,
    {
        let c = out[i];
        proof {
            assert(out@.take(i + 1).drop_last() =~= out@.take(i as int));
            assert(out@.take(i + 1).last() == c);
        }
        if c == LINE_BREAK {
            let mut line = open;
            open = Vec::new();
            let ghost read = line@;
            if line.len() > 0 && line[line.len() - 1] == CARRIAGE_RETURN {
                line.pop();
            }
            assert(line@ =~= trim_cr(read));
            if line.len() > 0 {
                let ghost before = done@;
                done.push(NetworkEntry { line });
                assert(lines_of(done@) =~= lines_of(before).push(done@.last()@));
            }
            assert(open@ =~= seq![]);
        } else {
            open.push(c);
        }
        i += 1;
    }
    assert(out@.take(i as int) =~= out@);
    if open.len() > 0 {
        let ghost before = done@;
        done.push(NetworkEntry { line: open });
        assert(lines_of(done@) =~= lines_of(before).push(done@.last()@));
    }
    done
}

} // verus!

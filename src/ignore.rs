//! Line ranges, per file, on which diagnostics are suppressed.
use vstd::prelude::*;
use crate::report::LintReport;
use crate::text::{chars_of, pieces, split_chars, split_prefix, string_of, views};

verus! {

/// Whether `c` is an ASCII decimal digit.
pub open spec fn is_digit(c: char) -> bool {
    '0' <= c && c <= '9'
}

/// The value of a run of decimal digits.
pub open spec fn digits_value(s: Seq<char>) -> nat
    decreases s.len(),
{
    if s.len() == 0 {
        0
    } else {
        digits_value(s.drop_last()) * 10 + (s.last() as nat - '0' as nat) as nat
    }
}

/// The digits of an unsigned decimal number as `usize`'s `FromStr` reads it: an
/// optional leading `+`, then one or more digits.
pub open spec fn unsigned_digits(s: Seq<char>) -> Seq<char> {
    if s.len() > 0 && s[0] == '+' {
        s.drop_first()
    } else {
        s
    }
}

/// The number that `s` spells, if it spells one that fits in `usize`.
pub open spec fn parse_usize_spec(s: Seq<char>) -> Option<usize> {
    let d = unsigned_digits(s);
    if d.len() > 0 && (forall|i: int| 0 <= i < d.len() ==> is_digit(#[trigger] d[i]))
        && digits_value(d) <= usize::MAX {
        Some(digits_value(d) as usize)
    } else {
        None
    }
}

proof fn lemma_digits_value_prefix(d: Seq<char>, i: int)
    requires
        0 <= i <= d.len(),
        forall|k: int| 0 <= k < d.len() ==> is_digit(#[trigger] d[k]),
    ensures
        digits_value(d.take(i)) <= digits_value(d),
    decreases d.len() - i,
{
    if i < d.len() {
        lemma_digits_value_prefix(d, i + 1);
        assert(d.take(i + 1).drop_last() =~= d.take(i));
    } else {
        assert(d.take(i) =~= d);
    }
}

/// Reads an unsigned decimal number; `None` when `s` is not one or it does not fit.
pub fn parse_usize(s: &[char]) -> (r: Option<usize>)
    ensures
        r == parse_usize_spec(s@),
{
    let start: usize = if s.len() > 0 && s[0] == '+' { 1 } else { 0 };
    let ghost d = unsigned_digits(s@);
    proof {
        assert(d =~= s@.skip(start as int));
    }
    if start >= s.len() {
        return None;
    }
    let mut value: usize = 0;
    let mut i: usize = start;
    while i < s.len()
        invariant
            start <= i <= s@.len(),
            d =~= s@.skip(start as int),
            d == unsigned_digits(s@),
            forall|k: int| 0 <= k < i - start ==> is_digit(#[trigger] d[k]),
            value as nat == digits_value(d.take(i - start)),
        decreases s.len() - i,
    {
        let c = s[i];
        proof {
            assert(d.take(i - start + 1).drop_last() =~= d.take(i - start));
            assert(d[i - start] == c);
        }
        if c < '0' || c > '9' {
            proof {
                assert(!is_digit(d[i - start]));
            }
            return None;
        }
        let digit: usize = (c as u32 - '0' as u32) as usize;
        proof {
            assert(d.take(i - start + 1).last() == c);
            assert(digits_value(d.take(i - start + 1)) == value * 10 + digit);
        }
        if value > (usize::MAX - digit) / 10 {
            proof {
                let n = i - start;
                assert(value * 10 + digit > usize::MAX) by (nonlinear_arith)
                    requires
                        value > (usize::MAX - digit) / 10,
                        digit <= 9,
                ;
                if forall|k: int| 0 <= k < d.len() ==> is_digit(#[trigger] d[k]) {
                    lemma_digits_value_prefix(d, n + 1);
                }
            }
            return None;
        }
        value = value * 10 + digit;
        i = i + 1;
    }
    proof {
        assert(d.take(d.len() as int) =~= d);
    }
    Some(value)
}


/// The ranges registered for one file; both ends of a range are inclusive.
pub struct IgnoreFileRanges {
    pub file: String,
    pub ranges: Vec<(usize, usize)>,
}

/// Suppression ranges, grouped by file.
pub struct IgnoreRanges {
    pub file_ranges: Vec<IgnoreFileRanges>,
}

/// Whether some range of `entries` for exactly `file` holds `line`.
pub open spec fn entries_cover(entries: Seq<(Seq<char>, usize, usize)>, file: Seq<char>, line: int) -> bool {
    exists|k: int|
        0 <= k < entries.len() && (#[trigger] entries[k]).0 == file && entries[k].1 <= line
            <= entries[k].2
}

/// A line of an ignore file without the `\r` that `str::lines` drops.
pub open spec fn strip_cr(l: Seq<char>) -> Seq<char> {
    if l.len() > 0 && l.last() == '\r' {
        l.drop_last()
    } else {
        l
    }
}

/// The range that one line `file,start,end` registers, if it is well formed.
pub open spec fn csv_line_entry(line: Seq<char>) -> Option<(Seq<char>, usize, usize)> {
    let f = pieces(strip_cr(line), ',');
    if f.len() == 3 && parse_usize_spec(f[1]) is Some && parse_usize_spec(f[2]) is Some {
        Some((f[0], parse_usize_spec(f[1])->0, parse_usize_spec(f[2])->0))
    } else {
        None
    }
}

/// The ranges that the well-formed lines register, in order; other lines are skipped.
pub open spec fn csv_entries(lines: Seq<Seq<char>>) -> Seq<(Seq<char>, usize, usize)>
    decreases lines.len(),
{
    if lines.len() == 0 {
        Seq::empty()
    } else {
        let e = csv_entries(lines.drop_last());
        match csv_line_entry(lines.last()) {
            Some(x) => e.push(x),
            None => e,
        }
    }
}

/// The ranges that an ignore file registers.
pub open spec fn csv_ranges(csv: Seq<char>) -> Seq<(Seq<char>, usize, usize)> {
    csv_entries(pieces(csv, '\n'))
}

/// The numbers, counted from 1, of the lines of an ignore file that are not
/// empty and register no range.
pub open spec fn malformed_positions(lines: Seq<Seq<char>>) -> Seq<usize>
    decreases lines.len(),
{
    if lines.len() == 0 {
        Seq::empty()
    } else {
        let r = malformed_positions(lines.drop_last());
        if strip_cr(lines.last()).len() > 0 && csv_line_entry(lines.last()) is None {
            r.push(lines.len() as usize)
        } else {
            r
        }
    }
}

/// Whether a line of an ignore file registers a range.
fn well_formed(line: &Vec<char>) -> (r: bool)
    ensures
        r == (csv_line_entry(line@) is Some),
{
    let n = line.len();
    let keep: usize = if n > 0 && line[n - 1] == '\r' { n - 1 } else { n };
    proof {
        assert(line@.take(keep as int) =~= strip_cr(line@));
    }
    let fields = split_prefix(line.as_slice(), keep, ',');
    if fields.len() != 3 {
        return false;
    }
    parse_usize(fields[1].as_slice()).is_some() && parse_usize(fields[2].as_slice()).is_some()
}

/// Ranges grouped by file: each file once, with its ranges in order.
pub type Groups = Seq<(Seq<char>, Seq<(usize, usize)>)>;

/// One more range: it joins the group of its file, or starts a group at the end.
pub open spec fn add_group(g: Groups, file: Seq<char>, start: usize, end: usize) -> Groups {
    if exists|i: int| 0 <= i < g.len() && (#[trigger] g[i]).0 == file {
        let i = choose|i: int| 0 <= i < g.len() && (#[trigger] g[i]).0 == file;
        g.update(i, (file, g[i].1.push((start, end))))
    } else {
        g.push((file, seq![(start, end)]))
    }
}

/// The groups that a list of ranges makes, taken in order.
pub open spec fn groups_of(entries: Seq<(Seq<char>, usize, usize)>) -> Groups
    decreases entries.len(),
{
    if entries.len() == 0 {
        Seq::empty()
    } else {
        let e = entries.last();
        add_group(groups_of(entries.drop_last()), e.0, e.1, e.2)
    }
}

/// The positions, in order, of the diagnostics that `ign` does not suppress in `file`.
pub open spec fn kept_positions(ign: IgnoreRanges, file: Seq<char>, reports: Seq<LintReport>) -> Seq<usize>
    decreases reports.len(),
{
    if reports.len() == 0 {
        Seq::empty()
    } else {
        let k = kept_positions(ign, file, reports.drop_last());
        if ign.covers(file, reports.last().pos.line as int) {
            k
        } else {
            k.push((reports.len() - 1) as usize)
        }
    }
}

impl IgnoreRanges {
    /// No two groups are for the same file.
    pub open spec fn wf(&self) -> bool {
        forall|i: int, j: int|
            0 <= i < j < self.file_ranges@.len() ==> (#[trigger] self.file_ranges@[i]).file@
                != (#[trigger] self.file_ranges@[j]).file@
    }

    pub open spec fn groups(&self) -> Groups {
        self.file_ranges@.map_values(|g: IgnoreFileRanges| (g.file@, g.ranges@))
    }

    /// Whether a diagnostic at `line` of `file` is suppressed.
    pub open spec fn covers(&self, file: Seq<char>, line: int) -> bool {
        exists|i: int, j: int|
            0 <= i < self.file_ranges@.len() && (#[trigger] self.file_ranges@[i]).file@ == file
                && 0 <= j < self.file_ranges@[i].ranges@.len()
                && (#[trigger] self.file_ranges@[i].ranges@[j]).0 <= line
                <= self.file_ranges@[i].ranges@[j].1
    }

    pub fn new() -> (r: Self)
        ensures
            r.file_ranges@.len() == 0,
            r.groups() == Seq::<(Seq<char>, Seq<(usize, usize)>)>::empty(),
            r.wf(),
    {
        let r = IgnoreRanges { file_ranges: Vec::new() };
        proof {
            assert(r.groups() =~= Seq::<(Seq<char>, Seq<(usize, usize)>)>::empty());
        }
        r
    }

    /// Registers lines `start..=end` of `file`.
    pub fn add(&mut self, file: &str, start: usize, end: usize)
        requires
            old(self).wf(),
        ensures
            final(self).wf(),
            final(self).groups() == add_group(old(self).groups(), file@, start, end),
            forall|f: Seq<char>, l: int|
                #[trigger] final(self).covers(f, l) <==> (old(self).covers(f, l) || (f == file@
                    && start <= l <= end)),
    {
        let name = file.to_owned();
        let mut i: usize = 0;
        while i < self.file_ranges.len()
            invariant
                *self == *old(self),
                old(self).wf(),
                name@ == file@,
                i <= self.file_ranges@.len(),
                forall|k: int| 0 <= k < i ==> (#[trigger] self.file_ranges@[k]).file@ != file@,
            decreases self.file_ranges.len() - i,
        {
            if self.file_ranges[i].file == name {
                let ghost prev = self.file_ranges@[i as int].ranges@;
                let mut group = self.file_ranges.remove(i);
                group.ranges.push((start, end));
                self.file_ranges.insert(i, group);
                proof {
                    let fr = self.file_ranges@;
                    let ofr = old(self).file_ranges@;
                    assert(fr[i as int].ranges@ == prev.push((start, end)));
                    assert forall|a: int| 0 <= a < fr.len() && a != i implies fr[a] == ofr[a] by {}
                    assert(fr[i as int].file@ == ofr[i as int].file@);
                    assert forall|a: int| 0 <= a < fr.len() implies #[trigger] fr[a].file@
                        == ofr[a].file@ by {}
                    assert forall|a: int, b: int| 0 <= a < b < fr.len() implies (#[trigger] fr[a]).file@
                        != (#[trigger] fr[b]).file@ by {
                        assert(ofr[a].file@ != ofr[b].file@);
                    }
                    let og = old(self).groups();
                    assert(og[i as int].0 == file@);
                    let j = choose|j: int| 0 <= j < og.len() && (#[trigger] og[j]).0 == file@;
                    if j != i {
                        if j < i {
                            assert(ofr[j].file@ != ofr[i as int].file@);
                        } else {
                            assert(ofr[i as int].file@ != ofr[j].file@);
                        }
                    }
                    assert(self.groups() =~= add_group(og, file@, start, end));
                    assert forall|f: Seq<char>, l: int| #[trigger] self.covers(f, l) <==> (
                    old(self).covers(f, l) || (f == file@ && start <= l <= end)) by {
                        if self.covers(f, l) {
                            let (a, b) = choose|a: int, b: int|
                                0 <= a < fr.len() && (#[trigger] fr[a]).file@ == f && 0 <= b
                                    < fr[a].ranges@.len() && (#[trigger] fr[a].ranges@[b]).0 <= l
                                    <= fr[a].ranges@[b].1;
                            if a != i || b < prev.len() {
                                assert(ofr[a].ranges@[b] == fr[a].ranges@[b]);
                            }
                        }
                        if old(self).covers(f, l) {
                            let (a, b) = choose|a: int, b: int|
                                0 <= a < ofr.len() && (#[trigger] ofr[a]).file@ == f && 0 <= b
                                    < ofr[a].ranges@.len() && (#[trigger] ofr[a].ranges@[b]).0
                                    <= l <= ofr[a].ranges@[b].1;
                            assert(fr[a].ranges@[b] == ofr[a].ranges@[b]);
                        }
                        if f == file@ && start <= l <= end {
                            assert(fr[i as int].ranges@[prev.len() as int] == (start, end));
                        }
                    }
                }
                return;
            }
            i = i + 1;
        }
        let mut ranges: Vec<(usize, usize)> = Vec::new();
        ranges.push((start, end));
        self.file_ranges.push(IgnoreFileRanges { file: name, ranges });
        proof {
            let fr = self.file_ranges@;
            let ofr = old(self).file_ranges@;
            let n = ofr.len() as int;
            assert forall|a: int| 0 <= a < n implies fr[a] == ofr[a] by {}
            let og = old(self).groups();
            assert(!(exists|k: int| 0 <= k < og.len() && (#[trigger] og[k]).0 == file@)) by {
                assert forall|k: int| 0 <= k < og.len() implies (#[trigger] og[k]).0 != file@ by {
                    assert(ofr[k].file@ != file@);
                }
            }
            assert(fr[n].ranges@ =~= seq![(start, end)]);
            assert(self.groups() =~= add_group(og, file@, start, end));
            assert forall|f: Seq<char>, l: int| #[trigger] self.covers(f, l) <==> (old(
                self,
            ).covers(f, l) || (f == file@ && start <= l <= end)) by {
                if self.covers(f, l) {
                    let (a, b) = choose|a: int, b: int|
                        0 <= a < fr.len() && (#[trigger] fr[a]).file@ == f && 0 <= b
                            < fr[a].ranges@.len() && (#[trigger] fr[a].ranges@[b]).0 <= l
                            <= fr[a].ranges@[b].1;
                    if a < n {
                        assert(ofr[a].ranges@[b] == fr[a].ranges@[b]);
                    }
                }
                if old(self).covers(f, l) {
                    let (a, b) = choose|a: int, b: int|
                        0 <= a < ofr.len() && (#[trigger] ofr[a]).file@ == f && 0 <= b
                            < ofr[a].ranges@.len() && (#[trigger] ofr[a].ranges@[b]).0 <= l
                            <= ofr[a].ranges@[b].1;
                    assert(fr[a].ranges@[b] == ofr[a].ranges@[b]);
                }
                if f == file@ && start <= l <= end {
                    assert(fr[n].ranges@[0] == (start, end));
                }
            }
        }
    }

    /// Reads ranges from lines `file,start,end`. A line without exactly three
    /// fields, or whose bounds are not numbers, is skipped.
    pub fn from_csv(csv: &str) -> (r: Self)
        ensures
            r.wf(),
            r.groups() == groups_of(csv_ranges(csv@)),
            forall|f: Seq<char>, l: int|
                #[trigger] r.covers(f, l) <==> entries_cover(csv_ranges(csv@), f, l),
    {
        let mut ign = Self::new();
        let chars = chars_of(csv);
        let lines = split_chars(chars.as_slice(), '\n');
        let ghost ls = pieces(csv@, '\n');
        let mut i: usize = 0;
        while i < lines.len()
            invariant
                ls == views(lines@),
                i <= lines@.len(),
                ign.wf(),
                ign.groups() == groups_of(csv_entries(ls.take(i as int))),
                forall|f: Seq<char>, l: int|
                    #[trigger] ign.covers(f, l) <==> entries_cover(
                        csv_entries(ls.take(i as int)),
                        f,
                        l,
                    ),
            decreases lines.len() - i,
        {
            let line = &lines[i];
            let n = line.len();
            let keep: usize = if n > 0 && line[n - 1] == '\r' { n - 1 } else { n };
            proof {
                assert(line@.take(keep as int) =~= strip_cr(ls[i as int]));
                assert(ls.take(i + 1).drop_last() =~= ls.take(i as int));
            }
            let fields = split_prefix(line.as_slice(), keep, ',');
            let ghost prev = csv_entries(ls.take(i as int));
            let mut added = false;
            if fields.len() == 3 {
                let start = parse_usize(fields[1].as_slice());
                let end = parse_usize(fields[2].as_slice());
                match (start, end) {
                    (Some(s), Some(e)) => {
                        let file = string_of(fields[0].as_slice());
                        ign.add(file.as_str(), s, e);
                        added = true;
                        proof {
                            let x = (fields[0]@, s, e);
                            assert(csv_line_entry(ls[i as int]) == Some(x));
                            let now = csv_entries(ls.take(i + 1));
                            assert(now == prev.push(x));
                            assert(now.drop_last() =~= prev);
                            assert(ign.groups() == groups_of(now));
                            assert forall|f: Seq<char>, l: int|
                                #[trigger] ign.covers(f, l) <==> entries_cover(now, f, l) by {
                                if entries_cover(now, f, l) && !(f == x.0 && s <= l <= e) {
                                    let k = choose|k: int|
                                        0 <= k < now.len() && (#[trigger] now[k]).0 == f
                                            && now[k].1 <= l <= now[k].2;
                                    assert(prev[k] == now[k]);
                                }
                                if entries_cover(prev, f, l) {
                                    let k = choose|k: int|
                                        0 <= k < prev.len() && (#[trigger] prev[k]).0 == f
                                            && prev[k].1 <= l <= prev[k].2;
                                    assert(now[k] == prev[k]);
                                }
                                if f == x.0 && s <= l <= e {
                                    assert(now[prev.len() as int] == x);
                                }
                            }
                        }
                    },
                    _ => {},
                }
            }
            proof {
                if !added {
                    assert(csv_line_entry(ls[i as int]) is None);
                    assert(csv_entries(ls.take(i + 1)) == prev);
                }
            }
            i = i + 1;
        }
        proof {
            assert(ls.take(ls.len() as int) =~= ls);
        }
        ign
    }

    /// The positions of the diagnostics in `reports` that are not suppressed in `filename`.
    pub fn kept(&self, filename: &str, reports: &Vec<LintReport>) -> (r: Vec<usize>)
        ensures
            r@ == kept_positions(*self, filename@, reports@),
    {
        let mut out: Vec<usize> = Vec::new();
        let mut i: usize = 0;
        while i < reports.len()
            invariant
                i <= reports@.len(),
                out@ == kept_positions(*self, filename@, reports@.take(i as int)),
            decreases reports.len() - i,
        {
            proof {
                assert(reports@.take(i + 1).drop_last() =~= reports@.take(i as int));
                assert(reports@.take(i + 1).last() == reports@[i as int]);
            }
            if !self.is_ignored(filename, reports[i].pos.line) {
                out.push(i);
            }
            i = i + 1;
        }
        proof {
            assert(reports@.take(reports@.len() as int) =~= reports@);
        }
        out
    }

    /// The numbers of the lines that `from_csv` skips although they are not
    /// empty, so that a caller can warn about them.
    pub fn malformed_lines(csv: &str) -> (r: Vec<usize>)
        ensures
            r@ == malformed_positions(pieces(csv@, '\n')),
    {
        let chars = chars_of(csv);
        let lines = split_chars(chars.as_slice(), '\n');
        let ghost ls = pieces(csv@, '\n');
        let mut out: Vec<usize> = Vec::new();
        let mut i: usize = 0;
        while i < lines.len()
            invariant
                ls == views(lines@),
                i <= lines@.len(),
                out@ == malformed_positions(ls.take(i as int)),
            decreases lines.len() - i,
        {
            proof {
                assert(ls.take(i + 1).drop_last() =~= ls.take(i as int));
                assert(ls.take(i + 1).last() == lines@[i as int]@);
            }
            let line = &lines[i];
            let n = line.len();
            let empty = n == 0 || (n == 1 && line[0] == '\r');
            proof {
                assert(empty == (strip_cr(line@).len() == 0));
            }
            if !empty && !well_formed(line) {
                out.push(i + 1);
            }
            i = i + 1;
        }
        proof {
            assert(ls.take(ls.len() as int) =~= ls);
        }
        out
    }

    /// Whether a diagnostic at `line` of `filename` is suppressed: only ranges
    /// registered for exactly that file count.
    pub fn is_ignored(&self, filename: &str, line: usize) -> (r: bool)
        ensures
            r == self.covers(filename@, line as int),
    {
        let name = filename.to_owned();
        let mut i: usize = 0;
        while i < self.file_ranges.len()
            invariant
                name@ == filename@,
                i <= self.file_ranges@.len(),
                forall|a: int, b: int|
                    0 <= a < i && (#[trigger] self.file_ranges@[a]).file@ == filename@ && 0 <= b
                        < self.file_ranges@[a].ranges@.len() ==> !((#[trigger] self.file_ranges@[a].ranges@[b]).0
                        <= line <= self.file_ranges@[a].ranges@[b].1),
            decreases self.file_ranges.len() - i,
        {
            if self.file_ranges[i].file == name {
                let ranges = &self.file_ranges[i].ranges;
                let mut j: usize = 0;
                while j < ranges.len()
                    invariant
                        ranges == &self.file_ranges@[i as int].ranges,
                        self.file_ranges@[i as int].file@ == filename@,
                        i < self.file_ranges@.len(),
                        j <= ranges@.len(),
                        forall|b: int|
                            0 <= b < j ==> !((#[trigger] ranges@[b]).0 <= line <= ranges@[b].1),
                    decreases ranges.len() - j,
                {
                    let (start, end) = ranges[j];
                    if start <= line && line <= end {
                        return true;
                    }
                    j = j + 1;
                }
            }
            i = i + 1;
        }
        false
    }
}

} // verus!

//! Character-level helpers shared by the text-based passes.
use vstd::prelude::*;

verus! {

/// The characters of `s`, in order.
pub fn chars_of(s: &str) -> (r: Vec<char>)
    ensures
        r@ == s@,
{
    let mut out: Vec<char> = Vec::new();
    for c in iter: s.chars()
        invariant
            iter.seq() == s@,
            out@ == iter.seq().take(iter.index() as int),
    {
        proof {
            assert(iter.seq().take(iter.index() + 1) =~= out@.push(c));
        }
        out.push(c);
    }
    proof {
        assert(out@ =~= s@);
    }
    out
}

/// Relies on `String`'s `FromIterator<&char>`: the string holds the given characters in order.
#[verifier::external_body]
pub fn string_of(v: &[char]) -> (r: String)
    ensures
        r@ == v@,
{
    v.iter().collect()
}


/// The pieces of `s` between occurrences of `sep`, as `str::split` gives them:
/// there is always one more piece than there are separators.
pub open spec fn pieces(s: Seq<char>, sep: char) -> Seq<Seq<char>>
    decreases s.len(),
{
    if s.len() == 0 {
        seq![Seq::<char>::empty()]
    } else {
        let p = pieces(s.drop_last(), sep);
        if s.last() == sep {
            p.push(Seq::<char>::empty())
        } else {
            p.update(p.len() - 1, p.last().push(s.last()))
        }
    }
}

pub proof fn lemma_pieces_nonempty(s: Seq<char>, sep: char)
    ensures
        pieces(s, sep).len() >= 1,
    decreases s.len(),
{
    if s.len() > 0 {
        lemma_pieces_nonempty(s.drop_last(), sep);
    }
}

/// The decimal digits of `n`, as `Display` writes an unsigned integer.
pub open spec fn decimal(n: nat) -> Seq<char>
    decreases n,
{
    if n < 10 {
        seq![(('0' as nat) + n) as char]
    } else {
        decimal(n / 10) + seq![(('0' as nat) + n % 10) as char]
    }
}

/// `n`, or the largest `usize` where `n` does not fit.
pub open spec fn capped(n: int) -> usize {
    if n > usize::MAX {
        usize::MAX
    } else {
        n as usize
    }
}

/// The views of a vector of character vectors.
pub open spec fn views(v: Seq<Vec<char>>) -> Seq<Seq<char>> {
    v.map_values(|x: Vec<char>| x@)
}

/// Splits `s` at every `sep`.
pub fn split_chars(s: &[char], sep: char) -> (r: Vec<Vec<char>>)
    ensures
        views(r@) == pieces(s@, sep),
{
    let r = split_prefix(s, s.len(), sep);
    proof {
        assert(s@.take(s@.len() as int) =~= s@);
    }
    r
}

/// Splits the first `n` characters of `s` at every `sep`.
pub fn split_prefix(s: &[char], n: usize, sep: char) -> (r: Vec<Vec<char>>)
    requires
        n <= s@.len(),
    ensures
        views(r@) == pieces(s@.take(n as int), sep),
{
    let mut done: Vec<Vec<char>> = Vec::new();
    let mut cur: Vec<char> = Vec::new();
    let mut i: usize = 0;
    while i < n
        invariant
            i <= n <= s@.len(),
            views(done@).push(cur@) == pieces(s@.take(i as int), sep),
        decreases n - i,
    {
        let c = s[i];
        proof {
            assert(s@.take(i + 1).drop_last() =~= s@.take(i as int));
            lemma_pieces_nonempty(s@.take(i as int), sep);
        }
        if c == sep {
            let finished = cur;
            cur = Vec::new();
            done.push(finished);
            proof {
                assert(views(done@).push(cur@) =~= pieces(s@.take(i + 1), sep));
            }
        } else {
            cur.push(c);
            proof {
                assert(views(done@).push(cur@) =~= pieces(s@.take(i + 1), sep));
            }
        }
        i = i + 1;
    }
    done.push(cur);
    proof {
        assert(views(done@) =~= pieces(s@.take(n as int), sep));
    }
    done
}

} // verus!

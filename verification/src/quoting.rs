//! Single-quoting for the shell-based fallback backend.
//!
//! A value is made safe for interpolation into a single-line shell
//! command by wrapping it in single quotes and doubling every literal
//! single quote inside it (`'` becomes `''`).  The module also holds a
//! specification-level reader of that quoting, and the proof that
//! reading a quoted value yields the original back unchanged.

use vstd::prelude::*;

verus! {

/// `s` with every single quote doubled, the escape a single-quoted
/// shell literal requires.
pub open spec fn spec_doubled(s: Seq<char>) -> Seq<char>
    decreases s.len(),
{
    if s.len() == 0 {
        Seq::empty()
    } else if s[0] == '\'' {
        seq!['\'', '\''] + spec_doubled(s.skip(1))
    } else {
        seq![s[0]] + spec_doubled(s.skip(1))
    }
}

/// `s` as a single-quoted shell literal: wrapped in single quotes, with
/// inner quotes doubled.
pub open spec fn spec_quoted(s: Seq<char>) -> Seq<char> {
    seq!['\''] + spec_doubled(s) + seq!['\'']
}

/// Doubling distributes over concatenation.
pub proof fn lemma_doubled_concat(a: Seq<char>, b: Seq<char>)
    ensures
        spec_doubled(a + b) == spec_doubled(a) + spec_doubled(b),
    decreases a.len(),
{
    if a.len() == 0 {
        assert(a + b =~= b);
        assert(spec_doubled(a) + spec_doubled(b) =~= spec_doubled(b));
    } else {
        assert((a + b).skip(1) =~= a.skip(1) + b);
        lemma_doubled_concat(a.skip(1), b);
        if a[0] == '\'' {
            assert(spec_doubled(a + b) =~= spec_doubled(a) + spec_doubled(b));
        } else {
            assert(spec_doubled(a + b) =~= spec_doubled(a) + spec_doubled(b));
        }
    }
}

/// A quoting-aware reader positioned just after an opening single
/// quote: collects characters up to the closing quote, reading each
/// doubled quote as one literal quote.  Returns the value read and the
/// remainder after the closing quote.
pub open spec fn spec_read_quoted(t: Seq<char>) -> (Seq<char>, Seq<char>)
    decreases t.len(),
{
    if t.len() == 0 {
        (Seq::empty(), Seq::empty())
    } else if t[0] == '\'' {
        if t.len() >= 2 && t[1] == '\'' {
            let rec = spec_read_quoted(t.skip(2));
            (seq!['\''] + rec.0, rec.1)
        } else {
            (Seq::empty(), t.skip(1))
        }
    } else {
        let rec = spec_read_quoted(t.skip(1));
        (seq![t[0]] + rec.0, rec.1)
    }
}

/// Law: the reader inverts the quoting.  For any value `s`, reading the
/// doubled form followed by its closing quote and any remainder that
/// does not begin with a quote yields `s` itself and that remainder.
pub proof fn lemma_read_doubled(s: Seq<char>, u: Seq<char>)
    requires
        u.len() > 0 ==> u[0] != '\'',
    ensures
        spec_read_quoted(spec_doubled(s) + seq!['\''] + u) == (s, u),
    decreases s.len(),
{
    let t = spec_doubled(s) + seq!['\''] + u;
    if s.len() == 0 {
        assert(t =~= seq!['\''] + u);
        if u.len() == 0 {
            assert(spec_read_quoted(t) == (Seq::<char>::empty(), t.skip(1)));
            assert(t.skip(1) =~= u);
        } else {
            assert(t[1] == u[0]);
            assert(spec_read_quoted(t) == (Seq::<char>::empty(), t.skip(1)));
            assert(t.skip(1) =~= u);
        }
        assert(spec_read_quoted(t).0 =~= s);
    } else {
        lemma_read_doubled(s.skip(1), u);
        let t1 = spec_doubled(s.skip(1)) + seq!['\''] + u;
        if s[0] == '\'' {
            assert(spec_doubled(s) == seq!['\'', '\''] + spec_doubled(s.skip(1)));
            assert(t[0] == '\'' && t[1] == '\'');
            assert(t.skip(2) =~= t1);
            assert(spec_read_quoted(t).0 =~= seq!['\''] + s.skip(1));
            assert(seq!['\''] + s.skip(1) =~= s);
        } else {
            assert(spec_doubled(s) == seq![s[0]] + spec_doubled(s.skip(1)));
            assert(t[0] == s[0]);
            assert(t.skip(1) =~= t1);
            assert(spec_read_quoted(t).0 =~= seq![s[0]] + s.skip(1));
            assert(seq![s[0]] + s.skip(1) =~= s);
        }
    }
}

/// Law: quoting round-trip.  A quoted value starts and ends with a
/// single quote, and reading the part between them yields the original
/// value, whatever quotes it contains.
pub proof fn lemma_quote_round_trip(s: Seq<char>)
    ensures
        spec_quoted(s).len() >= 2,
        spec_quoted(s)[0] == '\'',
        spec_quoted(s).last() == '\'',
        spec_read_quoted(spec_quoted(s).skip(1)) == (s, Seq::<char>::empty()),
{
    let q = spec_quoted(s);
    assert(q.skip(1) =~= spec_doubled(s) + seq!['\''] + Seq::<char>::empty());
    lemma_read_doubled(s, Seq::<char>::empty());
}

/// Wraps `s` in single quotes, doubling every single quote inside it.
pub fn quote_single(s: &str) -> (r: String)
    ensures
        r@ == spec_quoted(s@),
{
    let n = s.unicode_len();
    let mut r = String::new();
    r.append("'");
    proof {
        reveal_strlit("'");
        assert(r@ =~= seq!['\''] + spec_doubled(s@.take(0)));
    }
    let mut i: usize = 0;
    while i < n
        invariant
            n == s@.len(),
            0 <= i <= n,
            r@ == seq!['\''] + spec_doubled(s@.take(i as int)),
        decreases n - i,
    {
        let c = s.get_char(i);
        if c == '\'' {
            r.append("''");
            proof {
                reveal_strlit("''");
            }
        } else {
            let piece = s.substring_char(i, i + 1);
            r.append(piece);
        }
        proof {
            let prefix = s@.take(i as int);
            let unit = seq![s@[i as int]];
            assert(s@.take(i + 1) =~= prefix + unit);
            lemma_doubled_concat(prefix, unit);
            assert(unit.skip(1) =~= Seq::<char>::empty());
            assert(spec_doubled(Seq::<char>::empty()) =~= Seq::<char>::empty());
            if s@[i as int] == '\'' {
                assert(spec_doubled(unit) =~= seq!['\'', '\'']);
                assert(r@ =~= seq!['\''] + spec_doubled(s@.take(i + 1)));
            } else {
                assert(spec_doubled(unit) =~= unit);
                assert(s@.subrange(i as int, i + 1) =~= unit);
                assert(r@ =~= seq!['\''] + spec_doubled(s@.take(i + 1)));
            }
        }
        i += 1;
    }
    r.append("'");
    proof {
        reveal_strlit("'");
        assert(s@.take(n as int) =~= s@);
        assert(r@ =~= spec_quoted(s@));
    }
    r
}

} // verus!

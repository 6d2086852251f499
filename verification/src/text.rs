//! Byte-level line splitting and tokenizing for OBJ/MTL sources.

use vstd::prelude::*;

verus! {

/// Whether a byte separates tokens inside one line: space, horizontal tab,
/// vertical tab, form feed or carriage return.
pub open spec fn is_space(b: u8) -> bool {
    b == 32 || b == 9 || b == 11 || b == 12 || b == 13
}

/// Exec mirror of `is_space`.
pub fn byte_is_space(b: u8) -> (r: bool)
    ensures
        r == is_space(b),
{
    b == 32 || b == 9 || b == 11 || b == 12 || b == 13
}

/// The parts of a byte stream, split on the separator `sep`; the separator
/// is kept in no part, and the (possibly empty) text after the last
/// separator is the last part.
pub open spec fn split_sep(s: Seq<u8>, sep: u8) -> Seq<Seq<u8>>
    decreases s.len(),
{
    if s.len() == 0 {
        seq![Seq::<u8>::empty()]
    } else if s[0] == sep {
        seq![Seq::<u8>::empty()] + split_sep(s.skip(1), sep)
    } else {
        let rest = split_sep(s.skip(1), sep);
        seq![seq![s[0]] + rest[0]] + rest.skip(1)
    }
}

/// The lines of a byte stream, split on line feeds.
pub open spec fn lines_of(s: Seq<u8>) -> Seq<Seq<u8>> {
    split_sep(s, 10)
}

pub proof fn lemma_split_sep_len(s: Seq<u8>, sep: u8)
    ensures
        split_sep(s, sep).len() >= 1,
    decreases s.len(),
{
    if s.len() == 0 {
    } else {
        lemma_split_sep_len(s.skip(1), sep);
    }
}

/// The tokens of one line: maximal runs of non-separator bytes.
pub open spec fn tokens_of(s: Seq<u8>) -> Seq<Seq<u8>>
    decreases s.len(),
{
    if s.len() == 0 {
        seq![]
    } else if is_space(s[0]) {
        tokens_of(s.skip(1))
    } else {
        let rest = tokens_of(s.skip(1));
        if s.len() == 1 || is_space(s[1]) {
            seq![seq![s[0]]] + rest
        } else {
            seq![seq![s[0]] + rest[0]] + rest.skip(1)
        }
    }
}

/// Every token is a nonempty run.
pub proof fn lemma_tokens_nonempty(s: Seq<u8>)
    ensures
        forall|i: int| 0 <= i < tokens_of(s).len() ==> #[trigger] tokens_of(s)[i].len() >= 1,
    decreases s.len(),
{
    if s.len() == 0 {
    } else {
        lemma_tokens_nonempty(s.skip(1));
        let ts = tokens_of(s);
        let rest = tokens_of(s.skip(1));
        if !is_space(s[0]) {
            if s.len() == 1 || is_space(s[1]) {
                assert forall|i: int| 0 <= i < ts.len() implies ts[i].len() >= 1 by {
                    if i > 0 {
                        assert(ts[i] == rest[i - 1]);
                    }
                }
            } else {
                assert forall|i: int| 0 <= i < ts.len() implies ts[i].len() >= 1 by {
                    if i > 0 {
                        assert(ts[i] == rest.skip(1)[i - 1]);
                        assert(rest.skip(1)[i - 1] == rest[i]);
                    }
                }
            }
        }
    }
}

/// Skipping one leading separator keeps the tokens.
pub proof fn lemma_tokens_skip_space(s: Seq<u8>)
    requires
        s.len() > 0,
        is_space(s[0]),
    ensures
        tokens_of(s) == tokens_of(s.skip(1)),
{
}

/// A maximal non-separator prefix of length `k` is the first token.
pub proof fn lemma_tokens_take_token(s: Seq<u8>, k: int)
    requires
        0 < k <= s.len(),
        forall|j: int| 0 <= j < k ==> !is_space(s[j]),
        k == s.len() || is_space(s[k]),
    ensures
        tokens_of(s) == seq![s.take(k)] + tokens_of(s.skip(k)),
    decreases k,
{
    if k == 1 {
        assert(s.take(1) =~~= seq![s[0]]);
        if s.len() == 1 {
            assert(tokens_of(s) =~~= seq![seq![s[0]]] + tokens_of(s.skip(1)));
        }
    } else {
        let t = s.skip(1);
        lemma_tokens_take_token(t, k - 1);
        assert(t.skip(k - 1) =~~= s.skip(k));
        assert(seq![s[0]] + t.take(k - 1) =~~= s.take(k));
        assert(tokens_of(s)[0] == seq![s[0]] + tokens_of(t)[0]);
        assert(tokens_of(t)[0] == t.take(k - 1));
        assert(tokens_of(s) =~~= seq![s.take(k)] + tokens_of(s.skip(k)));
    }
}

/// Whether two byte strings hold the same bytes.
pub fn bytes_eq(a: &[u8], b: &[u8]) -> (r: bool)
    ensures
        r == (a@ == b@),
{
    if a.len() != b.len() {
        return false;
    }
    let mut i: usize = 0;
    while i < a.len()
        invariant
            0 <= i <= a@.len(),
            a@.len() == b@.len(),
            forall|j: int| 0 <= j < i ==> a@[j] == b@[j],
        decreases a@.len() - i,
    {
        if a[i] != b[i] {
            return false;
        }
        i = i + 1;
    }
    proof {
        assert(a@ =~= b@);
    }
    true
}

/// Splits a byte stream on a separator byte.
pub fn split_bytes(input: &[u8], sep: u8) -> (r: Vec<Vec<u8>>)
    ensures
        r.deep_view() == split_sep(input@, sep),
        r.len() >= 1,
{
    let mut out: Vec<Vec<u8>> = Vec::new();
    let mut cur: Vec<u8> = Vec::new();
    let mut i: usize = 0;
    proof {
        assert(input@.skip(0) =~~= input@);
    }
    while i < input.len()
        invariant
            0 <= i <= input@.len(),
            split_sep(input@, sep) =~~= out.deep_view() + seq![cur@ + split_sep(input@.skip(i as int), sep)[0]]
                + split_sep(input@.skip(i as int), sep).skip(1),
        decreases input@.len() - i,
    {
        proof {
            assert(input@.skip(i as int).skip(1) =~~= input@.skip(i + 1));
            lemma_split_sep_len(input@.skip(i + 1), sep);
        }
        let ghost prev_out = out.deep_view();
        let ghost prev_cur = cur@;
        let b = input[i];
        if b == sep {
            out.push(cur);
            cur = Vec::new();
            proof {
                assert(out.deep_view() =~~= prev_out.push(prev_cur));
                assert(prev_cur + split_sep(input@.skip(i as int), sep)[0] =~~= prev_cur);
            }
        } else {
            cur.push(b);
            proof {
                assert(cur@ + split_sep(input@.skip(i + 1), sep)[0] =~~= prev_cur + split_sep(
                    input@.skip(i as int),
                    sep,
                )[0]);
            }
        }
        i = i + 1;
    }
    proof {
        assert(input@.skip(i as int) =~~= Seq::<u8>::empty());
        assert(cur@ + split_sep(input@.skip(i as int), sep)[0] =~~= cur@);
    }
    let ghost prev_out = out.deep_view();
    let ghost prev_cur = cur@;
    out.push(cur);
    proof {
        assert(out.deep_view() =~~= prev_out.push(prev_cur));
        assert(split_sep(input@, sep) =~~= out.deep_view());
    }
    out
}

/// Splits one line into its tokens.
pub fn tokenize(line: &[u8]) -> (r: Vec<Vec<u8>>)
    ensures
        r.deep_view() == tokens_of(line@),
{
    let mut out: Vec<Vec<u8>> = Vec::new();
    let mut i: usize = 0;
    proof {
        assert(line@.skip(0) =~~= line@);
    }
    while i < line.len()
        invariant
            0 <= i <= line@.len(),
            tokens_of(line@) =~~= out.deep_view() + tokens_of(line@.skip(i as int)),
        decreases line@.len() - i,
    {
        if byte_is_space(line[i]) {
            proof {
                lemma_tokens_skip_space(line@.skip(i as int));
                assert(line@.skip(i as int).skip(1) =~~= line@.skip(i + 1));
            }
            i = i + 1;
        } else {
            let start = i;
            let mut cur: Vec<u8> = Vec::new();
            while i < line.len() && !byte_is_space(line[i])
                invariant
                    0 <= start <= i <= line@.len(),
                    start < line@.len(),
                    cur@ =~~= line@.subrange(start as int, i as int),
                    forall|j: int| start <= j < i ==> !is_space(line@[j]),
                decreases line@.len() - i,
            {
                cur.push(line[i]);
                i = i + 1;
            }
            proof {
                let rem = line@.skip(start as int);
                let k = i - start;
                assert forall|j: int| 0 <= j < k implies !is_space(rem[j]) by {
                    assert(rem[j] == line@[start + j]);
                }
                lemma_tokens_take_token(rem, k as int);
                assert(rem.take(k as int) =~~= cur@);
                assert(rem.skip(k as int) =~~= line@.skip(i as int));
            }
            let ghost prev_out = out.deep_view();
            let ghost prev_cur = cur@;
            out.push(cur);
            proof {
                assert(out.deep_view() =~~= prev_out.push(prev_cur));
                assert(out.deep_view() + tokens_of(line@.skip(i as int)) =~~= prev_out + (seq![
                    prev_cur,
                ] + tokens_of(line@.skip(i as int))));
            }
        }
    }
    proof {
        assert(line@.skip(i as int) =~~= Seq::<u8>::empty());
        assert(tokens_of(line@) =~~= out.deep_view());
    }
    out
}

/// Splits a byte stream into its lines.
pub fn split_lines(input: &[u8]) -> (r: Vec<Vec<u8>>)
    ensures
        r.deep_view() == lines_of(input@),
        r.len() >= 1,
{
    split_bytes(input, 10)
}

} // verus!

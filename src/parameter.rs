use vstd::prelude::*;
use crate::text::{chars_of, string_of};

verus! {

/// Error of parameter substitution.
#[derive(Clone, Copy, Debug, PartialEq, Eq, Structural)]
pub enum ParameterError {
    /// A `$` is not followed by a positive decimal index.
    BadReference,
    /// A `$n` reference names a parameter that was not bound.
    MissingParameter,
}

/// Scans `s` for space-separated words: the words completed so far and the word being read.
pub open spec fn scan(s: Seq<char>) -> (Seq<Seq<char>>, Seq<char>)
    decreases s.len(),
{
    if s.len() == 0 {
        (Seq::empty(), Seq::empty())
    } else {
        let prev = scan(s.take(s.len() - 1));
        let c = s[s.len() - 1];
        if c == ' ' {
            if prev.1.len() > 0 {
                (prev.0.push(prev.1), Seq::empty())
            } else {
                prev
            }
        } else {
            (prev.0, prev.1.push(c))
        }
    }
}

/// The non-empty runs of `s` between spaces, in order.
pub open spec fn words(s: Seq<char>) -> Seq<Seq<char>> {
    let r = scan(s);
    if r.1.len() > 0 {
        r.0.push(r.1)
    } else {
        r.0
    }
}

pub open spec fn is_digit(c: char) -> bool {
    '0' <= c && c <= '9'
}

pub open spec fn all_digits(ds: Seq<char>) -> bool {
    forall|k: int| 0 <= k < ds.len() ==> is_digit(#[trigger] ds[k])
}

/// The value of a decimal numeral.
pub open spec fn digits_value(ds: Seq<char>) -> int
    decreases ds.len(),
{
    if ds.len() == 0 {
        0
    } else {
        digits_value(ds.take(ds.len() - 1)) * 10 + (ds[ds.len() - 1] as int - '0' as int)
    }
}

/// One word with its `$n` reference, if it is one, replaced by the `n`-th
/// parameter (counted from 1); a null parameter is replaced by nothing.
pub open spec fn substitute_word(w: Seq<char>, params: Seq<Option<Seq<char>>>) -> Result<
    Seq<char>,
    ParameterError,
> {
    if w.len() > 0 && w[0] == '$' {
        let ds = w.drop_first();
        if ds.len() == 0 || !all_digits(ds) || digits_value(ds) == 0 {
            Err(ParameterError::BadReference)
        } else if digits_value(ds) > params.len() {
            Err(ParameterError::MissingParameter)
        } else {
            match params[digits_value(ds) - 1] {
                Some(p) => Ok(p),
                None => Ok(Seq::empty()),
            }
        }
    } else {
        Ok(w)
    }
}

/// The substituted words, each followed by one space; the first failing word decides the error.
pub open spec fn substitute_words(ws: Seq<Seq<char>>, params: Seq<Option<Seq<char>>>) -> Result<
    Seq<char>,
    ParameterError,
>
    decreases ws.len(),
{
    if ws.len() == 0 {
        Ok(Seq::empty())
    } else {
        match substitute_words(ws.take(ws.len() - 1), params) {
            Err(e) => Err(e),
            Ok(acc) => match substitute_word(ws[ws.len() - 1], params) {
                Err(e) => Err(e),
                Ok(x) => Ok(acc + x + seq![' ']),
            },
        }
    }
}

pub open spec fn params_view(params: Seq<Option<String>>) -> Seq<Option<Seq<char>>> {
    params.map_values(
        |o: Option<String>|
            match o {
                Some(s) => Some(s@),
                None => None,
            },
    )
}

proof fn lemma_digits_monotone(ds: Seq<char>, k: int)
    requires
        0 <= k <= ds.len(),
        all_digits(ds),
    ensures
        digits_value(ds.take(k)) <= digits_value(ds),
        0 <= digits_value(ds.take(k)),
    decreases ds.len() - k,
{
    if k < ds.len() {
        lemma_digits_monotone(ds, k + 1);
        assert(ds.take(k + 1).take(k) =~= ds.take(k));
        assert(is_digit(ds[k]));
    } else {
        assert(ds.take(k) =~= ds);
        lemma_digits_nonneg(ds);
    }
}

proof fn lemma_digits_nonneg(ds: Seq<char>)
    requires
        all_digits(ds),
    ensures
        0 <= digits_value(ds),
    decreases ds.len(),
{
    if ds.len() > 0 {
        let n = ds.len() - 1;
        assert(all_digits(ds.take(n)));
        lemma_digits_nonneg(ds.take(n));
        assert(is_digit(ds[n]));
    }
}

/// Once a prefix of the words fails, the whole fails with the same error.
proof fn lemma_error_persists(ws: Seq<Seq<char>>, params: Seq<Option<Seq<char>>>, k: int)
    requires
        0 <= k <= ws.len(),
        substitute_words(ws.take(k), params) is Err,
    ensures
        substitute_words(ws, params) == substitute_words(ws.take(k), params),
    decreases ws.len() - k,
{
    if k < ws.len() {
        assert(ws.take(k + 1).take(k) =~= ws.take(k));
        lemma_error_persists(ws, params, k + 1);
    } else {
        assert(ws.take(k) =~= ws);
    }
}

fn push_all(out: &mut Vec<char>, xs: &Vec<char>)
    ensures
        final(out)@ == old(out)@ + xs@,
{
    let ghost start = out@;
    let mut i: usize = 0;
    while i < xs.len()
        invariant
            i <= xs@.len(),
            out@ == start + xs@.take(i as int),
        decreases xs@.len() - i,
    {
        out.push(xs[i]);
        i = i + 1;
        assert(out@ =~= start + xs@.take(i as int));
    }
    assert(xs@.take(i as int) =~= xs@);
}

/// The words of `cs`.
fn split_words(cs: &Vec<char>) -> (r: Vec<Vec<char>>)
    ensures
        r@.map_values(|w: Vec<char>| w@) == words(cs@),
{
    let mut done: Vec<Vec<char>> = Vec::new();
    let mut cur: Vec<char> = Vec::new();
    let mut i: usize = 0;
    while i < cs.len()
        invariant
            i <= cs@.len(),
            (done@.map_values(|w: Vec<char>| w@), cur@) == scan(cs@.take(i as int)),
        decreases cs@.len() - i,
    {
        let ghost d0 = done@;
        assert(cs@.take(i + 1).take(i as int) =~= cs@.take(i as int));
        if cs[i] == ' ' {
            if cur.len() > 0 {
                let w = cur;
                done.push(w);
                cur = Vec::new();
                assert(done@.map_values(|w: Vec<char>| w@) =~= d0.map_values(|w: Vec<char>| w@).push(
                    w@,
                ));
            }
        } else {
            cur.push(cs[i]);
        }
        i = i + 1;
    }
    assert(cs@.take(i as int) =~= cs@);
    if cur.len() > 0 {
        let ghost d0 = done@;
        let w = cur;
        done.push(w);
        assert(done@.map_values(|w: Vec<char>| w@) =~= d0.map_values(|w: Vec<char>| w@).push(w@));
    }
    done
}

/// The word `w` with its parameter reference replaced.
fn substitute(w: &Vec<char>, params: &Vec<Option<String>>) -> (r: Result<Vec<char>, ParameterError>)
    ensures
        match substitute_word(w@, params_view(params@)) {
            Ok(x) => r is Ok && r->Ok_0@ == x,
            Err(e) => r == Err::<Vec<char>, ParameterError>(e),
        },
{
    if w.len() == 0 || w[0] != '$' {
        let mut copy: Vec<char> = Vec::new();
        push_all(&mut copy, w);
        return Ok(copy);
    }
    let ghost ds = w@.drop_first();
    if w.len() == 1 {
        assert(ds.len() == 0);
        return Err(ParameterError::BadReference);
    }
    let mut i: usize = 1;
    while i < w.len()
        invariant
            1 <= i <= w@.len(),
            w@.len() > 1 && w@[0] == '$',
            ds == w@.drop_first(),
            forall|k: int| 0 <= k < i - 1 ==> is_digit(#[trigger] ds[k]),
        decreases w@.len() - i,
    {
        if !('0' <= w[i] && w[i] <= '9') {
            assert(!is_digit(ds[i - 1]));
            assert(!all_digits(ds));
            return Err(ParameterError::BadReference);
        }
        i = i + 1;
    }
    assert(all_digits(ds));
    let n = params.len();
    let mut v: usize = 0;
    let mut j: usize = 1;
    while j < w.len()
        invariant
            1 <= j <= w@.len(),
            w@.len() > 1 && w@[0] == '$',
            ds == w@.drop_first(),
            all_digits(ds),
            n == params@.len(),
            v as int == digits_value(ds.take(j - 1)),
            v <= n,
        decreases w@.len() - j,
    {
        assert(ds.take(j as int).take(j - 1) =~= ds.take(j - 1));
        assert(is_digit(ds[j - 1]));
        assert(w@[j as int] == ds[j - 1]);
        let d = (w[j] as u32 - '0' as u32) as usize;
        assert(digits_value(ds.take(j as int)) == v * 10 + d);
        if v > n / 10 {
            proof {
                assert(v * 10 > n) by (nonlinear_arith)
                    requires
                        v > n / 10,
                ;
                lemma_digits_monotone(ds, j as int);
            }
            return Err(ParameterError::MissingParameter);
        }
        assert(v * 10 <= n) by (nonlinear_arith)
            requires
                v <= n / 10,
        ;
        let t = v * 10;
        if d > n - t {
            proof {
                lemma_digits_monotone(ds, j as int);
            }
            return Err(ParameterError::MissingParameter);
        }
        v = t + d;
        j = j + 1;
    }
    assert(ds.take(j - 1) =~= ds);
    if v == 0 {
        return Err(ParameterError::BadReference);
    }
    match &params[v - 1] {
        Some(p) => Ok(chars_of(p.as_str())),
        None => Ok(Vec::new()),
    }
}

/// Substitutes the bound parameters into `statement`: each `$n` word (counted
/// from 1) is replaced by the `n`-th parameter's text, a null parameter by
/// nothing; words are rejoined with one space after each.
pub fn make_qeury(statement: &str, params: &Vec<Option<String>>) -> (r: Result<String, ParameterError>)
    ensures
        match substitute_words(words(statement@), params_view(params@)) {
            Ok(x) => r is Ok && r->Ok_0@ == x,
            Err(e) => r == Err::<String, ParameterError>(e),
        },
{
    let cs = chars_of(statement);
    let ws = split_words(&cs);
    let ghost wv = ws@.map_values(|w: Vec<char>| w@);
    let mut out: Vec<char> = Vec::new();
    let mut i: usize = 0;
    while i < ws.len()
        invariant
            i <= ws@.len(),
            wv == ws@.map_values(|w: Vec<char>| w@),
            wv == words(statement@),
            substitute_words(wv.take(i as int), params_view(params@)) == Ok::<
                Seq<char>,
                ParameterError,
            >(out@),
        decreases ws@.len() - i,
    {
        assert(wv.take(i + 1).take(i as int) =~= wv.take(i as int));
        assert(wv.take(i + 1)[i as int] == ws@[i as int]@);
        match substitute(&ws[i], params) {
            Ok(x) => {
                let ghost o0 = out@;
                push_all(&mut out, &x);
                out.push(' ');
                assert(out@ =~= o0 + x@ + seq![' ']);
            },
            Err(e) => {
                proof {
                    assert(substitute_words(wv.take(i + 1), params_view(params@)) == Err::<
                        Seq<char>,
                        ParameterError,
                    >(e));
                    lemma_error_persists(wv, params_view(params@), i + 1);
                    assert(wv.take(ws@.len() as int) =~= wv);
                }
                return Err(e);
            },
        }
        i = i + 1;
    }
    assert(wv.take(i as int) =~= wv);
    Ok(string_of(out.as_slice()))
}

} // verus!

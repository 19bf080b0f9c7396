//! String transformations used for the derived document values: ASCII
//! sanitizing for the document identifier, comma splitting for country
//! lists, and the two-letter language code prefix.

use vstd::prelude::*;

use crate::strutil::chars_to_string;

verus! {

/// Whether `c` is an ASCII letter or digit.
pub open spec fn is_alnum(c: char) -> bool {
    (97 <= c as u32 && c as u32 <= 122) || (65 <= c as u32 && c as u32 <= 90) || (48 <= c as u32
        && c as u32 <= 57)
}

/// The subsequence of ASCII letters and digits of `s`, in order.
pub open spec fn sanitize(s: Seq<char>) -> Seq<char>
    decreases s.len(),
{
    if s.len() == 0 {
        Seq::<char>::empty()
    } else if is_alnum(s.last()) {
        sanitize(s.drop_last()).push(s.last())
    } else {
        sanitize(s.drop_last())
    }
}

/// The first `n` characters of `s`, or all of it when it is shorter.
pub open spec fn prefix_of(s: Seq<char>, n: int) -> Seq<char> {
    if s.len() <= n {
        s
    } else {
        s.take(n)
    }
}

pub proof fn lemma_sanitize_push(s: Seq<char>, c: char)
    ensures
        sanitize(s.push(c)) == if is_alnum(c) {
            sanitize(s).push(c)
        } else {
            sanitize(s)
        },
{
    assert(s.push(c).drop_last() =~= s);
    assert(s.push(c).last() == c);
}

/// Every character of a sanitized sequence is an ASCII letter or digit, and
/// sanitizing cannot lengthen a sequence.
pub proof fn lemma_sanitize_wf(s: Seq<char>)
    ensures
        sanitize(s).len() <= s.len(),
        forall|i: int| 0 <= i < sanitize(s).len() ==> is_alnum(#[trigger] sanitize(s)[i]),
    decreases s.len(),
{
    if s.len() > 0 {
        lemma_sanitize_wf(s.drop_last());
    }
}

fn exec_is_alnum(c: char) -> (r: bool)
    ensures
        r == is_alnum(c),
{
    let u = c as u32;
    (97 <= u && u <= 122) || (65 <= u && u <= 90) || (48 <= u && u <= 57)
}

/// Keeps the ASCII letters and digits of `s`, truncated to the first `limit`
/// of them.
pub fn sanitize_prefix(s: &str, limit: usize) -> (r: String)
    ensures
        r@ == prefix_of(sanitize(s@), limit as int),
{
    let n = s.unicode_len();
    let mut out: Vec<char> = Vec::new();
    let mut i: usize = 0;
    proof {
        assert(s@.take(0) =~= Seq::<char>::empty());
    }
    while i < n
        invariant
            n == s@.len(),
            i <= n,
            out@ == prefix_of(sanitize(s@.take(i as int)), limit as int),
            out@.len() <= limit,
        decreases n - i,
    {
        let c = s.get_char(i);
        proof {
            assert(s@.take(i + 1 as int) =~= s@.take(i as int).push(c));
            lemma_sanitize_push(s@.take(i as int), c);
        }
        if exec_is_alnum(c) && out.len() < limit {
            out.push(c);
        }
        proof {
            let prev = sanitize(s@.take(i as int));
            let cur = sanitize(s@.take(i + 1 as int));
            if is_alnum(c) && prev.len() >= limit {
                assert(cur.take(limit as int) =~= prev.take(limit as int));
            }
        }
        i = i + 1;
    }
    proof {
        assert(s@.take(n as int) =~= s@);
    }
    chars_to_string(&out)
}

/// The tokens of `s` between commas, in order, kept verbatim: splitting the
/// empty sequence gives one empty token, and consecutive commas give empty
/// tokens between them.
pub open spec fn split_commas(s: Seq<char>) -> Seq<Seq<char>>
    decreases s.len(),
{
    if s.len() == 0 {
        seq![Seq::<char>::empty()]
    } else if s[0] == ',' {
        seq![Seq::<char>::empty()] + split_commas(s.drop_first())
    } else {
        let rest = split_commas(s.drop_first());
        seq![seq![s[0]] + rest[0]] + rest.drop_first()
    }
}

/// Splits `s` on `','`, keeping every token verbatim, empty ones included.
pub fn split_commas_exec(s: &str) -> (v: Vec<String>)
    ensures
        v.deep_view() == split_commas(s@),
{
    let n = s.unicode_len();
    let mut toks: Vec<Vec<char>> = Vec::new();
    toks.push(Vec::new());
    proof {
        assert(s@.skip(n as int) =~= Seq::<char>::empty());
        assert(toks.deep_view() =~~= split_commas(s@.skip(n as int)));
    }
    let mut i: usize = n;
    while i > 0
        invariant
            n == s@.len(),
            i <= n,
            toks.len() >= 1,
            toks.deep_view() == split_commas(s@.skip(i as int)),
        decreases i,
    {
        i = i - 1;
        let c = s.get_char(i);
        proof {
            assert(s@.skip(i as int)[0] == s@[i as int]);
            assert(s@.skip(i as int).drop_first() =~= s@.skip(i + 1 as int));
        }
        if c == ',' {
            toks.insert(0, Vec::new());
            proof {
                assert(toks.deep_view() =~~= split_commas(s@.skip(i as int)));
            }
        } else {
            let ghost rest = split_commas(s@.skip(i + 1 as int));
            let mut head: Vec<char> = toks.remove(0);
            head.insert(0, c);
            toks.insert(0, head);
            proof {
                assert(head.deep_view() =~~= seq![c] + rest[0]);
                assert(toks.deep_view() =~~= seq![seq![c] + rest[0]] + rest.drop_first());
            }
        }
    }
    proof {
        assert(s@.skip(0) =~= s@);
    }
    let mut out: Vec<String> = Vec::new();
    let mut j: usize = 0;
    while j < toks.len()
        invariant
            j <= toks.len(),
            out.deep_view() == toks.deep_view().take(j as int),
        decreases toks.len() - j,
    {
        let t = chars_to_string(&toks[j]);
        proof {
            assert(t.deep_view() =~~= toks.deep_view()[j as int]);
        }
        out.push(t);
        proof {
            assert(toks.deep_view().take(j + 1 as int) =~= toks.deep_view().take(j as int).push(
                toks.deep_view()[j as int],
            ));
            assert(out.deep_view() =~~= toks.deep_view().take(j as int).push(
                toks.deep_view()[j as int],
            ));
        }
        j = j + 1;
    }
    proof {
        assert(toks.deep_view().take(toks.len() as int) =~~= toks.deep_view());
    }
    out
}

/// The first two characters of `s`, or all of it when it is shorter.
pub fn two_char_prefix(s: &str) -> (r: String)
    ensures
        r@ == prefix_of(s@, 2),
{
    let n = s.unicode_len();
    if n <= 2 {
        let mut out: Vec<char> = Vec::new();
        let mut i: usize = 0;
        while i < n
            invariant
                n == s@.len(),
                i <= n,
                out@ == s@.take(i as int),
            decreases n - i,
        {
            let c = s.get_char(i);
            out.push(c);
            proof {
                assert(s@.take(i + 1 as int) =~= s@.take(i as int).push(c));
            }
            i = i + 1;
        }
        proof {
            assert(s@.take(n as int) =~= s@);
        }
        chars_to_string(&out)
    } else {
        let sub = s.substring_char(0, 2);
        let r = sub.to_owned();
        proof {
            assert(s@.subrange(0, 2) =~= s@.take(2));
        }
        r
    }
}

} // verus!

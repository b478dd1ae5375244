//! Building request text: decimal renderings of integers and query strings.
use vstd::prelude::*;

verus! {

pub open spec fn digit_char(d: nat) -> char {
    seq!['0', '1', '2', '3', '4', '5', '6', '7', '8', '9'][d as int]
}

/// The decimal rendering of a natural number, without leading zeros.
pub open spec fn nat_text(n: nat) -> Seq<char>
    decreases n,
{
    if n < 10 {
        seq![digit_char(n)]
    } else {
        nat_text(n / 10) + seq![digit_char(n % 10)]
    }
}

/// The decimal rendering of an integer, with a leading `-` when negative.
pub open spec fn int_text(i: int) -> Seq<char> {
    if i < 0 {
        seq!['-'] + nat_text((-i) as nat)
    } else {
        nat_text(i as nat)
    }
}

/// `key=value`.
pub open spec fn pair_text(p: (Seq<char>, Seq<char>)) -> Seq<char> {
    p.0 + seq!['='] + p.1
}

/// The pairs as `key=value`, joined by `&`, in the order given.
pub open spec fn query_text(ps: Seq<(Seq<char>, Seq<char>)>) -> Seq<char>
    decreases ps.len(),
{
    if ps.len() == 0 {
        Seq::empty()
    } else if ps.len() == 1 {
        pair_text(ps[0])
    } else {
        query_text(ps.drop_last()) + seq!['&'] + pair_text(ps.last())
    }
}

pub proof fn lemma_nat_text_first(n: nat)
    ensures
        nat_text(n).len() > 0,
        '0' <= nat_text(n)[0] <= '9',
    decreases n,
{
    if n >= 10 {
        lemma_nat_text_first(n / 10);
    }
}

/// Appends the decimal rendering of `n`.
pub fn push_nat_text(out: &mut String, n: u64)
    ensures
        final(out)@ == old(out)@ + nat_text(n as nat),
    decreases n,
{
    if n >= 10 {
        push_nat_text(out, n / 10);
    }
    let d = (n % 10) as usize;
    let digits = "0123456789";
    proof {
        reveal_strlit("0123456789");
        assert(digits@ =~= seq!['0', '1', '2', '3', '4', '5', '6', '7', '8', '9']);
    }
    let one = digits.substring_char(d, d + 1);
    proof {
        assert(one@ =~= seq![digit_char(d as nat)]);
    }
    out.append(one);
    proof {
        assert(final(out)@ =~= old(out)@ + nat_text(n as nat));
    }
}

/// Appends the decimal rendering of `i`.
pub fn push_int_text(out: &mut String, i: i64)
    ensures
        final(out)@ == old(out)@ + int_text(i as int),
{
    if i < 0 {
        let minus = "-";
        proof {
            reveal_strlit("-");
        }
        out.append(minus);
        let m = (0i128 - i as i128) as u64;
        push_nat_text(out, m);
        proof {
            assert(final(out)@ =~= old(out)@ + int_text(i as int));
        }
    } else {
        push_nat_text(out, i as u64);
    }
}

/// The decimal rendering of `i`.
pub fn int_to_text(i: i64) -> (r: String)
    ensures
        r@ == int_text(i as int),
{
    let mut out = String::new();
    push_int_text(&mut out, i);
    proof {
        assert(out@ =~= int_text(i as int));
    }
    out
}

/// Whether two texts are equal, character by character.
pub fn text_eq(a: &str, b: &str) -> (r: bool)
    ensures
        r == (a@ == b@),
{
    let n = a.unicode_len();
    if n != b.unicode_len() {
        return false;
    }
    let mut i: usize = 0;
    while i < n
        invariant
            n == a@.len(),
            n == b@.len(),
            i <= n,
            forall|j: int| 0 <= j < i ==> a@[j] == b@[j],
        decreases n - i,
    {
        if a.get_char(i) != b.get_char(i) {
            return false;
        }
        i = i + 1;
    }
    proof {
        assert(a@ =~= b@);
    }
    true
}

/// The pairs as a query string: `key=value` joined by `&`.
pub fn query_string(params: &Vec<(String, String)>) -> (r: String)
    ensures
        r@ == query_text(params.deep_view()),
{
    let ghost dv = params.deep_view();
    let mut out = String::new();
    let mut i: usize = 0;
    let amp = "&";
    let eq = "=";
    proof {
        reveal_strlit("&");
        reveal_strlit("=");
    }
    while i < params.len()
        invariant
            i <= params@.len(),
            amp@ == seq!['&'],
            eq@ == seq!['='],
            dv == params.deep_view(),
            dv.len() == params@.len(),
            out@ == query_text(dv.subrange(0, i as int)),
        decreases params@.len() - i,
    {
        let ghost before = out@;
        if i > 0 {
            out.append(amp);
        }
        out.append(params[i].0.as_str());
        out.append(eq);
        out.append(params[i].1.as_str());
        proof {
            let ps = dv.subrange(0, i + 1);
            assert(ps.drop_last() =~= dv.subrange(0, i as int));
            assert(ps.last() == dv[i as int]);
            assert(dv[i as int] == (params@[i as int].0@, params@[i as int].1@));
            if i == 0 {
                assert(out@ =~= pair_text(ps[0]));
            } else {
                assert(out@ =~= before + seq!['&'] + pair_text(ps.last()));
            }
        }
        i = i + 1;
    }
    proof {
        assert(dv.subrange(0, dv.len() as int) =~= dv);
    }
    out
}

} // verus!

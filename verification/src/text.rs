//! String utilities the generated-message model is built on: a lexicographic
//! order on character sequences, a verified sort for name tables, joining
//! names into one listing, and decimal rendering of counters.

use vstd::prelude::*;
use vstd::relations::{sorted_by, total_ordering};

verus! {

/// Strict lexicographic order on character sequences, by code point; a proper
/// prefix comes before any of its extensions.
pub open spec fn lex_lt(a: Seq<char>, b: Seq<char>) -> bool
    decreases a.len(),
{
    if b.len() == 0 {
        false
    } else if a.len() == 0 {
        true
    } else if a[0] < b[0] {
        true
    } else if a[0] == b[0] {
        lex_lt(a.skip(1), b.skip(1))
    } else {
        false
    }
}

/// Reflexive closure of `lex_lt`.
pub open spec fn lex_leq(a: Seq<char>, b: Seq<char>) -> bool {
    lex_lt(a, b) || a == b
}

/// `lex_leq` packaged as a relation value, for vstd's ordering vocabulary.
pub open spec fn lex_leq_fn() -> spec_fn(Seq<char>, Seq<char>) -> bool {
    |a: Seq<char>, b: Seq<char>| lex_leq(a, b)
}

/// The views of a sequence of strings.
pub open spec fn views_of(s: Seq<String>) -> Seq<Seq<char>> {
    s.map_values(|x: String| x@)
}

proof fn lemma_lex_head_step(a: Seq<char>, b: Seq<char>)
    requires
        a.len() > 0,
        b.len() > 0,
        a[0] == b[0],
    ensures
        (a == b) == (a.skip(1) == b.skip(1)),
        lex_lt(a, b) == lex_lt(a.skip(1), b.skip(1)),
        lex_leq(a, b) == lex_leq(a.skip(1), b.skip(1)),
{
    if a.skip(1) == b.skip(1) {
        assert(a.skip(1).len() == b.skip(1).len());
        assert(a.len() == b.len());
        assert forall|i: int| 0 <= i < a.len() implies a[i] == b[i] by {
            if i > 0 {
                assert(a.skip(1)[i - 1] == a[i]);
                assert(b.skip(1)[i - 1] == b[i]);
            }
        }
        assert(a =~= b);
    }
    if a == b {
        assert(a.skip(1) =~= b.skip(1));
    }
}

proof fn lemma_lex_lt_trichotomy(a: Seq<char>, b: Seq<char>)
    ensures
        lex_lt(a, b) || lex_lt(b, a) || a == b,
        lex_lt(a, b) ==> !lex_lt(b, a) && a != b,
        lex_lt(b, a) ==> !lex_lt(a, b) && a != b,
    decreases a.len(),
{
    if a.len() == 0 && b.len() == 0 {
        assert(a =~= b);
    } else if a.len() == 0 || b.len() == 0 {
    } else if a[0] == b[0] {
        lemma_lex_lt_trichotomy(a.skip(1), b.skip(1));
        lemma_lex_head_step(a, b);
    } else {
        assert(a != b) by {
            if a == b {
                assert(a[0] == b[0]);
            }
        }
        if a[0] < b[0] {
            assert(lex_lt(a, b) && !lex_lt(b, a));
        } else {
            assert(b[0] < a[0]);
            assert(lex_lt(b, a) && !lex_lt(a, b));
        }
    }
}

proof fn lemma_lex_lt_trans(a: Seq<char>, b: Seq<char>, c: Seq<char>)
    requires
        lex_lt(a, b),
        lex_lt(b, c),
    ensures
        lex_lt(a, c),
    decreases a.len(),
{
    if a.len() == 0 {
        assert(b.len() > 0);
        assert(c.len() > 0);
    } else {
        assert(b.len() > 0 && c.len() > 0);
        if a[0] == b[0] && b[0] == c[0] {
            lemma_lex_lt_trans(a.skip(1), b.skip(1), c.skip(1));
        }
    }
}

/// The lexicographic order is a total ordering, so sorting by it is
/// well defined and a sorted listing of a name set is unique.
pub proof fn lemma_lex_total_ordering()
    ensures
        total_ordering(lex_leq_fn()),
{
    let leq = lex_leq_fn();
    assert forall|a: Seq<char>, b: Seq<char>| #[trigger] leq(a, b) && #[trigger] leq(b, a)
        implies a == b by {
        lemma_lex_lt_trichotomy(a, b);
    }
    assert forall|a: Seq<char>, b: Seq<char>, c: Seq<char>|
        #[trigger] leq(a, b) && #[trigger] leq(b, c) implies leq(a, c) by {
        if lex_lt(a, b) && lex_lt(b, c) {
            lemma_lex_lt_trans(a, b, c);
        }
    }
    assert forall|a: Seq<char>, b: Seq<char>| #[trigger] leq(a, b) || #[trigger] leq(b, a) by {
        lemma_lex_lt_trichotomy(a, b);
    }
}

/// Decides `lex_leq` on two strings.
pub fn str_lex_leq(a: &String, b: &String) -> (r: bool)
    ensures
        r == lex_leq(a@, b@),
{
    let a_str = a.as_str();
    let b_str = b.as_str();
    let a_len = a_str.unicode_len();
    let b_len = b_str.unicode_len();
    let mut i: usize = 0;
    assert(a@.skip(0) =~= a@ && b@.skip(0) =~= b@);
    loop
        invariant
            i <= a_len,
            i <= b_len,
            a_len == a@.len(),
            b_len == b@.len(),
            a_str@ == a@,
            b_str@ == b@,
            lex_leq(a@, b@) == lex_leq(a@.skip(i as int), b@.skip(i as int)),
        decreases a_len - i,
    {
        let ghost sa = a@.skip(i as int);
        let ghost sb = b@.skip(i as int);
        if i == a_len {
            assert(sa.len() == 0);
            assert(lex_leq(sa, sb)) by {
                if sb.len() == 0 {
                    assert(sa =~= sb);
                }
            }
            return true;
        }
        if i == b_len {
            assert(sb.len() == 0);
            assert(sa.len() > 0);
            assert(!lex_lt(sa, sb));
            assert(sa != sb) by {
                if sa == sb {
                    assert(sa.len() == sb.len());
                }
            }
            return false;
        }
        let ca = a_str.get_char(i);
        let cb = b_str.get_char(i);
        assert(sa[0] == a@[i as int] && sb[0] == b@[i as int]);
        if ca < cb {
            assert(lex_lt(sa, sb));
            return true;
        }
        if cb < ca {
            proof {
                assert(lex_lt(sb, sa));
                lemma_lex_lt_trichotomy(sa, sb);
            }
            return false;
        }
        assert(ca == cb);
        proof {
            lemma_lex_head_step(sa, sb);
            assert(sa.skip(1) =~= a@.skip(i + 1));
            assert(sb.skip(1) =~= b@.skip(i + 1));
        }
        i = i + 1;
    }
}

/// Sorts names lexicographically; the result is exactly vstd's `sort_by`
/// of the input's views under `lex_leq`.
pub fn sort_names(v: &Vec<String>) -> (r: Vec<String>)
    ensures
        views_of(r@) == views_of(v@).sort_by(lex_leq_fn()),
        sorted_by(views_of(r@), lex_leq_fn()),
        views_of(r@).to_multiset() == views_of(v@).to_multiset(),
{
    let ghost leq = lex_leq_fn();
    proof {
        lemma_lex_total_ordering();
    }
    let mut r: Vec<String> = Vec::new();
    let mut i: usize = 0;
    assert(views_of(r@).to_multiset() =~= views_of(v@.subrange(0, 0)).to_multiset()) by {
        assert(views_of(r@) =~= Seq::<Seq<char>>::empty());
        assert(views_of(v@.subrange(0, 0)) =~= Seq::<Seq<char>>::empty());
        views_of(r@).to_multiset_ensures();
        views_of(v@.subrange(0, 0)).to_multiset_ensures();
    }
    while i < v.len()
        invariant
            i <= v.len(),
            sorted_by(views_of(r@), leq),
            views_of(r@).to_multiset() == views_of(v@.subrange(0, i as int)).to_multiset(),
            leq == lex_leq_fn(),
        decreases v.len() - i,
    {
        let x = v[i].clone();
        let mut j: usize = 0;
        while j < r.len() && !str_lex_leq(&x, &r[j])
            invariant
                j <= r.len(),
                forall|k: int| 0 <= k < j ==> !lex_leq(x@, #[trigger] views_of(r@)[k]),
            decreases r.len() - j,
        {
            j = j + 1;
        }
        let ghost old_r = r@;
        r.insert(j, x);
        proof {
            let rv = views_of(r@);
            let ov = views_of(old_r);
            assert(rv =~= ov.insert(j as int, x@));
            assert forall|p: int, q: int| 0 <= p < q < rv.len() implies
                #[trigger] leq(rv[p], rv[q]) by {
                lemma_lex_total_ordering();
                let jj = j as int;
                if q < jj {
                    assert(leq(ov[p], ov[q]));
                } else if p > jj {
                    assert(leq(ov[p - 1], ov[q - 1]));
                } else if p == jj && q > jj {
                    if j < old_r.len() {
                        assert(leq(x@, ov[jj]));
                        if q - 1 > jj {
                            assert(leq(ov[jj], ov[q - 1]));
                        }
                    }
                } else if q == jj {
                    assert(p < jj);
                    assert(!lex_leq(x@, ov[p]));
                    lemma_lex_lt_trichotomy(x@, ov[p]);
                } else {
                    assert(p < jj && q > jj);
                    assert(!lex_leq(x@, ov[p]));
                    lemma_lex_lt_trichotomy(x@, ov[p]);
                    if q - 1 == jj {
                        if j < old_r.len() {
                            assert(leq(x@, ov[jj]));
                        }
                    } else {
                        assert(leq(ov[p], ov[q - 1]));
                    }
                }
            }
            assert(sorted_by(rv, leq));
            assert(rv.to_multiset() =~= views_of(v@.subrange(0, i + 1)).to_multiset()) by {
                let prev = views_of(v@.subrange(0, i as int));
                let cur = views_of(v@.subrange(0, i + 1));
                assert(cur =~= prev.push(v@[i as int]@));
                vstd::seq_lib::to_multiset_build(prev, v@[i as int]@);
                vstd::seq_lib::to_multiset_insert(ov, j as int, x@);
            }
        }
        i = i + 1;
    }
    proof {
        assert(v@.subrange(0, v@.len() as int) =~= v@);
        views_of(v@).lemma_sort_by_ensures(leq);
        vstd::seq_lib::lemma_sorted_unique(views_of(r@), views_of(v@).sort_by(leq), leq);
        assert(views_of(r@) == views_of(v@).sort_by(leq));
    }
    r
}

/// The names interleaved with the separator: `a, b, c` for `", "`.
pub open spec fn spec_join(names: Seq<Seq<char>>, sep: Seq<char>) -> Seq<char>
    decreases names.len(),
{
    if names.len() == 0 {
        Seq::empty()
    } else if names.len() == 1 {
        names[0]
    } else {
        names[0] + sep + spec_join(names.skip(1), sep)
    }
}

fn join_from(v: &Vec<String>, i: usize, sep: &str) -> (r: String)
    requires
        i <= v.len(),
    ensures
        r@ == spec_join(views_of(v@).skip(i as int), sep@),
    decreases v.len() - i,
{
    let ghost tail = views_of(v@).skip(i as int);
    if i == v.len() {
        assert(tail.len() == 0);
        String::new()
    } else if i + 1 == v.len() {
        assert(tail.len() == 1 && tail[0] == v@[i as int]@);
        v[i].clone()
    } else {
        let mut s = v[i].clone();
        s.append(sep);
        let rest = join_from(v, i + 1, sep);
        s.append(rest.as_str());
        proof {
            assert(views_of(v@).skip(i + 1) =~= tail.skip(1));
            assert(tail[0] == v@[i as int]@);
        }
        s
    }
}

/// Joins the names with the separator; no trailing separator is left behind.
pub fn join_names(v: &Vec<String>, sep: &str) -> (r: String)
    ensures
        r@ == spec_join(views_of(v@), sep@),
{
    assert(views_of(v@).skip(0) =~= views_of(v@));
    join_from(v, 0, sep)
}

/// A generic-argument list as it appears in a rendered path: comma-joined
/// inside angle brackets, or nothing at all when the list is empty.
pub open spec fn spec_brackets(names: Seq<Seq<char>>) -> Seq<char> {
    if names.len() == 0 {
        Seq::empty()
    } else {
        "<"@ + spec_join(names, ", "@) + ">"@
    }
}

/// Renders a generic-argument list, brackets present exactly when the list
/// is not empty.
pub fn bracket_names(v: &Vec<String>) -> (r: String)
    ensures
        r@ == spec_brackets(views_of(v@)),
{
    if v.len() == 0 {
        let s = String::new();
        assert(s@ =~= spec_brackets(views_of(v@)));
        s
    } else {
        let mut s = String::new();
        s.append("<");
        let joined = join_names(v, ", ");
        s.append(joined.as_str());
        s.append(">");
        assert(s@ =~= spec_brackets(views_of(v@)));
        s
    }
}

/// The digit character for one decimal digit.
pub open spec fn dec_digit(d: int) -> char {
    if d == 0 { '0' }
    else if d == 1 { '1' }
    else if d == 2 { '2' }
    else if d == 3 { '3' }
    else if d == 4 { '4' }
    else if d == 5 { '5' }
    else if d == 6 { '6' }
    else if d == 7 { '7' }
    else if d == 8 { '8' }
    else { '9' }
}

/// Decimal rendering of a non-negative integer, most significant digit first.
pub open spec fn spec_dec(n: int) -> Seq<char>
    decreases n,
{
    if n < 10 {
        seq![dec_digit(n)]
    } else {
        spec_dec(n / 10).push(dec_digit(n % 10))
    }
}

fn dec_digit_str(d: u64) -> (r: &'static str)
    requires
        d < 10,
    ensures
        r@ =~= seq![dec_digit(d as int)],
{
    let r: &'static str = if d == 0 { "0" }
    else if d == 1 { "1" }
    else if d == 2 { "2" }
    else if d == 3 { "3" }
    else if d == 4 { "4" }
    else if d == 5 { "5" }
    else if d == 6 { "6" }
    else if d == 7 { "7" }
    else if d == 8 { "8" }
    else { "9" };
    proof {
        reveal_strlit("0");
        reveal_strlit("1");
        reveal_strlit("2");
        reveal_strlit("3");
        reveal_strlit("4");
        reveal_strlit("5");
        reveal_strlit("6");
        reveal_strlit("7");
        reveal_strlit("8");
        reveal_strlit("9");
    }
    r
}

/// Renders a counter in decimal.
pub fn u64_to_dec(n: u64) -> (r: String)
    ensures
        r@ == spec_dec(n as int),
    decreases n,
{
    if n < 10 {
        let mut s = String::new();
        s.append(dec_digit_str(n));
        assert(s@ =~= spec_dec(n as int));
        s
    } else {
        let mut s = u64_to_dec(n / 10);
        s.append(dec_digit_str(n % 10));
        assert(s@ =~= spec_dec(n as int));
        s
    }
}

} // verus!

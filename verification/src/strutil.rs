use vstd::prelude::*;
use vstd::string::StrSliceExecFns;

verus! {

/// Character-wise string equality, usable wherever contracts speak of
/// string views.
pub fn str_eq(a: &str, b: &str) -> (r: bool)
    ensures
        r == (a@ == b@),
{
    let alen = a.unicode_len();
    let blen = b.unicode_len();
    if alen != blen {
        return false;
    }
    let mut i: usize = 0;
    while i < alen
        invariant
            alen == a@.len(),
            alen == b@.len(),
            0 <= i <= alen,
            forall|j: int| 0 <= j < i ==> a@[j] == b@[j],
        decreases alen - i,
    {
        if a.get_char(i) != b.get_char(i) {
            return false;
        }
        i = i + 1;
    }
    proof {
        assert(a@ =~= b@);
    }
    true
}

/// The concatenation of `f` over `s`, in order.
pub open spec fn concat_map<A, B>(s: Seq<A>, f: spec_fn(A) -> Seq<B>) -> Seq<B>
    decreases s.len(),
{
    if s.len() == 0 {
        Seq::empty()
    } else {
        concat_map(s.drop_last(), f) + f(s.last())
    }
}

/// Filtering twice is the same in either order.
pub proof fn lemma_filter_commute<A>(s: Seq<A>, p: spec_fn(A) -> bool, q: spec_fn(A) -> bool)
    ensures
        s.filter(p).filter(q) == s.filter(q).filter(p),
    decreases s.len(),
{
    broadcast use Seq::lemma_filter_push;

    if s.len() == 0 {
        reveal(Seq::filter);
    } else {
        let dl = s.drop_last();
        let x = s.last();
        lemma_filter_commute(dl, p, q);
        assert(s =~= dl.push(x));
    }
}

/// Every element of a filtered sequence stands somewhere in the source.
pub proof fn lemma_filter_elements<A>(s: Seq<A>, p: spec_fn(A) -> bool, i: int)
    requires
        0 <= i < s.filter(p).len(),
    ensures
        exists|j: int| 0 <= j < s.len() && s.filter(p)[i] == s[j],
    decreases s.len(),
{
    broadcast use Seq::lemma_filter_push;

    if s.len() > 0 {
        let dl = s.drop_last();
        let x = s.last();
        assert(s =~= dl.push(x));
        if i < dl.filter(p).len() {
            lemma_filter_elements(dl, p, i);
            let j = choose|j: int| 0 <= j < dl.len() && dl.filter(p)[i] == dl[j];
            assert(s.filter(p)[i] == s[j]);
        } else {
            assert(s.filter(p)[i] == x);
            assert(s.filter(p)[i] == s[s.len() - 1]);
        }
    }
}

/// A sequence without a matching element filters to nothing.
pub proof fn lemma_filter_none<A>(s: Seq<A>, p: spec_fn(A) -> bool)
    requires
        forall|j: int| 0 <= j < s.len() ==> !p(s[j]),
    ensures
        s.filter(p).len() == 0,
    decreases s.len(),
{
    broadcast use Seq::lemma_filter_push;

    if s.len() > 0 {
        let dl = s.drop_last();
        assert(s =~= dl.push(s.last()));
        assert(forall|j: int| 0 <= j < dl.len() ==> dl[j] == s[j]);
        lemma_filter_none(dl, p);
    } else {
        reveal(Seq::filter);
    }
}

/// A sequence with exactly one matching position filters to exactly one
/// element.
pub proof fn lemma_filter_single<A>(s: Seq<A>, p: spec_fn(A) -> bool, j: int)
    requires
        0 <= j < s.len(),
        p(s[j]),
        forall|i: int| 0 <= i < s.len() && i != j ==> !p(s[i]),
    ensures
        s.filter(p).len() == 1,
    decreases s.len(),
{
    broadcast use Seq::lemma_filter_push;

    let dl = s.drop_last();
    assert(s =~= dl.push(s.last()));
    assert(forall|i: int| 0 <= i < dl.len() ==> dl[i] == s[i]);
    if j == s.len() - 1 {
        lemma_filter_none(dl, p);
    } else {
        lemma_filter_single(dl, p, j);
    }
}

/// Does `s` begin with `prefix`, character for character?
pub fn starts_with(s: &str, prefix: &str) -> (r: bool)
    ensures
        r == (s@.len() >= prefix@.len() && s@.take(prefix@.len() as int) == prefix@),
{
    let slen = s.unicode_len();
    let plen = prefix.unicode_len();
    if slen < plen {
        return false;
    }
    let mut i: usize = 0;
    while i < plen
        invariant
            slen == s@.len(),
            plen == prefix@.len(),
            plen <= slen,
            0 <= i <= plen,
            forall|j: int| 0 <= j < i ==> s@[j] == prefix@[j],
        decreases plen - i,
    {
        if s.get_char(i) != prefix.get_char(i) {
            proof {
                assert(s@.take(plen as int)[i as int] != prefix@[i as int]);
            }
            return false;
        }
        i = i + 1;
    }
    proof {
        assert(s@.take(plen as int) =~= prefix@);
    }
    true
}

} // verus!

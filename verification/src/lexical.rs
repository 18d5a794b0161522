//! The order in which category names are listed: by the bytes of their UTF-8
//! encoding, which is how strings compare in Rust.

use vstd::prelude::*;
use vstd::utf8::{encode_utf8, encode_utf8_decode_utf8, decode_utf8};

verus! {

/// `a` comes strictly before `b` in the lexicographic order on byte strings.
pub open spec fn bytes_before(a: Seq<u8>, b: Seq<u8>) -> bool
    decreases a.len(),
{
    if b.len() == 0 {
        false
    } else if a.len() == 0 {
        true
    } else if a[0] != b[0] {
        a[0] < b[0]
    } else {
        bytes_before(a.drop_first(), b.drop_first())
    }
}

/// The name `a` is listed strictly before the name `b`.
pub open spec fn name_before(a: Seq<char>, b: Seq<char>) -> bool {
    bytes_before(encode_utf8(a), encode_utf8(b))
}

/// Every name is listed strictly before all names that follow it. A sequence
/// of this shape holds no name twice.
pub open spec fn strictly_ascending(names: Seq<Seq<char>>) -> bool {
    forall|i: int, j: int| 0 <= i < j < names.len() ==> name_before(names[i], names[j])
}

/// No byte string comes before itself.
pub proof fn lemma_bytes_before_irreflexive(a: Seq<u8>)
    ensures
        !bytes_before(a, a),
    decreases a.len(),
{
    if a.len() > 0 {
        lemma_bytes_before_irreflexive(a.drop_first());
    }
}

/// The order on byte strings is transitive.
pub proof fn lemma_bytes_before_transitive(a: Seq<u8>, b: Seq<u8>, c: Seq<u8>)
    requires
        bytes_before(a, b),
        bytes_before(b, c),
    ensures
        bytes_before(a, c),
    decreases a.len(),
{
    if a.len() > 0 && a[0] == b[0] && b[0] == c[0] {
        lemma_bytes_before_transitive(a.drop_first(), b.drop_first(), c.drop_first());
    }
}

/// Of two different byte strings one comes before the other.
pub proof fn lemma_bytes_before_total(a: Seq<u8>, b: Seq<u8>)
    ensures
        bytes_before(a, b) || a == b || bytes_before(b, a),
    decreases a.len(),
{
    if a.len() > 0 && b.len() > 0 && a[0] == b[0] {
        lemma_bytes_before_total(a.drop_first(), b.drop_first());
        if a.drop_first() == b.drop_first() {
            assert(a =~= seq![a[0]] + a.drop_first());
            assert(b =~= seq![b[0]] + b.drop_first());
        }
    }
}

/// Two byte strings that agree on their first `k` bytes compare as what
/// follows those bytes does.
pub proof fn lemma_bytes_before_skips_common_prefix(a: Seq<u8>, b: Seq<u8>, k: int)
    requires
        0 <= k <= a.len(),
        k <= b.len(),
        forall|j: int| 0 <= j < k ==> a[j] == b[j],
    ensures
        bytes_before(a, b) == bytes_before(a.skip(k), b.skip(k)),
    decreases k,
{
    if k == 0 {
        assert(a.skip(0) =~= a);
        assert(b.skip(0) =~= b);
    } else {
        lemma_bytes_before_skips_common_prefix(a, b, k - 1);
        assert(a.skip(k - 1).drop_first() =~= a.skip(k));
        assert(b.skip(k - 1).drop_first() =~= b.skip(k));
    }
}

/// No name comes before itself.
pub proof fn lemma_name_before_irreflexive(a: Seq<char>)
    ensures
        !name_before(a, a),
{
    lemma_bytes_before_irreflexive(encode_utf8(a));
}

/// The order on names is transitive.
pub proof fn lemma_name_before_transitive(a: Seq<char>, b: Seq<char>, c: Seq<char>)
    requires
        name_before(a, b),
        name_before(b, c),
    ensures
        name_before(a, c),
{
    lemma_bytes_before_transitive(encode_utf8(a), encode_utf8(b), encode_utf8(c));
}

/// Of two different names one comes before the other.
pub proof fn lemma_name_before_total(a: Seq<char>, b: Seq<char>)
    ensures
        name_before(a, b) || a == b || name_before(b, a),
{
    lemma_bytes_before_total(encode_utf8(a), encode_utf8(b));
    if encode_utf8(a) == encode_utf8(b) {
        encode_utf8_decode_utf8(a);
        encode_utf8_decode_utf8(b);
    }
}

/// Tells whether the name `a` is listed strictly before the name `b`.
pub fn comes_before(a: &str, b: &str) -> (r: bool)
    ensures
        r == name_before(a@, b@),
{
    let x = a.as_bytes();
    let y = b.as_bytes();
    let n: usize = x.len();
    let m: usize = y.len();
    let mut i: usize = 0;
    while i < n && i < m && x[i] == y[i]
        invariant
            n == x@.len(),
            m == y@.len(),
            0 <= i <= n,
            i <= m,
            forall|j: int| 0 <= j < i ==> x@[j] == y@[j],
        decreases n - i,
    {
        i += 1;
    }
    proof {
        lemma_bytes_before_skips_common_prefix(x@, y@, i as int);
    }
    if i == m {
        false
    } else if i == n {
        true
    } else {
        x[i] < y[i]
    }
}

/// The names of `names` and `name`, as a set.
pub open spec fn names_with(names: Seq<Seq<char>>, name: Seq<char>) -> Set<Seq<char>> {
    names.to_set().insert(name)
}

/// Puts `name` into a strictly ascending list at the place that keeps the
/// list strictly ascending; a name that the list holds already is not added
/// again.
pub fn insert_name(names: &mut Vec<String>, name: String)
    requires
        strictly_ascending(old(names).deep_view()),
    ensures
        strictly_ascending(final(names).deep_view()),
        final(names).deep_view().to_set() == names_with(old(names).deep_view(), name@),
        old(names).deep_view().contains(name@) ==> final(names).deep_view() == old(names).deep_view(),
        !old(names).deep_view().contains(name@) ==> final(names).deep_view().len() == old(
            names,
        ).deep_view().len() + 1,
{
    let ghost before = names.deep_view();
    let mut i: usize = 0;
    while i < names.len() && comes_before(names[i].as_str(), name.as_str())
        invariant
            0 <= i <= names.len(),
            names.deep_view() == before,
            forall|j: int| 0 <= j < i ==> name_before(before[j], name@),
        decreases names.len() - i,
    {
        i += 1;
    }
    proof {
        assert forall|j: int| 0 <= j < i implies before[j] != name@ by {
            lemma_name_before_irreflexive(name@);
        }
        assert forall|j: int| i < j < before.len() implies before[j] != name@ by {
            if before[j] == name@ {
                lemma_name_before_irreflexive(name@);
                lemma_name_before_total(before[i as int], name@);
            }
        }
    }
    if i < names.len() && names[i] == name {
        assert(before[i as int] == name@);
        return ;
    }
    proof {
        if i < before.len() {
            lemma_name_before_total(before[i as int], name@);
        }
    }
    names.insert(i, name);
    proof {
        let after = names.deep_view();
        assert(after =~= before.insert(i as int, name@));
        assert forall|a: int, b: int| 0 <= a < b < after.len() implies name_before(
            after[a],
            after[b],
        ) by {
            if a == i && b > i + 1 {
                lemma_name_before_transitive(name@, before[i as int], before[b - 1]);
            }
        }
        assert forall|x: Seq<char>| after.to_set().contains(x) <==> names_with(
            before,
            name@,
        ).contains(x) by {
            if before.to_set().contains(x) {
                let k = choose|k: int| 0 <= k < before.len() && before[k] == x;
                if k < i {
                    assert(after[k] == x);
                } else {
                    assert(after[k + 1] == x);
                }
            }
            if x == name@ {
                assert(after[i as int] == x);
            }
        }
    }
}

} // verus!

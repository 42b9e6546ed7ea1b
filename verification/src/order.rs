//! The order of strings: lexicographic by bytes, as `str` is ordered.

use vstd::prelude::*;

verus! {

/// `a` and `b` agree before `i`, and at `i` either `a` ends first or `a` has the
/// smaller byte.
pub open spec fn bytes_part_at(a: Seq<u8>, b: Seq<u8>, i: int) -> bool {
    &&& 0 <= i <= a.len()
    &&& i < b.len()
    &&& forall|j: int| 0 <= j < i ==> a[j] == b[j]
    &&& i == a.len() || a[i] < b[i]
}

/// `a` comes before `b` in the order of byte strings.
pub open spec fn bytes_before(a: Seq<u8>, b: Seq<u8>) -> bool {
    exists|i: int| bytes_part_at(a, b, i)
}

/// `a` comes before `b` in the order of strings.
pub open spec fn before(a: Seq<char>, b: Seq<char>) -> bool {
    bytes_before(vstd::utf8::encode_utf8(a), vstd::utf8::encode_utf8(b))
}

/// How two strings stand to each other.
#[derive(Clone, Copy, Debug, PartialEq, Eq, Structural)]
pub enum Side {
    Before,
    Same,
    After,
}

/// Strings with the same bytes are the same string.
pub proof fn lemma_bytes_injective(a: Seq<char>, b: Seq<char>)
    requires
        vstd::utf8::encode_utf8(a) == vstd::utf8::encode_utf8(b),
    ensures
        a == b,
{
    vstd::utf8::encode_utf8_decode_utf8(a);
    vstd::utf8::encode_utf8_decode_utf8(b);
}

/// No string comes before itself.
pub proof fn lemma_before_irreflexive(a: Seq<char>)
    ensures
        !before(a, a),
{
}

/// The order is transitive.
pub proof fn lemma_before_transitive(a: Seq<char>, b: Seq<char>, c: Seq<char>)
    requires
        before(a, b),
        before(b, c),
    ensures
        before(a, c),
{
    let (x, y, z) = (vstd::utf8::encode_utf8(a), vstd::utf8::encode_utf8(b), vstd::utf8::encode_utf8(c));
    let i = choose|i: int| bytes_part_at(x, y, i);
    let j = choose|j: int| bytes_part_at(y, z, j);
    let k = if i < j {
        i
    } else {
        j
    };
    assert(bytes_part_at(x, z, k));
}

/// Of two strings the one comes first that has the smaller byte where they first differ,
/// or that ends there.
pub proof fn law_byte_order(a: Seq<char>, b: Seq<char>, i: int)
    requires
        0 <= i <= vstd::utf8::encode_utf8(a).len(),
        i < vstd::utf8::encode_utf8(b).len(),
        vstd::utf8::encode_utf8(a).take(i) == vstd::utf8::encode_utf8(b).take(i),
        i == vstd::utf8::encode_utf8(a).len() || vstd::utf8::encode_utf8(a)[i]
            < vstd::utf8::encode_utf8(b)[i],
    ensures
        before(a, b),
        !before(b, a),
{
    let (x, y) = (vstd::utf8::encode_utf8(a), vstd::utf8::encode_utf8(b));
    assert forall|j: int| 0 <= j < i implies x[j] == y[j] by {
        assert(x.take(i)[j] == y.take(i)[j]);
    }
    assert(bytes_part_at(x, y, i));
    if before(b, a) {
        lemma_before_transitive(a, b, a);
        lemma_before_irreflexive(a);
    }
}

/// Of two ASCII strings the one comes first that has the smaller character where they
/// first differ, or that ends there.
pub proof fn law_ascii_order(a: Seq<char>, b: Seq<char>, i: int)
    requires
        vstd::utf8::is_ascii_chars(a),
        vstd::utf8::is_ascii_chars(b),
        0 <= i <= a.len(),
        i < b.len(),
        forall|j: int| 0 <= j < i ==> a[j] == b[j],
        i == a.len() || a[i] < b[i],
    ensures
        before(a, b),
        !before(b, a),
{
    vstd::utf8::is_ascii_chars_encode_utf8(a);
    vstd::utf8::is_ascii_chars_encode_utf8(b);
    let (x, y) = (vstd::utf8::encode_utf8(a), vstd::utf8::encode_utf8(b));
    assert forall|j: int| 0 <= j < i implies x[j] == y[j] by {
        assert(a[j] == b[j]);
    }
    assert(x.take(i) =~= y.take(i));
    if i < a.len() {
        assert(a[i] as u8 == x[i] && b[i] as u8 == y[i]);
    }
    law_byte_order(a, b, i);
}

/// Where `a` stands with respect to `b`.
pub fn side_of(a: &str, b: &str) -> (r: Side)
    ensures
        r is Before <==> before(a@, b@),
        r is After <==> before(b@, a@),
        r is Same <==> a@ == b@,
{
    let x: &[u8] = a.as_bytes();
    let y: &[u8] = b.as_bytes();
    let ghost (p, q) = (vstd::utf8::encode_utf8(a@), vstd::utf8::encode_utf8(b@));
    let mut i: usize = 0;
    while i < x.len() && i < y.len() && x[i] == y[i]
        invariant
            x@ == p,
            y@ == q,
            i <= x.len(),
            i <= y.len(),
            forall|j: int| 0 <= j < i ==> x@[j] == y@[j],
        decreases x.len() - i,
    {
        i = i + 1;
    }
    proof {
        lemma_before_irreflexive(a@);
        if before(a@, b@) && before(b@, a@) {
            lemma_before_transitive(a@, b@, a@);
        }
        if i == x.len() && i == y.len() {
            assert(p =~= q);
            lemma_bytes_injective(a@, b@);
        } else if i == x.len() || (i < y.len() && x@[i as int] < y@[i as int]) {
            assert(bytes_part_at(p, q, i as int));
        } else {
            assert(bytes_part_at(q, p, i as int));
        }
    }
    if i == x.len() {
        if i == y.len() {
            Side::Same
        } else {
            Side::Before
        }
    } else if i == y.len() {
        Side::After
    } else if x[i] < y[i] {
        Side::Before
    } else {
        Side::After
    }
}

} // verus!

//! Total orders on keys.
//!
//! Rooms index users, streams and routes by composite keys that hold text. The
//! order of a key decides the order in which effects leave the room, so every
//! key type states its order over a mathematical identity and compares by it.

use vstd::prelude::*;
use vstd::utf8::{encode_utf8, encode_utf8_decode_utf8};

verus! {

/// Outcome of comparing two keys.
#[derive(Debug, Clone, Copy, PartialEq, Eq, Structural)]
pub enum Order {
    Before,
    Same,
    After,
}

/// A key with a mathematical identity and a strict total order on identities.
pub trait OrdKey: Sized {
    /// What distinguishes one key from another.
    type Id;

    spec fn id(&self) -> Self::Id;

    spec fn before(a: Self::Id, b: Self::Id) -> bool;

    proof fn law_irreflexive(a: Self::Id)
        ensures
            !Self::before(a, a),
    ;

    proof fn law_transitive(a: Self::Id, b: Self::Id, c: Self::Id)
        requires
            Self::before(a, b),
            Self::before(b, c),
        ensures
            Self::before(a, c),
    ;

    proof fn law_total(a: Self::Id, b: Self::Id)
        ensures
            a == b || Self::before(a, b) || Self::before(b, a),
    ;

    fn order(&self, other: &Self) -> (o: Order)
        ensures
            match o {
                Order::Before => Self::before(self.id(), other.id()),
                Order::Same => self.id() == other.id(),
                Order::After => Self::before(other.id(), self.id()),
            },
    ;

    fn duplicate(&self) -> (r: Self)
        ensures
            r == *self,
    ;
}

/// Lexicographic order on byte strings.
pub open spec fn bytes_before(a: Seq<u8>, b: Seq<u8>) -> bool {
    exists|i: int| first_difference(a, b, i)
}

/// `a` and `b` agree below `i`, where `a` ends first or holds the smaller byte.
pub open spec fn first_difference(a: Seq<u8>, b: Seq<u8>, i: int) -> bool {
    &&& 0 <= i <= a.len()
    &&& i < b.len()
    &&& forall|j: int| 0 <= j < i ==> a[j] == b[j]
    &&& i == a.len() || a[i] < b[i]
}

pub proof fn lemma_bytes_irreflexive(a: Seq<u8>)
    ensures
        !bytes_before(a, a),
{
}

pub proof fn lemma_bytes_transitive(a: Seq<u8>, b: Seq<u8>, c: Seq<u8>)
    requires
        bytes_before(a, b),
        bytes_before(b, c),
    ensures
        bytes_before(a, c),
{
    let i = choose|i: int| first_difference(a, b, i);
    let j = choose|j: int| first_difference(b, c, j);
    let k = if i < j {
        i
    } else {
        j
    };
    assert(first_difference(a, c, k));
}

pub proof fn lemma_bytes_total(a: Seq<u8>, b: Seq<u8>)
    ensures
        a == b || bytes_before(a, b) || bytes_before(b, a),
{
    lemma_bytes_total_from(a, b, 0);
}

proof fn lemma_bytes_total_from(a: Seq<u8>, b: Seq<u8>, i: int)
    requires
        0 <= i <= a.len(),
        i <= b.len(),
        forall|j: int| 0 <= j < i ==> a[j] == b[j],
    ensures
        a == b || bytes_before(a, b) || bytes_before(b, a),
    decreases a.len() - i,
{
    if i == a.len() && i == b.len() {
        assert(a =~= b);
    } else if i == a.len() {
        assert(first_difference(a, b, i));
    } else if i == b.len() {
        assert(first_difference(b, a, i));
    } else if a[i] < b[i] {
        assert(first_difference(a, b, i));
    } else if b[i] < a[i] {
        assert(first_difference(b, a, i));
    } else {
        lemma_bytes_total_from(a, b, i + 1);
    }
}

/// Order of text: that of its UTF-8 bytes.
pub open spec fn text_before(a: Seq<char>, b: Seq<char>) -> bool {
    bytes_before(encode_utf8(a), encode_utf8(b))
}

pub proof fn lemma_text_irreflexive(a: Seq<char>)
    ensures
        !text_before(a, a),
{
    lemma_bytes_irreflexive(encode_utf8(a));
}

pub proof fn lemma_text_transitive(a: Seq<char>, b: Seq<char>, c: Seq<char>)
    requires
        text_before(a, b),
        text_before(b, c),
    ensures
        text_before(a, c),
{
    lemma_bytes_transitive(encode_utf8(a), encode_utf8(b), encode_utf8(c));
}

pub proof fn lemma_text_total(a: Seq<char>, b: Seq<char>)
    ensures
        a == b || text_before(a, b) || text_before(b, a),
{
    lemma_bytes_total(encode_utf8(a), encode_utf8(b));
    encode_utf8_decode_utf8(a);
    encode_utf8_decode_utf8(b);
}

/// Compares text by its UTF-8 bytes.
pub fn order_text(a: &str, b: &str) -> (o: Order)
    ensures
        match o {
            Order::Before => text_before(a@, b@),
            Order::Same => a@ == b@,
            Order::After => text_before(b@, a@),
        },
{
    let x: &[u8] = a.as_bytes();
    let y: &[u8] = b.as_bytes();
    let mut i: usize = 0;
    while i < x.len() && i < y.len() && x[i] == y[i]
        invariant
            i <= x.len(),
            i <= y.len(),
            forall|j: int| 0 <= j < i ==> x@[j] == y@[j],
        decreases x.len() - i,
    {
        i = i + 1;
    }
    if i == x.len() && i == y.len() {
        proof {
            assert(x@ =~= y@);
            encode_utf8_decode_utf8(a@);
            encode_utf8_decode_utf8(b@);
        }
        Order::Same
    } else if i == x.len() {
        assert(first_difference(x@, y@, i as int));
        Order::Before
    } else if i == y.len() {
        assert(first_difference(y@, x@, i as int));
        Order::After
    } else if x[i] < y[i] {
        assert(first_difference(x@, y@, i as int));
        Order::Before
    } else {
        assert(first_difference(y@, x@, i as int));
        Order::After
    }
}

/// Compares integers.
pub fn order_u64(a: u64, b: u64) -> (o: Order)
    ensures
        match o {
            Order::Before => a < b,
            Order::Same => a == b,
            Order::After => b < a,
        },
{
    if a < b {
        Order::Before
    } else if a == b {
        Order::Same
    } else {
        Order::After
    }
}

} // verus!

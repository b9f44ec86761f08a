//! Fixed wirings: permutations of the alphabet given as tables from input
//! index to output index, and the catalog of historical rotors and reflector.
use vstd::prelude::*;
use vstd::relations::injective_on;
use vstd::set_lib::{lemma_int_range, lemma_map_size, lemma_subset_equality, set_int_range};

verus! {

/// `w` is a permutation of `[0, 26)`: every entry in range, no entry repeated.
pub open spec fn is_wiring(w: Seq<u8>) -> bool {
    &&& w.len() == 26
    &&& forall|i: int| 0 <= i < 26 ==> #[trigger] w[i] < 26
    &&& forall|i: int, j: int| 0 <= i < 26 && 0 <= j < 26 && i != j ==> w[i] != w[j]
}

/// `w` is a reflector: a wiring that is its own inverse and has no fixed point.
pub open spec fn is_reflector(w: Seq<u8>) -> bool {
    &&& is_wiring(w)
    &&& forall|i: int| 0 <= i < 26 ==> #[trigger] w[w[i] as int] == i
    &&& forall|i: int| 0 <= i < 26 ==> #[trigger] w[i] != i
}

/// The input index that a wiring sends to `y`.
pub open spec fn inverse(w: Seq<u8>, y: int) -> int {
    choose|i: int| 0 <= i < 26 && w[i] == y
}

/// Every index in `[0, 26)` is the image of exactly one input.
pub proof fn lemma_inverse(w: Seq<u8>, y: int)
    requires
        is_wiring(w),
        0 <= y < 26,
    ensures
        0 <= inverse(w, y) < 26,
        w[inverse(w, y)] == y,
        forall|i: int| 0 <= i < 26 && w[i] == y ==> i == inverse(w, y),
{
    let dom = set_int_range(0, 26);
    let f = |i: int| w[i] as int;
    lemma_int_range(0, 26);
    assert(injective_on(f, dom));
    lemma_map_size(dom, dom.map(f), f);
    assert(dom.map(f).subset_of(dom)) by {
        assert forall|z: int| dom.map(f).contains(z) implies dom.contains(z) by {
            let i = choose|i: int| dom.contains(i) && f(i) == z;
            assert(w[i] < 26);
        }
    }
    lemma_subset_equality(dom.map(f), dom);
    assert(dom.map(f).contains(y));
    let i = choose|i: int| dom.contains(i) && f(i) == y;
    assert(0 <= i < 26 && w[i] == y);
}

/// Wiring of rotor `k` of the catalog (I, II, III).
pub open spec fn catalog_wiring(k: int) -> Seq<u8> {
    if k == 0 {
        // EKMFLGDQVZNTOWYHXUSPAIBRCJ
        seq![4u8, 10, 12, 5, 11, 6, 3, 16, 21, 25, 13, 19, 14, 22, 24, 7, 23, 20, 18, 15, 0, 8, 1, 17, 2, 9]
    } else if k == 1 {
        // AJDKSIRUXBLHWTMCQGZNPYFVOE
        seq![0u8, 9, 3, 10, 18, 8, 17, 20, 23, 1, 11, 7, 22, 19, 12, 2, 16, 6, 25, 13, 15, 24, 5, 21, 14, 4]
    } else {
        // BDFHJLCPRTXVZNYEIWGAKMUSQO
        seq![1u8, 3, 5, 7, 9, 11, 2, 15, 17, 19, 23, 21, 25, 13, 24, 4, 8, 22, 6, 0, 10, 12, 20, 18, 16, 14]
    }
}

/// Notch index of rotor `k` of the catalog (Q, E, V).
pub open spec fn catalog_notch(k: int) -> u8 {
    if k == 0 {
        16
    } else if k == 1 {
        4
    } else {
        21
    }
}

/// Wiring of reflector B.
pub open spec fn reflector_b() -> Seq<u8> {
    // YRUHQSLDPXNGOKMIEBFZCWVJAT
    seq![24u8, 17, 20, 7, 16, 18, 11, 3, 15, 23, 13, 6, 14, 10, 12, 8, 4, 1, 5, 25, 2, 22, 21, 9, 0, 19]
}

/// Number of rotors in the catalog.
pub const CATALOG_SIZE: usize = 3;

pub proof fn lemma_catalog_wirings(k: int)
    requires
        0 <= k < 3,
    ensures
        is_wiring(catalog_wiring(k)),
        catalog_notch(k) < 26,
{
}

pub proof fn lemma_reflector_b()
    ensures
        is_reflector(reflector_b()),
{
}

pub fn rotor_wiring(k: usize) -> (w: Vec<u8>)
    requires
        k < 3,
    ensures
        w@ == catalog_wiring(k as int),
{
    let w: Vec<u8> = if k == 0 {
        vec![4u8, 10, 12, 5, 11, 6, 3, 16, 21, 25, 13, 19, 14, 22, 24, 7, 23, 20, 18, 15, 0, 8, 1, 17, 2, 9]
    } else if k == 1 {
        vec![0u8, 9, 3, 10, 18, 8, 17, 20, 23, 1, 11, 7, 22, 19, 12, 2, 16, 6, 25, 13, 15, 24, 5, 21, 14, 4]
    } else {
        vec![1u8, 3, 5, 7, 9, 11, 2, 15, 17, 19, 23, 21, 25, 13, 24, 4, 8, 22, 6, 0, 10, 12, 20, 18, 16, 14]
    };
    assert(w@ =~= catalog_wiring(k as int));
    w
}

pub fn rotor_notch(k: usize) -> (n: u8)
    requires
        k < 3,
    ensures
        n == catalog_notch(k as int),
{
    if k == 0 {
        16
    } else if k == 1 {
        4
    } else {
        21
    }
}

/// The reflector for a selector letter. Only reflector B is wired; every
/// selector, recognised or not, gives it.
pub fn reflector_wiring(selector: char) -> (w: Vec<u8>)
    ensures
        w@ == reflector_b(),
{
    let w: Vec<u8> = match selector {
        'B' => vec![24u8, 17, 20, 7, 16, 18, 11, 3, 15, 23, 13, 6, 14, 10, 12, 8, 4, 1, 5, 25, 2, 22, 21, 9, 0, 19],
        _ => vec![24u8, 17, 20, 7, 16, 18, 11, 3, 15, 23, 13, 6, 14, 10, 12, 8, 4, 1, 5, 25, 2, 22, 21, 9, 0, 19],
    };
    assert(w@ =~= reflector_b());
    w
}

} // verus!

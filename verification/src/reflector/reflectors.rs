//! The three historical reflectors.

use vstd::prelude::*;
use crate::reflector::{wiring_error, Reflector};
use crate::wiring::{
    are_inverse, is_involution, lemma_each_index, lemma_inverse_gives_permutation,
    letter_entry_ok, table_of,
};

verus! {

/// The wiring of reflector A.
pub open spec fn wiring_a() -> Seq<char> {
    "EJMZALYXVBWFCRQUONTSPIKHGD"@
}

/// The wiring of reflector A is accepted, and it is its own inverse.
pub proof fn lemma_wiring_a()
    ensures
        wiring_error(wiring_a()) is None,
        is_involution(table_of(wiring_a())),
{
    reveal_strlit("EJMZALYXVBWFCRQUONTSPIKHGD");
    let s = wiring_a();
    let w = table_of(s);
    lemma_each_index(|i: int| letter_entry_ok(s, w, i));
    assert(are_inverse(w, w));
    lemma_inverse_gives_permutation(w, w);
}

/// Reflector A.
pub fn reflector_a() -> (r: Result<Reflector, String>)
    ensures
        match r {
            Ok(reflector) => {
                &&& reflector.table() == table_of(wiring_a())
                &&& reflector.label() == "A"@
                &&& is_involution(reflector.table())
                &&& reflector.wf()
            },
            Err(_) => false,
        },
{
    proof {
        lemma_wiring_a();
    }
    Reflector::new("EJMZALYXVBWFCRQUONTSPIKHGD", "A")
}

/// The wiring of reflector B.
pub open spec fn wiring_b() -> Seq<char> {
    "YRUHQSLDPXNGOKMIEBFZCWVJAT"@
}

/// The wiring of reflector B is accepted, and it is its own inverse.
pub proof fn lemma_wiring_b()
    ensures
        wiring_error(wiring_b()) is None,
        is_involution(table_of(wiring_b())),
{
    reveal_strlit("YRUHQSLDPXNGOKMIEBFZCWVJAT");
    let s = wiring_b();
    let w = table_of(s);
    lemma_each_index(|i: int| letter_entry_ok(s, w, i));
    assert(are_inverse(w, w));
    lemma_inverse_gives_permutation(w, w);
}

/// Reflector B.
pub fn reflector_b() -> (r: Result<Reflector, String>)
    ensures
        match r {
            Ok(reflector) => {
                &&& reflector.table() == table_of(wiring_b())
                &&& reflector.label() == "B"@
                &&& is_involution(reflector.table())
                &&& reflector.wf()
            },
            Err(_) => false,
        },
{
    proof {
        lemma_wiring_b();
    }
    Reflector::new("YRUHQSLDPXNGOKMIEBFZCWVJAT", "B")
}

/// The wiring of reflector C.
pub open spec fn wiring_c() -> Seq<char> {
    "FVPJIAOYEDRZXWGCTKUQSBNMHL"@
}

/// The wiring of reflector C is accepted, and it is its own inverse.
pub proof fn lemma_wiring_c()
    ensures
        wiring_error(wiring_c()) is None,
        is_involution(table_of(wiring_c())),
{
    reveal_strlit("FVPJIAOYEDRZXWGCTKUQSBNMHL");
    let s = wiring_c();
    let w = table_of(s);
    lemma_each_index(|i: int| letter_entry_ok(s, w, i));
    assert(are_inverse(w, w));
    lemma_inverse_gives_permutation(w, w);
}

/// Reflector C.
pub fn reflector_c() -> (r: Result<Reflector, String>)
    ensures
        match r {
            Ok(reflector) => {
                &&& reflector.table() == table_of(wiring_c())
                &&& reflector.label() == "C"@
                &&& is_involution(reflector.table())
                &&& reflector.wf()
            },
            Err(_) => false,
        },
{
    proof {
        lemma_wiring_c();
    }
    Reflector::new("FVPJIAOYEDRZXWGCTKUQSBNMHL", "C")
}

/// The names of the available reflectors, in the order A, B, C. Each is
/// built by the function of this module that carries its name.
pub fn available_reflectors() -> (v: Vec<&'static str>)
    ensures
        v@.len() == 3,
        v@[0]@ == "A"@,
        v@[1]@ == "B"@,
        v@[2]@ == "C"@,
{
    let mut v: Vec<&'static str> = Vec::new();
    v.push("A");
    v.push("B");
    v.push("C");
    v
}

} // verus!

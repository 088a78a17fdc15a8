//! How many children a worker leaves behind, and what they are called.
//!
//! Both are functions of the worker's name alone. The count is a digest of the
//! name, reduced modulo [`FANOUT_MODULUS`].

use crate::decimal::decimal;
use crate::name::{child_name, Name};
use std::collections::hash_map::DefaultHasher;
use std::hash::Hasher;
use vstd::prelude::*;
use vstd::std_specs::hash::DefaultHasherAdditionalSpecFns;
use vstd::utf8::encode_utf8;

verus! {

/// The number of possible child counts: a worker has fewer children than this.
pub const FANOUT_MODULUS: u64 = 3;

/// The byte that closes the text fed to the hasher. It occurs in no UTF-8
/// text, so no name's input is the beginning of another's.
pub const TEXT_END: u8 = 0xff;

/// The digest of a name: what the standard hasher, freshly made, returns after
/// it was given the UTF-8 bytes of the name and then the byte [`TEXT_END`].
pub open spec fn name_digest(name: Seq<char>) -> u64 {
    DefaultHasher::spec_finish(seq![encode_utf8(name), seq![TEXT_END]])
}

/// The number of children of the worker called `name`.
pub open spec fn fanout_of(name: Seq<char>) -> nat {
    (name_digest(name) % FANOUT_MODULUS) as nat
}

/// The names of the children of the worker called `name`, by index.
pub open spec fn child_names(name: Seq<char>) -> Seq<Seq<char>> {
    Seq::new(fanout_of(name), |i: int| child_name(name, i as nat))
}

/// The texts of a sequence of names.
pub open spec fn texts(names: Seq<Name>) -> Seq<Seq<char>> {
    names.map_values(|n: Name| n@)
}

/// Computes the digest of a name.
pub fn digest(name: &Name) -> (d: u64)
    ensures
        d == name_digest(name@),
{
    let end: [u8; 1] = [TEXT_END];
    let mut hasher = DefaultHasher::new();
    hasher.write(name.as_str().as_bytes());
    hasher.write(end.as_slice());
    assert(end@ =~= seq![TEXT_END]);
    assert(hasher@ =~= seq![encode_utf8(name@), seq![TEXT_END]]);
    hasher.finish()
}

/// Computes the number of children of the worker called `name`.
pub fn fanout(name: &Name) -> (k: u64)
    ensures
        k == fanout_of(name@),
        k < FANOUT_MODULUS,
{
    digest(name) % FANOUT_MODULUS
}

/// Builds the names of the children of the worker called `name`, in the order
/// of their indices.
pub fn children(name: &Name) -> (kids: Vec<Name>)
    ensures
        texts(kids@) == child_names(name@),
{
    let count: u64 = fanout(name);
    let mut kids: Vec<Name> = Vec::new();
    let mut index: u64 = 0;
    while index < count
        invariant
            index <= count,
            count == fanout_of(name@),
            kids@.len() == index,
            forall|i: int| 0 <= i < index ==> (#[trigger] kids@[i])@ == child_name(name@, i as nat),
        decreases count - index,
    {
        kids.push(name.child(index));
        index = index + 1;
    }
    assert(texts(kids@) =~= child_names(name@));
    kids
}

/// The child count and the children's names depend on the name's text and on
/// nothing else: two names with the same text give the same count and the
/// same children.
pub proof fn lemma_fanout_is_a_function_of_the_name(a: Name, b: Name)
    requires
        a@ == b@,
    ensures
        fanout_of(a@) == fanout_of(b@),
        child_names(a@) == child_names(b@),
{
}

/// A worker has at most two children; there are exactly as many child names
/// as the count says, and the one with index `i` is the name, a dot and the
/// decimal numeral of `i`.
pub proof fn lemma_child_names_shape(name: Seq<char>)
    ensures
        fanout_of(name) < FANOUT_MODULUS,
        child_names(name).len() == fanout_of(name),
        forall|i: int|
            0 <= i < fanout_of(name) ==> #[trigger] child_names(name)[i] == name + seq!['.']
                + decimal(i as nat),
{
}

} // verus!

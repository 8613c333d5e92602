//! The byte obfuscation that protects a packed payload.
//!
//! Deobfuscation runs three passes over the whole buffer, each on the result
//! of the one before: a forward diffusion, a backward diffusion and a rolling
//! key. The buffer keeps its length.

use vstd::prelude::*;

verus! {

/// First value of the rolling key.
pub const KEY_SEED: u8 = 0xCE;

/// The byte at `i` after the forward diffusion of `s`: every byte from the
/// third on is combined with the diffused byte two places before it.
pub open spec fn forward_at(s: Seq<u8>, i: int) -> u8
    decreases i,
{
    if i < 2 {
        s[i]
    } else {
        s[i] ^ forward_at(s, i - 2)
    }
}

/// The forward diffusion of `s`.
pub open spec fn forward_diffused(s: Seq<u8>) -> Seq<u8> {
    Seq::new(s.len(), |i: int| forward_at(s, i))
}

/// The byte at `i` after the backward diffusion of `s`: every byte but the
/// last is combined with the diffused byte that follows it.
pub open spec fn backward_at(s: Seq<u8>, i: int) -> u8
    decreases s.len() - i,
{
    if i + 1 >= s.len() {
        s[i]
    } else {
        s[i] ^ backward_at(s, i + 1)
    }
}

/// The backward diffusion of `s`.
pub open spec fn backward_diffused(s: Seq<u8>) -> Seq<u8> {
    Seq::new(s.len(), |i: int| backward_at(s, i))
}

/// The rolling key at position `i`: it starts at `KEY_SEED` and grows by one
/// per byte, modulo 256.
pub open spec fn key_at(i: int) -> u8 {
    ((KEY_SEED as int + i) % 256) as u8
}

/// `s` with every byte combined with the rolling key of its position.
pub open spec fn keyed(s: Seq<u8>) -> Seq<u8> {
    Seq::new(s.len(), |i: int| s[i] ^ key_at(i))
}

/// What deobfuscation makes of `s`.
pub open spec fn deobfuscated(s: Seq<u8>) -> Seq<u8> {
    keyed(backward_diffused(forward_diffused(s)))
}

/// The sequence whose forward diffusion is `s`.
pub open spec fn forward_undone(s: Seq<u8>) -> Seq<u8> {
    Seq::new(s.len(), |i: int| if i < 2 { s[i] } else { s[i] ^ s[i - 2] })
}

/// The sequence whose backward diffusion is `s`.
pub open spec fn backward_undone(s: Seq<u8>) -> Seq<u8> {
    Seq::new(s.len(), |i: int| if i + 1 >= s.len() { s[i] } else { s[i] ^ s[i + 1] })
}

/// What the producer of a payload makes of the plain bytes `s`: the three
/// passes undone, last pass first.
pub open spec fn obfuscated(s: Seq<u8>) -> Seq<u8> {
    forward_undone(backward_undone(keyed(s)))
}

proof fn lemma_xor_cancels(a: u8, b: u8)
    ensures
        (a ^ b) ^ b == a,
{
    assert((a ^ b) ^ b == a) by (bit_vector);
}

proof fn lemma_forward_restores(s: Seq<u8>, i: int)
    requires
        0 <= i < s.len(),
    ensures
        forward_at(forward_undone(s), i) == s[i],
    decreases i,
{
    if i >= 2 {
        lemma_forward_restores(s, i - 2);
        lemma_xor_cancels(s[i], s[i - 2]);
    }
}

proof fn lemma_backward_restores(s: Seq<u8>, i: int)
    requires
        0 <= i < s.len(),
    ensures
        backward_at(backward_undone(s), i) == s[i],
    decreases s.len() - i,
{
    if i + 1 < s.len() {
        lemma_backward_restores(s, i + 1);
        lemma_xor_cancels(s[i], s[i + 1]);
    }
}

proof fn lemma_forward_undoes(s: Seq<u8>, i: int)
    requires
        0 <= i < s.len(),
    ensures
        forward_undone(forward_diffused(s))[i] == s[i],
{
    if i >= 2 {
        lemma_xor_cancels(s[i], forward_at(s, i - 2));
    }
}

proof fn lemma_backward_undoes(s: Seq<u8>, i: int)
    requires
        0 <= i < s.len(),
    ensures
        backward_undone(backward_diffused(s))[i] == s[i],
{
    if i + 1 < s.len() {
        lemma_xor_cancels(s[i], backward_at(s, i + 1));
    }
}

/// The rolling key is its own inverse.
pub proof fn lemma_keyed_twice(s: Seq<u8>)
    ensures
        keyed(keyed(s)) == s,
{
    assert forall|i: int| 0 <= i < s.len() implies keyed(keyed(s))[i] == s[i] by {
        lemma_xor_cancels(s[i], key_at(i));
    }
}

/// The forward diffusion and its undoing are inverse to each other.
pub proof fn lemma_forward_inverse(s: Seq<u8>)
    ensures
        forward_diffused(forward_undone(s)) == s,
        forward_undone(forward_diffused(s)) == s,
{
    assert forall|i: int| 0 <= i < s.len() implies forward_diffused(forward_undone(s))[i]
        == s[i] by {
        lemma_forward_restores(s, i);
    }
    assert forall|i: int| 0 <= i < s.len() implies forward_undone(forward_diffused(s))[i]
        == s[i] by {
        lemma_forward_undoes(s, i);
    }
}

/// The backward diffusion and its undoing are inverse to each other.
pub proof fn lemma_backward_inverse(s: Seq<u8>)
    ensures
        backward_diffused(backward_undone(s)) == s,
        backward_undone(backward_diffused(s)) == s,
{
    assert forall|i: int| 0 <= i < s.len() implies backward_diffused(backward_undone(s))[i]
        == s[i] by {
        lemma_backward_restores(s, i);
    }
    assert forall|i: int| 0 <= i < s.len() implies backward_undone(backward_diffused(s))[i]
        == s[i] by {
        lemma_backward_undoes(s, i);
    }
}

/// Deobfuscating what the producer obfuscated gives back the plain bytes,
/// whatever their number.
pub proof fn lemma_deobfuscated_obfuscated(s: Seq<u8>)
    ensures
        deobfuscated(obfuscated(s)) == s,
        obfuscated(s).len() == s.len(),
{
    lemma_forward_inverse(backward_undone(keyed(s)));
    lemma_backward_inverse(keyed(s));
    lemma_keyed_twice(s);
}

/// Obfuscating what deobfuscation gave leads back to the obfuscated bytes:
/// deobfuscation loses nothing.
pub proof fn lemma_obfuscated_deobfuscated(s: Seq<u8>)
    ensures
        obfuscated(deobfuscated(s)) == s,
        deobfuscated(s).len() == s.len(),
{
    lemma_keyed_twice(backward_diffused(forward_diffused(s)));
    lemma_backward_inverse(forward_diffused(s));
    lemma_forward_inverse(s);
}

/// Replaces `data` by its forward diffusion.
pub fn forward_diffuse(data: &mut Vec<u8>)
    ensures
        final(data)@ == forward_diffused(old(data)@),
{
    let n: usize = data.len();
    let mut i: usize = 2;
    while i < n
        invariant
            data.len() == n,
            n == old(data)@.len(),
            2 <= i,
            forall|j: int| 0 <= j < i && j < n ==> data@[j] == forward_at(old(data)@, j),
            forall|j: int| i <= j < n ==> data@[j] == old(data)@[j],
        decreases n - i,
    {
        let mixed: u8 = data[i] ^ data[i - 2];
        data.set(i, mixed);
        i = i + 1;
    }
}

/// Replaces `data` by its backward diffusion.
pub fn backward_diffuse(data: &mut Vec<u8>)
    ensures
        final(data)@ == backward_diffused(old(data)@),
{
    let n: usize = data.len();
    if n >= 2 {
        let mut i: usize = n - 1;
        while i > 0
            invariant
                data.len() == n,
                n == old(data)@.len(),
                i < n,
                forall|j: int| i <= j < n ==> data@[j] == backward_at(old(data)@, j),
                forall|j: int| 0 <= j < i ==> data@[j] == old(data)@[j],
            decreases i,
        {
            i = i - 1;
            let mixed: u8 = data[i] ^ data[i + 1];
            data.set(i, mixed);
        }
    }
}

/// Combines every byte of `data` with the rolling key of its position.
pub fn apply_key(data: &mut Vec<u8>)
    ensures
        final(data)@ == keyed(old(data)@),
{
    let n: usize = data.len();
    let mut key: u8 = KEY_SEED;
    let mut i: usize = 0;
    while i < n
        invariant
            data.len() == n,
            n == old(data)@.len(),
            i <= n,
            key == key_at(i as int),
            forall|j: int| 0 <= j < i ==> data@[j] == old(data)@[j] ^ key_at(j),
            forall|j: int| i <= j < n ==> data@[j] == old(data)@[j],
        decreases n - i,
    {
        let mixed: u8 = data[i] ^ key;
        data.set(i, mixed);
        key = key.wrapping_add(1);
        i = i + 1;
    }
}

/// Deobfuscates `data` in place: forward diffusion, backward diffusion,
/// rolling key, in this order. Every buffer is accepted.
pub fn deobfuscate(data: &mut Vec<u8>)
    ensures
        final(data)@ == deobfuscated(old(data)@),
        final(data)@.len() == old(data)@.len(),
{
    forward_diffuse(data);
    backward_diffuse(data);
    apply_key(data);
}

} // verus!

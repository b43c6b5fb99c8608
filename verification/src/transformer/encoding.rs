//! The compact binary form of a passive tree.

use crate::model::passive_skills::{effect_at, effect_entries, MasteryEffects};
use vstd::prelude::*;

verus! {

/// The low 16 bits of a number as two bytes, the higher byte first.
pub open spec fn be16(x: int) -> Seq<u8> {
    seq![((x % 65536) / 256) as u8, (x % 256) as u8]
}

/// The low 16 bits of each node hash, two bytes each.
pub open spec fn hash_bytes(hashes: Seq<i32>) -> Seq<u8>
    decreases hashes.len(),
{
    if hashes.len() == 0 {
        seq![]
    } else {
        hash_bytes(hashes.drop_last()) + be16(hashes.last() as int)
    }
}

/// The low 16 bits of the node and of the effect of each mastery effect,
/// four bytes each.
pub open spec fn effect_bytes(effects: Seq<(i32, i32)>) -> Seq<u8>
    decreases effects.len(),
{
    if effects.len() == 0 {
        seq![]
    } else {
        effect_bytes(effects.drop_last()) + be16(effects.last().0 as int) + be16(
            effects.last().1 as int,
        )
    }
}

/// The bytes of a tree: the version 6 in four bytes, the class and the
/// ascendancy, the number of node hashes in one byte and the hashes, the
/// number of mastery effects in two bytes and the effects.
pub open spec fn tree_bytes(
    class_id: u8,
    ascendancy_id: u8,
    hashes: Seq<i32>,
    effects: Seq<(i32, i32)>,
) -> Seq<u8> {
    seq![0u8, 0u8, 0u8, 6u8, class_id, ascendancy_id, hashes.len() as u8] + hash_bytes(hashes)
        + be16(effects.len() as int) + effect_bytes(effects)
}

/// The bytes of a tree are as many as its layout says.
pub proof fn lemma_tree_bytes_len(
    class_id: u8,
    ascendancy_id: u8,
    hashes: Seq<i32>,
    effects: Seq<(i32, i32)>,
)
    ensures
        tree_bytes(class_id, ascendancy_id, hashes, effects).len() == 6 + 1 + 2 * hashes.len() + 2
            + 4 * effects.len(),
        tree_bytes(class_id, ascendancy_id, hashes, effects).take(6) == seq![
            0u8,
            0u8,
            0u8,
            6u8,
            class_id,
            ascendancy_id,
        ],
{
    lemma_hash_bytes_len(hashes);
    lemma_effect_bytes_len(effects);
    assert(tree_bytes(class_id, ascendancy_id, hashes, effects).take(6) =~= seq![
        0u8,
        0u8,
        0u8,
        6u8,
        class_id,
        ascendancy_id,
    ]);
}

/// Two bytes for each node hash.
pub proof fn lemma_hash_bytes_len(hashes: Seq<i32>)
    ensures
        hash_bytes(hashes).len() == 2 * hashes.len(),
    decreases hashes.len(),
{
    if hashes.len() > 0 {
        lemma_hash_bytes_len(hashes.drop_last());
    }
}

/// Four bytes for each mastery effect.
pub proof fn lemma_effect_bytes_len(effects: Seq<(i32, i32)>)
    ensures
        effect_bytes(effects).len() == 4 * effects.len(),
    decreases effects.len(),
{
    if effects.len() > 0 {
        lemma_effect_bytes_len(effects.drop_last());
    }
}

fn push_be16(out: &mut Vec<u8>, x: i64)
    requires
        -0x8000_0000 <= x <= 0x7fff_ffff,
    ensures
        final(out)@ == old(out)@ + be16(x as int),
{
    let low: i64 = (x + 0x1_0000_0000) % 65536;
    assert(low == x % 65536);
    out.push((low / 256) as u8);
    out.push((low % 256) as u8);
    assert(out@ =~= old(out)@ + be16(x as int));
}

/// Writes a tree in its binary form.
pub fn encode_tree(class_id: u8, ascendancy_id: u8, hashes: &Vec<i32>, effects: &MasteryEffects) -> (out:
    Vec<u8>)
    requires
        hashes.len() <= 255,
        effects.pairs().len() <= 65535,
    ensures
        out@ == tree_bytes(class_id, ascendancy_id, hashes@, effects.pairs()),
        out.len() == 6 + 1 + 2 * hashes.len() + 2 + 4 * effects.pairs().len(),
        out@.take(6) == seq![0u8, 0u8, 0u8, 6u8, class_id, ascendancy_id],
{
    let mut out: Vec<u8> = Vec::new();
    out.push(0);
    out.push(0);
    out.push(0);
    out.push(6);
    out.push(class_id);
    out.push(ascendancy_id);
    out.push(hashes.len() as u8);
    let ghost head = out@;
    assert(head =~= seq![0u8, 0u8, 0u8, 6u8, class_id, ascendancy_id, hashes.len() as u8]);
    let mut i: usize = 0;
    assert(hashes@.take(0) =~= Seq::<i32>::empty());
    while i < hashes.len()
        invariant
            i <= hashes.len(),
            out@ == head + hash_bytes(hashes@.take(i as int)),
        decreases hashes.len() - i,
    {
        proof {
            assert(hashes@.take(i + 1).drop_last() =~= hashes@.take(i as int));
            assert(hashes@.take(i + 1).last() == hashes@[i as int]);
        }
        push_be16(&mut out, hashes[i] as i64);
        assert(out@ =~= head + hash_bytes(hashes@.take(i + 1)));
        i += 1;
    }
    assert(hashes@.take(hashes.len() as int) =~= hashes@);
    let n = effects.len();
    push_be16(&mut out, n as i64);
    let ghost body = out@;
    match effects {
        MasteryEffects::Table(table) => {
            let ghost pairs = effect_entries(*table);
            let mut k: usize = 0;
            assert(pairs.take(0) =~= Seq::<(i32, i32)>::empty());
            while k < n
                invariant
                    k <= n,
                    n == pairs.len(),
                    pairs == effect_entries(*table),
                    out@ == body + effect_bytes(pairs.take(k as int)),
                decreases n - k,
            {
                proof {
                    assert(pairs.take(k + 1).drop_last() =~= pairs.take(k as int));
                    assert(pairs.take(k + 1).last() == pairs[k as int]);
                }
                let (node, effect) = effect_at(table, k);
                push_be16(&mut out, node as i64);
                push_be16(&mut out, effect as i64);
                assert(out@ =~= body + effect_bytes(pairs.take(k + 1)));
                k += 1;
            }
            assert(pairs.take(n as int) =~= pairs);
        },
        MasteryEffects::Arr(_) => {},
    }
    proof {
        lemma_tree_bytes_len(class_id, ascendancy_id, hashes@, effects.pairs());
        assert(out@ =~= tree_bytes(class_id, ascendancy_id, hashes@, effects.pairs()));
    }
    out
}

/// The text that the `base64` crate's padded URL-safe engine gives for
/// some bytes.
pub uninterp spec fn url_safe_base64(bytes: Seq<u8>) -> Seq<char>;

/// `Engine::encode` of `base64::engine::general_purpose::URL_SAFE`: the
/// bytes in base64 with the URL-safe alphabet and padding. Nothing is
/// claimed about the text beyond its name. Inputs so long that the crate
/// could not size its buffer are left out.
#[verifier::external_body]
pub(crate) fn to_url_safe_base64(bytes: &Vec<u8>) -> (text: String)
    requires
        bytes.len() <= 0x3fff_ffff,
    ensures
        text@ == url_safe_base64(bytes@),
{
    base64::Engine::encode(&base64::engine::general_purpose::URL_SAFE, bytes)
}

} // verus!

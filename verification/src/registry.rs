use vstd::prelude::*;
use crate::descriptor::{decoded, is_encoding, parse_blob, NodeDescriptor, NodeDescriptorView};

verus! {

/// The descriptors held by a sequence of raw storage blobs, in listing
/// order: each well-formed blob contributes its descriptor, each malformed
/// blob is skipped.
pub open spec fn registry_view(blobs: Seq<Seq<char>>) -> Seq<NodeDescriptorView>
    decreases blobs.len(),
{
    if blobs.len() == 0 {
        Seq::empty()
    } else {
        let rest = registry_view(blobs.drop_last());
        if is_encoding(blobs.last()) {
            rest.push(decoded(blobs.last()))
        } else {
            rest
        }
    }
}

/// How many of the blobs are well formed.
pub open spec fn count_encodings(blobs: Seq<Seq<char>>) -> int
    decreases blobs.len(),
{
    if blobs.len() == 0 {
        0
    } else {
        count_encodings(blobs.drop_last()) + if is_encoding(blobs.last()) {
            1int
        } else {
            0int
        }
    }
}

/// A registry listing with some well-formed and some malformed blobs yields
/// exactly one descriptor per well-formed blob: malformed entries are
/// skipped, they never abort or shrink the rest of the listing.
pub proof fn lemma_registry_skips_malformed(blobs: Seq<Seq<char>>)
    ensures
        registry_view(blobs).len() == count_encodings(blobs),
        0 <= count_encodings(blobs) <= blobs.len(),
    decreases blobs.len(),
{
    if blobs.len() > 0 {
        lemma_registry_skips_malformed(blobs.drop_last());
    }
}

/// Build the membership snapshot from the blobs found under the node
/// metadata prefix: parse each, keep the well-formed ones in listing order.
pub fn list_nodes(blobs: &Vec<String>) -> (r: Vec<NodeDescriptor>)
    ensures
        r@.map_values(|d: NodeDescriptor| d@) == registry_view(
            blobs@.map_values(|b: String| b@),
        ),
{
    let ghost bs = blobs@.map_values(|b: String| b@);
    let mut out: Vec<NodeDescriptor> = Vec::new();
    let mut i: usize = 0;
    while i < blobs.len()
        invariant
            i <= blobs@.len(),
            bs == blobs@.map_values(|b: String| b@),
            out@.map_values(|d: NodeDescriptor| d@) == registry_view(bs.take(i as int)),
        decreases blobs@.len() - i,
    {
        let ghost prev = out@.map_values(|d: NodeDescriptor| d@);
        match parse_blob(blobs[i].as_str()) {
            Some(d) => {
                out.push(d);
                proof {
                    assert(out@.map_values(|d: NodeDescriptor| d@) =~= prev.push(out@.last()@));
                }
            },
            None => {},
        }
        proof {
            assert(bs.take(i + 1).drop_last() =~= bs.take(i as int));
            assert(bs.take(i + 1).last() == blobs@[i as int]@);
        }
        i += 1;
    }
    proof {
        assert(bs.take(i as int) =~= bs);
    }
    out
}

} // verus!

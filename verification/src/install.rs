//! Decisions of the install-to-another-disk flow: reading the baked
//! sources back out of a manifest.  The flow's prompts, file reads and
//! the re-run of the create pipeline live in the surrounding
//! application.

use vstd::prelude::*;

use crate::args::Manifest;
use crate::args::Source;
use crate::text;

verus! {

/// The baked paths of the preset sources, in manifest order.
pub open spec fn spec_preset_baked_paths(sources: Seq<Source>) -> Seq<Seq<char>>
    decreases sources.len(),
{
    if sources.len() == 0 {
        Seq::<Seq<char>>::empty()
    } else {
        let rest = spec_preset_baked_paths(sources.drop_last());
        if sources.last().source_type@ == "preset"@ {
            rest.push(sources.last().baked_path@)
        } else {
            rest
        }
    }
}

/// Reads the baked preset paths out of a manifest, in order: these are
/// handed back to the create pipeline as the preset sources of a
/// re-installation.
pub fn preset_baked_paths(manifest: &Manifest) -> (r: Vec<String>)
    ensures
        r.deep_view() == spec_preset_baked_paths(manifest.sources@),
{
    let mut out: Vec<String> = Vec::new();
    let total = manifest.sources.len();
    let mut i: usize = 0;
    proof {
        assert(manifest.sources@.take(0) =~= Seq::<Source>::empty());
        assert(out.deep_view() =~= spec_preset_baked_paths(manifest.sources@.take(0)));
    }
    while i < total
        invariant
            total == manifest.sources@.len(),
            0 <= i <= total,
            out.deep_view() == spec_preset_baked_paths(manifest.sources@.take(i as int)),
        decreases total - i,
    {
        proof {
            let ss = manifest.sources@;
            assert(ss.take(i + 1).drop_last() =~= ss.take(i as int));
            assert(ss.take(i + 1).last() == ss[i as int]);
        }
        let entry = &manifest.sources[i];
        if text::eq_str(entry.source_type.as_str(), "preset") {
            let ghost odv = out.deep_view();
            out.push(entry.baked_path.clone());
            proof {
                assert(out.deep_view() =~~= odv.push(
                    manifest.sources@[i as int].baked_path@,
                ));
            }
        }
        i = i + 1;
    }
    proof {
        assert(manifest.sources@.take(total as int) =~= manifest.sources@);
    }
    out
}

} // verus!

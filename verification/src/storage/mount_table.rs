//! Parsing the live mount table.
//!
//! The mount table is line-oriented: each line holds the mount source,
//! the mount point, and further fields, separated by whitespace.  The
//! caller reads the table's text; the parsing here is verified.

use vstd::prelude::*;

use crate::text;

verus! {

/// The mount points of the given lines whose source field starts with
/// `dev`, in table order.  A line with fewer than two fields is ignored.
pub open spec fn spec_mount_points_in(dev: Seq<char>, ls: Seq<Seq<char>>) -> Seq<Seq<char>>
    decreases ls.len(),
{
    if ls.len() == 0 {
        Seq::<Seq<char>>::empty()
    } else {
        let rest = spec_mount_points_in(dev, ls.drop_last());
        let l = ls.last();
        if dev.is_prefix_of(l) && text::spec_ws_fields(l).len() >= 2 {
            rest.push(text::spec_ws_fields(l)[1])
        } else {
            rest
        }
    }
}

/// The mount points recorded in `text` for the device at `dev`.
pub open spec fn spec_mount_points(dev: Seq<char>, text: Seq<char>) -> Seq<Seq<char>> {
    spec_mount_points_in(dev, text::spec_lines(text))
}

/// Extracts from the mount table's text every mount point whose source
/// path starts with `device_path` — one device can be mounted in
/// several places.
pub fn mount_points_for(device_path: &str, mounts_text: &str) -> (r: Vec<String>)
    ensures
        r.deep_view() == spec_mount_points(device_path@, mounts_text@),
{
    let ls = text::lines_of(mounts_text);
    let total = ls.len();
    let mut found: Vec<String> = Vec::new();
    let mut i: usize = 0;
    proof {
        assert(ls.deep_view().take(0) =~= Seq::<Seq<char>>::empty());
        assert(found.deep_view() =~= spec_mount_points_in(
            device_path@,
            ls.deep_view().take(0),
        ));
    }
    while i < total
        invariant
            total == ls.deep_view().len(),
            total == ls@.len(),
            0 <= i <= total,
            ls.deep_view() == text::spec_lines(mounts_text@),
            found.deep_view() == spec_mount_points_in(
                device_path@,
                ls.deep_view().take(i as int),
            ),
        decreases total - i,
    {
        proof {
            let dv = ls.deep_view();
            assert(dv.take(i + 1).drop_last() =~= dv.take(i as int));
            assert(dv.take(i + 1).last() == dv[i as int]);
            assert(ls@[i as int]@ == dv[i as int]);
        }
        let line = &ls[i];
        if text::starts_with_str(line.as_str(), device_path) {
            let fields = text::ws_fields(line.as_str());
            if fields.len() >= 2 {
                let ghost fdv = found.deep_view();
                let point = fields[1].clone();
                found.push(point);
                proof {
                    assert(found.deep_view() =~~= fdv.push(
                        text::spec_ws_fields(ls.deep_view()[i as int])[1],
                    ));
                }
            }
        }
        i = i + 1;
    }
    proof {
        assert(ls.deep_view().take(total as int) =~= ls.deep_view());
    }
    found
}

/// The source field of the first line whose mount point is `/`: the
/// device backing the root filesystem, if the table shows one.
pub open spec fn spec_root_source_in(ls: Seq<Seq<char>>) -> Option<Seq<char>>
    decreases ls.len(),
{
    if ls.len() == 0 {
        None
    } else {
        let f = text::spec_ws_fields(ls[0]);
        if f.len() >= 2 && f[1] == "/"@ {
            Some(f[0])
        } else {
            spec_root_source_in(ls.drop_first())
        }
    }
}

/// The device path currently mounted at the filesystem root.
pub open spec fn spec_root_source(text: Seq<char>) -> Option<Seq<char>> {
    spec_root_source_in(text::spec_lines(text))
}

/// Finds the device backing the root filesystem in the mount table's
/// text.
pub fn root_mount_source(mounts_text: &str) -> (r: Option<String>)
    ensures
        match r {
            Some(s) => spec_root_source(mounts_text@) == Some(s@),
            None => spec_root_source(mounts_text@) is None,
        },
{
    let ls = text::lines_of(mounts_text);
    let total = ls.len();
    let mut i: usize = 0;
    proof {
        assert(ls.deep_view().skip(0) =~= ls.deep_view());
    }
    while i < total
        invariant
            total == ls.deep_view().len(),
            total == ls@.len(),
            0 <= i <= total,
            ls.deep_view() == text::spec_lines(mounts_text@),
            spec_root_source(mounts_text@) == spec_root_source_in(
                ls.deep_view().skip(i as int),
            ),
        decreases total - i,
    {
        proof {
            let dv = ls.deep_view();
            assert(dv.skip(i as int)[0] == dv[i as int]);
            assert(dv.skip(i as int).drop_first() =~= dv.skip(i + 1));
            assert(ls@[i as int]@ == dv[i as int]);
        }
        let fields = text::ws_fields(ls[i].as_str());
        if fields.len() >= 2 {
            if text::eq_str(fields[1].as_str(), "/") {
                proof {
                    assert(fields.deep_view()[1] == fields@[1]@);
                    assert(fields.deep_view()[0] == fields@[0]@);
                }
                return Some(fields[0].clone());
            }
        }
        i = i + 1;
    }
    proof {
        assert(ls.deep_view().skip(total as int) =~= Seq::<Seq<char>>::empty());
    }
    None
}

} // verus!

use vstd::prelude::*;
use crate::entry::{DirEntry, listing_view};
use crate::extension::{extension, extension_of};

verus! {

/// Whether an entry is a regular file whose extension is exactly `ext`.
pub open spec fn counts_toward(e: (Seq<char>, bool), ext: Seq<char>) -> bool {
    e.1 && extension(e.0) == Some(ext)
}

/// How many regular files of a listing have the extension `ext`, case and all.
pub open spec fn extension_count(v: Seq<(Seq<char>, bool)>, ext: Seq<char>) -> nat
    decreases v.len(),
{
    if v.len() == 0 {
        0
    } else {
        extension_count(v.drop_last(), ext) + if counts_toward(v.last(), ext) {
            1nat
        } else {
            0nat
        }
    }
}

/// One line of a tally: an extension and how many files carry it.
pub struct ExtensionCount {
    pub extension: String,
    pub count: usize,
}

/// `r` is the tally of the listing `v`: one line for each extension that
/// some regular file of `v` carries, with the number of such files, and no
/// other line.
pub open spec fn is_tally_of(r: Seq<ExtensionCount>, v: Seq<(Seq<char>, bool)>) -> bool {
    &&& forall|i: int, j: int|
        0 <= i < j < r.len() ==> #[trigger] r[i].extension@ != #[trigger] r[j].extension@
    &&& forall|i: int|
        0 <= i < r.len() ==> #[trigger] r[i].count == extension_count(v, r[i].extension@)
            && r[i].count > 0
    &&& forall|ext: Seq<char>|
        #[trigger] extension_count(v, ext) > 0 ==> exists|i: int|
            0 <= i < r.len() && #[trigger] r[i].extension@ == ext
}

proof fn lemma_count_push(v: Seq<(Seq<char>, bool)>, x: (Seq<char>, bool))
    ensures
        forall|ext: Seq<char>|
            #[trigger] extension_count(v.push(x), ext) == extension_count(v, ext) + if counts_toward(
                x,
                ext,
            ) {
                1nat
            } else {
                0nat
            },
{
    assert(v.push(x).drop_last() =~= v);
}

fn find_extension(r: &Vec<ExtensionCount>, ext: &String) -> (found: Option<usize>)
    ensures
        found matches Some(j) ==> j < r.len() && r@[j as int].extension@ == ext@,
        found is None ==> forall|k: int| 0 <= k < r.len() ==> r@[k].extension@ != ext@,
{
    let mut j: usize = 0;
    while j < r.len()
        invariant
            j <= r.len(),
            forall|k: int| 0 <= k < j ==> r@[k].extension@ != ext@,
        decreases r.len() - j,
    {
        if r[j].extension == *ext {
            return Some(j);
        }
        j += 1;
    }
    None
}

/// Counts the regular files of a listing by extension. Files without an
/// extension are left out; extensions that differ only in case are kept apart.
pub fn tally_extensions(entries: &Vec<DirEntry>) -> (r: Vec<ExtensionCount>)
    ensures
        is_tally_of(r@, listing_view(entries@)),
{
    let mut r: Vec<ExtensionCount> = Vec::new();
    let mut i: usize = 0;
    assert(listing_view(entries@.subrange(0, 0)) =~= Seq::empty());
    while i < entries.len()
        invariant
            i <= entries.len(),
            is_tally_of(r@, listing_view(entries@.subrange(0, i as int))),
            forall|k: int| 0 <= k < r.len() ==> #[trigger] r@[k].count <= i,
        decreases entries.len() - i,
    {
        let ghost before = listing_view(entries@.subrange(0, i as int));
        let ghost x = entries@[i as int]@;
        assert(listing_view(entries@.subrange(0, i + 1)) =~= before.push(x));
        proof {
            lemma_count_push(before, x);
        }
        let ghost old_r = r@;
        let e = &entries[i];
        let found = if e.is_file {
            extension_of(e.name.as_str())
        } else {
            None
        };
        match found {
            Some(ext) => {
                assert(forall|t: Seq<char>| counts_toward(x, t) <==> t == ext@);
                match find_extension(&r, &ext) {
                    Some(j) => {
                        let c = r[j].count;
                        r.set(j, ExtensionCount { extension: ext, count: c + 1 });
                        assert(forall|k: int|
                            0 <= k < r.len() ==> #[trigger] r@[k].extension@
                                == old_r[k].extension@);
                        assert forall|t: Seq<char>| #[trigger]
                            extension_count(before.push(x), t) > 0 implies exists|k: int|
                            0 <= k < r.len() && #[trigger] r@[k].extension@ == t by {
                            if t == ext@ {
                                assert(r@[j as int].extension@ == t);
                            } else {
                                assert(extension_count(before, t) > 0);
                                let k = choose|k: int|
                                    0 <= k < old_r.len() && #[trigger] old_r[k].extension@ == t;
                                assert(r@[k].extension@ == t);
                            }
                        }
                    },
                    None => {
                        assert(extension_count(before, ext@) == 0);
                        r.push(ExtensionCount { extension: ext, count: 1 });
                        assert(forall|k: int|
                            0 <= k < old_r.len() ==> #[trigger] r@[k] == old_r[k]);
                        assert forall|t: Seq<char>| #[trigger]
                            extension_count(before.push(x), t) > 0 implies exists|k: int|
                            0 <= k < r.len() && #[trigger] r@[k].extension@ == t by {
                            if t == ext@ {
                                assert(r@[old_r.len() as int].extension@ == t);
                            } else {
                                assert(extension_count(before, t) > 0);
                                let k = choose|k: int|
                                    0 <= k < old_r.len() && #[trigger] old_r[k].extension@ == t;
                                assert(r@[k].extension@ == t);
                            }
                        }
                    },
                }
            },
            None => {
                assert(forall|t: Seq<char>| !counts_toward(x, t));
            },
        }
        i += 1;
    }
    assert(entries@.subrange(0, entries.len() as int) =~= entries@);
    r
}

} // verus!

use vstd::prelude::*;

verus! {

/// One direct entry of a directory listing: its base name, and whether it is
/// a regular file.
pub struct DirEntry {
    pub name: String,
    pub is_file: bool,
}

impl View for DirEntry {
    type V = (Seq<char>, bool);

    open spec fn view(&self) -> (Seq<char>, bool) {
        (self.name@, self.is_file)
    }
}

impl DirEntry {
    pub fn new(name: String, is_file: bool) -> (r: DirEntry)
        ensures
            r@ == (name@, is_file),
    {
        DirEntry { name, is_file }
    }
}

/// The model of a listing: each entry's name and whether it is a regular file.
pub open spec fn listing_view(v: Seq<DirEntry>) -> Seq<(Seq<char>, bool)> {
    v.map_values(|e: DirEntry| e@)
}

} // verus!

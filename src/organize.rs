use vstd::prelude::*;
use crate::entry::{DirEntry, listing_view};
use crate::extension::{extension, extension_of};
use crate::text::same_chars;

verus! {

/// The directory a file is sorted into.
#[derive(PartialEq, Eq, Structural, Clone, Copy, Debug)]
pub enum Category {
    Images,
    Documents,
    Videos,
    Others,
}

/// What `str::to_lowercase` makes of a string.
pub uninterp spec fn lower_of(s: Seq<char>) -> Seq<char>;

/// Relies on str::to_lowercase, which maps each character to its Unicode
/// lower case: the result depends on the characters alone.
#[verifier::external_body]
fn lowercase(s: &str) -> (r: String)
    ensures
        r@ == lower_of(s@),
{
    s.to_lowercase()
}

pub open spec fn is_image_ext(e: Seq<char>) -> bool {
    e == "jpg"@ || e == "jpeg"@ || e == "gif"@ || e == "png"@
}

pub open spec fn is_document_ext(e: Seq<char>) -> bool {
    e == "pdf"@ || e == "epub"@ || e == "txt"@ || e == "csv"@ || e == "md"@ || e == "torrent"@
        || e == "xlsx"@ || e == "xls"@ || e == "docs"@ || e == "docx"@ || e == "doc"@
}

pub open spec fn is_video_ext(e: Seq<char>) -> bool {
    e == "mp4"@ || e == "avi"@ || e == "mov"@ || e == "mkv"@ || e == "webm"@ || e == "m4v"@
}

/// The category of an extension that is already in lower case.
pub open spec fn category_of_lowered(e: Seq<char>) -> Category {
    if is_image_ext(e) {
        Category::Images
    } else if is_document_ext(e) {
        Category::Documents
    } else if is_video_ext(e) {
        Category::Videos
    } else {
        Category::Others
    }
}

/// The category of a file name: that of its lower-cased extension, and
/// `Others` where it has none.
pub open spec fn category_of_name(name: Seq<char>) -> Category {
    match extension(name) {
        Some(e) => category_of_lowered(lower_of(e)),
        None => Category::Others,
    }
}

/// Where an entry is to be moved: each regular file goes to its category's
/// directory, and nothing else moves.
pub open spec fn move_target(e: (Seq<char>, bool)) -> Option<Category> {
    if e.1 {
        Some(category_of_name(e.0))
    } else {
        None
    }
}

pub open spec fn dir_name_of(c: Category) -> Seq<char> {
    match c {
        Category::Images => "images"@,
        Category::Documents => "documents"@,
        Category::Videos => "videos"@,
        Category::Others => "others"@,
    }
}

impl Category {
    /// The name of the directory that holds files of this category.
    pub fn dir_name(&self) -> (r: &'static str)
        ensures
            r@ == dir_name_of(*self),
    {
        match self {
            Category::Images => "images",
            Category::Documents => "documents",
            Category::Videos => "videos",
            Category::Others => "others",
        }
    }
}

/// The four category directories, in a fixed order.
pub fn all_categories() -> (r: Vec<Category>)
    ensures
        r@ == seq![Category::Images, Category::Documents, Category::Videos, Category::Others],
{
    let mut r: Vec<Category> = Vec::new();
    r.push(Category::Images);
    r.push(Category::Documents);
    r.push(Category::Videos);
    r.push(Category::Others);
    assert(r@ =~= seq![Category::Images, Category::Documents, Category::Videos, Category::Others]);
    r
}

/// The category of an extension that is already in lower case.
pub fn category_for_lowered(e: &str) -> (r: Category)
    ensures
        r == category_of_lowered(e@),
{
    if same_chars(e, "jpg") || same_chars(e, "jpeg") || same_chars(e, "gif") || same_chars(
        e,
        "png",
    ) {
        Category::Images
    } else if same_chars(e, "pdf") || same_chars(e, "epub") || same_chars(e, "txt") || same_chars(
        e,
        "csv",
    ) || same_chars(e, "md") || same_chars(e, "torrent") || same_chars(e, "xlsx") || same_chars(
        e,
        "xls",
    ) || same_chars(e, "docs") || same_chars(e, "docx") || same_chars(e, "doc") {
        Category::Documents
    } else if same_chars(e, "mp4") || same_chars(e, "avi") || same_chars(e, "mov") || same_chars(
        e,
        "mkv",
    ) || same_chars(e, "webm") || same_chars(e, "m4v") {
        Category::Videos
    } else {
        Category::Others
    }
}

/// The category of a file name.
pub fn classify(name: &str) -> (r: Category)
    ensures
        r == category_of_name(name@),
{
    match extension_of(name) {
        Some(e) => {
            let lowered = lowercase(e.as_str());
            category_for_lowered(lowered.as_str())
        },
        None => Category::Others,
    }
}

/// For each entry of a listing, the category directory it is to be moved to,
/// if any.
pub fn plan_organize(entries: &Vec<DirEntry>) -> (r: Vec<Option<Category>>)
    ensures
        r.len() == entries.len(),
        forall|i: int| 0 <= i < r.len() ==> #[trigger] r@[i] == move_target(entries@[i]@),
{
    let mut r: Vec<Option<Category>> = Vec::new();
    let mut i: usize = 0;
    while i < entries.len()
        invariant
            i <= entries.len(),
            r.len() == i,
            forall|k: int| 0 <= k < i ==> #[trigger] r@[k] == move_target(entries@[k]@),
        decreases entries.len() - i,
    {
        let e = &entries[i];
        if e.is_file {
            r.push(Some(classify(e.name.as_str())));
        } else {
            r.push(None);
        }
        i += 1;
    }
    r
}

/// A regular file whose lower-cased extension is in the image, document or
/// video set is moved to that category's directory; every other regular
/// file, one without an extension included, is moved to `Others`.
pub proof fn lemma_files_land_by_extension(name: Seq<char>)
    ensures
        extension(name) matches Some(e) && is_image_ext(lower_of(e)) ==> move_target((name, true))
            == Some(Category::Images),
        extension(name) matches Some(e) && is_document_ext(lower_of(e)) && !is_image_ext(
            lower_of(e),
        ) ==> move_target((name, true)) == Some(Category::Documents),
        extension(name) matches Some(e) && is_video_ext(lower_of(e)) && !is_image_ext(lower_of(e))
            && !is_document_ext(lower_of(e)) ==> move_target((name, true)) == Some(
            Category::Videos,
        ),
        extension(name) matches Some(e) && !is_image_ext(lower_of(e)) && !is_document_ext(
            lower_of(e),
        ) && !is_video_ext(lower_of(e)) ==> move_target((name, true)) == Some(Category::Others),
        extension(name) is None ==> move_target((name, true)) == Some(Category::Others),
{
}

/// The listing of the directory once every planned move has been made: the
/// entries that were not regular files, and the four category directories.
pub open spec fn after_organizing(v: Seq<(Seq<char>, bool)>) -> Seq<(Seq<char>, bool)> {
    v.filter(|e: (Seq<char>, bool)| !e.1) + seq![
        (dir_name_of(Category::Images), false),
        (dir_name_of(Category::Documents), false),
        (dir_name_of(Category::Videos), false),
        (dir_name_of(Category::Others), false),
    ]
}

/// Once the planned moves are made, planning again moves nothing.
pub proof fn lemma_second_organizing_moves_nothing(v: Seq<(Seq<char>, bool)>)
    ensures
        forall|i: int|
            0 <= i < after_organizing(v).len() ==> #[trigger] move_target(after_organizing(v)[i])
                is None,
{
    broadcast use vstd::seq_lib::group_filter_ensures;

    let kept = v.filter(|e: (Seq<char>, bool)| !e.1);
    assert forall|i: int| 0 <= i < after_organizing(v).len() implies #[trigger] move_target(
        after_organizing(v)[i],
    ) is None by {
        if i < kept.len() {
            assert(after_organizing(v)[i] == kept[i]);
        }
    }
}

} // verus!

use dirtidy::entry::DirEntry;
use dirtidy::extension::extension_of;
use dirtidy::names::{clean_name, plan_renames};
use dirtidy::organize::{all_categories, category_for_lowered, classify, plan_organize, Category};
use dirtidy::tally::{tally_extensions, ExtensionCount};
use dirtidy::text::same_chars;

fn file(name: &str) -> DirEntry {
    DirEntry::new(name.to_string(), true)
}

fn dir(name: &str) -> DirEntry {
    DirEntry::new(name.to_string(), false)
}

fn count_of(t: &[ExtensionCount], ext: &str) -> Option<usize> {
    t.iter().find(|c| c.extension == ext).map(|c| c.count)
}

#[test]
fn clean_name_replaces_spaces_and_drops_parens() {
    assert_eq!(clean_name("My (Doc).txt"), "My_Doc.txt");
    assert_eq!(clean_name("a b  c"), "a_b__c");
    assert_eq!(clean_name("((x))"), "x");
    assert_eq!(clean_name(""), "");
    assert_eq!(clean_name("plain.md"), "plain.md");
    assert_eq!(clean_name("été (1).png"), "été_1.png");
}

#[test]
fn cleaned_name_has_no_spaces_or_parens_and_keeps_the_rest() {
    let names = ["a (b) c.txt", " lead", "trail ", "(only)", "x_y z"];
    for n in names {
        let c = clean_name(n);
        assert!(!c.contains(' ') && !c.contains('(') && !c.contains(')'));
        let kept: String = n.chars().filter(|ch| *ch != '(' && *ch != ')').map(|ch| if ch == ' ' { '_' } else { ch }).collect();
        assert_eq!(c, kept);
    }
}

#[test]
fn clean_name_is_idempotent() {
    for n in ["My (Doc).txt", "a b", "(x) (y)", "ok"] {
        let once = clean_name(n);
        assert_eq!(clean_name(&once), once);
    }
}

#[test]
fn plan_renames_only_touches_files_that_change() {
    let entries = vec![file("My (Doc).txt"), file("ok.txt"), dir("some dir"), file("a b")];
    let plan = plan_renames(&entries);
    assert_eq!(plan, vec![Some("My_Doc.txt".to_string()), None, None, Some("a_b".to_string())]);
}

#[test]
fn second_cleaning_pass_renames_nothing() {
    let entries = vec![file("My (Doc).txt"), file("x y"), dir("d (1)")];
    let plan = plan_renames(&entries);
    let after: Vec<DirEntry> = entries
        .iter()
        .zip(plan.iter())
        .map(|(e, p)| DirEntry::new(p.clone().unwrap_or_else(|| e.name.clone()), e.is_file))
        .collect();
    assert!(plan_renames(&after).iter().all(|p| p.is_none()));
}

#[test]
fn extension_follows_last_dot() {
    assert_eq!(extension_of("a.txt"), Some("txt".to_string()));
    assert_eq!(extension_of("archive.tar.gz"), Some("gz".to_string()));
    assert_eq!(extension_of("photo.JPG"), Some("JPG".to_string()));
    assert_eq!(extension_of("notes"), None);
    assert_eq!(extension_of(".bashrc"), None);
    assert_eq!(extension_of(".config.toml"), Some("toml".to_string()));
    assert_eq!(extension_of("trailing."), Some("".to_string()));
    assert_eq!(extension_of(""), None);
}

#[test]
fn tally_keeps_case_apart() {
    let t = tally_extensions(&vec![file("a.txt"), file("a.TXT")]);
    assert_eq!(t.len(), 2);
    assert_eq!(count_of(&t, "txt"), Some(1));
    assert_eq!(count_of(&t, "TXT"), Some(1));
}

#[test]
fn tally_counts_files_by_exact_extension() {
    let entries = vec![
        file("a.txt"),
        file("b.txt"),
        file("c.md"),
        file("notes"),
        file(".hidden"),
        dir("docs.txt"),
        file("d.txt"),
    ];
    let t = tally_extensions(&entries);
    assert_eq!(t.len(), 2);
    assert_eq!(count_of(&t, "txt"), Some(3));
    assert_eq!(count_of(&t, "md"), Some(1));
    assert_eq!(count_of(&t, "hidden"), None);
}

#[test]
fn tally_of_empty_listing_is_empty() {
    assert!(tally_extensions(&vec![]).is_empty());
    assert!(tally_extensions(&vec![file("README"), dir("src")]).is_empty());
}

#[test]
fn category_of_lowered_extension() {
    assert_eq!(category_for_lowered("jpeg"), Category::Images);
    assert_eq!(category_for_lowered("torrent"), Category::Documents);
    assert_eq!(category_for_lowered("m4v"), Category::Videos);
    assert_eq!(category_for_lowered("zip"), Category::Others);
    assert_eq!(category_for_lowered("JPG"), Category::Others);
    assert_eq!(category_for_lowered(""), Category::Others);
}

#[test]
fn classify_lowercases_the_extension() {
    assert_eq!(classify("photo.JPG"), Category::Images);
    assert_eq!(classify("Report.PdF"), Category::Documents);
    assert_eq!(classify("clip.MKV"), Category::Videos);
    assert_eq!(classify("notes"), Category::Others);
    assert_eq!(classify(".png"), Category::Others);
}

#[test]
fn organize_scenario() {
    let entries = vec![
        file("My (Doc).txt"),
        file("photo.JPG"),
        file("video.mkv"),
        file("notes"),
        file("archive.zip"),
    ];
    let plan = plan_organize(&entries);
    assert_eq!(
        plan,
        vec![
            Some(Category::Documents),
            Some(Category::Images),
            Some(Category::Videos),
            Some(Category::Others),
            Some(Category::Others),
        ]
    );
    assert_eq!(plan[0].unwrap().dir_name(), "documents");
    assert_eq!(plan[1].unwrap().dir_name(), "images");
    assert_eq!(plan[2].unwrap().dir_name(), "videos");
    assert_eq!(plan[3].unwrap().dir_name(), "others");
}

#[test]
fn second_organizing_pass_moves_nothing() {
    let entries = vec![file("a.png"), dir("images"), file("b")];
    let plan = plan_organize(&entries);
    let mut after: Vec<DirEntry> = entries
        .iter()
        .zip(plan.iter())
        .filter(|(_, p)| p.is_none())
        .map(|(e, _)| DirEntry::new(e.name.clone(), e.is_file))
        .collect();
    for c in all_categories() {
        after.push(dir(c.dir_name()));
    }
    assert!(plan_organize(&after).iter().all(|p| p.is_none()));
}

#[test]
fn category_directories() {
    let names: Vec<&str> = all_categories().iter().map(|c| c.dir_name()).collect();
    assert_eq!(names, vec!["images", "documents", "videos", "others"]);
}

#[test]
fn same_chars_compares_characters() {
    assert!(same_chars("abc", "abc"));
    assert!(!same_chars("abc", "abd"));
    assert!(!same_chars("ab", "abc"));
    assert!(same_chars("", ""));
}

use aspect::data::{File, Filter, Rating};

fn test_is_subset_of(filter: &Filter, current: &Filter, expected: bool) {
    assert_eq!(filter.is_subset_of(current), expected, "{:?} is subset of {:?}", filter, current);
}

fn test_matches(filter: &Filter, file: &File, expected: bool) {
    assert_eq!(filter.matches(file), expected, "{:?} matches {:?}", filter, file);
}

#[test]
pub fn is_subset_of_by_name() {
    let current = Filter::default().with_name("abc");
    test_is_subset_of(&Filter::default().with_name(""), &current, false);
    test_is_subset_of(&Filter::default().with_name("a"), &current, false);
    test_is_subset_of(&Filter::default().with_name("abc"), &current, true);
    test_is_subset_of(&Filter::default().with_name("abcd"), &current, true);
    test_is_subset_of(&Filter::default().with_name(""), &Filter::default(), true);
    test_is_subset_of(&Filter::default().with_name("a"), &Filter::default(), true);
}

#[test]
pub fn is_subset_of_by_rating() {
    let current = Filter::default().with_rating(&Some(Rating::from(3i64)));
    test_is_subset_of(&Filter::default().with_rating(&None), &current, false);
    test_is_subset_of(&Filter::default().with_rating(&Some(Rating::from(1))), &current, false);
    test_is_subset_of(&Filter::default().with_rating(&Some(Rating::from(2))), &current, false);
    test_is_subset_of(&Filter::default().with_rating(&Some(Rating::from(3))), &current, true);
    test_is_subset_of(&Filter::default().with_rating(&Some(Rating::from(4))), &current, true);
    test_is_subset_of(&Filter::default().with_rating(&Some(Rating::from(5))), &current, true);
    test_is_subset_of(
        &Filter::default().with_rating(&Some(Rating::from(1))),
        &Filter::default(),
        true,
    );
    test_is_subset_of(
        &Filter::default().with_rating(&Some(Rating::from(5))),
        &Filter::default(),
        true,
    );
    test_is_subset_of(&Filter::default().with_rating(&None), &Filter::default(), true);
}

#[test]
pub fn matches_by_name() {
    let file = File::from(r"C:\path\to\file.png");

    test_matches(&Filter::default(), &file, true);
    test_matches(&Filter::default().with_name("f"), &file, true);
    test_matches(&Filter::default().with_name("file"), &file, true);
    test_matches(&Filter::default().with_name("file."), &file, true);
    test_matches(&Filter::default().with_name("file.p"), &file, true);
    test_matches(&Filter::default().with_name("file.png"), &file, true);
    test_matches(&Filter::default().with_name("FILE.PNG"), &file, true);
    test_matches(&Filter::default().with_name("FILE"), &file, true);
    test_matches(&Filter::default().with_name("FI"), &file, true);
    test_matches(&Filter::default().with_name("file.pnga"), &file, false);
    test_matches(&Filter::default().with_name("file*png"), &file, false);
    test_matches(&Filter::default().with_name("*file.png"), &file, false);
    test_matches(&Filter::default().with_name("other.png"), &file, false);
}

#[test]
pub fn matches_by_rating() {
    let mut file = File::from("");
    file.rating = Some(Rating::from(3));

    test_matches(&Filter::default(), &file, true);
    test_matches(&Filter::default().with_rating(&Some(Rating::from(1))), &file, true);
    test_matches(&Filter::default().with_rating(&Some(Rating::from(2))), &file, true);
    test_matches(&Filter::default().with_rating(&Some(Rating::from(3))), &file, true);
    test_matches(&Filter::default().with_rating(&Some(Rating::from(4))), &file, false);
    test_matches(&Filter::default().with_rating(&Some(Rating::from(5))), &file, false);
}

#[test]
fn matches_lowers_the_file_name() {
    let file = File::from("/pictures/HOLIDAY.JPG");
    test_matches(&Filter::default().with_name("holiday"), &file, true);
    test_matches(&Filter::default().with_name("Holiday.jpg"), &file, true);
    test_matches(&Filter::default().with_name("holidays"), &file, false);
}

#[test]
fn matches_needs_a_name_and_a_rating_when_asked() {
    let unnamed = File::from_parts(String::from(".."), None, None, 0, 0, None);
    test_matches(&Filter::default(), &unnamed, true);
    test_matches(&Filter::default().with_name("a"), &unnamed, false);
    let unrated = File::from("/pictures/a.png");
    test_matches(&Filter::default().with_rating(&Some(Rating::from(1))), &unrated, false);
    test_matches(&Filter::default().with_name("a"), &unrated, true);
}

#[test]
fn matches_asks_for_name_and_rating_together() {
    let mut file = File::from("/pictures/cat.png");
    file.rating = Some(Rating::from(2));
    let both = Filter::default().with_name("cat").with_rating(&Some(Rating::from(2)));
    test_matches(&both, &file, true);
    let higher = Filter::default().with_name("cat").with_rating(&Some(Rating::from(3)));
    test_matches(&higher, &file, false);
    let other = Filter::default().with_name("dog").with_rating(&Some(Rating::from(1)));
    test_matches(&other, &file, false);
}

#[test]
fn is_subset_of_needs_both_parts() {
    let current = Filter::default().with_name("ab").with_rating(&Some(Rating::from(2)));
    let narrower = Filter::default().with_name("abc").with_rating(&Some(Rating::from(4)));
    let other_name = Filter::default().with_name("b").with_rating(&Some(Rating::from(4)));
    let lower = Filter::default().with_name("abc").with_rating(&Some(Rating::from(1)));
    test_is_subset_of(&narrower, &current, true);
    test_is_subset_of(&other_name, &current, false);
    test_is_subset_of(&lower, &current, false);
    test_is_subset_of(&current, &current, true);
    test_is_subset_of(&current, &narrower, false);
}

#[test]
fn a_subset_matches_no_more_files() {
    let wide = Filter::default().with_name("a");
    let narrow = Filter::default().with_name("ab").with_rating(&Some(Rating::from(3)));
    assert!(narrow.is_subset_of(&wide));
    let names = ["/p/ab.png", "/p/a.png", "/p/b.png", "/p/xab.gif", "/p/AB.bmp"];
    for name in names.iter() {
        for stars in 0..6 {
            let mut file = File::from(*name);
            if stars > 0 {
                file.rating = Some(Rating::from(stars));
            }
            if narrow.matches(&file) {
                assert!(wide.matches(&file), "{:?}", file);
            }
        }
    }
}

#[test]
fn with_name_of_empty_text_asks_for_no_name() {
    let filter = Filter::default().with_name("abc").with_name("");
    let file = File::from("/p/zzz.png");
    test_matches(&filter, &file, true);
    test_is_subset_of(&Filter::default(), &filter, true);
}

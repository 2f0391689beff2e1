use aspect::data::file::{star_clicked, File};
use aspect::data::{FileSize, Rating};
use aspect::support::ExtensionIs;

#[test]
fn rating_is_clamped_on_construction() {
    assert_eq!(Rating::from(0i64).as_i64(), 1);
    assert_eq!(Rating::from(-7i64).as_i64(), 1);
    assert_eq!(Rating::from(1i64).as_i64(), 1);
    assert_eq!(Rating::from(3i64).as_i64(), 3);
    assert_eq!(Rating::from(5i64).as_i64(), 5);
    assert_eq!(Rating::from(6i64).as_i64(), 5);
    assert_eq!(Rating::from(i64::MAX).as_i64(), 5);
    assert_eq!(Rating::from(i64::MIN).as_i64(), 1);
    assert_eq!(Rating::from(4i32).as_i64(), 4);
    assert_eq!(Rating::from(0usize).as_i64(), 1);
    assert_eq!(Rating::from(usize::MAX).as_i64(), 5);
    assert_eq!(Rating::new(2).as_i64(), 2);
}

#[test]
fn rating_bounds() {
    assert_eq!(Rating::min_value(), 1);
    assert_eq!(Rating::max_value(), 5);
}

#[test]
fn ratings_compare_by_their_stars() {
    assert!(Rating::from(2) < Rating::from(3));
    assert!(Rating::from(9) == Rating::from(5));
    assert!(Rating::from(4) >= Rating::from(4));
}

#[test]
fn rating_stars() {
    assert_eq!(Rating::from(1).stars(), "*____");
    assert_eq!(Rating::from(3).stars(), "***__");
    assert_eq!(Rating::from(5).stars(), "*****");
}

#[test]
fn file_from_path_has_name_and_extension() {
    let file = File::from("/pictures/summer/beach.JPG");
    assert_eq!(file.path, "/pictures/summer/beach.JPG");
    assert_eq!(file.name(), "beach.JPG");
    assert_eq!(file.file_name.as_deref(), Some("beach.JPG"));
    assert_eq!(file.extension.as_deref(), Some("JPG"));
    assert!(file.rating.is_none());
    assert_eq!(file.last_modified(), 0);
    assert_eq!(file.size(), FileSize(0));
    assert_eq!(file.size().bytes(), 0);
}

#[test]
fn file_without_a_final_component_has_an_empty_name() {
    let file = File::from("/pictures/..");
    assert_eq!(file.name(), "");
    assert!(file.file_name.is_none());
    assert!(!file.extension_is("png"));
}

#[test]
fn file_from_parts_keeps_the_parts() {
    let file = File::from_parts(
        String::from("/p/a.gif"),
        Some(String::from("a.gif")),
        Some(String::from("gif")),
        1_546_300_800,
        2048,
        Some(Rating::from(4)),
    );
    assert_eq!(file.path, "/p/a.gif");
    assert_eq!(file.name(), "a.gif");
    assert_eq!(file.last_modified(), 1_546_300_800);
    assert_eq!(file.size().bytes(), 2048);
    assert_eq!(file.rating, Some(Rating::from(4)));
    let copy = file.clone();
    assert_eq!(copy.path, file.path);
    assert_eq!(copy.file_name, file.file_name);
    assert_eq!(copy.extension, file.extension);
    assert_eq!(copy.rating, file.rating);
    assert_eq!(copy.modified, file.modified);
    assert_eq!(copy.size, file.size);
}

#[test]
fn file_title_shows_stars_and_name() {
    let mut file = File::from("/p/cat.png");
    assert_eq!(file.title(), "_____ cat.png");
    file.rating = Some(Rating::from(2));
    assert_eq!(file.title(), "**___ cat.png");
    file.rating = Some(Rating::from(5));
    assert_eq!(file.title(), "***** cat.png");
}

#[test]
fn extension_is_ignores_case() {
    let file = File::from("/p/Anim.GiF");
    assert!(file.extension_is("gif"));
    assert!(file.extension_is("GIF"));
    assert!(!file.extension_is("png"));
    assert!(!file.extension_is("gi"));
    let bare = File::from("/p/noextension");
    assert!(!bare.extension_is("gif"));
    assert!(!bare.extension_is(""));
}

#[test]
fn ratings_convert_to_integers() {
    let stars: usize = Rating::from(4).into();
    assert_eq!(stars, 4);
    let stars: i64 = Rating::from(-1).into();
    assert_eq!(stars, 1);
    assert_eq!(usize::from(Rating::from(100)), 5);
}

#[test]
fn a_click_on_a_star_sets_or_clears_the_rating() {
    assert_eq!(star_clicked(None, 3), Some(Rating::from(3)));
    assert_eq!(star_clicked(Some(Rating::from(2)), 3), Some(Rating::from(3)));
    assert_eq!(star_clicked(Some(Rating::from(3)), 3), None);
    assert_eq!(star_clicked(Some(Rating::from(5)), 5), None);
    assert_eq!(star_clicked(Some(Rating::from(5)), 1), Some(Rating::from(1)));
    assert_eq!(star_clicked(Some(Rating::from(1)), 0), Some(Rating::from(1)));
    assert_eq!(star_clicked(None, 9), Some(Rating::from(5)));
}

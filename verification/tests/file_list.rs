use aspect::data::file_list::{file_sort_methods, FileList};
use aspect::data::formats::is_image_file;
use aspect::data::persist::{populate_files, RatingRow};
use aspect::data::{File, FileSort, Filter, Rating};
use aspect::systems::events::{Filter as FilterEvent, Nav, SetMeta, Slideshow};
use aspect::systems::{AppEvent, EventSystem};

fn files_of(paths: &[&str]) -> Vec<File> {
    paths.iter().map(|p| File::from(*p)).collect()
}

fn visible(list: &FileList) -> Vec<String> {
    (0..list.len()).map(|i| list.get_file(i).unwrap().name()).collect()
}

fn current_name(list: &FileList) -> String {
    list.current().unwrap().name()
}

fn dated(path: &str, modified: u64) -> File {
    let mut file = File::from(path);
    file.modified = modified;
    file
}

fn rated(path: &str, stars: i64) -> File {
    let mut file = File::from(path);
    file.rating = Some(Rating::from(stars));
    file
}

fn letters() -> FileList {
    FileList::from_files(files_of(&["/d/1a.png", "/d/2b.png", "/d/3ac.png", "/d/4bc.png", "/d/5ac.png"]))
}

#[test]
pub fn filter_syncs_selected_item() {
    const AC3: &str = r"C:\files\3ac.png";
    let files = vec![
        r"C:\files\1a.png",
        r"C:\files\2b.png",
        AC3,
        r"C:\files\4bc.png",
        r"C:\files\5ac.png",
    ]
    .iter()
    .map(|f| File::from(*f))
    .collect();
    let mut list = FileList::from_files(files);

    list.set_current(2);
    list.apply_filter(Filter::default().with_name("a"));
    println!("{:#?}", list);
    assert_eq!(list.current().unwrap().path, AC3, "filter by 'a'");

    list.apply_filter(Filter::default().with_name("ac"));
    assert_eq!(list.current().unwrap().path, AC3, "filter by 'ac'");

    list.apply_filter(Filter::default().with_name("a"));
    assert_eq!(list.current().unwrap().path, AC3, "filter by 'a' after 'ac'");

    list.apply_filter(Filter::default().with_name(""));
    assert_eq!(list.current().unwrap().path, AC3, "filter by '' after 'ac'");
}

#[test]
fn filter_scenario_shows_the_expected_files() {
    let mut list = letters();
    list.set_current(2);
    list.apply_filter(Filter::default().with_name("a"));
    assert_eq!(visible(&list), ["1a.png", "3ac.png", "5ac.png"]);
    assert_eq!(list.current_index(), 1);
    list.apply_filter(Filter::default().with_name("ac"));
    assert_eq!(visible(&list), ["3ac.png", "5ac.png"]);
    assert_eq!(list.current_index(), 0);
    list.apply_filter(Filter::default().with_name("a"));
    assert_eq!(visible(&list), ["1a.png", "3ac.png", "5ac.png"]);
    assert_eq!(list.current_index(), 1);
    list.apply_filter(Filter::default().with_name(""));
    assert_eq!(visible(&list), ["1a.png", "2b.png", "3ac.png", "4bc.png", "5ac.png"]);
    assert_eq!(list.current_index(), 2);
}

#[test]
fn from_files_sorts_by_name_and_selects_the_first() {
    let list = FileList::from_files(files_of(&["/d/c.png", "/d/a.png", "/d/b.png"]));
    assert_eq!(visible(&list), ["a.png", "b.png", "c.png"]);
    assert_eq!(list.current_index(), 0);
    assert_eq!(*list.current_sort(), FileSort::Name);
    assert_eq!(list.len(), 3);
    assert!(!list.is_slideshow_enabled());
    assert!(list.get_file(3).is_none());
}

#[test]
fn an_empty_list_has_no_current_file() {
    let mut list = FileList::from_files(Vec::new());
    assert_eq!(list.len(), 0);
    assert!(list.current().is_none());
    assert!(!list.next());
    assert!(!list.prev());
    assert!(!list.set_current(7));
    assert_eq!(list.current_index(), 0);
    list.sort_by(FileSort::LastModified);
    list.apply_filter(Filter::default().with_name("x"));
    assert_eq!(list.current_index(), 0);
    assert!(list.current().is_none());
    assert!(list.set_rating(Some(Rating::from(3))).is_none());
}

#[test]
fn next_and_prev_wrap_around() {
    let mut list = letters();
    assert_eq!(list.current_index(), 0);
    assert!(list.prev());
    assert_eq!(list.current_index(), 4);
    assert!(list.next());
    assert_eq!(list.current_index(), 0);
    assert!(list.next());
    assert_eq!(list.current_index(), 1);
}

#[test]
fn next_then_prev_restores_the_selection() {
    for start in 0..5 {
        let mut list = letters();
        list.set_current(start);
        list.next();
        list.prev();
        assert_eq!(list.current_index(), start);
        list.prev();
        list.next();
        assert_eq!(list.current_index(), start);
    }
    let mut single = FileList::from_files(files_of(&["/d/only.png"]));
    assert!(!single.next());
    assert!(!single.prev());
    assert_eq!(single.current_index(), 0);
}

#[test]
fn set_current_counts_modulo_the_length() {
    let mut list = letters();
    assert!(list.set_current(3));
    assert_eq!(list.current_index(), 3);
    assert!(!list.set_current(3));
    assert!(list.set_current(7));
    assert_eq!(list.current_index(), 2);
    assert!(list.set_current(5));
    assert_eq!(list.current_index(), 0);
    assert!(!list.set_current(usize::MAX - usize::MAX % 5));
    assert_eq!(list.current_index(), 0);
}

#[test]
fn sort_by_name_compares_raw_bytes() {
    let list = FileList::from_files(files_of(&["/d/b.png", "/d/B.png", "/d/a.png", "/d/10.png", "/d/9.png", "/d/ä.png"]));
    assert_eq!(visible(&list), ["10.png", "9.png", "B.png", "a.png", "b.png", "ä.png"]);
}

#[test]
fn sort_by_name_puts_a_shorter_name_first() {
    let list = FileList::from_files(files_of(&["/d/ab", "/d/a", "/d/abc", "/d/.."]));
    assert_eq!(visible(&list), ["", "a", "ab", "abc"]);
}

#[test]
fn sort_by_last_modified_puts_the_oldest_first() {
    let mut list = FileList::from_files(vec![
        dated("/d/a.png", 300),
        dated("/d/b.png", 100),
        dated("/d/c.png", 200),
    ]);
    list.sort_by(FileSort::LastModified);
    assert_eq!(visible(&list), ["b.png", "c.png", "a.png"]);
    assert_eq!(*list.current_sort(), FileSort::LastModified);
}

#[test]
fn sort_keeps_the_order_of_files_it_cannot_tell_apart() {
    let mut list = FileList::from_files(vec![
        dated("/d/d.png", 5),
        dated("/d/c.png", 1),
        dated("/d/b.png", 5),
        dated("/d/a.png", 5),
    ]);
    assert_eq!(visible(&list), ["a.png", "b.png", "c.png", "d.png"]);
    list.sort_by(FileSort::LastModified);
    assert_eq!(visible(&list), ["c.png", "a.png", "b.png", "d.png"]);
}

#[test]
fn sort_keeps_the_selection_on_the_selected_file() {
    let mut list = FileList::from_files(vec![
        dated("/d/a.png", 300),
        dated("/d/b.png", 100),
        dated("/d/c.png", 200),
    ]);
    list.set_current(0);
    list.sort_by(FileSort::LastModified);
    assert_eq!(current_name(&list), "a.png");
    assert_eq!(list.current_index(), 2);
    list.sort_by(FileSort::Name);
    assert_eq!(current_name(&list), "a.png");
    assert_eq!(list.current_index(), 0);
}

#[test]
fn sort_by_the_current_method_changes_nothing() {
    let mut list = FileList::from_files(vec![
        dated("/d/a.png", 300),
        dated("/d/b.png", 100),
        dated("/d/c.png", 200),
    ]);
    list.sort_by(FileSort::Random);
    list.set_current(1);
    let before = visible(&list);
    for _ in 0..20 {
        list.sort_by(FileSort::Random);
        assert_eq!(visible(&list), before);
        assert_eq!(list.current_index(), 1);
    }
    list.sort_by(FileSort::Name);
    list.set_current(2);
    list.sort_by(FileSort::Name);
    assert_eq!(visible(&list), ["a.png", "b.png", "c.png"]);
    assert_eq!(list.current_index(), 2);
}

#[test]
fn random_sort_keeps_every_file_and_the_selection() {
    let names: Vec<String> = (0..40).map(|i| format!("/d/{:02}.png", i)).collect();
    let paths: Vec<&str> = names.iter().map(|s| s.as_str()).collect();
    let mut changed = false;
    for round in 0..10 {
        let mut list = FileList::from_files(files_of(&paths));
        list.set_current(17);
        let before = visible(&list);
        list.sort_by(FileSort::Random);
        assert_eq!(*list.current_sort(), FileSort::Random);
        assert_eq!(current_name(&list), "17.png", "round {}", round);
        let mut after = visible(&list);
        if after != before {
            changed = true;
        }
        after.sort();
        assert_eq!(after, before);
    }
    assert!(changed);
}

#[test]
fn a_narrower_filter_after_a_wider_one_shows_what_it_shows_alone() {
    let paths = ["/d/ab1.png", "/d/b2.png", "/d/a3.png", "/d/xab4.png", "/d/c5.png", "/d/ABC6.png"];
    let wide = || Filter::default().with_name("a");
    let narrow = || Filter::default().with_name("ab");
    assert!(narrow().is_subset_of(&wide()));

    let mut twice = FileList::from_files(files_of(&paths));
    twice.apply_filter(wide());
    assert_eq!(visible(&twice), ["ABC6.png", "a3.png", "ab1.png", "xab4.png"]);
    twice.apply_filter(narrow());

    let mut once = FileList::from_files(files_of(&paths));
    once.apply_filter(narrow());

    assert_eq!(visible(&twice), ["ABC6.png", "ab1.png", "xab4.png"]);
    assert_eq!(visible(&twice), visible(&once));
}

#[test]
fn a_narrower_filter_by_rating_after_a_wider_one() {
    let make = || {
        FileList::from_files(vec![
            rated("/d/a.png", 1),
            rated("/d/b.png", 4),
            File::from("/d/c.png"),
            rated("/d/d.png", 3),
            rated("/d/e.png", 5),
        ])
    };
    let mut twice = make();
    twice.apply_filter(Filter::default().with_rating(&Some(Rating::from(3))));
    assert_eq!(visible(&twice), ["b.png", "d.png", "e.png"]);
    twice.apply_filter(Filter::default().with_rating(&Some(Rating::from(4))));
    let mut once = make();
    once.apply_filter(Filter::default().with_rating(&Some(Rating::from(4))));
    assert_eq!(visible(&twice), ["b.png", "e.png"]);
    assert_eq!(visible(&once), visible(&twice));
}

#[test]
fn the_empty_filter_restores_every_file_in_sorted_order() {
    let mut list = letters();
    let all = visible(&list);
    list.apply_filter(Filter::default().with_name("b"));
    assert_eq!(visible(&list), ["2b.png", "4bc.png"]);
    list.apply_filter(Filter::default());
    assert_eq!(visible(&list), all);
    let index = list.current_index();
    list.apply_filter(Filter::default());
    assert_eq!(visible(&list), all);
    assert_eq!(list.current_index(), index);
    list.apply_filter(Filter::default().with_name("").with_rating(&None));
    assert_eq!(visible(&list), all);
}

#[test]
fn a_filter_that_nothing_passes_leaves_no_current_file() {
    let mut list = letters();
    list.set_current(3);
    list.apply_filter(Filter::default().with_name("zzz"));
    assert_eq!(list.len(), 0);
    assert_eq!(list.current_index(), 0);
    assert!(list.current().is_none());
    list.apply_filter(Filter::default());
    assert_eq!(list.len(), 5);
    assert_eq!(visible(&list), ["1a.png", "2b.png", "3ac.png", "4bc.png", "5ac.png"]);
    // The files come back with the one held back last in front, the
    // selection is on it, and the sort that follows keeps it there.
    assert_eq!(current_name(&list), "5ac.png");
    assert_eq!(list.current_index(), 4);
}

#[test]
fn a_filtered_out_selection_moves_to_the_nearest_file_before_it() {
    let mut list = letters();
    list.set_current(3);
    list.apply_filter(Filter::default().with_name("a"));
    assert_eq!(visible(&list), ["1a.png", "3ac.png", "5ac.png"]);
    assert_eq!(current_name(&list), "3ac.png");

    let mut list = letters();
    list.set_current(1);
    list.apply_filter(Filter::default().with_name("c"));
    assert_eq!(visible(&list), ["3ac.png", "4bc.png", "5ac.png"]);
    assert_eq!(list.current_index(), 0);

    let mut list = letters();
    list.set_current(0);
    list.apply_filter(Filter::default().with_name("b"));
    assert_eq!(list.current_index(), 0);
    assert_eq!(current_name(&list), "2b.png");

    let mut list = letters();
    list.set_current(4);
    list.apply_filter(Filter::default().with_name("b"));
    assert_eq!(visible(&list), ["2b.png", "4bc.png"]);
    assert_eq!(list.current_index(), 1);
}

#[test]
fn a_filter_keeps_the_selection_on_a_file_that_passes() {
    for start in 0..5 {
        let mut list = letters();
        list.set_current(start);
        let name = current_name(&list);
        list.apply_filter(Filter::default().with_name("c"));
        if name.contains('c') {
            assert_eq!(current_name(&list), name);
        }
        list.sort_by(FileSort::LastModified);
        let shown = current_name(&list);
        list.apply_filter(Filter::default());
        assert_eq!(current_name(&list), shown);
    }
}

#[test]
fn a_wider_filter_sorts_the_files_again() {
    let mut list = FileList::from_files(vec![
        dated("/d/a1.png", 3),
        dated("/d/b2.png", 2),
        dated("/d/a3.png", 1),
    ]);
    list.sort_by(FileSort::LastModified);
    assert_eq!(visible(&list), ["a3.png", "b2.png", "a1.png"]);
    list.apply_filter(Filter::default().with_name("a"));
    assert_eq!(visible(&list), ["a3.png", "a1.png"]);
    list.apply_filter(Filter::default());
    assert_eq!(visible(&list), ["a3.png", "b2.png", "a1.png"]);
}

#[test]
fn set_rating_changes_the_selected_file_and_asks_for_a_write() {
    let mut list = letters();
    list.set_current(1);
    let write = list.set_rating(Some(Rating::from(4))).unwrap();
    assert_eq!(write.file_name, "2b.png");
    assert_eq!(write.rating, Some(Rating::from(4)));
    assert_eq!(list.current().unwrap().rating, Some(Rating::from(4)));
    assert!(list.get_file(0).unwrap().rating.is_none());
    let write = list.set_rating(None).unwrap();
    assert_eq!(write.file_name, "2b.png");
    assert!(write.rating.is_none());
    assert!(list.current().unwrap().rating.is_none());
}

#[test]
fn a_rated_file_stays_visible_until_the_filter_changes() {
    let mut list = FileList::from_files(vec![rated("/d/a.png", 5), rated("/d/b.png", 4)]);
    list.apply_filter(Filter::default().with_rating(&Some(Rating::from(4))));
    list.set_rating(Some(Rating::from(1)));
    assert_eq!(visible(&list), ["a.png", "b.png"]);
    list.apply_filter(Filter::default().with_rating(&Some(Rating::from(4))));
    assert_eq!(visible(&list), ["b.png"]);
    list.apply_filter(Filter::default());
    assert_eq!(visible(&list), ["a.png", "b.png"]);
    assert_eq!(list.get_file(0).unwrap().rating, Some(Rating::from(1)));
}

#[test]
fn slideshow_starts_and_stops() {
    let mut list = letters();
    assert!(!list.is_slideshow_enabled());
    list.slideshow_start(15_000, 1_000);
    assert!(list.is_slideshow_enabled());
    list.slideshow_stop();
    assert!(!list.is_slideshow_enabled());
}

fn run(list: &mut FileList, bus: &mut EventSystem, events: Vec<AppEvent>, now: u64) -> Vec<AppEvent> {
    bus.update();
    bus.push_all(events);
    bus.update();
    list.update(bus, now);
    bus.update();
    bus.events().clone()
}

fn loaded_paths(events: &[AppEvent]) -> Vec<String> {
    events
        .iter()
        .map(|e| match e {
            AppEvent::Load(file) => file.path.clone(),
            other => panic!("unexpected event {:?}", other),
        })
        .collect()
}

#[test]
fn update_asks_for_the_selected_file_in_the_next_frame() {
    let mut list = letters();
    let mut bus = EventSystem::new();
    bus.push(AppEvent::Nav(Nav::ImageNext));
    bus.update();
    let writes = list.update(&mut bus, 0);
    assert!(writes.is_empty());
    assert_eq!(list.current_index(), 1);
    assert_eq!(bus.events().len(), 1);
    assert!(matches!(bus.events()[0], AppEvent::Nav(Nav::ImageNext)));
    bus.update();
    assert_eq!(loaded_paths(bus.events()), ["/d/2b.png"]);
}

#[test]
fn update_handles_the_events_in_their_order() {
    let mut list = letters();
    let mut bus = EventSystem::new();
    let out = run(
        &mut list,
        &mut bus,
        vec![
            AppEvent::Nav(Nav::ImageIndex(2)),
            AppEvent::Filter(FilterEvent::Text(String::from("AC"))),
            AppEvent::Nav(Nav::ImageNext),
            AppEvent::Nav(Nav::ImageNext),
            AppEvent::Nav(Nav::ImagePrev),
        ],
        0,
    );
    assert_eq!(visible(&list), ["3ac.png", "5ac.png"]);
    assert_eq!(list.current_index(), 1);
    assert_eq!(loaded_paths(&out), ["/d/3ac.png", "/d/5ac.png", "/d/3ac.png", "/d/5ac.png"]);
}

#[test]
fn update_asks_only_when_the_path_changes() {
    let mut list = letters();
    let mut bus = EventSystem::new();
    let out = run(&mut list, &mut bus, vec![AppEvent::Nav(Nav::ImageIndex(2))], 0);
    assert_eq!(loaded_paths(&out), ["/d/3ac.png"]);
    let out = run(
        &mut list,
        &mut bus,
        vec![
            AppEvent::Filter(FilterEvent::Text(String::from("a"))),
            AppEvent::Sort(FileSort::LastModified),
            AppEvent::Nav(Nav::ImageIndex(1)),
            AppEvent::Filter(FilterEvent::Text(String::new())),
            AppEvent::Sort(FileSort::Name),
        ],
        0,
    );
    assert_eq!(current_name(&list), "3ac.png");
    assert!(out.is_empty());
    let out = run(&mut list, &mut bus, vec![AppEvent::Nav(Nav::ImagePrev)], 0);
    assert_eq!(loaded_paths(&out), ["/d/2b.png"]);
}

#[test]
fn update_ignores_events_of_the_pipeline() {
    let mut list = letters();
    let mut bus = EventSystem::new();
    let out = run(&mut list, &mut bus, vec![AppEvent::Load(File::from("/d/x.png"))], 0);
    assert!(out.is_empty());
    assert_eq!(list.current_index(), 0);
}

#[test]
fn update_changes_the_filter_part_by_part() {
    let mut list = FileList::from_files(vec![
        rated("/d/cat1.png", 2),
        rated("/d/cat2.png", 5),
        rated("/d/dog.png", 5),
    ]);
    let mut bus = EventSystem::new();
    run(&mut list, &mut bus, vec![AppEvent::Filter(FilterEvent::Text(String::from("cat")))], 0);
    assert_eq!(visible(&list), ["cat1.png", "cat2.png"]);
    run(&mut list, &mut bus, vec![AppEvent::Filter(FilterEvent::Rating(Some(Rating::from(3))))], 0);
    assert_eq!(visible(&list), ["cat2.png"]);
    run(&mut list, &mut bus, vec![AppEvent::Filter(FilterEvent::Text(String::new()))], 0);
    assert_eq!(visible(&list), ["cat2.png", "dog.png"]);
    run(&mut list, &mut bus, vec![AppEvent::Filter(FilterEvent::Rating(None))], 0);
    assert_eq!(visible(&list), ["cat1.png", "cat2.png", "dog.png"]);
}

#[test]
fn update_returns_the_writes_of_ratings() {
    let mut list = letters();
    let mut bus = EventSystem::new();
    bus.push_all(vec![
        AppEvent::SetMeta(SetMeta::Rating(Some(Rating::from(3)))),
        AppEvent::Nav(Nav::ImageNext),
        AppEvent::SetMeta(SetMeta::Rating(None)),
    ]);
    bus.update();
    let writes = list.update(&mut bus, 0);
    assert_eq!(writes.len(), 2);
    assert_eq!(writes[0].file_name, "1a.png");
    assert_eq!(writes[0].rating, Some(Rating::from(3)));
    assert_eq!(writes[1].file_name, "2b.png");
    assert_eq!(writes[1].rating, None);
    assert_eq!(list.get_file(0).unwrap().rating, Some(Rating::from(3)));
    bus.update();
    assert_eq!(loaded_paths(bus.events()), ["/d/2b.png"]);
}

#[test]
fn update_runs_the_slideshow() {
    let mut list = letters();
    let mut bus = EventSystem::new();
    let out = run(&mut list, &mut bus, vec![AppEvent::Slideshow(Slideshow::Start(15_000))], 1_000);
    assert!(list.is_slideshow_enabled());
    assert!(out.is_empty());

    let out = run(&mut list, &mut bus, Vec::new(), 15_999);
    assert!(out.is_empty());
    let out = run(&mut list, &mut bus, Vec::new(), 16_000);
    assert_eq!(out.len(), 1);
    assert!(matches!(out[0], AppEvent::Nav(Nav::ImageNext)));
    let out = run(&mut list, &mut bus, Vec::new(), 30_999);
    assert!(out.is_empty());
    let out = run(&mut list, &mut bus, Vec::new(), 31_000);
    assert_eq!(out.len(), 1);

    let out = run(&mut list, &mut bus, vec![AppEvent::Slideshow(Slideshow::Stop)], 100_000);
    assert!(!list.is_slideshow_enabled());
    assert!(out.is_empty());
    let out = run(&mut list, &mut bus, Vec::new(), 200_000);
    assert!(out.is_empty());
}

#[test]
fn the_slideshow_does_not_run_backwards() {
    let mut list = letters();
    list.slideshow_start(10, 5_000);
    let mut bus = EventSystem::new();
    let out = run(&mut list, &mut bus, Vec::new(), 4_000);
    assert!(out.is_empty());
    list.slideshow_start(0, 5_000);
    let out = run(&mut list, &mut bus, Vec::new(), 4_000);
    assert_eq!(out.len(), 1);
}

#[test]
fn handle_reports_what_the_catalog_asks_for() {
    let mut list = letters();
    let reaction = list.handle(&AppEvent::Nav(Nav::ImageIndex(4)), 0);
    assert!(matches!(&reaction.load, Some(AppEvent::Load(file)) if file.path == "/d/5ac.png"));
    assert!(reaction.write.is_none());
    let reaction = list.handle(&AppEvent::Nav(Nav::ImageIndex(4)), 0);
    assert!(reaction.load.is_none());
    let reaction = list.handle(&AppEvent::SetMeta(SetMeta::Rating(Some(Rating::from(9)))), 0);
    assert!(reaction.load.is_none());
    let write = reaction.write.unwrap();
    assert_eq!(write.file_name, "5ac.png");
    assert_eq!(write.rating.unwrap().as_i64(), 5);
}

#[test]
fn image_files_are_told_by_their_extension() {
    for path in ["/d/a.png", "/d/a.PNG", "/d/a.jpg", "/d/a.JpEg", "/d/a.bmp", "/d/a.gif", "/d/a.b.GIF"] {
        assert!(is_image_file(&File::from(path)), "{}", path);
    }
    for path in ["/d/a.txt", "/d/png", "/d/a.png.bak", "/d/a.pn", "/d/", "/d/.gif", "/d/a.tiff"] {
        assert!(!is_image_file(&File::from(path)), "{}", path);
    }
}

#[test]
fn from_dir_takes_the_image_files_with_their_ratings() {
    let entries = files_of(&["/d/notes.txt", "/d/b.PNG", "/d/a.gif", "/d/c.jpeg", "/d/readme"]);
    let rows = Some(vec![
        RatingRow { name: String::from("a.gif"), rating: Some(4) },
        RatingRow { name: String::from("c.jpeg"), rating: None },
        RatingRow { name: String::from("gone.png"), rating: Some(2) },
        RatingRow { name: String::from("b.PNG"), rating: Some(2) },
        RatingRow { name: String::from("b.PNG"), rating: Some(77) },
    ]);
    let list = FileList::from_dir(entries, &rows);
    assert_eq!(visible(&list), ["a.gif", "b.PNG", "c.jpeg"]);
    assert_eq!(list.get_file(0).unwrap().rating, Some(Rating::from(4)));
    assert_eq!(list.get_file(1).unwrap().rating, Some(Rating::from(5)));
    assert_eq!(list.get_file(2).unwrap().rating, None);
    assert_eq!(list.current_index(), 0);

    let list = FileList::from_dir(files_of(&["/d/b.png", "/d/x.doc", "/d/a.png"]), &None);
    assert_eq!(visible(&list), ["a.png", "b.png"]);
    assert!(list.get_file(0).unwrap().rating.is_none());
}

#[test]
fn from_file_selects_the_file() {
    let entries = || files_of(&["/d/c.png", "/d/notes.txt", "/d/a.png", "/d/b.png"]);
    let list = FileList::from_file(entries(), &None, "/d/c.png").unwrap();
    assert_eq!(visible(&list), ["a.png", "b.png", "c.png"]);
    assert_eq!(list.current_index(), 2);
    assert_eq!(current_name(&list), "c.png");
    assert!(FileList::from_file(entries(), &None, "/d/notes.txt").is_none());
    assert!(FileList::from_file(entries(), &None, "/d/missing.png").is_none());
}

#[test]
fn populate_files_takes_the_last_row_of_a_name() {
    let mut files = vec![rated("/d/a.png", 3), rated("/d/b.png", 3), rated("/d/c.png", 3), File::from("/d/..")];
    let rows = vec![
        RatingRow { name: String::from("a.png"), rating: Some(1) },
        RatingRow { name: String::from("b.png"), rating: None },
        RatingRow { name: String::from("a.png"), rating: Some(-4) },
        RatingRow { name: String::new(), rating: Some(2) },
    ];
    populate_files(&mut files, &rows);
    assert_eq!(files[0].rating, Some(Rating::from(1)));
    assert_eq!(files[1].rating, None);
    assert_eq!(files[2].rating, Some(Rating::from(3)));
    assert_eq!(files[3].rating, Some(Rating::from(2)));
    assert_eq!(files[0].path, "/d/a.png");
}

#[test]
fn sort_methods_have_names() {
    assert_eq!(file_sort_methods(), [FileSort::Name, FileSort::LastModified, FileSort::Random]);
    assert_eq!(FileSort::Name.as_str(), "Name");
    assert_eq!(FileSort::LastModified.as_str(), "Last Modified");
    assert_eq!(FileSort::Random.as_str(), "Random");
}

#[test]
fn announce_asks_once_for_the_selected_file() {
    let mut list = letters();
    assert!(matches!(list.announce(), Some(AppEvent::Load(file)) if file.path == "/d/1a.png"));
    assert!(list.announce().is_none());
    let mut bus = EventSystem::new();
    let out = run(&mut list, &mut bus, vec![AppEvent::Sort(FileSort::LastModified)], 0);
    assert!(out.is_empty());
    list.next();
    assert!(matches!(list.announce(), Some(AppEvent::Load(file)) if file.path == "/d/2b.png"));
    let mut empty = FileList::from_files(Vec::new());
    assert!(empty.announce().is_none());
}

#[test]
fn the_filter_in_use_can_be_read() {
    let mut list = letters();
    assert!(list.get_filter().matches(&File::from("/d/zzz.png")));
    list.apply_filter(Filter::default().with_name("ac"));
    assert!(!list.get_filter().matches(&File::from("/d/zzz.png")));
    assert!(list.get_filter().matches(&File::from("/d/sac.png")));
}

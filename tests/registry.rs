use static_site_generator::config::{Config, FileTimes, Timing};
use static_site_generator::errors::OpaqueError;
use static_site_generator::resource::{render_photo, Conversion, ResourceType, SiteResources, SourceEntry};

fn entry(file_name: &str, ext: Option<&str>, created: Option<i64>, modified: i64) -> SourceEntry {
    SourceEntry {
        path: format!("static/{}", file_name),
        file_name: Some(file_name.to_string()),
        extension: ext.map(|e| e.to_string()),
        is_file: true,
        times: Ok(FileTimes { modified: Some(modified), created }),
    }
}

fn all_present(res: &SiteResources) -> Vec<Vec<bool>> {
    (0..res.len()).map(|i| vec![true; res.get(i).output_paths().len()]).collect()
}

#[test]
fn extensions_map_to_types() {
    assert_eq!(ResourceType::from_extension("md").unwrap(), ResourceType::Blog);
    assert_eq!(ResourceType::from_extension("jpg").unwrap(), ResourceType::Photo);
    assert_eq!(ResourceType::from_extension("sass").unwrap(), ResourceType::Style);
    assert_eq!(ResourceType::from_extension("js").unwrap(), ResourceType::Script);
    assert_eq!(ResourceType::from_extension("ico").unwrap(), ResourceType::Icon);
    let e = ResourceType::from_extension("png").unwrap_err();
    assert_eq!(e.message(), "No resource type for extension png");
}

#[test]
fn scan_skips_unknown_and_directories() {
    let mut dir = entry("notes.md", Some("md"), Some(1), 1);
    dir.is_file = false;
    let entries = vec![entry("a.txt", Some("txt"), Some(1), 1), dir, entry("b.js", Some("js"), Some(2), 2)];
    let res = SiteResources::read_resources(&entries, &Config::empty()).unwrap();
    assert_eq!(res.len(), 1);
    assert_eq!(res.get(0).name(), "b");
    assert_eq!(res.get(0).resource_type(), ResourceType::Script);
    assert!(res.get(0).changed());
}

#[test]
fn scan_fails_without_extension() {
    let entries = vec![entry("README", None, Some(1), 1)];
    let e = SiteResources::read_resources(&entries, &Config::empty()).unwrap_err();
    assert_eq!(e.message(), "No file extension!");
}

#[test]
fn scan_fails_on_unreadable_metadata() {
    let mut bad = entry("a.md", Some("md"), Some(1), 1);
    bad.times = Err(OpaqueError::new("permission denied".to_string()));
    let e = SiteResources::read_resources(&vec![bad], &Config::empty()).unwrap_err();
    assert_eq!(e.message(), "permission denied");
    let mut no_mtime = entry("a.md", Some("md"), Some(1), 1);
    no_mtime.times = Ok(FileTimes { modified: None, created: None });
    assert!(SiteResources::read_resources(&vec![no_mtime], &Config::empty()).is_err());
}

#[test]
fn scan_fails_on_non_text_file_name() {
    let mut bad = entry("a.md", Some("md"), Some(1), 1);
    bad.file_name = None;
    assert!(SiteResources::read_resources(&vec![bad], &Config::empty()).is_err());
}

#[test]
fn name_strips_extension_once() {
    let entries = vec![entry("a.md.md", Some("md"), Some(1), 1)];
    let res = SiteResources::read_resources(&entries, &Config::empty()).unwrap();
    assert_eq!(res.get(0).name(), "a.md");
    assert_eq!(res.get(0).output_paths(), vec!["blog/a.md.html".to_string()]);
}

#[test]
fn listing_is_newest_first() {
    let entries = vec![
        entry("a.md", Some("md"), Some(5), 5),
        entry("b.md", Some("md"), Some(9), 9),
        entry("c.jpg", Some("jpg"), Some(1), 1),
        entry("d.ico", Some("ico"), Some(7), 7),
        entry("e.md", Some("md"), Some(7), 8),
    ];
    let res = SiteResources::read_resources(&entries, &Config::empty()).unwrap();
    assert_eq!(res.len(), 5);
    for i in 0..res.len() - 1 {
        assert!(res.get(i).timing().created >= res.get(i + 1).timing().created);
    }
    assert_eq!(res.get(0).name(), "b");
    assert_eq!(res.get(4).name(), "c");
}

#[test]
fn created_comes_from_manifest_when_missing() {
    let manifest = Config::new(vec![("a".to_string(), Timing { created: 3, modified: 4 })]);
    let entries = vec![entry("a.md", Some("md"), None, 4)];
    let res = SiteResources::read_resources(&entries, &manifest).unwrap();
    assert_eq!(res.get(0).timing(), Timing { created: 3, modified: 4 });
    assert!(!res.get(0).changed());
}

#[test]
fn unchanged_resource_with_outputs_is_not_rebuilt() {
    let manifest = Config::new(vec![("bar".to_string(), Timing { created: 3, modified: 4 })]);
    let entries = vec![entry("bar.jpg", Some("jpg"), Some(3), 4)];
    let res = SiteResources::read_resources(&entries, &manifest).unwrap();
    let plan = res.build_all(false, &all_present(&res));
    assert!(plan.selected.is_empty());
    let forced = res.build_all(true, &all_present(&res));
    assert_eq!(forced.selected, vec![0]);
}

#[test]
fn changed_resource_is_rebuilt_once() {
    let manifest = Config::new(vec![("a".to_string(), Timing { created: 3, modified: 4 })]);
    let entries = vec![entry("a.md", Some("md"), Some(3), 5), entry("n.js", Some("js"), Some(1), 1)];
    let res = SiteResources::read_resources(&entries, &manifest).unwrap();
    let plan = res.build_all(false, &all_present(&res));
    assert_eq!(plan.selected, vec![0, 1]);
}

#[test]
fn photo_missing_fullsize_is_rebuilt() {
    let manifest = Config::new(vec![("p".to_string(), Timing { created: 3, modified: 4 })]);
    let entries = vec![entry("p.jpg", Some("jpg"), Some(3), 4)];
    let res = SiteResources::read_resources(&entries, &manifest).unwrap();
    let paths = res.get(0).output_paths();
    assert_eq!(paths, vec!["image/p.jpg".to_string(), "thumbnail/p.jpg".to_string()]);
    let plan = res.build_all(false, &vec![vec![false, true]]);
    assert_eq!(plan.selected, vec![0]);
}

#[test]
fn new_article_built_and_unchanged_photo_left_alone() {
    let manifest = Config::new(vec![("bar".to_string(), Timing { created: 10, modified: 10 })]);
    let entries = vec![entry("foo.md", Some("md"), Some(20), 20), entry("bar.jpg", Some("jpg"), Some(10), 10)];
    let res = SiteResources::read_resources(&entries, &manifest).unwrap();
    let present = vec![vec![false], vec![true, true]];
    assert_eq!(res.get(0).name(), "foo");
    let plan = res.build_all(false, &present);
    assert_eq!(plan.selected, vec![0]);
    assert_eq!(res.get(0).output_paths(), vec!["blog/foo.html".to_string()]);
    assert_eq!(plan.index.blogs.len(), 1);
    assert_eq!(plan.index.blogs[0].link, "blog/foo.html");
    assert_eq!(plan.gallery.label_links.len(), 1);
    assert_eq!(plan.gallery.label_links[0].preview_link, "thumbnail/bar.jpg");
    assert_eq!(plan.gallery.label_links[0].image_link, "image/bar.jpg");
    assert_eq!(plan.gallery.label_links[0].label, "bar");
}

#[test]
fn index_lists_articles_newest_first() {
    let entries = vec![
        entry("old_post.md", Some("md"), Some(0), 0),
        entry("new-post.md", Some("md"), Some(1_000_000_000), 1_000_000_000),
        entry("s.sass", Some("sass"), Some(5), 5),
    ];
    let res = SiteResources::read_resources(&entries, &Config::empty()).unwrap();
    let plan = res.build_all(false, &all_present(&res));
    assert_eq!(plan.index.blogs.len(), 2);
    assert_eq!(plan.index.blogs[0].title, "New Post");
    assert_eq!(plan.index.blogs[0].created, "1970-01-01T00:00:01+00:00");
    assert_eq!(plan.index.blogs[1].title, "Old Post");
    assert_eq!(plan.index.blogs[1].created, "1970-01-01T00:00:00+00:00");
    assert!(plan.gallery.label_links.is_empty());
}

#[test]
fn timings_follow_listing() {
    let entries = vec![entry("a.md", Some("md"), Some(1), 2), entry("b.ico", Some("ico"), Some(3), 4)];
    let res = SiteResources::read_resources(&entries, &Config::empty()).unwrap();
    let t = res.timings();
    assert_eq!(t, vec![
        ("b".to_string(), Timing { created: 3, modified: 4 }),
        ("a".to_string(), Timing { created: 1, modified: 2 }),
    ]);
}

#[test]
fn outcomes_collect_every_failure() {
    assert!(SiteResources::collect_outcomes(&vec![Ok(()), Ok(())]).is_ok());
    let e = SiteResources::collect_outcomes(&vec![
        Err(OpaqueError::new("a".to_string())),
        Ok(()),
        Err(OpaqueError::new("b".to_string())),
    ])
    .unwrap_err();
    assert_eq!(e.message(), "a; b");
}

#[test]
fn output_dirs_are_fixed() {
    assert_eq!(SiteResources::output_dirs(), vec!["blog".to_string(), "image".to_string(), "thumbnail".to_string()]);
}

#[test]
fn blog_page_renders_markdown() {
    let entries = vec![entry("hello_world.md", Some("md"), Some(1), 1)];
    let res = SiteResources::read_resources(&entries, &Config::empty()).unwrap();
    let page = res.get(0).blog_page("# Hi\n\nthere");
    assert_eq!(page.blog_html, "<h1>Hi</h1>\n<p>there</p>\n");
    assert_eq!(page.parent.title, "HELLO WORLD");
    assert_eq!(page.parent.browser_title, "Hello World | Ty Needs Coffee");
}

#[test]
fn photo_rejects_non_jpeg_bytes() {
    assert!(render_photo(&vec![1, 2, 3, 4]).is_err());
}

#[test]
fn photo_renders_both_sizes() {
    let img = image::DynamicImage::new_rgb8(40, 20);
    let mut buf = std::io::Cursor::new(Vec::new());
    img.write_to(&mut buf, image::ImageFormat::Jpeg).unwrap();
    let out = render_photo(&buf.into_inner()).unwrap();
    let thumb = image::load_from_memory(&out.thumbnail).unwrap();
    let full = image::load_from_memory(&out.fullsize).unwrap();
    assert_eq!((thumb.width(), thumb.height()), (640, 320));
    assert_eq!((full.width(), full.height()), (1280, 640));
}

#[test]
fn same_stem_of_different_types_coexist() {
    let entries = vec![entry("post.md", Some("md"), Some(2), 2), entry("post.jpg", Some("jpg"), Some(1), 1)];
    let res = SiteResources::read_resources(&entries, &Config::empty()).unwrap();
    assert_eq!(res.len(), 2);
    assert_eq!(res.get(0).resource_type(), ResourceType::Blog);
    assert_eq!(res.get(1).resource_type(), ResourceType::Photo);
    assert_eq!(res.get(0).name(), res.get(1).name());
}

#[test]
fn blog_page_links_to_its_address() {
    let entries = vec![entry("a_b.md", Some("md"), Some(1), 1)];
    let res = SiteResources::read_resources(&entries, &Config::empty()).unwrap();
    let page = res.get(0).blog_page("");
    assert_eq!(page.parent.metas[0].content, "article");
    assert_eq!(page.parent.metas[1].content, "https://ty-needs.coffee/blog/a_b.html");
    assert_eq!(page.parent.metas[2].content, "A B");
}

#[test]
fn unknown_extension_skipped_without_name_or_metadata() {
    let mut no_name = entry("x.txt", Some("txt"), Some(1), 1);
    no_name.file_name = None;
    let mut no_meta = entry(".a.md.swp", Some("swp"), Some(1), 1);
    no_meta.times = Err(OpaqueError::new("io".to_string()));
    let res = SiteResources::read_resources(&vec![no_name, no_meta], &Config::empty()).unwrap();
    assert_eq!(res.len(), 0);
}

#[test]
fn non_file_skipped_without_metadata() {
    let mut dir = entry("drafts.md", Some("md"), Some(1), 1);
    dir.is_file = false;
    dir.times = Err(OpaqueError::new("io".to_string()));
    let res = SiteResources::read_resources(&vec![dir], &Config::empty()).unwrap();
    assert_eq!(res.len(), 0);
}

#[test]
fn recognised_non_text_name_fails() {
    let mut bad = entry("x.md", Some("md"), Some(1), 1);
    bad.file_name = None;
    let e = SiteResources::read_resources(&vec![bad], &Config::empty()).unwrap_err();
    assert_eq!(e.message(), "Invalid filename: static/x.md");
}

#[test]
fn each_kind_has_its_conversion() {
    let entries = vec![
        entry("a.md", Some("md"), Some(5), 5),
        entry("b.jpg", Some("jpg"), Some(4), 4),
        entry("c.sass", Some("sass"), Some(3), 3),
        entry("d.js", Some("js"), Some(2), 2),
        entry("e.ico", Some("ico"), Some(1), 1),
    ];
    let res = SiteResources::read_resources(&entries, &Config::empty()).unwrap();
    let got: Vec<Conversion> = (0..res.len()).map(|i| res.get(i).conversion()).collect();
    assert_eq!(got, vec![Conversion::Article, Conversion::Photo, Conversion::Stylesheet, Conversion::Copy, Conversion::Copy]);
}

#[test]
fn plan_pages_have_their_frames() {
    let res = SiteResources::read_resources(&vec![], &Config::empty()).unwrap();
    let plan = res.build_all(false, &vec![]);
    assert_eq!(plan.index.parent.subtitle, "Software Developer, Coffee Drinker");
    assert_eq!(plan.gallery.parent.description, "Just my amateur photos");
    assert_eq!(plan.about.parent.subtitle, "(No, it's not short for Tyler)");
    assert_eq!(plan.not_found.parent.description, "404 Page Not Found");
}

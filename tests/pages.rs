use static_site_generator::templates::{
    AboutTemplate, Blog, BlogTemplate, GalleryTemplate, IndexTemplate, LinkType, Meta, NotFoundTemplate,
};

#[test]
fn og_url_prefixes_domain() {
    let m = Meta::og_url("/blog/x.html");
    assert_eq!(m.name, "og:url");
    assert_eq!(m.content, "https://ty-needs.coffee/blog/x.html");
}

#[test]
fn short_blog_title_gets_site_suffix() {
    let b = Blog::new("blog/a.html".to_string(), "Short Title".to_string(), "t".to_string());
    let page = BlogTemplate::new("<p>x</p>".to_string(), b);
    assert_eq!(page.parent.browser_title, "Short Title | Ty Needs Coffee");
    assert_eq!(page.parent.title, "SHORT TITLE");
    assert_eq!(page.blog_html, "<p>x</p>");
    assert_eq!(page.parent.metas[1].content, "https://ty-needs.coffee/blog/a.html");
    assert_eq!(page.parent.metas.len(), 5);
    assert_eq!(page.parent.links.len(), 2);
}

#[test]
fn long_blog_title_has_no_suffix() {
    let title = "A".repeat(53);
    let b = Blog::new("blog/a.html".to_string(), title.clone(), "t".to_string());
    let page = BlogTemplate::new(String::new(), b);
    assert_eq!(page.parent.browser_title, title);
    let title52 = "A".repeat(52);
    let b = Blog::new("blog/a.html".to_string(), title52.clone(), "t".to_string());
    let page = BlogTemplate::new(String::new(), b);
    assert_eq!(page.parent.browser_title, format!("{} | Ty Needs Coffee", title52));
}

#[test]
fn index_page_links_date_script_first() {
    let page = IndexTemplate::new(vec![]);
    assert_eq!(page.parent.links[0].name, "/date_script.js");
    assert_eq!(page.parent.links[0].link_type, LinkType::Script);
    assert_eq!(page.parent.links[1].name, "/styles.css");
    assert_eq!(page.parent.links[2].link_type, LinkType::Icon);
    assert_eq!(page.parent.metas[3].name, "og:site_name");
    assert_eq!(page.parent.metas[4].content, "https://ty-needs.coffee/image/coffee.jpg");
}

#[test]
fn static_pages_have_their_titles() {
    assert_eq!(AboutTemplate::new().parent.browser_title, "About | Ty Needs Coffee");
    assert_eq!(NotFoundTemplate::new().parent.title, "404");
    let g = GalleryTemplate::new(vec![]);
    assert_eq!(g.parent.subtitle, "Occasional Photographer");
    assert_eq!(g.parent.metas.len(), 2);
}

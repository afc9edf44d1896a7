use vstd::prelude::*;
use vstd::utf8::encode_utf8;

use crate::bridge::{upper_of, uppercase};

verus! {

/// The kind of a `<link>` or `<script>` reference of a page.
#[derive(Debug, Clone, Copy, PartialEq, Eq, Structural)]
pub enum LinkType {
    Icon,
    Style,
    Script,
}

/// A stylesheet, icon or script that a page refers to.
#[derive(Debug)]
pub struct Link {
    pub name: String,
    pub link_type: LinkType,
}

/// One `<meta>` property of a page.
#[derive(Debug)]
pub struct Meta {
    pub name: String,
    pub content: String,
}

pub open spec fn links_view(v: Seq<Link>) -> Seq<(Seq<char>, LinkType)> {
    v.map_values(|l: Link| (l.name@, l.link_type))
}

pub open spec fn metas_view(v: Seq<Meta>) -> Seq<(Seq<char>, Seq<char>)> {
    v.map_values(|m: Meta| (m.name@, m.content@))
}

pub open spec fn blogs_view(v: Seq<Blog>) -> Seq<(Seq<char>, Seq<char>, Seq<char>)> {
    v.map_values(|b: Blog| (b.link@, b.title@, b.created@))
}

pub open spec fn labels_view(v: Seq<LinkLabel>) -> Seq<(Seq<char>, Seq<char>, Seq<char>)> {
    v.map_values(|l: LinkLabel| (l.preview_link@, l.image_link@, l.label@))
}

/// Name under which every page presents the site.
pub open spec fn site_name() -> Seq<char> {
    "Ty Needs Coffee"@
}

/// Address of the site, prefixed to the paths of `og:url`.
pub open spec fn site_domain() -> Seq<char> {
    "https://ty-needs.coffee"@
}

/// References that every page carries after its own.
pub open spec fn base_links() -> Seq<(Seq<char>, LinkType)> {
    seq![("/styles.css"@, LinkType::Style), ("/favicon.ico"@, LinkType::Icon)]
}

/// Properties that every page carries after its own.
pub open spec fn common_metas() -> Seq<(Seq<char>, Seq<char>)> {
    seq![
        ("og:site_name"@, site_name()),
        ("og:image"@, "https://ty-needs.coffee/image/coffee.jpg"@),
    ]
}

impl Link {
    pub fn new(name: &str, link_type: LinkType) -> (r: Link)
        ensures
            r.name@ == name@,
            r.link_type == link_type,
    {
        Link { name: String::from_str(name), link_type }
    }
}

impl Meta {
    pub fn new(name: &str, content: &str) -> (r: Meta)
        ensures
            r.name@ == name@,
            r.content@ == content@,
    {
        Meta { name: String::from_str(name), content: String::from_str(content) }
    }

    pub fn og_title(title: &str) -> (r: Meta)
        ensures
            r.name@ == "og:title"@,
            r.content@ == title@,
    {
        Meta::new("og:title", title)
    }

    pub fn og_image(image: &str) -> (r: Meta)
        ensures
            r.name@ == "og:image"@,
            r.content@ == image@,
    {
        Meta::new("og:image", image)
    }

    pub fn og_type(kind: &str) -> (r: Meta)
        ensures
            r.name@ == "og:type"@,
            r.content@ == kind@,
    {
        Meta::new("og:type", kind)
    }

    /// `og:url` of a path of the site.
    pub fn og_url(url: &str) -> (r: Meta)
        ensures
            r.name@ == "og:url"@,
            r.content@ == site_domain() + url@,
    {
        let content = String::from_str("https://ty-needs.coffee").concat(url);
        Meta { name: String::from_str("og:url"), content }
    }

    pub fn og_site_name() -> (r: Meta)
        ensures
            r.name@ == "og:site_name"@,
            r.content@ == site_name(),
    {
        Meta::new("og:site_name", "Ty Needs Coffee")
    }
}

/// A page frame with exactly these texts, links and properties.
pub open spec fn frame_is(
    b: BaseTemplate,
    title: Seq<char>,
    subtitle: Seq<char>,
    browser_title: Seq<char>,
    description: Seq<char>,
    links: Seq<(Seq<char>, LinkType)>,
    metas: Seq<(Seq<char>, Seq<char>)>,
) -> bool {
    &&& b.title@ == title
    &&& b.subtitle@ == subtitle
    &&& b.browser_title@ == browser_title
    &&& b.description@ == description
    &&& links_view(b.links@) == links
    &&& metas_view(b.metas@) == metas
}

/// The frame of the front page.
pub open spec fn index_frame(b: BaseTemplate) -> bool {
    frame_is(
        b,
        "TY COGHLAN"@,
        "Software Developer, Coffee Drinker"@,
        site_name(),
        "Ty Coghlan's personal website and coffee-fueled blog."@,
        seq![("/date_script.js"@, LinkType::Script)] + base_links(),
        seq![("og:type"@, "website"@), ("og:url"@, site_domain() + "/"@), ("og:title"@, site_name())] + common_metas(),
    )
}

/// The frame of the gallery.
pub open spec fn gallery_frame(b: BaseTemplate) -> bool {
    frame_is(
        b,
        "TY COGHLAN"@,
        "Occasional Photographer"@,
        "Gallery | Ty Needs Coffee"@,
        "Just my amateur photos"@,
        base_links(),
        common_metas(),
    )
}

/// The frame of the page about the author.
pub open spec fn about_frame(b: BaseTemplate) -> bool {
    frame_is(
        b,
        "TY COGHLAN"@,
        "(No, it's not short for Tyler)"@,
        "About | Ty Needs Coffee"@,
        "Ty's bio, relevant links, and coffee preferences."@,
        base_links(),
        common_metas(),
    )
}

/// The frame of the page for unknown addresses.
pub open spec fn not_found_frame(b: BaseTemplate) -> bool {
    frame_is(b, "404"@, "Page Not Found"@, "404 | Ty Needs Coffee"@, "404 Page Not Found"@, base_links(), common_metas())
}

/// The frame shared by every page.
#[derive(Debug)]
pub struct BaseTemplate {
    pub title: String,
    pub subtitle: String,
    pub browser_title: String,
    pub links: Vec<Link>,
    pub metas: Vec<Meta>,
    pub description: String,
}

impl BaseTemplate {
    /// The page's own links and properties come first, then those that
    /// every page shares.
    pub fn new(
        title: &str,
        subtitle: &str,
        browser_title: &str,
        description: &str,
        links: Vec<Link>,
        metas: Vec<Meta>,
    ) -> (r: BaseTemplate)
        ensures
            r.title@ == title@,
            r.subtitle@ == subtitle@,
            r.browser_title@ == browser_title@,
            r.description@ == description@,
            links_view(r.links@) == links_view(links@) + base_links(),
            metas_view(r.metas@) == metas_view(metas@) + common_metas(),
    {
        let mut links = links;
        let mut metas = metas;
        let ghost links0 = links@;
        let ghost metas0 = metas@;
        let mut shared_links = vec![
            Link::new("/styles.css", LinkType::Style),
            Link::new("/favicon.ico", LinkType::Icon),
        ];
        let mut common_meta = vec![
            Meta::og_site_name(),
            Meta::og_image("https://ty-needs.coffee/image/coffee.jpg"),
        ];
        let ghost extra_links = shared_links@;
        let ghost extra_metas = common_meta@;
        links.append(&mut shared_links);
        metas.append(&mut common_meta);
        proof {
            assert(links_view(extra_links) =~= base_links());
            assert(metas_view(extra_metas) =~= common_metas());
            assert(links_view(links0 + extra_links) =~= links_view(links0) + links_view(extra_links));
            assert(metas_view(metas0 + extra_metas) =~= metas_view(metas0) + metas_view(extra_metas));
        }
        BaseTemplate {
            title: String::from_str(title),
            subtitle: String::from_str(subtitle),
            browser_title: String::from_str(browser_title),
            description: String::from_str(description),
            links,
            metas,
        }
    }
}

/// One entry of the article index.
#[derive(Debug)]
pub struct Blog {
    pub link: String,
    pub title: String,
    pub created: String,
}

impl Blog {
    pub fn new(link: String, title: String, created: String) -> (r: Blog)
        ensures
            r.link == link,
            r.title == title,
            r.created == created,
    {
        Blog { link, title, created }
    }
}

/// The front page: every article, newest first.
#[derive(Debug)]
pub struct IndexTemplate {
    pub parent: BaseTemplate,
    pub blogs: Vec<Blog>,
}

impl IndexTemplate {
    pub fn new(blogs: Vec<Blog>) -> (r: IndexTemplate)
        ensures
            r.blogs == blogs,
            index_frame(r.parent),
    {
        let date_script = Link::new("/date_script.js", LinkType::Script);
        let links = vec![date_script];
        let metas = vec![Meta::og_type("website"), Meta::og_url("/"), Meta::og_title("Ty Needs Coffee")];
        proof {
            assert(links_view(links@) =~= seq![("/date_script.js"@, LinkType::Script)]);
            assert(metas_view(metas@) =~= seq![
                ("og:type"@, "website"@),
                ("og:url"@, site_domain() + "/"@),
                ("og:title"@, site_name()),
            ]);
        }
        let parent = BaseTemplate::new(
            "TY COGHLAN",
            "Software Developer, Coffee Drinker",
            "Ty Needs Coffee",
            "Ty Coghlan's personal website and coffee-fueled blog.",
            links,
            metas,
        );
        IndexTemplate { parent, blogs }
    }
}

/// Suffix of an article's browser title, when the title is short enough.
pub open spec fn title_suffix() -> Seq<char> {
    " | Ty Needs Coffee"@
}

/// The browser title of an article: its title, followed by the site's name
/// when the whole stays within 70 bytes.
pub open spec fn browser_title_of(title: Seq<char>) -> Seq<char> {
    if encode_utf8(title).len() + encode_utf8(title_suffix()).len() <= 70 {
        title + title_suffix()
    } else {
        title
    }
}

/// The page of one article.
#[derive(Debug)]
pub struct BlogTemplate {
    pub parent: BaseTemplate,
    pub blog_html: String,
}

impl BlogTemplate {
    pub fn new(blog_html: String, blog: Blog) -> (r: BlogTemplate)
        ensures
            r.blog_html == blog_html,
            r.parent.title@ == upper_of(blog.title@),
            r.parent.subtitle@ == "By Ty Coghlan"@,
            r.parent.browser_title@ == browser_title_of(blog.title@),
            r.parent.description@ == "Will make this an actual description eventually"@,
            links_view(r.parent.links@) == base_links(),
            metas_view(r.parent.metas@) == seq![
                ("og:type"@, "article"@),
                ("og:url"@, site_domain() + ("/"@ + blog.link@)),
                ("og:title"@, blog.title@),
            ] + common_metas(),
    {
        let link = String::from_str("/").concat(blog.link.as_str());
        let suffix = " | Ty Needs Coffee";
        let mut browser_title = blog.title.clone();
        let suffix_len = suffix.as_bytes().len();
        if suffix_len <= 70 && blog.title.as_str().as_bytes().len() <= 70 - suffix_len {
            browser_title.append(suffix);
        }
        let upper = uppercase(blog.title.as_str());
        let links: Vec<Link> = Vec::new();
        let metas = vec![Meta::og_type("article"), Meta::og_url(link.as_str()), Meta::og_title(blog.title.as_str())];
        proof {
            assert(links_view(links@) =~= Seq::empty());
            assert(metas_view(metas@) =~= seq![
                ("og:type"@, "article"@),
                ("og:url"@, site_domain() + ("/"@ + blog.link@)),
                ("og:title"@, blog.title@),
            ]);
            assert(Seq::<(Seq<char>, LinkType)>::empty() + base_links() =~= base_links());
        }
        let parent = BaseTemplate::new(
            upper.as_str(),
            "By Ty Coghlan",
            browser_title.as_str(),
            "Will make this an actual description eventually",
            links,
            metas,
        );
        BlogTemplate { parent, blog_html }
    }
}

/// One photo of the gallery: the preview shown and the image it leads to.
#[derive(Debug)]
pub struct LinkLabel {
    pub preview_link: String,
    pub image_link: String,
    pub label: String,
}

impl LinkLabel {
    pub fn new(preview_link: String, image_link: String, label: String) -> (r: LinkLabel)
        ensures
            r.preview_link == preview_link,
            r.image_link == image_link,
            r.label == label,
    {
        LinkLabel { preview_link, image_link, label }
    }
}

/// The gallery page: every photo, newest first.
#[derive(Debug)]
pub struct GalleryTemplate {
    pub parent: BaseTemplate,
    pub label_links: Vec<LinkLabel>,
}

impl GalleryTemplate {
    pub fn new(label_links: Vec<LinkLabel>) -> (r: GalleryTemplate)
        ensures
            r.label_links == label_links,
            gallery_frame(r.parent),
    {
        let parent = static_base("TY COGHLAN", "Occasional Photographer", "Gallery | Ty Needs Coffee", "Just my amateur photos");
        GalleryTemplate { parent, label_links }
    }
}

/// A page frame with no links or properties of its own.
fn static_base(title: &str, subtitle: &str, browser_title: &str, description: &str) -> (r: BaseTemplate)
    ensures
        r.title@ == title@,
        r.subtitle@ == subtitle@,
        r.browser_title@ == browser_title@,
        r.description@ == description@,
        links_view(r.links@) == base_links(),
        metas_view(r.metas@) == common_metas(),
{
    let links: Vec<Link> = Vec::new();
    let metas: Vec<Meta> = Vec::new();
    proof {
        assert(links_view(links@) =~= Seq::empty());
        assert(metas_view(metas@) =~= Seq::empty());
        assert(Seq::<(Seq<char>, LinkType)>::empty() + base_links() =~= base_links());
        assert(Seq::<(Seq<char>, Seq<char>)>::empty() + common_metas() =~= common_metas());
    }
    BaseTemplate::new(title, subtitle, browser_title, description, links, metas)
}

/// The page about the author.
#[derive(Debug)]
pub struct AboutTemplate {
    pub parent: BaseTemplate,
}

impl AboutTemplate {
    pub fn new() -> (r: AboutTemplate)
        ensures
            about_frame(r.parent),
    {
        let parent = static_base(
            "TY COGHLAN",
            "(No, it's not short for Tyler)",
            "About | Ty Needs Coffee",
            "Ty's bio, relevant links, and coffee preferences.",
        );
        AboutTemplate { parent }
    }
}

/// The page served for unknown addresses.
#[derive(Debug)]
pub struct NotFoundTemplate {
    pub parent: BaseTemplate,
}

impl NotFoundTemplate {
    pub fn new() -> (r: NotFoundTemplate)
        ensures
            not_found_frame(r.parent),
    {
        let parent = static_base("404", "Page Not Found", "404 | Ty Needs Coffee", "404 Page Not Found");
        NotFoundTemplate { parent }
    }
}

} // verus!

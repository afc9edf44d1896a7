use vstd::prelude::*;

use crate::bridge::{decode_jpeg, encode_jpeg, image_error_text, jpeg_rendition_of, resized, markdown_html_of, markdown_to_html, rfc3339, rfc3339_of, title_case, title_case_of};
use crate::config::{Config, FileTimes, Timing};
use crate::errors::{OResult, OpaqueError};
use crate::templates::{
    blogs_view, labels_view, AboutTemplate, Blog, BlogTemplate, GalleryTemplate, IndexTemplate, LinkLabel,
    NotFoundTemplate,
};

verus! {

/// The five kinds of source content.
#[derive(Debug, Clone, Copy, PartialEq, Eq, Structural)]
pub enum ResourceType {
    Blog,
    Icon,
    Photo,
    Style,
    Script,
}

/// The fixed mapping from a source file's extension to its kind.
pub open spec fn type_of_extension(ext: Seq<char>) -> Option<ResourceType> {
    if ext == "md"@ {
        Some(ResourceType::Blog)
    } else if ext == "jpg"@ {
        Some(ResourceType::Photo)
    } else if ext == "sass"@ {
        Some(ResourceType::Style)
    } else if ext == "js"@ {
        Some(ResourceType::Script)
    } else if ext == "ico"@ {
        Some(ResourceType::Icon)
    } else {
        None
    }
}

fn same_text(a: &str, b: &str) -> (r: bool)
    ensures
        r == (a@ == b@),
{
    String::from_str(a) == String::from_str(b)
}

impl ResourceType {
    pub fn from_extension(ext: &str) -> (r: OResult<ResourceType>)
        ensures
            match r {
                Ok(t) => type_of_extension(ext@) == Some(t),
                Err(e) => type_of_extension(ext@) is None && e@ == "No resource type for extension "@ + ext@,
            },
    {
        if same_text(ext, "md") {
            Ok(ResourceType::Blog)
        } else if same_text(ext, "jpg") {
            Ok(ResourceType::Photo)
        } else if same_text(ext, "sass") {
            Ok(ResourceType::Style)
        } else if same_text(ext, "js") {
            Ok(ResourceType::Script)
        } else if same_text(ext, "ico") {
            Ok(ResourceType::Icon)
        } else {
            Err(OpaqueError::new(String::from_str("No resource type for extension ").concat(ext)))
        }
    }
}

/// `file_name` without the suffix `.ext`, taken off once; unchanged where
/// it does not end so.
pub open spec fn strip_extension(file_name: Seq<char>, ext: Seq<char>) -> Seq<char> {
    let suffix = "."@ + ext;
    if suffix.len() <= file_name.len() && file_name.subrange(file_name.len() - suffix.len(), file_name.len() as int) == suffix {
        file_name.subrange(0, file_name.len() - suffix.len())
    } else {
        file_name
    }
}

fn strip_extension_exec(file_name: &str, ext: &str) -> (r: String)
    ensures
        r@ == strip_extension(file_name@, ext@),
{
    let suffix = String::from_str(".").concat(ext);
    let n = file_name.unicode_len();
    let k = suffix.as_str().unicode_len();
    if k <= n && same_text(file_name.substring_char(n - k, n), suffix.as_str()) {
        String::from_str(file_name.substring_char(0, n - k))
    } else {
        String::from_str(file_name)
    }
}

/// A resource as the contracts see it.
pub struct ResourceView {
    pub timing: Timing,
    pub changed: bool,
    pub path: Seq<char>,
    pub name: Seq<char>,
    pub kind: ResourceType,
}

/// One classified source file of a scan.
#[derive(Debug)]
pub struct SiteResource {
    timing: Timing,
    changed: bool,
    path: String,
    name: String,
    resource_type: ResourceType,
}

impl View for SiteResource {
    type V = ResourceView;

    closed spec fn view(&self) -> ResourceView {
        ResourceView {
            timing: self.timing,
            changed: self.changed,
            path: self.path@,
            name: self.name@,
            kind: self.resource_type,
        }
    }
}

/// The paths, relative to the output root, that building a resource writes.
/// A photo has two: the full-size image and the thumbnail.
pub open spec fn outputs_of(kind: ResourceType, name: Seq<char>) -> Seq<Seq<char>> {
    match kind {
        ResourceType::Blog => seq!["blog/"@ + name + ".html"@],
        ResourceType::Script => seq![name + ".js"@],
        ResourceType::Style => seq![name + ".css"@],
        ResourceType::Icon => seq![name + ".ico"@],
        ResourceType::Photo => seq!["image/"@ + name + ".jpg"@, "thumbnail/"@ + name + ".jpg"@],
    }
}

/// The conversion that builds a resource's outputs.
#[derive(Debug, Clone, Copy, PartialEq, Eq, Structural)]
pub enum Conversion {
    /// Markdown rendered into an article page.
    Article,
    /// JPEG decoded and written at the two sizes.
    Photo,
    /// Stylesheet compiled to compressed CSS.
    Stylesheet,
    /// Bytes copied as they are.
    Copy,
}

/// Each kind of resource has exactly one conversion.
pub open spec fn conversion_of(kind: ResourceType) -> Conversion {
    match kind {
        ResourceType::Blog => Conversion::Article,
        ResourceType::Photo => Conversion::Photo,
        ResourceType::Style => Conversion::Stylesheet,
        ResourceType::Script | ResourceType::Icon => Conversion::Copy,
    }
}

/// Link of an article's page, relative to the output root.
pub open spec fn blog_link_of(name: Seq<char>) -> Seq<char> {
    "blog/"@ + name + ".html"@
}

fn joined(a: &str, b: &str, c: &str) -> (r: String)
    ensures
        r@ == a@ + b@ + c@,
{
    String::from_str(a).concat(b).concat(c)
}

impl SiteResource {
    pub fn name(&self) -> (r: &String)
        ensures
            r@ == self@.name,
    {
        &self.name
    }

    pub fn path(&self) -> (r: &String)
        ensures
            r@ == self@.path,
    {
        &self.path
    }

    pub fn timing(&self) -> (r: Timing)
        ensures
            r == self@.timing,
    {
        self.timing
    }

    pub fn changed(&self) -> (r: bool)
        ensures
            r == self@.changed,
    {
        self.changed
    }

    pub fn resource_type(&self) -> (r: ResourceType)
        ensures
            r == self@.kind,
    {
        self.resource_type
    }

    /// The conversion that builds this resource's outputs.
    pub fn conversion(&self) -> (r: Conversion)
        ensures
            r == conversion_of(self@.kind),
    {
        match self.resource_type {
            ResourceType::Blog => Conversion::Article,
            ResourceType::Photo => Conversion::Photo,
            ResourceType::Style => Conversion::Stylesheet,
            ResourceType::Script | ResourceType::Icon => Conversion::Copy,
        }
    }

    /// The index entry of this resource as an article.
    pub fn as_blog(&self) -> (r: Blog)
        ensures
            r.link@ == blog_link_of(self@.name),
            r.title@ == title_case_of(self@.name),
            r.created@ == rfc3339_of(self@.timing.created),
    {
        Blog::new(
            joined("blog/", self.name.as_str(), ".html"),
            title_case(self.name.as_str()),
            rfc3339(self.timing.created),
        )
    }

    /// The paths this resource's build writes, relative to the output root.
    pub fn output_paths(&self) -> (r: Vec<String>)
        ensures
            r@.map_values(|s: String| s@) == outputs_of(self@.kind, self@.name),
    {
        let n = self.name.as_str();
        let r = match self.resource_type {
            ResourceType::Blog => vec![joined("blog/", n, ".html")],
            ResourceType::Script => vec![joined("", n, ".js")],
            ResourceType::Style => vec![joined("", n, ".css")],
            ResourceType::Icon => vec![joined("", n, ".ico")],
            ResourceType::Photo => vec![joined("image/", n, ".jpg"), joined("thumbnail/", n, ".jpg")],
        };
        proof {
            reveal_strlit("");
            assert(""@ + n@ =~= n@);
            assert(r@.map_values(|s: String| s@) =~= outputs_of(self@.kind, self@.name));
        }
        r
    }

    /// The page of this resource as an article, from its Markdown source.
    pub fn blog_page(&self, markdown: &str) -> (r: BlogTemplate)
        ensures
            r.blog_html@ == markdown_html_of(markdown@),
            r.parent.browser_title@ == crate::templates::browser_title_of(title_case_of(self@.name)),
            r.parent.title@ == crate::bridge::upper_of(title_case_of(self@.name)),
            r.parent.subtitle@ == "By Ty Coghlan"@,
            crate::templates::links_view(r.parent.links@) == crate::templates::base_links(),
            crate::templates::metas_view(r.parent.metas@) == seq![
                ("og:type"@, "article"@),
                ("og:url"@, crate::templates::site_domain() + ("/"@ + blog_link_of(self@.name))),
                ("og:title"@, title_case_of(self@.name)),
            ] + crate::templates::common_metas(),
    {
        let html = markdown_to_html(markdown);
        BlogTemplate::new(html, self.as_blog())
    }
}

/// What the file system says of one entry of the source directory.
pub struct SourceEntry {
    pub path: String,
    /// The entry's file name; `None` where it is not representable as text.
    pub file_name: Option<String>,
    /// The entry's extension; `None` where it has none, or none in text.
    pub extension: Option<String>,
    /// Whether the entry is a regular file.
    pub is_file: bool,
    /// The file's instants, or the error met while reading them.
    pub times: OResult<FileTimes>,
}

/// What a scan makes of one entry.
pub enum EntryOutcome {
    /// The entry shows a malformed source tree: the scan fails.
    Failed,
    /// The entry is not content: it is left out.
    Skipped,
    Kept(ResourceView),
}

/// The timing recorded under `name` in the manifest, if any.
pub open spec fn recorded(manifest: Map<Seq<char>, Timing>, name: Seq<char>) -> Option<Timing> {
    if manifest.contains_key(name) {
        Some(manifest[name])
    } else {
        None
    }
}

/// The resource a scan against `manifest` makes of an entry, checked in
/// this order: an entry without an extension fails the scan; one whose
/// extension is not recognised is skipped, not an error; a recognised one
/// whose file name is not text fails the scan; one that is not a regular
/// file is skipped; a regular file whose metadata or modification time
/// cannot be read fails the scan. Otherwise it is kept: its kind from the
/// extension, its name from the file name, its timing by the fallback chain,
/// and whether it changed since the manifest was written.
pub open spec fn scan_entry(e: SourceEntry, manifest: Map<Seq<char>, Timing>) -> EntryOutcome {
    match e.extension {
        None => EntryOutcome::Failed,
        Some(ext) => match type_of_extension(ext@) {
            None => EntryOutcome::Skipped,
            Some(kind) => match e.file_name {
                None => EntryOutcome::Failed,
                Some(file_name) => if !e.is_file {
                    EntryOutcome::Skipped
                } else {
                    match e.times {
                        Err(_) => EntryOutcome::Failed,
                        Ok(t) => match t.modified {
                            None => EntryOutcome::Failed,
                            Some(m) => {
                                let name = strip_extension(file_name@, ext@);
                                let prev = recorded(manifest, name);
                                let timing = Timing {
                                    created: match t.created {
                                        Some(c) => c,
                                        None => match prev {
                                            Some(p) => p.created,
                                            None => m,
                                        },
                                    },
                                    modified: m,
                                };
                                EntryOutcome::Kept(ResourceView {
                                    timing,
                                    changed: prev != Some(timing),
                                    path: e.path@,
                                    name,
                                    kind,
                                })
                            },
                        },
                    }
                },
            },
        },
    }
}

/// The resources kept from the entries, in the entries' order.
pub open spec fn scanned(entries: Seq<SourceEntry>, manifest: Map<Seq<char>, Timing>) -> Seq<ResourceView>
    decreases entries.len(),
{
    if entries.len() == 0 {
        Seq::empty()
    } else {
        let rest = scanned(entries.drop_last(), manifest);
        match scan_entry(entries.last(), manifest) {
            EntryOutcome::Kept(r) => rest.push(r),
            _ => rest,
        }
    }
}

/// Whether some entry makes the scan fail.
pub open spec fn scan_fails(entries: Seq<SourceEntry>, manifest: Map<Seq<char>, Timing>) -> bool {
    exists|i: int| 0 <= i < entries.len() && scan_entry(#[trigger] entries[i], manifest) is Failed
}

/// Newest first: no resource was created after one listed before it.
pub open spec fn newest_first(s: Seq<ResourceView>) -> bool {
    forall|a: int, b: int| 0 <= a < b < s.len() ==> s[a].timing.created >= s[b].timing.created
}

/// The resources of a sequence as the contracts see them.
pub open spec fn views(s: Seq<SiteResource>) -> Seq<ResourceView> {
    s.map_values(|r: SiteResource| r@)
}

/// The outcome of scanning one entry; `Err` where the scan fails.
fn scan_one(e: &SourceEntry, config: &Config) -> (r: OResult<Option<SiteResource>>)
    requires
        config.wf(),
    ensures
        match r {
            Err(_) => scan_entry(*e, config@) is Failed,
            Ok(None) => scan_entry(*e, config@) is Skipped,
            Ok(Some(res)) => scan_entry(*e, config@) == EntryOutcome::Kept(res@),
        },
{
    let ext = match &e.extension {
        Some(x) => x,
        None => {
            return Err(OpaqueError::new(String::from_str("No file extension!")));
        },
    };
    let resource_type = match ResourceType::from_extension(ext.as_str()) {
        Ok(t) => t,
        Err(_) => {
            return Ok(None);
        },
    };
    let file_name = match &e.file_name {
        Some(f) => f,
        None => {
            return Err(OpaqueError::new(String::from_str("Invalid filename: ").concat(e.path.as_str())));
        },
    };
    if !e.is_file {
        return Ok(None);
    }
    let times = match &e.times {
        Ok(t) => t,
        Err(err) => {
            return Err(OpaqueError::new(err.message()));
        },
    };
    let name = strip_extension_exec(file_name.as_str(), ext.as_str());
    let prev = config.get(&name);
    let timing = match &prev {
        Some(p) => Timing::from_metadata_and_prev(times, Some(p)),
        None => Timing::from_metadata_and_prev(times, None),
    };
    let timing = match timing {
        Ok(t) => t,
        Err(err) => {
            return Err(err);
        },
    };
    let changed = match prev {
        Some(p) => p != timing,
        None => true,
    };
    Ok(Some(SiteResource { timing, changed, path: e.path.clone(), name, resource_type }))
}

/// The resources of one scan, newest first.
#[derive(Debug)]
pub struct SiteResources {
    resources: Vec<SiteResource>,
}

impl View for SiteResources {
    type V = Seq<ResourceView>;

    closed spec fn view(&self) -> Seq<ResourceView> {
        views(self.resources@)
    }
}

impl SiteResources {
    /// The listing is newest first.
    pub open spec fn wf(&self) -> bool {
        newest_first(self@)
    }

    /// Classifies the entries of the source directory against the manifest
    /// and lists the resources newest first. Fails where an entry shows a
    /// malformed source tree; never changes the manifest.
    pub fn read_resources(entries: &Vec<SourceEntry>, config: &Config) -> (r: OResult<SiteResources>)
        requires
            config.wf(),
        ensures
            r is Err <==> scan_fails(entries@, config@),
            r is Ok ==> r->Ok_0.wf() && r->Ok_0@.to_multiset() == scanned(entries@, config@).to_multiset(),
            r is Ok ==> r->Ok_0@.len() == scanned(entries@, config@).len(),
    {
        let mut out: Vec<SiteResource> = Vec::new();
        let mut i: usize = 0;
        proof {
            assert(views(out@) =~= Seq::empty());
            assert(scanned(entries@.take(0), config@) =~= Seq::empty());
        }
        while i < entries.len()
            invariant
                config.wf(),
                i <= entries@.len(),
                newest_first(views(out@)),
                views(out@).to_multiset() == scanned(entries@.take(i as int), config@).to_multiset(),
                forall|k: int| 0 <= k < i ==> !(scan_entry(#[trigger] entries@[k], config@) is Failed),
            decreases entries@.len() - i,
        {
            let ghost before = views(out@);
            proof {
                assert(entries@.take(i as int + 1).drop_last() =~= entries@.take(i as int));
                assert(entries@.take(i as int + 1).last() == entries@[i as int]);
            }
            match scan_one(&entries[i], config) {
                Err(e) => {
                    return Err(e);
                },
                Ok(None) => {},
                Ok(Some(res)) => {
                    let created = res.timing.created;
                    let mut j: usize = 0;
                    while j < out.len() && out[j].timing.created >= created
                        invariant
                            j <= out@.len(),
                            forall|k: int| 0 <= k < j ==> out@[k].timing.created >= created,
                        decreases out@.len() - j,
                    {
                        j += 1;
                    }
                    let ghost x = res@;
                    out.insert(j, res);
                    proof {
                        let after = views(out@);
                        assert(after =~= before.insert(j as int, x));
                        vstd::seq_lib::to_multiset_insert(before, j as int, x);
                        vstd::seq_lib::to_multiset_build(scanned(entries@.take(i as int), config@), x);
                        assert forall|a: int, b: int| 0 <= a < b < after.len() implies after[a].timing.created >= after[b].timing.created by {
                            if b < j {
                                assert(after[a] == before[a] && after[b] == before[b]);
                            } else if b == j {
                                assert(after[a] == before[a]);
                            } else if a == j {
                                assert(after[b] == before[b - 1]);
                                assert(before[j as int].timing.created < created);
                            } else if a < j {
                                assert(after[a] == before[a] && after[b] == before[b - 1]);
                            } else {
                                assert(after[a] == before[a - 1] && after[b] == before[b - 1]);
                            }
                        }
                    }
                },
            }
            i += 1;
        }
        proof {
            assert(entries@.take(i as int) =~= entries@);
            vstd::seq_lib::to_multiset_len(views(out@));
            vstd::seq_lib::to_multiset_len(scanned(entries@, config@));
        }
        Ok(SiteResources { resources: out })
    }

    /// Name and timing of each resource, in listing order.
    pub fn timings(&self) -> (r: Vec<(String, Timing)>)
        ensures
            crate::config::entries_view(r@) == self@.map_values(|v: ResourceView| (v.name, v.timing)),
    {
        let mut r: Vec<(String, Timing)> = Vec::new();
        let mut i: usize = 0;
        while i < self.resources.len()
            invariant
                i <= self.resources@.len(),
                r@.len() == i,
                forall|k: int| 0 <= k < i ==> #[trigger] r@[k].0@ == self.resources@[k]@.name && r@[k].1 == self.resources@[k]@.timing,
            decreases self.resources@.len() - i,
        {
            let name = self.resources[i].name.clone();
            r.push((name, self.resources[i].timing));
            proof {
                assert(r@[i as int].0@ == self.resources@[i as int]@.name);
            }
            i += 1;
        }
        proof {
            assert(crate::config::entries_view(r@) =~= self@.map_values(|v: ResourceView| (v.name, v.timing)));
        }
        r
    }

    /// Number of resources listed.
    pub fn len(&self) -> (r: usize)
        ensures
            r == self@.len(),
    {
        self.resources.len()
    }

    /// The resource at position `i` of the listing.
    pub fn get(&self, i: usize) -> (r: &SiteResource)
        requires
            i < self@.len(),
        ensures
            r@ == self@[i as int],
    {
        &self.resources[i]
    }
}

/// Whether a resource is (re)built: it changed since the manifest, the
/// build is forced, or one of its outputs is missing (`present` says, for each
/// path of `outputs_of`, whether it exists).
pub open spec fn needs_build(r: ResourceView, force: bool, present: Seq<bool>) -> bool {
    r.changed || force || exists|k: int| 0 <= k < present.len() && !present[k]
}

/// The index entry of an article: its page, its title and its creation.
pub open spec fn blog_entry_of(r: ResourceView) -> (Seq<char>, Seq<char>, Seq<char>) {
    (blog_link_of(r.name), title_case_of(r.name), rfc3339_of(r.timing.created))
}

/// The gallery entry of a photo: thumbnail, full-size image and label.
pub open spec fn label_of(r: ResourceView) -> (Seq<char>, Seq<char>, Seq<char>) {
    ("thumbnail/"@ + r.name + ".jpg"@, "image/"@ + r.name + ".jpg"@, r.name)
}

/// The index entries of the articles of a listing, in listing order.
pub open spec fn index_entries(s: Seq<ResourceView>) -> Seq<(Seq<char>, Seq<char>, Seq<char>)>
    decreases s.len(),
{
    if s.len() == 0 {
        Seq::empty()
    } else if s.last().kind == ResourceType::Blog {
        index_entries(s.drop_last()).push(blog_entry_of(s.last()))
    } else {
        index_entries(s.drop_last())
    }
}

/// The gallery entries of the photos of a listing, in listing order.
pub open spec fn gallery_entries(s: Seq<ResourceView>) -> Seq<(Seq<char>, Seq<char>, Seq<char>)>
    decreases s.len(),
{
    if s.len() == 0 {
        Seq::empty()
    } else if s.last().kind == ResourceType::Photo {
        gallery_entries(s.drop_last()).push(label_of(s.last()))
    } else {
        gallery_entries(s.drop_last())
    }
}

/// Positions in strictly increasing order, each below `n`.
pub open spec fn increasing_below(s: Seq<usize>, n: nat) -> bool {
    &&& forall|a: int, b: int| 0 <= a < b < s.len() ==> s[a] < s[b]
    &&& forall|a: int| 0 <= a < s.len() ==> s[a] < n
}

/// The work of one build cycle: the resources to convert, by position in
/// the listing, and the pages built from the whole listing.
pub struct BuildPlan {
    pub selected: Vec<usize>,
    pub index: IndexTemplate,
    pub gallery: GalleryTemplate,
    pub about: AboutTemplate,
    pub not_found: NotFoundTemplate,
}

/// The directories, relative to the output root, that a build writes into.
pub open spec fn output_dir_names() -> Seq<Seq<char>> {
    seq!["blog"@, "image"@, "thumbnail"@]
}

fn all_true(v: &Vec<bool>) -> (r: bool)
    ensures
        r == (forall|k: int| 0 <= k < v@.len() ==> v@[k]),
{
    let mut k: usize = 0;
    while k < v.len()
        invariant
            k <= v@.len(),
            forall|j: int| 0 <= j < k ==> v@[j],
        decreases v@.len() - k,
    {
        if !v[k] {
            return false;
        }
        k += 1;
    }
    true
}

/// The message of a failed build: the failures' messages, in order, joined
/// by "; ".
pub open spec fn failure_text(s: Seq<OResult<()>>) -> Seq<char>
    decreases s.len(),
{
    if s.len() == 0 {
        Seq::empty()
    } else {
        let rest = failure_text(s.drop_last());
        match s.last() {
            Ok(_) => rest,
            Err(e) => if rest.len() == 0 {
                e@
            } else {
                rest + "; "@ + e@
            },
        }
    }
}

impl SiteResources {
    /// The directories under the output root that must exist before a build.
    pub fn output_dirs() -> (r: Vec<String>)
        ensures
            r@.map_values(|s: String| s@) == output_dir_names(),
    {
        let r = vec![String::from_str("blog"), String::from_str("image"), String::from_str("thumbnail")];
        proof {
            assert(r@.map_values(|s: String| s@) =~= output_dir_names());
        }
        r
    }

    /// Decides one build cycle. A resource is converted where it changed,
    /// where `ignore_changed` forces it, or where an output is missing;
    /// `present[i]` says which outputs of the `i`-th resource exist, in the
    /// order of `output_paths`. The index and the gallery list every article
    /// and every photo, in listing order.
    pub fn build_all(&self, ignore_changed: bool, present: &Vec<Vec<bool>>) -> (r: BuildPlan)
        requires
            present@.len() == self@.len(),
            forall|i: int| 0 <= i < self@.len() ==>
                (#[trigger] present@[i])@.len() == outputs_of(self@[i].kind, self@[i].name).len(),
        ensures
            increasing_below(r.selected@, self@.len()),
            forall|i: int| 0 <= i < self@.len() ==>
                (r.selected@.contains(i as usize) <==> needs_build(self@[i], ignore_changed, #[trigger] present@[i]@)),
            blogs_view(r.index.blogs@) == index_entries(self@),
            labels_view(r.gallery.label_links@) == gallery_entries(self@),
            crate::templates::index_frame(r.index.parent),
            crate::templates::gallery_frame(r.gallery.parent),
            crate::templates::about_frame(r.about.parent),
            crate::templates::not_found_frame(r.not_found.parent),
    {
        let n = self.resources.len();
        let mut selected: Vec<usize> = Vec::new();
        let mut blogs: Vec<Blog> = Vec::new();
        let mut labels: Vec<LinkLabel> = Vec::new();
        let mut i: usize = 0;
        proof {
            assert(self@.take(0) =~= Seq::empty());
            assert(blogs_view(blogs@) =~= Seq::empty());
            assert(labels_view(labels@) =~= Seq::empty());
        }
        while i < n
            invariant
                n == self@.len(),
                present@.len() == n,
                i <= n,
                increasing_below(selected@, i as nat),
                forall|k: int| 0 <= k < i ==>
                    (selected@.contains(k as usize) <==> needs_build(self@[k], ignore_changed, #[trigger] present@[k]@)),
                blogs_view(blogs@) == index_entries(self@.take(i as int)),
                labels_view(labels@) == gallery_entries(self@.take(i as int)),
            decreases n - i,
        {
            let r = &self.resources[i];
            proof {
                assert(self@[i as int] == r@);
                assert(self@.take(i as int + 1).drop_last() =~= self@.take(i as int));
                assert(self@.take(i as int + 1).last() == r@);
            }
            let ghost sel0 = selected@;
            if r.changed || ignore_changed || !all_true(&present[i]) {
                selected.push(i);
                proof {
                    assert(selected@[selected@.len() - 1] == i);
                }
            }
            proof {
                assert forall|k: int| 0 <= k < i + 1 implies
                    (selected@.contains(k as usize) <==> needs_build(self@[k], ignore_changed, #[trigger] present@[k]@)) by {
                    if k < i {
                        if selected@.contains(k as usize) {
                            let j = choose|j: int| 0 <= j < selected@.len() && selected@[j] == k as usize;
                            if j < sel0.len() {
                                assert(sel0[j] == k as usize);
                            }
                        }
                        if sel0.contains(k as usize) {
                            let j = choose|j: int| 0 <= j < sel0.len() && sel0[j] == k as usize;
                            assert(selected@[j] == k as usize);
                        }
                    } else {
                        if selected@.contains(k as usize) && selected@.len() == sel0.len() {
                            let j = choose|j: int| 0 <= j < selected@.len() && selected@[j] == k as usize;
                            assert(sel0[j] < i);
                        }
                    }
                }
            }
            match r.resource_type {
                ResourceType::Blog => {
                    let ghost b0 = blogs@;
                    blogs.push(r.as_blog());
                    proof {
                        assert(blogs_view(blogs@) =~= blogs_view(b0).push(blog_entry_of(r@)));
                    }
                },
                ResourceType::Photo => {
                    let ghost l0 = labels@;
                    labels.push(
                        LinkLabel::new(
                            joined("thumbnail/", r.name.as_str(), ".jpg"),
                            joined("image/", r.name.as_str(), ".jpg"),
                            r.name.clone(),
                        ),
                    );
                    proof {
                        assert(labels_view(labels@) =~= labels_view(l0).push(label_of(r@)));
                    }
                },
                _ => {},
            }
            i += 1;
        }
        proof {
            assert(self@.take(n as int) =~= self@);
        }
        BuildPlan {
            selected,
            index: IndexTemplate::new(blogs),
            gallery: GalleryTemplate::new(labels),
            about: AboutTemplate::new(),
            not_found: NotFoundTemplate::new(),
        }
    }

    /// The result of a build cycle from the outcomes of its units: success
    /// only if every unit succeeded, else one error naming every failure.
    pub fn collect_outcomes(outcomes: &Vec<OResult<()>>) -> (r: OResult<()>)
        ensures
            r is Ok <==> forall|i: int| 0 <= i < outcomes@.len() ==> #[trigger] outcomes@[i] is Ok,
            r is Err ==> r->Err_0@ == failure_text(outcomes@),
    {
        let mut failed = false;
        let mut text = String::new();
        let mut i: usize = 0;
        while i < outcomes.len()
            invariant
                i <= outcomes@.len(),
                failed == exists|k: int| 0 <= k < i && #[trigger] outcomes@[k] is Err,
                text@ == failure_text(outcomes@.take(i as int)),
            decreases outcomes@.len() - i,
        {
            proof {
                assert(outcomes@.take(i as int + 1).drop_last() =~= outcomes@.take(i as int));
            }
            match &outcomes[i] {
                Ok(_) => {},
                Err(e) => {
                    failed = true;
                    let msg = e.message();
                    if text.as_str().unicode_len() == 0 {
                        text = msg;
                    } else {
                        text = text.concat("; ").concat(msg.as_str());
                    }
                },
            }
            i += 1;
        }
        proof {
            assert(outcomes@.take(i as int) =~= outcomes@);
        }
        if failed {
            Err(OpaqueError::new(text))
        } else {
            Ok(())
        }
    }
}

/// Every resource of a scan is what the scan made of one of the entries.
proof fn lemma_scanned_origin(entries: Seq<SourceEntry>, manifest: Map<Seq<char>, Timing>, r: ResourceView)
    requires
        scanned(entries, manifest).contains(r),
    ensures
        exists|i: int| 0 <= i < entries.len() && scan_entry(#[trigger] entries[i], manifest) == EntryOutcome::Kept(r),
    decreases entries.len(),
{
    let rest = scanned(entries.drop_last(), manifest);
    let last = entries.len() - 1;
    if scan_entry(entries[last], manifest) == EntryOutcome::Kept(r) {
    } else {
        if let EntryOutcome::Kept(x) = scan_entry(entries.last(), manifest) {
            assert(rest.push(x).contains(r));
            let k = choose|k: int| 0 <= k < rest.push(x).len() && rest.push(x)[k] == r;
            assert(k < rest.len());
            assert(rest.contains(r));
        }
        lemma_scanned_origin(entries.drop_last(), manifest, r);
        let i = choose|i: int| 0 <= i < entries.len() - 1 && scan_entry(#[trigger] entries.drop_last()[i], manifest) == EntryOutcome::Kept(r);
        assert(entries.drop_last()[i] == entries[i]);
    }
}

/// A resource of a listing that holds the resources of a scan against
/// `manifest` changed exactly when the manifest does not record its timing.
pub proof fn lemma_changed_flag(entries: Seq<SourceEntry>, manifest: Map<Seq<char>, Timing>, listing: Seq<ResourceView>, i: int)
    requires
        listing.to_multiset() == scanned(entries, manifest).to_multiset(),
        0 <= i < listing.len(),
    ensures
        listing[i].changed <==> recorded(manifest, listing[i].name) != Some(listing[i].timing),
{
    broadcast use vstd::seq_lib::group_to_multiset_ensures;

    assert(listing.contains(listing[i]));
    assert(scanned(entries, manifest).to_multiset().count(listing[i]) > 0);
    lemma_scanned_origin(entries, manifest, listing[i]);
}

/// Idempotence: a scanned resource whose timing the manifest records
/// unchanged, and whose outputs all exist, is not converted by a build that
/// is not forced.
pub proof fn lemma_unchanged_not_rebuilt(
    entries: Seq<SourceEntry>,
    manifest: Map<Seq<char>, Timing>,
    listing: Seq<ResourceView>,
    i: int,
    present: Seq<bool>,
)
    requires
        listing.to_multiset() == scanned(entries, manifest).to_multiset(),
        0 <= i < listing.len(),
        recorded(manifest, listing[i].name) == Some(listing[i].timing),
        forall|k: int| 0 <= k < present.len() ==> present[k],
    ensures
        !needs_build(listing[i], false, present),
{
    lemma_changed_flag(entries, manifest, listing, i);
}

/// A scanned resource whose timing differs from the manifest's, or that the
/// manifest lacks, is converted by a build, and exactly once: its position
/// stands once among those a build plan selects.
pub proof fn lemma_changed_built_once(
    entries: Seq<SourceEntry>,
    manifest: Map<Seq<char>, Timing>,
    listing: Seq<ResourceView>,
    i: int,
    force: bool,
    present: Seq<Seq<bool>>,
    selected: Seq<usize>,
)
    requires
        listing.to_multiset() == scanned(entries, manifest).to_multiset(),
        0 <= i < listing.len(),
        recorded(manifest, listing[i].name) != Some(listing[i].timing),
        present.len() == listing.len(),
        increasing_below(selected, listing.len()),
        forall|k: int| 0 <= k < listing.len() ==>
            (selected.contains(k as usize) <==> needs_build(listing[k], force, #[trigger] present[k])),
    ensures
        exists|j: int| 0 <= j < selected.len() && selected[j] == i as usize,
        forall|j1: int, j2: int|
            0 <= j1 < selected.len() && 0 <= j2 < selected.len() && selected[j1] == i as usize && selected[j2] == i as usize
                ==> j1 == j2,
{
    lemma_changed_flag(entries, manifest, listing, i);
    assert(needs_build(listing[i], force, present[i]));
    assert forall|j1: int, j2: int|
        0 <= j1 < selected.len() && 0 <= j2 < selected.len() && selected[j1] == i as usize && selected[j2] == i as usize
            implies j1 == j2 by {
        if j1 < j2 {
            assert(selected[j1] < selected[j2]);
        } else if j2 < j1 {
            assert(selected[j2] < selected[j1]);
        }
    }
}

/// A photo whose thumbnail exists but whose full-size image is missing is
/// converted, and its conversion writes both outputs.
pub proof fn lemma_partial_photo_rebuilt(r: ResourceView, force: bool, present: Seq<bool>)
    requires
        r.kind == ResourceType::Photo,
        present.len() == outputs_of(r.kind, r.name).len(),
        present[1],
        !present[0],
    ensures
        needs_build(r, force, present),
        outputs_of(r.kind, r.name) == seq!["image/"@ + r.name + ".jpg"@, "thumbnail/"@ + r.name + ".jpg"@],
{
}

/// The listing of a registry is non-increasing in creation instant.
pub proof fn lemma_listing_order(res: SiteResources, i: int)
    requires
        res.wf(),
        0 <= i,
        i + 1 < res@.len(),
    ensures
        res@[i].timing.created >= res@[i + 1].timing.created,
{
}

/// Width and height of the box a photo's thumbnail fits in.
pub const THUMBNAIL_WIDTH: u32 = 640;
pub const THUMBNAIL_HEIGHT: u32 = 360;

/// Width and height of the box a photo's full-size rendition fits in.
pub const FULLSIZE_WIDTH: u32 = 1280;
pub const FULLSIZE_HEIGHT: u32 = 720;

/// The two renditions of a photo, as JPEG bytes.
pub struct PhotoOutputs {
    pub thumbnail: Vec<u8>,
    pub fullsize: Vec<u8>,
}

fn image_error(e: &image::ImageError) -> (r: OpaqueError) {
    OpaqueError::new(image_error_text(e))
}

/// Both renditions of a photo from its JPEG bytes, decoded once: a photo
/// is always converted whole. Succeeds exactly when both renditions exist.
pub fn render_photo(data: &Vec<u8>) -> (r: OResult<PhotoOutputs>)
    ensures
        r is Ok <==> jpeg_rendition_of(data@, THUMBNAIL_WIDTH, THUMBNAIL_HEIGHT) is Some
            && jpeg_rendition_of(data@, FULLSIZE_WIDTH, FULLSIZE_HEIGHT) is Some,
        r is Ok ==> r->Ok_0.thumbnail@ == jpeg_rendition_of(data@, THUMBNAIL_WIDTH, THUMBNAIL_HEIGHT)->Some_0
            && r->Ok_0.fullsize@ == jpeg_rendition_of(data@, FULLSIZE_WIDTH, FULLSIZE_HEIGHT)->Some_0,
{
    let photo = match decode_jpeg(data.as_slice()) {
        Ok(p) => p,
        Err(e) => {
            return Err(image_error(&e));
        },
    };
    let thumbnail = match encode_jpeg(&resized(&photo, THUMBNAIL_WIDTH, THUMBNAIL_HEIGHT)) {
        Ok(b) => b,
        Err(e) => {
            return Err(image_error(&e));
        },
    };
    let fullsize = match encode_jpeg(&resized(&photo, FULLSIZE_WIDTH, FULLSIZE_HEIGHT)) {
        Ok(b) => b,
        Err(e) => {
            return Err(image_error(&e));
        },
    };
    Ok(PhotoOutputs { thumbnail, fullsize })
}

} // verus!

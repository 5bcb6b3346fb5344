//! The site configuration model and the rules that build it: the site's
//! identity from three answers, the default server binding, the document
//! paths derived from a base directory, and the directory tree a new site needs.
use vstd::prelude::*;
use vstd::string::StringExecFns;

use crate::text::{csv_fields, csv_to_vec, slug_of, slugify, trim, trimmed};

verus! {

/// A site's identity: its name, its author, the template it renders with,
/// and its topics in the order given.
#[derive(Debug, PartialEq, Eq)]
pub struct Site {
    pub name: String,
    pub author: String,
    pub template: String,
    pub topics: Vec<String>,
}

/// Where the site is served.
#[derive(Debug, PartialEq, Eq)]
pub struct Server {
    pub bind: String,
    pub port: u16,
}

/// The two document roots of a site, both under one base directory.
#[derive(Debug, PartialEq, Eq)]
pub struct DocPaths {
    pub templates: String,
    pub webroot: String,
}

/// The whole configuration of a site.
#[derive(Debug, PartialEq, Eq)]
pub struct AppConfig {
    pub site: Site,
    pub server: Server,
    pub docpaths: DocPaths,
}

/// The template every new site starts with.
pub open spec fn default_template() -> Seq<char> {
    "default.tmpl"@
}

/// The text of each topic, in order.
pub open spec fn topics_view(topics: Seq<String>) -> Seq<Seq<char>> {
    topics.map_values(|t: String| t@)
}

/// The templates directory of a site based at `dir`.
pub open spec fn templates_of(dir: Seq<char>) -> Seq<char> {
    dir + "/site/templates"@
}

/// The webroot of a site based at `dir`.
pub open spec fn webroot_of(dir: Seq<char>) -> Seq<char> {
    dir + "/site/webroot"@
}

/// Both document paths are derived from the same base directory.
pub open spec fn docpaths_derived(d: DocPaths) -> bool {
    exists|dir: Seq<char>| d.templates@ == templates_of(dir) && d.webroot@ == webroot_of(dir)
}

/// The `ext` and `posts` directories of each topic, in topic order.
pub open spec fn topic_dirs(webroot: Seq<char>, topics: Seq<Seq<char>>) -> Seq<Seq<char>>
    decreases topics.len(),
{
    if topics.len() == 0 {
        Seq::empty()
    } else {
        let base = webroot + "/"@ + slug_of(topics.last());
        topic_dirs(webroot, topics.drop_last()).push(base + "/ext"@).push(base + "/posts"@)
    }
}

/// Every directory a site needs, in creation order: the templates directory,
/// the static and main sections of the webroot, then each topic's pair.
pub open spec fn site_tree(templates: Seq<char>, webroot: Seq<char>, topics: Seq<Seq<char>>) -> Seq<
    Seq<char>,
> {
    seq![
        templates,
        webroot + "/static/ext"@,
        webroot + "/main/ext"@,
        webroot + "/main/posts"@,
    ] + topic_dirs(webroot, topics)
}

proof fn lemma_topic_dirs_len(webroot: Seq<char>, topics: Seq<Seq<char>>)
    ensures
        topic_dirs(webroot, topics).len() == 2 * topics.len(),
    decreases topics.len(),
{
    if topics.len() > 0 {
        lemma_topic_dirs_len(webroot, topics.drop_last());
    }
}

fn concat_str(a: &String, b: &str) -> (r: String)
    ensures
        r@ == a@ + b@,
{
    a.clone().concat(b)
}

impl Site {
    /// Builds a site from the three answered lines: its name, its author and
    /// its comma-separated topics. Each line is trimmed; each topic is
    /// trimmed on its own. The template is the default one.
    pub fn new_from_input(name: &str, author: &str, topics: &str) -> (r: Site)
        ensures
            r.name@ == trimmed(name@),
            r.author@ == trimmed(author@),
            r.template@ == default_template(),
            topics_view(r.topics@) == csv_fields(trimmed(topics@)),
    {
        let name = trim(name);
        let author = trim(author);
        let line = trim(topics);
        let topics = csv_to_vec(line.as_str());
        proof {
            assert(topics_view(topics@) =~= csv_fields(line@));
        }
        Site { name, author, template: String::from_str("default.tmpl"), topics }
    }
}

impl Server {
    /// The default binding: every interface, port 9090.
    pub fn new() -> (r: Server)
        ensures
            r.bind@ == "0.0.0.0"@,
            r.port == 9090,
    {
        Server { bind: String::from_str("0.0.0.0"), port: 9090 }
    }
}

impl DocPaths {
    /// The document paths of a site based at `dir`: `<dir>/site/templates`
    /// and `<dir>/site/webroot`.
    pub fn new(dir: &str) -> (r: DocPaths)
        ensures
            r.templates@ == templates_of(dir@),
            r.webroot@ == webroot_of(dir@),
            docpaths_derived(r),
    {
        let base = String::from_str(dir);
        let templates = concat_str(&base, "/site/templates");
        let webroot = concat_str(&base, "/site/webroot");
        let r = DocPaths { templates, webroot };
        proof {
            assert(r.templates@ == templates_of(dir@) && r.webroot@ == webroot_of(dir@));
        }
        r
    }
}

impl AppConfig {
    /// Assembles the configuration of a new site based at `dir` from the
    /// three answered lines (name, author, comma-separated topics), with the
    /// default server binding.
    pub fn generate(dir: &str, name: &str, author: &str, topics: &str) -> (r: AppConfig)
        ensures
            r.site.name@ == trimmed(name@),
            r.site.author@ == trimmed(author@),
            r.site.template@ == default_template(),
            topics_view(r.site.topics@) == csv_fields(trimmed(topics@)),
            r.server.bind@ == "0.0.0.0"@,
            r.server.port == 9090,
            r.docpaths.templates@ == templates_of(dir@),
            r.docpaths.webroot@ == webroot_of(dir@),
            docpaths_derived(r.docpaths),
    {
        let docpaths = DocPaths::new(dir);
        let site = Site::new_from_input(name, author, topics);
        let server = Server::new();
        AppConfig { site, server, docpaths }
    }

    /// Every directory the site needs, in the order they are to be created:
    /// the templates directory, `static/ext`, `main/ext` and `main/posts`
    /// under the webroot, then `<slug>/ext` and `<slug>/posts` under the
    /// webroot for each topic, `<slug>` being the topic's slug.
    pub fn create_paths(&self) -> (r: Vec<String>)
        ensures
            r@.len() == site_tree(
                self.docpaths.templates@,
                self.docpaths.webroot@,
                topics_view(self.site.topics@),
            ).len(),
            forall|k: int|
                0 <= k < r@.len() ==> #[trigger] r@[k]@ == site_tree(
                    self.docpaths.templates@,
                    self.docpaths.webroot@,
                    topics_view(self.site.topics@),
                )[k],
    {
        let w = &self.docpaths.webroot;
        let ghost wv = w@;
        let ghost tv = topics_view(self.site.topics@);
        let mut out: Vec<String> = Vec::new();
        out.push(self.docpaths.templates.clone());
        out.push(concat_str(w, "/static/ext"));
        out.push(concat_str(w, "/main/ext"));
        out.push(concat_str(w, "/main/posts"));
        let n = self.site.topics.len();
        let mut i: usize = 0;
        while i < n
            invariant
                n == self.site.topics@.len(),
                wv == self.docpaths.webroot@,
                tv == topics_view(self.site.topics@),
                i <= n,
                out@.len() == 4 + 2 * i,
                forall|k: int|
                    0 <= k < out@.len() ==> #[trigger] out@[k]@ == site_tree(
                        self.docpaths.templates@,
                        wv,
                        tv.subrange(0, i as int),
                    )[k],
            decreases n - i,
        {
            let slug = slugify(self.site.topics[i].as_str());
            let base = concat_str(&concat_str(&self.docpaths.webroot, "/"), slug.as_str());
            let ext = concat_str(&base, "/ext");
            let posts = concat_str(&base, "/posts");
            out.push(ext);
            out.push(posts);
            proof {
                let old_t = tv.subrange(0, i as int);
                let new_t = tv.subrange(0, i + 1);
                assert(new_t.drop_last() =~= old_t);
                assert(tv[i as int] == self.site.topics@[i as int]@);
                assert(new_t.last() == self.site.topics@[i as int]@);
                lemma_topic_dirs_len(wv, old_t);
                assert(slug@ == slug_of(self.site.topics@[i as int]@));
                assert(base@ == wv + "/"@ + slug@);
                assert(base@ == wv + "/"@ + slug_of(new_t.last()));
                assert(topic_dirs(wv, new_t) == topic_dirs(wv, old_t).push(base@ + "/ext"@).push(
                    base@ + "/posts"@,
                ));
                assert(site_tree(self.docpaths.templates@, wv, new_t) =~= site_tree(
                    self.docpaths.templates@,
                    wv,
                    old_t,
                ).push(base@ + "/ext"@).push(base@ + "/posts"@));
            }
            i += 1;
        }
        proof {
            assert(tv.subrange(0, n as int) =~= tv);
            lemma_topic_dirs_len(wv, tv);
        }
        out
    }
}

} // verus!

//! Configuration and the request handler's decision.
//!
//! A [`Sitemap`] is built once, then shared read-only across all request
//! handlers. For each request, [`serve_sitemap`] decides whether the
//! requested path names the configured virtual path: if so, the configured
//! file is to be read and served as XML; if not, the configured strategy's
//! response is returned at once and no file is named at all.

use crate::paths::{
    is_absolute, join_paths, joined, lemma_joined_matches_slash_join, norm_path, normalize,
    NormPath, PathModel,
};
use crate::response::{xml_ok_model, Response, ResponseModel};
use crate::strategy::{NotFoundStrategy, ShowErrorMessageStrategy};
use vstd::prelude::*;

verus! {

/// The resolved configuration: where the file lives on disk, the one
/// virtual path it is served under, and the strategy for every other
/// request. Immutable once built.
pub struct Sitemap<S: NotFoundStrategy> {
    pub static_file_path: String,
    pub virtual_path: NormPath,
    pub not_found_strategy: S,
}

/// A fluent builder for [`Sitemap`]: each setter replaces one field and
/// returns the builder, and [`SitemapBuilder::build`] normalizes the
/// directory and filename into the virtual path.
pub struct SitemapBuilder<S: NotFoundStrategy> {
    pub static_file_path: String,
    pub web_directory: String,
    pub web_filename: String,
    pub not_found_strategy: S,
}

impl Default for SitemapBuilder<ShowErrorMessageStrategy> {
    /// The default configuration: the file `sitemaps.xml` beside the
    /// process, served at `/sitemaps.xml`, with the plain 404 strategy.
    fn default() -> (r: Self)
        ensures
            r.static_file_path@ == "sitemaps.xml"@,
            r.web_directory@ == Seq::<char>::empty(),
            r.web_filename@ == "sitemaps.xml"@,
    {
        let r = SitemapBuilder {
            static_file_path: String::from_str("sitemaps.xml"),
            web_directory: String::new(),
            web_filename: String::from_str("sitemaps.xml"),
            not_found_strategy: ShowErrorMessageStrategy,
        };
        proof {
            assert(r.web_directory@ =~= Seq::<char>::empty());
        }
        r
    }
}

impl<S: NotFoundStrategy> SitemapBuilder<S> {
    /// Replace the virtual directory under which the sitemap is served.
    pub fn web_directory(self, web_directory: String) -> (r: Self)
        ensures
            r.web_directory@ == web_directory@,
            r.static_file_path@ == self.static_file_path@,
            r.web_filename@ == self.web_filename@,
            r.not_found_strategy == self.not_found_strategy,
    {
        SitemapBuilder {
            static_file_path: self.static_file_path,
            web_directory,
            web_filename: self.web_filename,
            not_found_strategy: self.not_found_strategy,
        }
    }

    /// Replace the physical path of the file served.
    pub fn static_file(self, static_file_path: String) -> (r: Self)
        ensures
            r.static_file_path@ == static_file_path@,
            r.web_directory@ == self.web_directory@,
            r.web_filename@ == self.web_filename@,
            r.not_found_strategy == self.not_found_strategy,
    {
        SitemapBuilder {
            static_file_path,
            web_directory: self.web_directory,
            web_filename: self.web_filename,
            not_found_strategy: self.not_found_strategy,
        }
    }

    /// Replace the virtual filename under which the sitemap is served.
    pub fn web_filename(self, web_filename: String) -> (r: Self)
        ensures
            r.web_filename@ == web_filename@,
            r.static_file_path@ == self.static_file_path@,
            r.web_directory@ == self.web_directory@,
            r.not_found_strategy == self.not_found_strategy,
    {
        SitemapBuilder {
            static_file_path: self.static_file_path,
            web_directory: self.web_directory,
            web_filename,
            not_found_strategy: self.not_found_strategy,
        }
    }

    /// Replace the strategy that answers unmatched requests.
    pub fn not_found_strategy<S2: NotFoundStrategy>(self, strategy: S2) -> (r: SitemapBuilder<
        S2,
    >)
        ensures
            r.not_found_strategy == strategy,
            r.static_file_path@ == self.static_file_path@,
            r.web_directory@ == self.web_directory@,
            r.web_filename@ == self.web_filename@,
    {
        SitemapBuilder {
            static_file_path: self.static_file_path,
            web_directory: self.web_directory,
            web_filename: self.web_filename,
            not_found_strategy: strategy,
        }
    }

    /// Resolve the builder: join and normalize the directory and filename
    /// into the one virtual path, and fix the strategy.
    pub fn build(self) -> (s: Sitemap<S>)
        ensures
            s.static_file_path@ == self.static_file_path@,
            s.virtual_path@ == norm_path(joined(self.web_directory@, self.web_filename@)),
            s.not_found_strategy == self.not_found_strategy,
    {
        let joined_path = join_paths(&self.web_directory, &self.web_filename);
        Sitemap {
            static_file_path: self.static_file_path,
            virtual_path: normalize(joined_path.as_str()),
            not_found_strategy: self.not_found_strategy,
        }
    }
}

impl<S: NotFoundStrategy> Sitemap<S> {
    /// Whether `requested_path` names the configured virtual path: exact
    /// equality of the normalized forms, with no prefix or case-folded
    /// matches.
    pub fn matches_request(&self, requested_path: &str) -> (r: bool)
        ensures
            r == (norm_path(requested_path@) == self.virtual_path@),
    {
        let requested = normalize(requested_path);
        requested.equals(&self.virtual_path)
    }
}

/// What the handler decides for one request: read the file at the given
/// physical path and serve its contents, or send the given response at
/// once.
pub enum ServeAction {
    ReadFile(String),
    Respond(Response),
}

/// Decide one request. A request for the virtual path is answered by
/// reading the configured file and serving it (see
/// [`crate::response::sitemap_file_response`]); any other request is
/// answered by the configured strategy's response, and no file is named at
/// all.
pub fn serve_sitemap<S: NotFoundStrategy>(sitemap: &Sitemap<S>, requested_path: &str) -> (action:
    ServeAction)
    ensures
        (norm_path(requested_path@) == sitemap.virtual_path@) ==> (action matches
            ServeAction::ReadFile(p) && p@ == sitemap.static_file_path@),
        (norm_path(requested_path@) != sitemap.virtual_path@) ==> (action matches
            ServeAction::Respond(r) && r@ == sitemap.not_found_strategy.response_model()),
{
    if sitemap.matches_request(requested_path) {
        ServeAction::ReadFile(sitemap.static_file_path.clone())
    } else {
        ServeAction::Respond(sitemap.not_found_strategy.handle_not_found())
    }
}

/// The complete response for one request, given the configured virtual
/// path, the strategy's response, and the file's contents at serve time.
pub open spec fn served_response(
    virtual_path: PathModel,
    not_found: ResponseModel,
    requested: Seq<char>,
    contents: Seq<char>,
) -> ResponseModel {
    if norm_path(requested) == virtual_path {
        xml_ok_model(contents)
    } else {
        not_found
    }
}

/// A request that names the virtual path — the normalized form of the
/// configured directory joined with the configured filename — is served the
/// file: status 200, an XML content type, and the file's exact contents as
/// the body.
pub proof fn lemma_matching_request_serves_file(
    dir: Seq<char>,
    file: Seq<char>,
    not_found: ResponseModel,
    requested: Seq<char>,
    contents: Seq<char>,
)
    requires
        norm_path(requested) == norm_path(joined(dir, file)),
    ensures
        served_response(norm_path(joined(dir, file)), not_found, requested, contents)
            == xml_ok_model(contents),
        served_response(norm_path(joined(dir, file)), not_found, requested, contents).status
            == 200,
        served_response(norm_path(joined(dir, file)), not_found, requested, contents).body
            == contents,
{
}

/// A request equal, after normalization, to the configured directory, a
/// separator, and the configured filename — or to the filename alone when
/// the directory is empty — is served the file. A filename that is itself
/// absolute replaces the directory in the virtual path and is therefore
/// left out here.
pub proof fn lemma_request_for_virtual_path_serves_file(
    dir: Seq<char>,
    file: Seq<char>,
    not_found: ResponseModel,
    requested: Seq<char>,
    contents: Seq<char>,
)
    requires
        !is_absolute(file),
        dir.len() > 0 ==> norm_path(requested) == norm_path(dir + seq!['/'] + file),
        dir.len() == 0 ==> norm_path(requested) == norm_path(file),
    ensures
        served_response(norm_path(joined(dir, file)), not_found, requested, contents)
            == xml_ok_model(contents),
{
    if dir.len() > 0 {
        lemma_joined_matches_slash_join(dir, file);
    }
}

/// With an empty configured directory, the virtual path is the filename
/// alone.
pub proof fn lemma_empty_directory_serves_filename(dir: Seq<char>, file: Seq<char>)
    requires
        dir.len() == 0,
    ensures
        joined(dir, file) == file,
{
}

/// A request that does not name the virtual path is answered by the
/// configured strategy's response, unchanged; the file does not enter the
/// response at all.
pub proof fn lemma_mismatch_serves_strategy_response(
    virtual_path: PathModel,
    not_found: ResponseModel,
    requested: Seq<char>,
    contents: Seq<char>,
)
    requires
        norm_path(requested) != virtual_path,
    ensures
        served_response(virtual_path, not_found, requested, contents) == not_found,
{
}

/// Serving is deterministic: two responses to the same request, under the
/// same configuration and the same file contents, are identical.
pub proof fn lemma_serving_is_deterministic(
    virtual_path: PathModel,
    not_found: ResponseModel,
    requested: Seq<char>,
    contents: Seq<char>,
    first: ResponseModel,
    second: ResponseModel,
)
    requires
        first == served_response(virtual_path, not_found, requested, contents),
        second == served_response(virtual_path, not_found, requested, contents),
    ensures
        first == second,
{
}

} // verus!

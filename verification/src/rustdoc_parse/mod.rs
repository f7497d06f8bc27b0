//! Reading the documentation of a crate out of its source file.
//!
//! Nothing here reads a file or asks cargo: the caller hands over what was read,
//! as an `Environment`, and gets back the documentation as markdown. The
//! documentation goes through three changes on its way: the lines that rustdoc
//! hides leave its Rust code blocks, its fenced Rust code blocks get the tag
//! `rust`, and its links to items of the crate get the addresses that the caller
//! found for them.
use vstd::prelude::*;
use crate::config::text_eq;
use crate::text::texts;
use self::extract_doc::{extract_doc_from_source_str, extracted_from};
use self::options::{ImportRequest, RustDocOptions};
use self::transform::intralinks::{
    intralinks_in, links_view, unresolved_in, warning, with_resolved_links, DocTransformIntralinks,
    ResolvedLink,
};
use self::transform::utils::markdown_events;
use self::transform::{
    with_rust_tags, without_comments, DocTransformRustMarkdownTag, DocTransformRustRemoveComments,
};

pub mod extract_doc;
pub mod options;
pub mod transform;
pub mod utils;

verus! {

/// A piece of documentation, as markdown. Its lines end in a line feed.
#[derive(Debug, PartialEq, Eq)]
pub struct Doc {
    pub content: String,
}

impl Doc {
    /// The documentation that holds the text `str`.
    pub fn from_str(str: &str) -> (r: Doc)
        ensures
            r.content@ == str@,
    {
        Doc { content: str.to_string() }
    }

    /// The markdown as a string.
    #[must_use]
    pub fn as_string(&self) -> (r: &str)
        ensures
            r@ == self.content@,
    {
        self.content.as_str()
    }
}

/// A target of a package.
#[derive(Debug)]
pub struct Target {
    /// The kinds of the target, such as `lib` or `bin`.
    pub kind: Vec<String>,
}

/// A package of a work space, as cargo describes it.
#[derive(Debug)]
pub struct Package {
    pub name: String,
    /// The identifier that cargo gives the package.
    pub id: String,
    pub targets: Vec<Target>,
}

/// A work space, as cargo describes it.
#[derive(Debug)]
pub struct Metadata {
    /// Every package that the work space refers to, its own included.
    pub packages: Vec<Package>,
    /// The identifiers of the packages that are members of the work space.
    pub workspace_members: Vec<String>,
    /// The root package of the work space, if it has one.
    pub root_package: Option<Package>,
}

/// A source file that was read, or the message of the failure to read it.
#[derive(Debug)]
pub struct SourceFile {
    /// The path as the fence names it.
    pub path: String,
    pub content: Result<String, String>,
    /// The links of the file's documentation to items of its crate, as far as they
    /// were resolved.
    pub links: Vec<ResolvedLink>,
}

/// What was read for a document: the work space in which it stands, or the
/// message of the failure to read it, and the source files that the fences of the
/// document name.
#[derive(Debug)]
pub struct Environment {
    pub metadata: Result<Metadata, String>,
    pub sources: Vec<SourceFile>,
}

/// Why no documentation could be imported.
#[derive(Debug)]
pub enum DocError {
    /// The work space could not be read; this is the message of the failure.
    Metadata(String),
    /// The work space has no root package.
    NoRootPackage,
    /// The work space has no member of this name.
    PackageNotFound(String),
    /// The package has more than one library target.
    ManyLibraries,
    /// The source file was not among the files that were read.
    Unread,
    /// The source file could not be read; this is the message of the failure.
    Source(String),
    /// The source file is no Rust source; this is the parser's message.
    Syntax(String),
    /// The source file has no documentation of its crate.
    NotFound,
}

/// The model of a `DocError`.
pub enum DocFault {
    Metadata(Seq<char>),
    NoRootPackage,
    PackageNotFound(Seq<char>),
    ManyLibraries,
    Unread,
    Source(Seq<char>),
    Syntax(Seq<char>),
    NotFound,
}

impl View for DocError {
    type V = DocFault;

    open spec fn view(&self) -> DocFault {
        match self {
            DocError::Metadata(m) => DocFault::Metadata(m@),
            DocError::NoRootPackage => DocFault::NoRootPackage,
            DocError::PackageNotFound(name) => DocFault::PackageNotFound(name@),
            DocError::ManyLibraries => DocFault::ManyLibraries,
            DocError::Unread => DocFault::Unread,
            DocError::Source(m) => DocFault::Source(m@),
            DocError::Syntax(m) => DocFault::Syntax(m@),
            DocError::NotFound => DocFault::NotFound,
        }
    }
}

impl DocFault {
    /// The words in which the fault is reported.
    pub open spec fn message(self) -> Seq<char> {
        match self {
            DocFault::Metadata(m) => m,
            DocFault::NoRootPackage => "project has no root package"@,
            DocFault::PackageNotFound(_) => "project has no package"@,
            DocFault::ManyLibraries => "more than one lib target"@,
            DocFault::Unread => "source file was not read"@,
            DocFault::Source(m) => m,
            DocFault::Syntax(_) => "cannot parse source file"@,
            DocFault::NotFound => "crate-level rustdoc not found"@,
        }
    }
}

impl DocError {
    /// The words in which the error is reported.
    pub fn message(&self) -> (r: String)
        ensures
            r@ == self@.message(),
    {
        match self {
            DocError::Metadata(m) => m.clone(),
            DocError::NoRootPackage => "project has no root package".to_string(),
            DocError::PackageNotFound(_) => "project has no package".to_string(),
            DocError::ManyLibraries => "more than one lib target".to_string(),
            DocError::Unread => "source file was not read".to_string(),
            DocError::Source(m) => m.clone(),
            DocError::Syntax(_) => "cannot parse source file".to_string(),
            DocError::NotFound => "crate-level rustdoc not found".to_string(),
        }
    }
}

/// Whether a kind of target is one of a library.
pub open spec fn is_lib_kind(kind: Seq<char>) -> bool {
    ||| kind == "lib"@
    ||| kind == "dylib"@
    ||| kind == "staticlib"@
    ||| kind == "cdylib"@
    ||| kind == "rlib"@
    ||| kind == "proc-macro"@
}

/// Whether a target is a library: one of its kinds is.
pub open spec fn is_lib_target(target: Target) -> bool {
    exists|i: int| 0 <= i < target.kind@.len() && is_lib_kind(#[trigger] target.kind@[i]@)
}

/// The number of library targets among the first `k` targets.
pub open spec fn lib_targets_upto(targets: Seq<Target>, k: int) -> nat
    decreases k,
{
    if k <= 0 {
        0
    } else {
        lib_targets_upto(targets, k - 1) + if is_lib_target(targets[k - 1]) {
            1nat
        } else {
            0nat
        }
    }
}

/// The number of library targets of a package.
pub open spec fn lib_targets(package: Package) -> nat {
    lib_targets_upto(package.targets@, package.targets@.len() as int)
}

/// The index of the first package from position `i` on that has the name `name`.
pub open spec fn first_named(packages: Seq<Package>, name: Seq<char>, i: int) -> Option<int>
    decreases packages.len() - i,
{
    if i < 0 || i >= packages.len() {
        None
    } else if packages[i].name@ == name {
        Some(i)
    } else {
        first_named(packages, name, i + 1)
    }
}

/// Whether `id` is among the identifiers `members`.
pub open spec fn is_member(members: Seq<String>, id: Seq<char>) -> bool {
    exists|j: int| 0 <= j < members.len() && (#[trigger] members[j])@ == id
}

/// The package of the work space that has the name `name`: the first package of
/// that name, if it is a member of the work space.
pub open spec fn selected(metadata: Metadata, name: Seq<char>) -> Option<Package> {
    match first_named(metadata.packages@, name, 0) {
        Some(i) => if is_member(metadata.workspace_members@, metadata.packages@[i].id@) {
            Some(metadata.packages@[i])
        } else {
            None
        },
        None => None,
    }
}

/// The package to which a fence's source file belongs: the member that the fence
/// names, or the root package of the work space if it names none.
pub open spec fn package_for(workspace_project: Option<Seq<char>>, metadata: Metadata) -> Result<
    Package,
    DocFault,
> {
    match workspace_project {
        None => match metadata.root_package {
            Some(package) => Ok(package),
            None => Err(DocFault::NoRootPackage),
        },
        Some(name) => match selected(metadata, name) {
            Some(package) => Ok(package),
            None => Err(DocFault::PackageNotFound(name)),
        },
    }
}

/// The name of the package to which a fence's source file belongs.
pub open spec fn package_name_for(
    workspace_project: Option<Seq<char>>,
    metadata: Result<Metadata, String>,
) -> Result<Seq<char>, DocFault> {
    match metadata {
        Err(message) => Err(DocFault::Metadata(message@)),
        Ok(metadata) => match package_for(workspace_project, metadata) {
            Err(e) => Err(e),
            Ok(package) => if lib_targets(package) <= 1 {
                Ok(package.name@)
            } else {
                Err(DocFault::ManyLibraries)
            },
        },
    }
}

/// The first source file from position `i` on that has the path `path`.
pub open spec fn source_from(sources: Seq<SourceFile>, path: Seq<char>, i: int) -> Option<
    SourceFile,
>
    decreases sources.len() - i,
{
    if i < 0 || i >= sources.len() {
        None
    } else if sources[i].path@ == path {
        Some(sources[i])
    } else {
        source_from(sources, path, i + 1)
    }
}

/// The documentation in the source file `path`, as its author wrote it.
pub open spec fn documentation_in(sources: Seq<SourceFile>, path: Seq<char>) -> Result<
    Seq<char>,
    DocFault,
> {
    match source_from(sources, path, 0) {
        None => Err(DocFault::Unread),
        Some(file) => match file.content {
            Err(message) => Err(DocFault::Source(message@)),
            Ok(text) => match extracted_from(text@) {
                Err(message) => Err(DocFault::Syntax(message)),
                Ok(None) => Err(DocFault::NotFound),
                Ok(Some(doc)) => Ok(doc),
            },
        },
    }
}

/// The links that were resolved for the source file `path`.
pub open spec fn links_in(sources: Seq<SourceFile>, path: Seq<char>) -> Seq<
    (Seq<char>, Seq<char>),
> {
    match source_from(sources, path, 0) {
        Some(file) => links_view(file.links@),
        None => Seq::empty(),
    }
}

/// Documentation as it is before its links are looked at: the lines that rustdoc
/// hides are taken out of its Rust code blocks, and then its fenced Rust code
/// blocks get the tag `rust`.
pub open spec fn prepared(doc: Seq<char>) -> Seq<char> {
    with_rust_tags(without_comments(doc))
}

/// What becomes of documentation on its way into a markdown document: it is
/// prepared, and then each link to an item of the crate that was resolved gets
/// the address of the item.
pub open spec fn transformed(doc: Seq<char>, links: Seq<(Seq<char>, Seq<char>)>) -> Seq<char> {
    with_resolved_links(prepared(doc), markdown_events(prepared(doc)), links)
}

/// The documentation that a fence imports, prepared. The package is looked for
/// first, then the documentation.
pub open spec fn prepared_for(request: ImportRequest, environment: Environment) -> Result<
    Seq<char>,
    DocFault,
> {
    match package_name_for(request.workspace_project, environment.metadata) {
        Err(e) => Err(e),
        Ok(_) => match documentation_in(environment.sources@, request.source) {
            Err(e) => Err(e),
            Ok(doc) => Ok(prepared(doc)),
        },
    }
}

/// The markdown that a fence imports: the documentation of its source file,
/// transformed.
pub open spec fn imported(request: ImportRequest, environment: Environment) -> Result<
    Seq<char>,
    DocFault,
> {
    match prepared_for(request, environment) {
        Err(e) => Err(e),
        Ok(doc) => Ok(
            with_resolved_links(
                doc,
                markdown_events(doc),
                links_in(environment.sources@, request.source),
            ),
        ),
    }
}

/// The paths by which the documentation that a fence imports links to items of
/// its crate, in order. These are what the caller has to resolve.
pub open spec fn intralinks_of(request: ImportRequest, environment: Environment) -> Result<
    Seq<Seq<char>>,
    DocFault,
> {
    match prepared_for(request, environment) {
        Err(e) => Err(e),
        Ok(doc) => Ok(intralinks_in(doc, markdown_events(doc))),
    }
}

/// The warnings that an import gives: one for each link to an item of the crate
/// that was not resolved, in order.
pub open spec fn warnings_of(request: ImportRequest, environment: Environment) -> Result<
    Seq<Seq<char>>,
    DocFault,
> {
    match prepared_for(request, environment) {
        Err(e) => Err(e),
        Ok(doc) => Ok(
            unresolved_in(
                doc,
                markdown_events(doc),
                links_in(environment.sources@, request.source),
            ).map_values(|reference: Seq<char>| warning(reference)),
        ),
    }
}

/// The model of a list of strings that may have failed.
pub open spec fn list_view(r: Result<Vec<String>, DocError>) -> Result<Seq<Seq<char>>, DocFault> {
    match r {
        Ok(list) => Ok(texts(list@)),
        Err(e) => Err(e@),
    }
}

/// The model of what an import gave.
pub open spec fn import_view(r: Result<String, DocError>) -> Result<Seq<char>, DocFault> {
    match r {
        Ok(text) => Ok(text@),
        Err(e) => Err(e@),
    }
}

/// A project: the package to which a source file belongs.
#[derive(Debug, PartialEq, Eq)]
pub struct Project {
    package_name: String,
}

/// Whether `kind` is a kind of library target.
pub fn is_library_kind(kind: &str) -> (r: bool)
    ensures
        r == is_lib_kind(kind@),
{
    text_eq(kind, "lib") || text_eq(kind, "dylib") || text_eq(kind, "staticlib") || text_eq(
        kind,
        "cdylib",
    ) || text_eq(kind, "rlib") || text_eq(kind, "proc-macro")
}

/// Whether `target` is a library.
pub fn is_library(target: &Target) -> (r: bool)
    ensures
        r == is_lib_target(*target),
{
    let mut i: usize = 0;
    while i < target.kind.len()
        invariant
            i <= target.kind.len(),
            forall|j: int| 0 <= j < i ==> !is_lib_kind(#[trigger] target.kind@[j]@),
        decreases target.kind.len() - i,
    {
        if is_library_kind(target.kind[i].as_str()) {
            return true;
        }
        i += 1;
    }
    false
}

/// Whether `package` has at most one library target.
pub fn has_one_library_at_most(package: &Package) -> (r: bool)
    ensures
        r == (lib_targets(*package) <= 1),
{
    let mut found: usize = 0;
    let mut k: usize = 0;
    while k < package.targets.len()
        invariant
            k <= package.targets.len(),
            found == lib_targets_upto(package.targets@, k as int),
            found <= 1,
        decreases package.targets.len() - k,
    {
        if is_library(&package.targets[k]) {
            if found == 1 {
                proof {
                    lemma_lib_targets_grow(
                        package.targets@,
                        k + 1,
                        package.targets@.len() as int,
                    );
                }
                return false;
            }
            found += 1;
        }
        k += 1;
    }
    true
}

/// The number of library targets does not shrink as more targets are counted.
pub proof fn lemma_lib_targets_grow(targets: Seq<Target>, i: int, j: int)
    requires
        0 <= i <= j,
    ensures
        lib_targets_upto(targets, i) <= lib_targets_upto(targets, j),
    decreases j - i,
{
    if i < j {
        lemma_lib_targets_grow(targets, i, j - 1);
    }
}

impl Project {
    /// The name of the package.
    pub closed spec fn name(&self) -> Seq<char> {
        self.package_name@
    }

    /// The member of the work space that has the name `package_name`.
    pub fn select_package<'a>(metadata: &'a Metadata, package_name: &str) -> (r: Option<
        &'a Package,
    >)
        ensures
            match r {
                Some(package) => selected(*metadata, package_name@) == Some(*package),
                None => selected(*metadata, package_name@) is None,
            },
    {
        let mut i: usize = 0;
        while i < metadata.packages.len()
            invariant
                i <= metadata.packages.len(),
                first_named(metadata.packages@, package_name@, i as int) == first_named(
                    metadata.packages@,
                    package_name@,
                    0,
                ),
            decreases metadata.packages.len() - i,
        {
            let package = &metadata.packages[i];
            if text_eq(package.name.as_str(), package_name) {
                let mut j: usize = 0;
                while j < metadata.workspace_members.len()
                    invariant
                        j <= metadata.workspace_members.len(),
                        i < metadata.packages.len(),
                        *package == metadata.packages@[i as int],
                        first_named(metadata.packages@, package_name@, 0) == Some(i as int),
                        forall|k: int|
                            0 <= k < j ==> (#[trigger] metadata.workspace_members@[k])@
                                != package.id@,
                    decreases metadata.workspace_members.len() - j,
                {
                    if text_eq(metadata.workspace_members[j].as_str(), package.id.as_str()) {
                        assert(metadata.workspace_members@[j as int]@ == package.id@);
                        assert(*package == metadata.packages@[i as int]);
                        return Some(package);
                    }
                    j += 1;
                }
                return None;
            }
            i += 1;
        }
        None
    }

    /// The project of a package.
    pub fn from_package(package: &Package) -> (r: Project)
        requires
            lib_targets(*package) <= 1,
        ensures
            r.name() == package.name@,
    {
        Project { package_name: package.name.clone() }
    }

    /// The project to which a fence's source file belongs: the member of the work
    /// space that the fence names, or the root package if it names none.
    pub fn from_metadata(metadata: &Result<Metadata, String>, workspace_project: &Option<String>) -> (r:
        Result<Project, DocError>)
        ensures
            match r {
                Ok(project) => package_name_for(
                    match *workspace_project {
                        Some(name) => Some(name@),
                        None => None,
                    },
                    *metadata,
                ) == Ok::<_, DocFault>(project.name()),
                Err(e) => package_name_for(
                    match *workspace_project {
                        Some(name) => Some(name@),
                        None => None,
                    },
                    *metadata,
                ) == Err::<Seq<char>, _>(e@),
            },
    {
        let metadata = match metadata {
            Ok(metadata) => metadata,
            Err(message) => {
                return Err(DocError::Metadata(message.clone()));
            },
        };
        let package = match workspace_project {
            None => match &metadata.root_package {
                Some(package) => package,
                None => {
                    return Err(DocError::NoRootPackage);
                },
            },
            Some(name) => match Project::select_package(metadata, name.as_str()) {
                Some(package) => package,
                None => {
                    return Err(DocError::PackageNotFound(name.clone()));
                },
            },
        };
        if !has_one_library_at_most(package) {
            return Err(DocError::ManyLibraries);
        }
        Ok(Project::from_package(package))
    }

    /// The name of the package.
    #[must_use]
    pub fn get_package_name(&self) -> (r: &str)
        ensures
            r@ == self.name(),
    {
        self.package_name.as_str()
    }
}

/// The source file `path` among the files that were read.
pub fn find_source<'a>(sources: &'a Vec<SourceFile>, path: &str) -> (r: Option<&'a SourceFile>)
    ensures
        match r {
            Some(file) => source_from(sources@, path@, 0) == Some(*file),
            None => source_from(sources@, path@, 0) is None,
        },
{
    let mut i: usize = 0;
    while i < sources.len()
        invariant
            i <= sources.len(),
            source_from(sources@, path@, i as int) == source_from(sources@, path@, 0),
        decreases sources.len() - i,
    {
        if text_eq(sources[i].path.as_str(), path) {
            return Some(&sources[i]);
        }
        i += 1;
    }
    None
}

/// Documentation as it is before its links are looked at.
pub fn prepare_doc(doc: &Doc) -> (r: Doc)
    ensures
        r.content@ == prepared(doc.content@),
{
    let transform = DocTransformRustRemoveComments::new();
    let doc = transform.transform(doc);
    let transform = DocTransformRustMarkdownTag::new();
    transform.transform(&doc)
}

/// What becomes of documentation on its way into a markdown document, given the
/// links to items of its crate that were resolved.
pub fn transform_doc(doc: &Doc, links: &Vec<ResolvedLink>) -> (r: Doc)
    ensures
        r.content@ == transformed(doc.content@, links_view(links@)),
{
    let doc = prepare_doc(doc);
    let transform = DocTransformIntralinks::new(links);
    transform.transform(&doc)
}

/// The documentation that a fence with the options `options` imports, prepared,
/// and the source file in which it stands.
pub fn prepare<'a>(options: &RustDocOptions, environment: &'a Environment) -> (r: Result<
    (Doc, &'a SourceFile),
    DocError,
>)
    ensures
        match r {
            Ok((doc, file)) => prepared_for(options@, *environment) == Ok::<_, DocFault>(
                doc.content@,
            ) && source_from(environment.sources@, options.source@, 0) == Some(*file),
            Err(e) => prepared_for(options@, *environment) == Err::<Seq<char>, _>(e@),
        },
{
    let _project = match Project::from_metadata(&environment.metadata, &options.workspace_project) {
        Ok(project) => project,
        Err(e) => {
            return Err(e);
        },
    };
    let file = match find_source(&environment.sources, options.source.as_str()) {
        None => {
            return Err(DocError::Unread);
        },
        Some(file) => file,
    };
    let source = match &file.content {
        Err(message) => {
            return Err(DocError::Source(message.clone()));
        },
        Ok(text) => text,
    };
    let doc = match extract_doc_from_source_str(source.as_str()) {
        Err(message) => {
            return Err(DocError::Syntax(message));
        },
        Ok(None) => {
            return Err(DocError::NotFound);
        },
        Ok(Some(doc)) => doc,
    };
    Ok((prepare_doc(&doc), file))
}

/// The markdown that a fence with the options `options` imports: the
/// documentation of its source file, transformed.
pub fn parse(options: &RustDocOptions, environment: &Environment) -> (r: Result<String, DocError>)
    ensures
        import_view(r) == imported(options@, *environment),
{
    match prepare(options, environment) {
        Ok((doc, file)) => {
            let transform = DocTransformIntralinks::new(&file.links);
            Ok(transform.transform(&doc).content)
        },
        Err(e) => Err(e),
    }
}

/// The paths by which the documentation that a fence with the options `options`
/// imports links to items of its crate. These are what the caller has to
/// resolve.
pub fn intralinks(options: &RustDocOptions, environment: &Environment) -> (r: Result<
    Vec<String>,
    DocError,
>)
    ensures
        list_view(r) == intralinks_of(options@, *environment),
{
    match prepare(options, environment) {
        Ok((doc, file)) => {
            let transform = DocTransformIntralinks::new(&file.links);
            Ok(transform.intralinks(&doc))
        },
        Err(e) => Err(e),
    }
}

/// The warnings that the import of a fence with the options `options` gives: one
/// for each link to an item of the crate that was not resolved.
pub fn warnings(options: &RustDocOptions, environment: &Environment) -> (r: Result<
    Vec<String>,
    DocError,
>)
    ensures
        list_view(r) == warnings_of(options@, *environment),
{
    match prepare(options, environment) {
        Ok((doc, file)) => {
            let transform = DocTransformIntralinks::new(&file.links);
            Ok(transform.warnings(&doc))
        },
        Err(e) => Err(e),
    }
}

} // verus!

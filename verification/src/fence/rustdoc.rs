//! The fence that imports the documentation of a crate.
//!
//! The fence is replaced by the documentation that stands at the top of a Rust
//! source file. A failure to import is shown in the document, as a fenced block
//! that holds the message; only a package that the fence names and the work space
//! does not have stops the whole run.
use vstd::prelude::*;
use crate::config::ConfigFault;
use crate::fence::toc::{lowercase, to_lowercase};
use crate::fence::{FenceError, FenceFault, SectionSpan};
use crate::rustdoc_parse::options::{import_request_of, ImportRequest, RustDocOptions};
use crate::rustdoc_parse::{imported, parse, DocError, DocFault, Environment};
use crate::text::{
    chars_of, ends_with, push_str, splice, spliced, string_from, string_of, TextRange,
};

verus! {

/// Whether a name in lower case is one of a fence that imports documentation: it
/// ends with `rustdoc`.
pub open spec fn is_rustdoc_name(lowered: Seq<char>) -> bool {
    "rustdoc"@.is_suffix_of(lowered)
}

/// The block that shows a failure to import: a fenced block that holds the
/// message.
pub open spec fn error_block(message: Seq<char>) -> Seq<char> {
    "```toml rustdoc\n"@ + message + "\n```"@
}

/// What a fence that begins at `at` is replaced by: the imported markdown, or the
/// block that shows why there is none. A package that the fence names and the
/// work space does not have is an error of the whole run.
pub open spec fn import_text(request: ImportRequest, environment: Environment, at: nat) -> Result<
    Seq<char>,
    FenceFault,
> {
    match imported(request, environment) {
        Ok(text) => Ok(text),
        Err(DocFault::PackageNotFound(package)) => Err(FenceFault::PackageNotFound { at, package }),
        Err(e) => Ok(error_block(e.message())),
    }
}

/// The model of what rendering a fence gave.
pub open spec fn render_view(r: Result<String, FenceError>) -> Result<Seq<char>, FenceFault> {
    match r {
        Ok(text) => Ok(text@),
        Err(e) => Err(e@),
    }
}

/// A fence that is replaced by the documentation of a crate.
#[derive(Debug)]
pub struct RustDocFence {
    /// What the fence asks for.
    pub conf: RustDocOptions,
    /// The range of the fence in the document in which it was found, both fence
    /// lines included.
    pub outer: TextRange,
}

impl RustDocFence {
    /// Whether a name, given in lower case, is one of a fence that imports
    /// documentation.
    pub fn matches_lowercase(lowered: &str) -> (r: bool)
        ensures
            r == is_rustdoc_name(lowered@),
    {
        ends_with(&chars_of(lowered), &chars_of("rustdoc"))
    }

    /// Whether the opening line of a fence names a fence that imports
    /// documentation: in lower case it ends with `rustdoc`.
    pub fn is_match(name: &str) -> (r: bool)
        ensures
            r == is_rustdoc_name(lowercase(name@)),
    {
        let lowered = to_lowercase(name);
        RustDocFence::matches_lowercase(lowered.as_str())
    }

    /// The rank in which the fence is run: before every fence of a higher rank.
    pub fn priority(&self) -> (r: u8)
        ensures
            r == 1,
    {
        1
    }

    /// The fence of the section `section` of `document`, whose configuration is
    /// what stands between the fence lines.
    pub fn create(document: &Vec<char>, section: SectionSpan) -> (r: Result<
        RustDocFence,
        FenceError,
    >)
        requires
            section.fits(document@.len()),
        ensures
            match r {
                Ok(fence) => import_request_of(section.inner().of(document@)) == Ok::<
                    _,
                    ConfigFault,
                >(fence.conf@) && fence.outer == section.outer(),
                Err(e) => import_request_of(section.inner().of(document@)) matches Err(cause)
                    && e@ == (FenceFault::Config {
                    at: section.start_line.start as nat,
                    name: section.start_line.of(document@),
                    cause,
                }),
            },
    {
        let inner = section.inner_range();
        let body = string_of(document, inner.start, inner.end);
        match RustDocOptions::from_toml(body.as_str()) {
            Ok(conf) => Ok(RustDocFence { conf, outer: section.outer_range() }),
            Err(cause) => Err(
                FenceError::Config {
                    at: section.start_line.start,
                    name: string_of(document, section.start_line.start, section.start_line.end),
                    cause,
                },
            ),
        }
    }

    /// What the fence is replaced by, given what was read for the document.
    pub fn render(&self, environment: &Environment) -> (r: Result<String, FenceError>)
        ensures
            render_view(r) == import_text(self.conf@, *environment, self.outer.start as nat),
    {
        match parse(&self.conf, environment) {
            Ok(text) => Ok(text),
            Err(DocError::PackageNotFound(package)) => Err(
                FenceError::PackageNotFound { at: self.outer.start, package },
            ),
            Err(e) => {
                let mut out: Vec<char> = Vec::new();
                push_str(&mut out, "```toml rustdoc\n");
                push_str(&mut out, e.message().as_str());
                push_str(&mut out, "\n```");
                Ok(string_from(&out))
            },
        }
    }

    /// Replaces the fence in `document` by what it imports. On an error the
    /// document is left as it was.
    pub fn run(&self, document: &mut String, environment: &Environment) -> (r: Result<
        (),
        FenceError,
    >)
        requires
            self.outer.fits(old(document)@.len()),
        ensures
            match r {
                Ok(_) => import_text(self.conf@, *environment, self.outer.start as nat) matches Ok(
                    text,
                ) && final(document)@ == spliced(old(document)@, self.outer, text),
                Err(e) => import_text(self.conf@, *environment, self.outer.start as nat) == Err::<
                    Seq<char>,
                    _,
                >(e@) && final(document)@ == old(document)@,
            },
    {
        match self.render(environment) {
            Ok(text) => {
                splice(document, self.outer, text.as_str());
                Ok(())
            },
            Err(e) => Err(e),
        }
    }
}

/// A name of a fence holds three characters or more.
pub proof fn lemma_names_are_long(lowered: Seq<char>)
    requires
        crate::fence::toc::is_toc_name(lowered) || is_rustdoc_name(lowered),
    ensures
        lowered.len() >= 3,
{
    reveal_strlit("toc");
    reveal_strlit("table-of-contents");
    reveal_strlit("rustdoc");
}

} // verus!

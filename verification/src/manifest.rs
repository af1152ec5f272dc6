//! The part of a package manifest that installing and testing read.

use crate::install::{InstallError, InstallFault};
use crate::text::views;
use vstd::prelude::*;

verus! {

/// The template section of a manifest.
#[derive(Debug)]
pub struct Template {
    /// The file to compile, relative to the instantiated template.
    pub entrypoint: String,
}

/// What the tool reads of a package manifest.
#[derive(Debug)]
pub struct Manifest {
    /// Globs, relative to the package root, of files that are not installed.
    pub exclude: Vec<String>,
    /// Present if the package ships a template.
    pub template: Option<Template>,
}

impl Manifest {
    /// The exclude globs as character sequences.
    pub open spec fn excludes(&self) -> Seq<Seq<char>> {
        views(self.exclude@)
    }

    /// The template's entrypoint, if there is a template.
    pub open spec fn entrypoint(&self) -> Option<Seq<char>> {
        match self.template {
            Some(t) => Some(t.entrypoint@),
            None => None,
        }
    }
}

/// `toml::de::Error`, the error of a text that is refused.
#[verifier::external_type_specification]
#[verifier::external_body]
pub struct ExManifestSyntaxError(toml::de::Error);

/// The exclude globs and the template entrypoint that `toml::from_str` reads
/// from a manifest text as a `typst_syntax::package::PackageManifest`, or
/// `None` where it refuses the text.
pub uninterp spec fn manifest_of(text: Seq<char>) -> Option<(Seq<Seq<char>>, Option<Seq<char>>)>;

/// Calls `toml::from_str` for a `typst_syntax::package::PackageManifest` and
/// keeps `package.exclude` and `template.entrypoint` of what it returns. The
/// contract only claims that the outcome is determined by the text.
#[verifier::external_body]
fn decode_manifest(text: &str) -> (r: Result<Manifest, toml::de::Error>)
    ensures
        match r {
            Ok(m) => manifest_of(text@) == Some((m.excludes(), m.entrypoint())),
            Err(_) => manifest_of(text@) is None,
        },
{
    let doc: typst_syntax::package::PackageManifest = toml::from_str(text)?;
    Ok(Manifest {
        exclude: doc.package.exclude.iter().map(|e| e.to_string()).collect(),
        template: doc.template.map(|t| Template { entrypoint: t.entrypoint.to_string() }),
    })
}

/// Parses the text of a `typst.toml`.
///
/// Fails with `InstallFault::ManifestInvalid` exactly on the texts that the
/// manifest schema refuses.
pub fn parse_manifest(text: &str) -> (r: Result<Manifest, InstallError>)
    ensures
        match r {
            Ok(m) => manifest_of(text@) == Some((m.excludes(), m.entrypoint())),
            Err(e) => manifest_of(text@) is None && e.kind == InstallFault::ManifestInvalid
                && e.subject@ == Seq::<char>::empty(),
        },
{
    match decode_manifest(text) {
        Ok(m) => Ok(m),
        Err(_) => Err(InstallError { kind: InstallFault::ManifestInvalid, subject: String::new() }),
    }
}

} // verus!

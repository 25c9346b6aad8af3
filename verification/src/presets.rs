//! Presets: where they come from, and how their contents are merged
//! into one collection of packages, scripts and shared directories.
//!
//! Acquiring a preset (downloading, extracting, cloning) and reading
//! its files are the application's work; classifying the source string
//! and merging the parsed contents are verified here.

use vstd::prelude::*;

use crate::create;
use crate::error::AlmaError;
use crate::storage::storage_device::spec_last_segment;
use crate::storage::storage_device::spec_strip_trailing_slashes;
use crate::storage::storage_device::segment_bounds;
use crate::text;

verus! {

/// The archive formats a preset can arrive in.
#[derive(Debug, Clone, Copy, PartialEq, Eq, Structural)]
pub enum ArchiveType {
    Zip,
    TarGz,
}

/// Where a preset comes from.
#[derive(Debug, Clone)]
pub enum PresetsPath {
    /// A local directory (or file) used in place.
    LocalDir(String),
    /// A local archive, extracted to a temporary directory.
    LocalArchive(String, ArchiveType),
    /// An archive fetched over the web.
    UrlArchive(String, ArchiveType),
    /// A repository cloned over the web.
    GitHttp(String),
    /// A repository cloned over ssh.
    GitSSH(String),
}

/// What a well-formed URL is; the URL library decides, and its answer
/// depends on the characters alone.
pub uninterp spec fn url_parses(s: Seq<char>) -> bool;

/// Relies on `url::Url::parse`: whether the string is a well-formed
/// URL.
#[verifier::external_body]
fn check_url(s: &str) -> (r: bool)
    ensures
        r == url_parses(s@),
{
    url::Url::parse(s).is_ok()
}

impl PresetsPath {
    /// Classifies a preset source string: web sources by their scheme
    /// and archive ending (a web URL must be well-formed), ssh sources
    /// by their scheme and the repository ending, everything else as a
    /// local archive or directory.
    pub fn parse(s: &str) -> (r: Result<PresetsPath, AlmaError>)
        ensures
            ({
                let is_http = "http://"@.is_prefix_of(s@) || "https://"@.is_prefix_of(s@);
                let is_ssh = ("git@"@.is_prefix_of(s@) || "ssh://"@.is_prefix_of(s@))
                    && ".git"@.is_suffix_of(s@);
                if is_http {
                    if ".zip"@.is_suffix_of(s@) {
                        if url_parses(s@) {
                            r matches Ok(p) && (p matches PresetsPath::UrlArchive(u, t) && u@
                                == s@ && t == ArchiveType::Zip)
                        } else {
                            r matches Err(e) && e matches AlmaError::InvalidPresetsPath { .. }
                        }
                    } else if ".tar.gz"@.is_suffix_of(s@) {
                        if url_parses(s@) {
                            r matches Ok(p) && (p matches PresetsPath::UrlArchive(u, t) && u@
                                == s@ && t == ArchiveType::TarGz)
                        } else {
                            r matches Err(e) && e matches AlmaError::InvalidPresetsPath { .. }
                        }
                    } else if ".git"@.is_suffix_of(s@) {
                        if url_parses(s@) {
                            r matches Ok(p) && (p matches PresetsPath::GitHttp(u) && u@ == s@)
                        } else {
                            r matches Err(e) && e matches AlmaError::InvalidPresetsPath { .. }
                        }
                    } else {
                        r matches Err(e) && e matches AlmaError::InvalidPresetsPath { .. }
                    }
                } else if is_ssh {
                    r matches Ok(p) && (p matches PresetsPath::GitSSH(u) && u@ == s@)
                } else if ".zip"@.is_suffix_of(s@) {
                    r matches Ok(p) && (p matches PresetsPath::LocalArchive(u, t) && u@ == s@
                        && t == ArchiveType::Zip)
                } else if ".tar.gz"@.is_suffix_of(s@) {
                    r matches Ok(p) && (p matches PresetsPath::LocalArchive(u, t) && u@ == s@
                        && t == ArchiveType::TarGz)
                } else {
                    r matches Ok(p) && (p matches PresetsPath::LocalDir(u) && u@ == s@)
                }
            }),
    {
        let is_http = text::starts_with_str(s, "http://") || text::starts_with_str(s, "https://");
        if is_http {
            if text::ends_with_str(s, ".zip") {
                if check_url(s) {
                    Ok(PresetsPath::UrlArchive(s.to_owned(), ArchiveType::Zip))
                } else {
                    Err(AlmaError::InvalidPresetsPath { input: s.to_owned() })
                }
            } else if text::ends_with_str(s, ".tar.gz") {
                if check_url(s) {
                    Ok(PresetsPath::UrlArchive(s.to_owned(), ArchiveType::TarGz))
                } else {
                    Err(AlmaError::InvalidPresetsPath { input: s.to_owned() })
                }
            } else if text::ends_with_str(s, ".git") {
                if check_url(s) {
                    Ok(PresetsPath::GitHttp(s.to_owned()))
                } else {
                    Err(AlmaError::InvalidPresetsPath { input: s.to_owned() })
                }
            } else {
                Err(AlmaError::InvalidPresetsPath { input: s.to_owned() })
            }
        } else if (text::starts_with_str(s, "git@") || text::starts_with_str(s, "ssh://"))
            && text::ends_with_str(s, ".git") {
            Ok(PresetsPath::GitSSH(s.to_owned()))
        } else if text::ends_with_str(s, ".zip") {
            Ok(PresetsPath::LocalArchive(s.to_owned(), ArchiveType::Zip))
        } else if text::ends_with_str(s, ".tar.gz") {
            Ok(PresetsPath::LocalArchive(s.to_owned(), ArchiveType::TarGz))
        } else {
            Ok(PresetsPath::LocalDir(s.to_owned()))
        }
    }
}

/// The directory part of a file path: everything before its final
/// segment, with no trailing separator; empty for a bare file name.
pub open spec fn spec_parent_dir(s: Seq<char>) -> Seq<char> {
    let t = spec_strip_trailing_slashes(s);
    let seg = spec_last_segment(t);
    if seg.len() == t.len() {
        Seq::<char>::empty()
    } else {
        t.take(t.len() - seg.len() - 1)
    }
}

/// The directory part of a file path.
pub fn parent_dir(path: &str) -> (r: String)
    ensures
        r@ == spec_parent_dir(path@),
{
    let (start, end) = segment_bounds(path);
    if start == 0 {
        proof {
            assert(spec_parent_dir(path@) =~= Seq::<char>::empty());
            assert(""@ =~= Seq::<char>::empty()) by {
                reveal_strlit("");
            }
        }
        "".to_owned()
    } else {
        let r = path.substring_char(0, start - 1).to_owned();
        proof {
            let t = path@.take(end as int);
            assert(t.take(t.len() - (end - start) - 1) =~= path@.subrange(0, start - 1));
        }
        r
    }
}

/// A shared directory reference resolved against the preset file's
/// directory: the directory joined to it, or the reference alone when
/// the preset file has no directory part.
pub open spec fn spec_resolved_shared_dir(preset_path: Seq<char>, dir: Seq<char>) -> Seq<char> {
    let parent = spec_parent_dir(preset_path);
    if parent.len() == 0 {
        dir
    } else {
        text::spec_join_path(parent, dir)
    }
}

/// Resolving keeps the count of shared directories.
pub proof fn lemma_resolved_dirs_len(preset_path: Seq<char>, dirs: Seq<Seq<char>>)
    ensures
        spec_resolved_shared_dirs(preset_path, dirs).len() == dirs.len(),
    decreases dirs.len(),
{
    if dirs.len() > 0 {
        lemma_resolved_dirs_len(preset_path, dirs.drop_last());
    }
}

/// The resolved shared directories of a preset at `preset_path`, in
/// order.
pub open spec fn spec_resolved_shared_dirs(preset_path: Seq<char>, dirs: Seq<Seq<char>>) -> Seq<
    Seq<char>,
>
    decreases dirs.len(),
{
    if dirs.len() == 0 {
        Seq::<Seq<char>>::empty()
    } else {
        spec_resolved_shared_dirs(preset_path, dirs.drop_last()).push(
            spec_resolved_shared_dir(preset_path, dirs.last()),
        )
    }
}

/// One script a preset contributes, with the host directories it wants
/// shared into the mounted tree.
#[derive(Debug, Clone)]
pub struct Script {
    pub script_text: String,
    pub shared_dirs: Option<Vec<String>>,
}

/// One parsed preset file.
#[derive(Debug, Clone)]
pub struct Preset {
    pub packages: Option<Vec<String>>,
    pub script: Option<String>,
    pub environment_variables: Option<Vec<String>>,
    pub shared_directories: Option<Vec<String>>,
    pub aur_packages: Option<Vec<String>>,
}

impl Preset {
    /// The preset's shared directories resolved against its own
    /// location, in order.
    pub fn resolved_shared_dirs(&self, path: &str) -> (r: Vec<String>)
        ensures
            r.deep_view() == (match self.shared_directories {
                Some(dirs) => spec_resolved_shared_dirs(path@, dirs.deep_view()),
                None => Seq::<Seq<char>>::empty(),
            }),
    {
        let mut out: Vec<String> = Vec::new();
        match &self.shared_directories {
            Some(dirs) => {
                let parent = parent_dir(path);
                let total = dirs.len();
                let mut i: usize = 0;
                proof {
                    assert(dirs.deep_view().take(0) =~= Seq::<Seq<char>>::empty());
                    assert(out.deep_view() =~= spec_resolved_shared_dirs(
                        path@,
                        dirs.deep_view().take(0),
                    ));
                }
                while i < total
                    invariant
                        total == dirs@.len(),
                        total == dirs.deep_view().len(),
                        0 <= i <= total,
                        parent@ == spec_parent_dir(path@),
                        out.deep_view() == spec_resolved_shared_dirs(
                            path@,
                            dirs.deep_view().take(i as int),
                        ),
                    decreases total - i,
                {
                    proof {
                        let dv = dirs.deep_view();
                        assert(dv.take(i + 1).drop_last() =~= dv.take(i as int));
                        assert(dv.take(i + 1).last() == dv[i as int]);
                        assert(dirs@[i as int]@ == dv[i as int]);
                    }
                    let full: String = if parent.as_str().unicode_len() == 0 {
                        dirs[i].clone()
                    } else {
                        text::join_path(parent.as_str(), dirs[i].as_str())
                    };
                    let ghost odv = out.deep_view();
                    out.push(full);
                    proof {
                        assert(out.deep_view() =~~= odv.push(
                            spec_resolved_shared_dir(path@, dirs.deep_view()[i as int]),
                        ));
                    }
                    i = i + 1;
                }
                proof {
                    assert(dirs.deep_view().take(total as int) =~= dirs.deep_view());
                }
            },
            None => {
                proof {
                    assert(out.deep_view() =~= Seq::<Seq<char>>::empty());
                }
            },
        }
        out
    }

    /// Merges this preset into the growing collection.  Packages and
    /// environment variables are united without duplicates.  A script is
    /// appended with its shared directories resolved; a shared directory
    /// the caller found missing (`shared_dirs_exist` holds one answer
    /// per resolved directory) is a hard error, reported after the
    /// package sets were already merged, as merging goes front to back.
    pub fn process(
        &self,
        packages: &mut Vec<String>,
        scripts: &mut Vec<Script>,
        environment_variables: &mut Vec<String>,
        path: &str,
        aur_packages: &mut Vec<String>,
        shared_dirs_exist: &Vec<bool>,
    ) -> (r: Result<(), AlmaError>)
        requires
            shared_dirs_exist@.len() == (match self.shared_directories {
                Some(dirs) => dirs@.len() as int,
                None => 0,
            }),
        ensures
            ({
                let merged = |target: Seq<Seq<char>>, before: Seq<Seq<char>>, src: Option<
                    Vec<String>,
                >|
                    forall|x: Seq<char>|
                        #[trigger] target.contains(x) <==> (before.contains(x) || (match src {
                            Some(items) => items.deep_view().contains(x),
                            None => false,
                        }));
                &&& merged(
                    final(packages).deep_view(),
                    old(packages).deep_view(),
                    self.packages,
                )
                &&& merged(
                    final(aur_packages).deep_view(),
                    old(aur_packages).deep_view(),
                    self.aur_packages,
                )
                &&& merged(
                    final(environment_variables).deep_view(),
                    old(environment_variables).deep_view(),
                    self.environment_variables,
                )
            }),
            r is Ok ==> (match self.script {
                Some(stext) => {
                    &&& final(scripts)@.len() == old(scripts)@.len() + 1
                    &&& final(scripts)@.take(old(scripts)@.len() as int) == old(scripts)@
                    &&& final(scripts)@.last().script_text@ == stext@
                    &&& (match self.shared_directories {
                        Some(dirs) => final(scripts)@.last().shared_dirs matches Some(v)
                            && v.deep_view() == spec_resolved_shared_dirs(
                            path@,
                            dirs.deep_view(),
                        ),
                        None => final(scripts)@.last().shared_dirs is None,
                    })
                },
                None => final(scripts)@ == old(scripts)@,
            }),
            r matches Err(e) ==> (e matches AlmaError::SharedDirMissing { .. } && final(scripts)@
                == old(scripts)@ && self.script is Some),
            r is Err ==> exists|i: int|
                0 <= i < shared_dirs_exist@.len() && !(#[trigger] shared_dirs_exist@[i]),
    {
        match &self.packages {
            Some(items) => {
                create::extend_unique(packages, items);
            },
            None => {},
        }
        match &self.aur_packages {
            Some(items) => {
                create::extend_unique(aur_packages, items);
            },
            None => {},
        }
        match &self.environment_variables {
            Some(items) => {
                create::extend_unique(environment_variables, items);
            },
            None => {},
        }
        match &self.script {
            Some(stext) => {
                match &self.shared_directories {
                    Some(dirs) => {
                        let full = self.resolved_shared_dirs(path);
                        proof {
                            lemma_resolved_dirs_len(path@, dirs.deep_view());
                        }
                        let total = shared_dirs_exist.len();
                        let mut missing: Option<usize> = None;
                        let mut i: usize = 0;
                        while i < total
                            invariant
                                total == shared_dirs_exist@.len(),
                                total == full@.len(),
                                0 <= i <= total,
                                missing matches Some(k) ==> 0 <= k < total && !shared_dirs_exist@[
                                    k as int
                                ],
                            decreases total - i,
                        {
                            if !shared_dirs_exist[i] && missing.is_none() {
                                missing = Some(i);
                            }
                            i = i + 1;
                        }
                        match missing {
                            Some(k) => {
                                proof {
                                    assert(!shared_dirs_exist@[k as int]);
                                }
                                return Err(
                                    AlmaError::SharedDirMissing { path: full[k].clone() },
                                );
                            },
                            None => {},
                        }
                        let ghost pre = scripts@;
                        scripts.push(Script { script_text: stext.clone(), shared_dirs: Some(full) });
                        proof {
                            assert(scripts@.take(pre.len() as int) =~= pre);
                        }
                    },
                    None => {
                        let ghost pre = scripts@;
                        scripts.push(Script { script_text: stext.clone(), shared_dirs: None });
                        proof {
                            assert(scripts@.take(pre.len() as int) =~= pre);
                        }
                    },
                }
            },
            None => {},
        }
        Ok(())
    }
}

/// The merged contents of every loaded preset.
#[derive(Debug)]
pub struct PresetsCollection {
    pub packages: Vec<String>,
    pub aur_packages: Vec<String>,
    pub scripts: Vec<Script>,
}

impl PresetsCollection {
    /// An empty collection to merge presets into.
    pub fn new() -> (r: PresetsCollection)
        ensures
            r.packages@.len() == 0,
            r.aur_packages@.len() == 0,
            r.scripts@.len() == 0,
    {
        PresetsCollection { packages: Vec::new(), aur_packages: Vec::new(), scripts: Vec::new() }
    }
}

/// Judges the environment check: every environment variable the presets
/// name must be set, and the missing ones — gathered by the caller —
/// are reported together.
pub fn check_environment(missing: Vec<String>) -> (r: Result<(), AlmaError>)
    ensures
        missing@.len() == 0 <==> r is Ok,
        r matches Err(e) ==> (e matches AlmaError::MissingEnvironment { variables } && variables@
            == missing@),
{
    if missing.len() == 0 {
        Ok(())
    } else {
        Err(AlmaError::MissingEnvironment { variables: missing })
    }
}

} // verus!

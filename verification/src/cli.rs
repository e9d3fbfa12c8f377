//! The command line's asset commands, as plain values.
use vstd::prelude::*;

verus! {

/// The `asset` command and the subcommand it was given.
pub struct AssetCommand {
    pub command: AssetSubcommand,
}

/// What the `asset` command is asked to do.
pub enum AssetSubcommand {
    /// List all asset paths embedded in the binary produced by cargo.
    List(ListArgs),
    /// Bundle all assets embedded in the binary into a directory.
    Bundle(BundleArgs),
    /// Delete the asset bundle directory and the asset build cache.
    Clean(CleanArgs),
}

/// Arguments of `asset list`.
pub struct ListArgs {
    /// Build and inspect the named binary target.
    pub bin: Option<String>,
    /// Build and inspect the named package.
    pub package: Option<String>,
}

/// Arguments of `asset bundle`.
pub struct BundleArgs {
    /// Build and inspect the named binary target.
    pub bin: Option<String>,
    /// Build and inspect the named package.
    pub package: Option<String>,
    /// Output directory for the bundle (defaults to `<cargo-target>/assets`).
    pub out: Option<String>,
}

/// Arguments of `asset clean`.
pub struct CleanArgs {
    /// Asset bundle directory to remove (defaults to `<cargo-target>/assets`).
    pub out: Option<String>,
}

/// The build options that `list` and `bundle` pass to cargo.
pub struct BuildOpts {
    pub bin: Option<String>,
    pub package: Option<String>,
}

/// The subdirectory of the cargo target directory that bundles go to by default.
pub const OUT_SUBDIR: &'static str = "assets";

/// The subdirectory of the cargo target directory that holds the asset build cache.
pub const CACHE_SUBDIR: &'static str = "topcoat/cache/assets";

impl ListArgs {
    /// The build options that listing uses: the binary target and package asked for.
    pub fn build_opts(self) -> (r: BuildOpts)
        ensures
            r.bin == self.bin,
            r.package == self.package,
    {
        BuildOpts { bin: self.bin, package: self.package }
    }
}

impl BundleArgs {
    /// The build options that bundling uses: the binary target and package asked for.
    pub fn build_opts(&self) -> (r: BuildOpts)
        ensures
            r.bin == self.bin,
            r.package == self.package,
    {
        BuildOpts { bin: self.bin.clone(), package: self.package.clone() }
    }
}

/// `base` joined with the relative path `rel` as a path joins them: with a `/` between the
/// two unless `base` is empty or already ends with one.
pub open spec fn joined(base: Seq<char>, rel: Seq<char>) -> Seq<char> {
    if base.len() == 0 || base.last() == '/' {
        base + rel
    } else {
        base + seq!['/'] + rel
    }
}

/// Joins the relative path `rel` onto the directory `base`.
pub fn join_dir(base: &str, rel: &str) -> (r: String)
    ensures
        r@ == joined(base@, rel@),
{
    let mut out = String::from_str(base);
    let n = base.unicode_len();
    if n > 0 && base.get_char(n - 1) != '/' {
        out.append("/");
        proof {
            reveal_strlit("/");
        }
    }
    out.append(rel);
    out
}

/// Why an asset command could not go on.
#[derive(Clone, Copy, Debug, PartialEq, Eq, Structural)]
pub enum CliError {
    /// The cargo target directory could not be found, and bundling needs it.
    NoTargetDir,
    /// The cargo target directory could not be found, and cleaning needs it even with `--out`.
    NoTargetDirForClean,
}

impl CliError {
    /// The message printed for the error.
    pub fn message(&self) -> (r: &'static str)
        ensures
            r@ == match self {
                CliError::NoTargetDir => "could not derive cargo target directory"@,
                CliError::NoTargetDirForClean => "could not derive cargo target directory; pass --out"@,
            },
    {
        match self {
            CliError::NoTargetDir => "could not derive cargo target directory",
            CliError::NoTargetDirForClean => "could not derive cargo target directory; pass --out",
        }
    }
}

/// The directories an asset command works on.
pub struct AssetDirs {
    /// The bundle directory: the `--out` override, or `assets` under the target directory.
    pub out_dir: String,
    /// The asset build cache: `topcoat/cache/assets` under the target directory.
    pub cache_dir: String,
}

/// The bundle and cache directories, given the cargo target directory and an optional
/// `--out` override.
pub fn asset_dirs(target_dir: &str, out: Option<String>) -> (r: AssetDirs)
    ensures
        r.out_dir@ == match out {
            Some(o) => o@,
            None => joined(target_dir@, OUT_SUBDIR@),
        },
        r.cache_dir@ == joined(target_dir@, CACHE_SUBDIR@),
{
    let out_dir = match out {
        Some(o) => o,
        None => join_dir(target_dir, OUT_SUBDIR),
    };
    let cache_dir = join_dir(target_dir, CACHE_SUBDIR);
    AssetDirs { out_dir, cache_dir }
}

/// The directories `asset bundle` writes: it needs the target directory for the cache.
pub fn bundle_dirs(target_dir: Option<String>, out: Option<String>) -> (r: Result<AssetDirs, CliError>)
    ensures
        target_dir is None <==> r == Err::<AssetDirs, CliError>(CliError::NoTargetDir),
        r matches Ok(d) ==> target_dir matches Some(t) && d.cache_dir@ == joined(t@, CACHE_SUBDIR@)
            && d.out_dir@ == match out {
                Some(o) => o@,
                None => joined(t@, OUT_SUBDIR@),
            },
{
    match target_dir {
        Some(t) => Ok(asset_dirs(t.as_str(), out)),
        None => Err(CliError::NoTargetDir),
    }
}

/// The directories `asset clean` removes, in this order: the bundle directory, then the
/// cache. Without a target directory it stops, even when `--out` is given.
pub fn clean_dirs(target_dir: Option<String>, out: Option<String>) -> (r: Result<Vec<String>, CliError>)
    ensures
        target_dir is None <==> r is Err,
        r matches Err(e) ==> e == CliError::NoTargetDirForClean,
        r matches Ok(v) ==> target_dir matches Some(t) && v@.len() == 2
            && v@[0]@ == match out {
                Some(o) => o@,
                None => joined(t@, OUT_SUBDIR@),
            }
            && v@[1]@ == joined(t@, CACHE_SUBDIR@),
{
    match target_dir {
        Some(t) => {
            let d = asset_dirs(t.as_str(), out);
            let mut v: Vec<String> = Vec::new();
            v.push(d.out_dir);
            v.push(d.cache_dir);
            Ok(v)
        },
        None => Err(CliError::NoTargetDirForClean),
    }
}

/// What removing one directory came to.
pub enum RemoveOutcome {
    Removed,
    NotFound,
    Failed(String),
}

/// What `asset clean` does after removing one directory.
pub enum CleanStep {
    /// Print the line and go on.
    Report(String),
    /// Go on silently: the directory was not there.
    Skip,
    /// Print the line as an error and exit with status 1.
    Abort(String),
}

/// The step after trying to remove `dir`: `removed <dir>` when it was removed, nothing when
/// it was missing, and `failed to remove <dir>: <error>` (then exit) on any other failure.
pub fn clean_step(dir: &str, outcome: RemoveOutcome) -> (r: CleanStep)
    ensures
        match outcome {
            RemoveOutcome::Removed => r matches CleanStep::Report(m) && m@ == "removed "@ + dir@,
            RemoveOutcome::NotFound => r is Skip,
            RemoveOutcome::Failed(e) => r matches CleanStep::Abort(m)
                && m@ == "failed to remove "@ + dir@ + ": "@ + e@,
        },
{
    match outcome {
        RemoveOutcome::Removed => {
            let mut m = String::from_str("removed ");
            m.append(dir);
            CleanStep::Report(m)
        },
        RemoveOutcome::NotFound => CleanStep::Skip,
        RemoveOutcome::Failed(e) => {
            let mut m = String::from_str("failed to remove ");
            m.append(dir);
            m.append(": ");
            m.append(e.as_str());
            CleanStep::Abort(m)
        },
    }
}

} // verus!

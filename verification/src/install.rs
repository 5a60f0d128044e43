//! Where an editor extension gets the language server from: the release
//! asset that fits a platform, and the paths that its download unpacks to.

use vstd::prelude::*;
use vstd::string::StringExecFns;

verus! {

/// The repository whose releases hold the binaries.
pub const GITHUB_REPO: &'static str = "stillya/zhttp";

/// The file name of the language server.
pub const LSP_BINARY: &'static str = "zhttp-lsp";

/// The file name of the runner that is shipped beside the language server.
pub const RUNNER_BINARY: &'static str = "zhttp";

/// An operating system that the editor runs on.
#[derive(Clone, Copy, Debug, PartialEq, Eq, Structural)]
pub enum Os {
    Mac,
    Linux,
    Windows,
}

/// A processor architecture that the editor runs on.
#[derive(Clone, Copy, Debug, PartialEq, Eq, Structural)]
pub enum Architecture {
    Aarch64,
    X86,
    X8664,
}

/// One file of a release.
#[derive(Debug)]
pub struct Asset {
    /// The file's name.
    pub name: String,
    /// Where the file can be had.
    pub download_url: String,
}

/// A release and its files.
#[derive(Debug)]
pub struct Release {
    /// The version of the release.
    pub version: String,
    /// The files of the release.
    pub assets: Vec<Asset>,
}

/// What to download and where it ends up.
#[derive(Debug)]
pub struct Install {
    /// Where the archive can be had.
    pub download_url: String,
    /// The directory that the archive unpacks to.
    pub version_dir: String,
    /// The path of the language server in that directory.
    pub binary_path: String,
    /// The path of the runner in that directory.
    pub runner_path: String,
}

/// The mathematical value of an install.
pub struct InstallView {
    pub download_url: Seq<char>,
    pub version_dir: Seq<char>,
    pub binary_path: Seq<char>,
    pub runner_path: Seq<char>,
}

impl View for Install {
    type V = InstallView;

    open spec fn view(&self) -> InstallView {
        InstallView {
            download_url: self.download_url@,
            version_dir: self.version_dir@,
            binary_path: self.binary_path@,
            runner_path: self.runner_path@,
        }
    }
}

/// The name that assets carry for an operating system, or why there is none.
pub open spec fn os_part(os: Os) -> Result<Seq<char>, Seq<char>> {
    match os {
        Os::Mac => Ok("darwin"@),
        Os::Linux => Ok("linux"@),
        Os::Windows => Err("Windows is not supported"@),
    }
}

/// The name that assets carry for an architecture, or why there is none.
pub open spec fn arch_part(arch: Architecture) -> Result<Seq<char>, Seq<char>> {
    match arch {
        Architecture::Aarch64 => Ok("aarch64"@),
        Architecture::X8664 => Ok("x86_64"@),
        Architecture::X86 => Err("x86 (32-bit) is not supported"@),
    }
}

/// The name of the asset for a platform, or why the platform has none. An
/// unsupported operating system is reported before an unsupported
/// architecture.
pub open spec fn asset_for(os: Os, arch: Architecture) -> Result<Seq<char>, Seq<char>> {
    match os_part(os) {
        Err(why) => Err(why),
        Ok(os_name) => match arch_part(arch) {
            Err(why) => Err(why),
            Ok(arch_name) => Ok(LSP_BINARY@ + "-"@ + arch_name + "-"@ + os_name + ".tar.gz"@),
        },
    }
}

/// The index of the first asset named `name`, or the number of assets where
/// none is named so.
pub open spec fn first_named(assets: Seq<Asset>, name: Seq<char>) -> int
    decreases assets.len(),
{
    if assets.len() == 0 {
        0
    } else if first_named(assets.drop_last(), name) < assets.len() - 1 {
        first_named(assets.drop_last(), name)
    } else if assets.last().name@ == name {
        assets.len() - 1
    } else {
        assets.len() as int
    }
}

/// The directory that a release of version `version` unpacks to.
pub open spec fn version_dir_of(version: Seq<char>) -> Seq<char> {
    LSP_BINARY@ + "-"@ + version
}

/// The install for a release of version `version` whose archive is at `url`.
pub open spec fn install_of(version: Seq<char>, url: Seq<char>) -> InstallView {
    InstallView {
        download_url: url,
        version_dir: version_dir_of(version),
        binary_path: version_dir_of(version) + "/"@ + LSP_BINARY@,
        runner_path: version_dir_of(version) + "/"@ + RUNNER_BINARY@,
    }
}

/// What is reported where a release has no asset named `name`.
pub open spec fn missing_asset(name: Seq<char>) -> Seq<char> {
    "no release asset found for "@ + name
}

/// `first_named` is within bounds, names an asset of that name unless it is
/// the end, and passes over no asset of that name.
pub proof fn lemma_first_named(assets: Seq<Asset>, name: Seq<char>)
    ensures
        0 <= first_named(assets, name) <= assets.len(),
        first_named(assets, name) < assets.len() ==> assets[first_named(assets, name)].name@
            == name,
        forall|j: int| 0 <= j < first_named(assets, name) ==> (#[trigger] assets[j]).name@ != name,
    decreases assets.len(),
{
    if assets.len() > 0 {
        let front = assets.drop_last();
        lemma_first_named(front, name);
        assert forall|j: int| 0 <= j < first_named(assets, name) implies (
        #[trigger] assets[j]).name@ != name by {
            if j < front.len() {
                assert(assets[j] == front[j]);
            }
        }
    }
}

/// The name of the asset for a platform, or why the platform has none.
pub fn asset_name(os: Os, arch: Architecture) -> (r: Result<String, String>)
    ensures
        match r {
            Ok(name) => asset_for(os, arch) == Ok::<Seq<char>, Seq<char>>(name@),
            Err(why) => asset_for(os, arch) == Err::<Seq<char>, Seq<char>>(why@),
        },
{
    let os_name = match os {
        Os::Mac => "darwin",
        Os::Linux => "linux",
        Os::Windows => {
            return Err(String::from_str("Windows is not supported"));
        },
    };
    let arch_name = match arch {
        Architecture::Aarch64 => "aarch64",
        Architecture::X8664 => "x86_64",
        Architecture::X86 => {
            return Err(String::from_str("x86 (32-bit) is not supported"));
        },
    };
    let mut name = String::from_str(LSP_BINARY);
    name.append("-");
    name.append(arch_name);
    name.append("-");
    name.append(os_name);
    name.append(".tar.gz");
    Ok(name)
}

/// The install for `release`, taken from its first asset named `name`, or
/// the report that it has no such asset.
pub fn plan_install(release: &Release, name: &str) -> (r: Result<Install, String>)
    ensures
        match r {
            Ok(plan) => first_named(release.assets@, name@) < release.assets@.len() && plan@
                == install_of(
                release.version@,
                release.assets@[first_named(release.assets@, name@)].download_url@,
            ),
            Err(why) => first_named(release.assets@, name@) == release.assets@.len() && why@
                == missing_asset(name@),
        },
{
    let wanted = String::from_str(name);
    let mut i: usize = 0;
    assert(release.assets@.take(0) =~= Seq::<Asset>::empty());
    while i < release.assets.len()
        invariant
            i <= release.assets.len(),
            wanted@ == name@,
            first_named(release.assets@.take(i as int), name@) == i,
        decreases release.assets.len() - i,
    {
        let ghost upto = release.assets@.take(i + 1);
        assert(upto.drop_last() =~= release.assets@.take(i as int));
        if release.assets[i].name == wanted {
            proof {
                assert(upto.last() == release.assets@[i as int]);
                assert(first_named(upto, name@) == i);
                lemma_first_named_extends(release.assets@, name@, i + 1);
            }
            let mut version_dir = String::from_str(LSP_BINARY);
            version_dir.append("-");
            version_dir.append(release.version.as_str());
            let mut binary_path = version_dir.clone();
            binary_path.append("/");
            binary_path.append(LSP_BINARY);
            let mut runner_path = version_dir.clone();
            runner_path.append("/");
            runner_path.append(RUNNER_BINARY);
            return Ok(
                Install {
                    download_url: release.assets[i].download_url.clone(),
                    version_dir,
                    binary_path,
                    runner_path,
                },
            );
        }
        i += 1;
    }
    assert(release.assets@.take(i as int) =~= release.assets@);
    let mut why = String::from_str("no release asset found for ");
    why.append(name);
    Err(why)
}

/// An asset found among the first `n` is the one found among all.
proof fn lemma_first_named_extends(assets: Seq<Asset>, name: Seq<char>, n: int)
    requires
        0 <= n <= assets.len(),
        first_named(assets.take(n), name) < n,
    ensures
        first_named(assets, name) == first_named(assets.take(n), name),
    decreases assets.len() - n,
{
    if n < assets.len() {
        assert(assets.take(n + 1).drop_last() =~= assets.take(n));
        lemma_first_named_extends(assets, name, n + 1);
    } else {
        assert(assets.take(n) =~= assets);
    }
}

} // verus!

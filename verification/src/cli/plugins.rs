//! Plugins: how one is installed, and what is said of those that are.
use crate::dup::Dup;
use crate::json::{self, Json};
use crate::paths;
use crate::text;
use vstd::prelude::*;

verus! {

/// The file that describes a plugin.
pub const MANIFEST: &'static str = "plugin.json";

/// Where plugins are installed.
pub fn plugins_dir(agent_dir: &str) -> (r: String)
    ensures
        r@ == paths::joined(agent_dir@, "plugins"@),
{
    paths::join(agent_dir, "plugins")
}

// ------------------------------------------------------------------------ source
/// Whether a plugin is cloned from where it is.
pub open spec fn is_remote(source: Seq<char>) -> bool {
    text::begins(source, "http://"@) || text::begins(source, "https://"@) || text::begins(
        source,
        "git@"@,
    )
}

/// The arguments of git.
pub open spec fn clone_of(source: Seq<char>, rev: Option<Seq<char>>, staging: Seq<char>) -> Seq<
    Seq<char>,
> {
    seq!["clone"@, "--depth"@, "1"@] + (match rev {
        Some(rev) => seq!["--branch"@, rev],
        None => seq![],
    }) + seq![source, staging]
}

fn is_git(source: &str) -> (r: bool)
    ensures
        r == is_remote(source@),
{
    text::starts_with(source, "http://") || text::starts_with(source, "https://")
        || text::starts_with(source, "git@")
}

fn clone_args(source: &str, rev: Option<&str>, staging: &str) -> (out: Vec<String>)
    ensures
        out.deep_view() == clone_of(source@, rev.deep_view(), staging@),
{
    let mut out: Vec<String> = Vec::new();
    assert(out.deep_view() =~= seq![]);
    text::put(&mut out, "clone".to_owned());
    text::put(&mut out, "--depth".to_owned());
    text::put(&mut out, "1".to_owned());
    if let Some(rev) = rev {
        text::put(&mut out, "--branch".to_owned());
        text::put(&mut out, rev.to_owned());
    }
    text::put(&mut out, source.to_owned());
    text::put(&mut out, staging.to_owned());
    assert(out.deep_view() =~= clone_of(source@, rev.deep_view(), staging@));
    out
}

// ------------------------------------------------------------------------- entry
/// What libraries are named like.
#[derive(Debug, Clone, Copy, PartialEq, Eq, Structural)]
pub enum Platform {
    MacOs,
    Windows,
    Other,
}

/// The value of the first line that begins with `name`.
pub open spec fn name_line(lines: Seq<Seq<char>>, from: int) -> Option<Seq<char>>
    decreases lines.len() - from,
{
    if from < 0 || from >= lines.len() {
        None
    } else if text::begins(text::spec_trim_start(lines[from]), "name"@) {
        let pieces = text::spec_split(lines[from], seq!['=']);
        if pieces.len() > 1 {
            Some(text::trim_set(text::spec_trim(pieces[1]), seq!['"']))
        } else {
            None
        }
    } else {
        name_line(lines, from + 1)
    }
}

/// The name of the crate of a plugin: the one in its `Cargo.toml`, else the name of
/// the plugin with underscores.
pub open spec fn crate_name(cargo_toml: Option<Seq<char>>, name: Seq<char>) -> Seq<char> {
    let own = match cargo_toml {
        Some(file) => name_line(text::spec_lines(file), 0),
        None => None,
    };
    match own {
        Some(own) => own,
        None => text::spec_replace(name, "-"@, "_"@),
    }
}

/// The file name of the library of a crate.
pub open spec fn library_name(platform: Platform, crate_name: Seq<char>) -> Seq<char> {
    match platform {
        Platform::MacOs => "lib"@ + crate_name + ".dylib"@,
        Platform::Windows => crate_name + ".dll"@,
        Platform::Other => "lib"@ + crate_name + ".so"@,
    }
}

fn find_name_line(file: &str) -> (r: Option<String>)
    ensures
        r.deep_view() == name_line(text::spec_lines(file@), 0),
{
    let lines = text::lines(file);
    let ghost view = lines.deep_view();
    let mut i: usize = 0;
    while i < lines.len()
        invariant
            i <= lines.len(),
            view == lines.deep_view(),
            view == text::spec_lines(file@),
            name_line(view, 0) == name_line(view, i as int),
        decreases lines.len() - i,
    {
        assert(view[i as int] == lines@[i as int]@);
        if text::starts_with(&text::trim_start(&lines[i]), "name") {
            let equals: [char; 1] = ['='];
            assert(equals@ =~= seq!['=']);
            let pieces = text::split(&lines[i], &equals);
            assert(pieces.deep_view().len() == pieces@.len());
            if pieces.len() > 1 {
                assert(pieces.deep_view()[1] == pieces@[1]@);
                let quote: [char; 1] = ['"'];
                assert(quote@ =~= seq!['"']);
                return Some(text::trim_chars(&text::trim(&pieces[1]), &quote));
            }
            return None;
        }
        i += 1;
    }
    None
}

/// The file name of the library of a plugin.
pub fn default_entry_name(cargo_toml: Option<&str>, name: &str, platform: Platform) -> (r: String)
    ensures
        r@ == library_name(platform, crate_name(cargo_toml.deep_view(), name@)),
{
    let own = match cargo_toml {
        Some(file) => find_name_line(file),
        None => None,
    };
    let crate_name = match own {
        Some(own) => own,
        None => {
            proof {
                reveal_strlit("-");
            }
            text::replace(name, "-", "_")
        },
    };
    match platform {
        Platform::MacOs => text::concat3("lib", &crate_name, ".dylib"),
        Platform::Windows => text::concat(&crate_name, ".dll"),
        Platform::Other => text::concat3("lib", &crate_name, ".so"),
    }
}

/// The name of a plugin and the file name of its library.
pub open spec fn plugin_of(
    source: Seq<char>,
    dir: Seq<char>,
    manifest: Option<Seq<char>>,
    cargo_toml: Option<Seq<char>>,
    platform: Platform,
) -> Result<(Seq<char>, Seq<char>), Seq<char>> {
    match manifest {
        Some(file) => match json::parsed_json(file) {
            Err(_) => Err("invalid plugin.json in "@ + source),
            Ok(manifest) => match manifest.text_field("name"@) {
                None => Err("plugin.json lacks `name`"@),
                Some(name) => Ok(
                    (
                        name,
                        match manifest.text_field("entry"@) {
                            Some(entry) => entry,
                            None => library_name(platform, crate_name(cargo_toml, name)),
                        },
                    ),
                ),
            },
        },
        None => {
            let name = match crate::cli::files::file_name(dir) {
                Some(name) => name,
                None => "plugin"@,
            };
            Ok((name, library_name(platform, crate_name(cargo_toml, name))))
        },
    }
}

fn read_plugin(
    source: &str,
    dir: &str,
    manifest: Option<&str>,
    cargo_toml: Option<&str>,
    platform: Platform,
) -> (r: Result<(String, String), String>)
    ensures
        (match r {
            Ok(p) => Ok((p.0@, p.1@)),
            Err(e) => Err(e@),
        }) == plugin_of(
            source@,
            dir@,
            manifest.deep_view(),
            cargo_toml.deep_view(),
            platform,
        ),
{
    match manifest {
        Some(file) => match json::parse(file) {
            Err(_) => Err(text::concat("invalid plugin.json in ", source)),
            Ok(manifest) => match manifest.get_str("name") {
                None => Err("plugin.json lacks `name`".to_owned()),
                Some(name) => {
                    let entry = match manifest.get_str("entry") {
                        Some(entry) => entry.to_owned(),
                        None => default_entry_name(cargo_toml, name, platform),
                    };
                    Ok((name.to_owned(), entry))
                },
            },
        },
        None => {
            let name = match crate::cli::files::file_name_of(dir) {
                Some(name) => name,
                None => "plugin".to_owned(),
            };
            let entry = default_entry_name(cargo_toml, &name, platform);
            Ok((name, entry))
        },
    }
}

// ------------------------------------------------------------------------- build
/// Where a build puts what it makes: below the directory, or below one above it.
pub open spec fn release_dirs(parts: Seq<Seq<char>>) -> Seq<Seq<char>>
    decreases parts.len(),
{
    let here = paths::joined(paths::written(parts), "target/release"@);
    if parts.len() == 0 || parts == seq!["/"@] {
        seq![here]
    } else {
        seq![here] + release_dirs(parts.drop_last())
    }
}

fn put_release_dirs(parts: &[String]) -> (out: Vec<String>)
    ensures
        out.deep_view() == release_dirs(parts.deep_view()),
{
    let ghost all = parts.deep_view();
    let mut left = crate::dup::dup_slice(parts);
    let mut out: Vec<String> = Vec::new();
    assert(out.deep_view() =~= seq![]);
    assert(seq![] + release_dirs(all) =~= release_dirs(all));
    loop
        invariant
            all == parts.deep_view(),
            out.deep_view() + release_dirs(left.deep_view()) == release_dirs(all),
        decreases left@.len(),
    {
        let ghost first = out.deep_view();
        let ghost view = left.deep_view();
        text::put(&mut out, paths::join(&paths::write(left.as_slice()), "target/release"));
        assert(left@.len() > 0 ==> view[0] == left@[0]@);
        if left.len() == 0 || (left.len() == 1 && text::same(&left[0], "/")) {
            assert(left@.len() == 1 ==> view =~= seq!["/"@]);
            assert(out.deep_view() =~= first + release_dirs(view));
            return out;
        }
        assert(view != seq!["/"@]);
        left.pop();
        assert(left.deep_view() =~= view.drop_last());
        assert(out.deep_view() + release_dirs(view.drop_last()) =~= first + release_dirs(view));
    }
}

/// The first of the directories that there is.
pub open spec fn first_dir(dirs: Seq<Seq<char>>, are_dirs: Seq<bool>, from: int) -> Option<
    Seq<char>,
>
    decreases dirs.len() - from,
{
    if from < 0 || from >= dirs.len() || from >= are_dirs.len() {
        None
    } else if are_dirs[from] {
        Some(dirs[from])
    } else {
        first_dir(dirs, are_dirs, from + 1)
    }
}

/// The first of the directories that there is.
pub fn find_release_dir(dirs: &[String], are_dirs: &[bool]) -> (r: Option<String>)
    ensures
        r.deep_view() == first_dir(dirs.deep_view(), are_dirs@, 0),
{
    let mut i: usize = 0;
    while i < dirs.len() && i < are_dirs.len()
        invariant
            i <= dirs@.len(),
            first_dir(dirs.deep_view(), are_dirs@, 0) == first_dir(
                dirs.deep_view(),
                are_dirs@,
                i as int,
            ),
        decreases dirs.len() - i,
    {
        assert(dirs.deep_view()[i as int] == dirs@[i as int]@);
        if are_dirs[i] {
            return Some(dirs[i].dup());
        }
        i += 1;
    }
    None
}

/// Whether a file is a library.
pub open spec fn is_library(name: Seq<char>) -> bool {
    text::ends(name, ".dylib"@) || text::ends(name, ".so"@) || text::ends(name, ".dll"@)
}

/// The first library among files.
pub open spec fn first_library(files: Seq<Seq<char>>, from: int) -> Option<Seq<char>>
    decreases files.len() - from,
{
    if from < 0 || from >= files.len() {
        None
    } else if is_library(files[from]) {
        Some(files[from])
    } else {
        first_library(files, from + 1)
    }
}

fn find_library(files: &[String]) -> (r: Option<String>)
    ensures
        r.deep_view() == first_library(files.deep_view(), 0),
{
    let mut i: usize = 0;
    while i < files.len()
        invariant
            i <= files@.len(),
            first_library(files.deep_view(), 0) == first_library(files.deep_view(), i as int),
        decreases files.len() - i,
    {
        assert(files.deep_view()[i as int] == files@[i as int]@);
        let name = files[i].as_str();
        if text::ends_with(name, ".dylib") || text::ends_with(name, ".so") || text::ends_with(
            name,
            ".dll",
        ) {
            return Some(files[i].dup());
        }
        i += 1;
    }
    None
}

// ----------------------------------------------------------------------- install
/// What happened outside.
pub enum InstallEvent {
    /// A process ended, with or without success; `None` where it could not be
    /// started.
    Ran(Option<bool>),
    IsDir(bool),
    /// What the two files hold, as far as there are such files.
    Files { manifest: Option<String>, cargo_toml: Option<String> },
    AreDirs(Vec<bool>),
    /// Whether the library was found, and the files beside where it was looked for.
    Listing { found: bool, files: Vec<String> },
    Exists(bool),
}

/// What an `InstallEvent` stands for.
pub ghost enum InstallEventView {
    Ran(Option<bool>),
    IsDir(bool),
    Files { manifest: Option<Seq<char>>, cargo_toml: Option<Seq<char>> },
    AreDirs(Seq<bool>),
    Listing { found: bool, files: Seq<Seq<char>> },
    Exists(bool),
}

impl DeepView for InstallEvent {
    type V = InstallEventView;

    open spec fn deep_view(&self) -> InstallEventView {
        match self {
            InstallEvent::Ran(status) => InstallEventView::Ran(*status),
            InstallEvent::IsDir(b) => InstallEventView::IsDir(*b),
            InstallEvent::Files { manifest, cargo_toml } => InstallEventView::Files {
                manifest: manifest.deep_view(),
                cargo_toml: cargo_toml.deep_view(),
            },
            InstallEvent::AreDirs(v) => InstallEventView::AreDirs(v@),
            InstallEvent::Listing { found, files } => InstallEventView::Listing {
                found: *found,
                files: files.deep_view(),
            },
            InstallEvent::Exists(b) => InstallEventView::Exists(*b),
        }
    }
}

/// What is to be done outside.
#[allow(inconsistent_fields)]
pub enum InstallAction {
    /// Run git with these arguments.
    Clone(Vec<String>),
    /// Tell whether this is a directory.
    CheckDir(String),
    /// Read these two files.
    Read { manifest: String, cargo_toml: String },
    /// Run cargo with these arguments.
    Build(Vec<String>),
    /// Tell which of these are directories.
    CheckDirs(Vec<String>),
    /// Look for this file, and list the directory.
    List { file: String, dir: String },
    /// Tell whether there is something here.
    CheckFree(String),
    /// Make the directory, copy the library there, write the manifest, and say so.
    Install { artifact: String, dir: String, entry: String, manifest: String, said: String },
    Fail(String),
    /// Nothing: something else is waited for.
    Nothing,
}

/// What an `InstallAction` stands for.
#[allow(inconsistent_fields)]
pub ghost enum InstallActionView {
    Clone(Seq<Seq<char>>),
    CheckDir(Seq<char>),
    Read { manifest: Seq<char>, cargo_toml: Seq<char> },
    Build(Seq<Seq<char>>),
    CheckDirs(Seq<Seq<char>>),
    List { file: Seq<char>, dir: Seq<char> },
    CheckFree(Seq<char>),
    Install {
        artifact: Seq<char>,
        dir: Seq<char>,
        entry: Seq<char>,
        manifest: Seq<char>,
        said: Seq<char>,
    },
    Fail(Seq<char>),
    Nothing,
}

impl DeepView for InstallAction {
    type V = InstallActionView;

    open spec fn deep_view(&self) -> InstallActionView {
        match self {
            InstallAction::Clone(args) => InstallActionView::Clone(args.deep_view()),
            InstallAction::CheckDir(dir) => InstallActionView::CheckDir(dir@),
            InstallAction::Read { manifest, cargo_toml } => InstallActionView::Read {
                manifest: manifest@,
                cargo_toml: cargo_toml@,
            },
            InstallAction::Build(args) => InstallActionView::Build(args.deep_view()),
            InstallAction::CheckDirs(dirs) => InstallActionView::CheckDirs(dirs.deep_view()),
            InstallAction::List { file, dir } => InstallActionView::List { file: file@, dir: dir@ },
            InstallAction::CheckFree(dir) => InstallActionView::CheckFree(dir@),
            InstallAction::Install { artifact, dir, entry, manifest, said } =>
                InstallActionView::Install {
                artifact: artifact@,
                dir: dir@,
                entry: entry@,
                manifest: manifest@,
                said: said@,
            },
            InstallAction::Fail(e) => InstallActionView::Fail(e@),
            InstallAction::Nothing => InstallActionView::Nothing,
        }
    }
}

/// How far an installation is.
#[allow(inconsistent_fields)]
pub enum Stage {
    Cloning,
    Checking,
    Reading { dir: String },
    Building { dir: String, name: String, entry: String },
    Finding { dir: String, name: String, entry: String },
    Looking { release: String, name: String, entry: String },
    Choosing { artifact: String, name: String, entry: String },
    Over,
}

/// What a `Stage` stands for.
#[allow(inconsistent_fields)]
pub ghost enum StageView {
    Cloning,
    Checking,
    Reading { dir: Seq<char> },
    Building { dir: Seq<char>, name: Seq<char>, entry: Seq<char> },
    Finding { dir: Seq<char>, name: Seq<char>, entry: Seq<char> },
    Looking { release: Seq<char>, name: Seq<char>, entry: Seq<char> },
    Choosing { artifact: Seq<char>, name: Seq<char>, entry: Seq<char> },
    Over,
}

impl DeepView for Stage {
    type V = StageView;

    open spec fn deep_view(&self) -> StageView {
        match self {
            Stage::Cloning => StageView::Cloning,
            Stage::Checking => StageView::Checking,
            Stage::Reading { dir } => StageView::Reading { dir: dir@ },
            Stage::Building { dir, name, entry } => StageView::Building {
                dir: dir@,
                name: name@,
                entry: entry@,
            },
            Stage::Finding { dir, name, entry } => StageView::Finding {
                dir: dir@,
                name: name@,
                entry: entry@,
            },
            Stage::Looking { release, name, entry } => StageView::Looking {
                release: release@,
                name: name@,
                entry: entry@,
            },
            Stage::Choosing { artifact, name, entry } => StageView::Choosing {
                artifact: artifact@,
                name: name@,
                entry: entry@,
            },
            Stage::Over => StageView::Over,
        }
    }
}

/// The installation of a plugin.
pub struct Installer {
    agent_dir: String,
    source: String,
    staging: String,
    platform: Platform,
    stage: Stage,
}

/// What an `Installer` stands for.
pub ghost struct InstallView {
    pub agent_dir: Seq<char>,
    pub source: Seq<char>,
    pub staging: Seq<char>,
    pub platform: Platform,
    pub stage: StageView,
}

impl View for Installer {
    type V = InstallView;

    closed spec fn view(&self) -> InstallView {
        InstallView {
            agent_dir: self.agent_dir@,
            source: self.source@,
            staging: self.staging@,
            platform: self.platform,
            stage: self.stage.deep_view(),
        }
    }
}

/// The manifest that is written beside an installed plugin.
pub open spec fn manifest_of(name: Seq<char>, entry: Seq<char>) -> json::JsonView {
    crate::ai::wire::jo(
        map![
            "name"@ => crate::ai::wire::js(name),
            "version"@ => crate::ai::wire::js("0.1.0"@),
            "entry"@ => crate::ai::wire::js(entry),
        ],
    )
}

/// The files of the source are read.
pub open spec fn reading(s: InstallView, dir: Seq<char>) -> (StageView, InstallActionView) {
    (
        StageView::Reading { dir },
        InstallActionView::Read {
            manifest: paths::joined(dir, MANIFEST@),
            cargo_toml: paths::joined(dir, "Cargo.toml"@),
        },
    )
}

/// The installation fails.
pub open spec fn failing(e: Seq<char>) -> (StageView, InstallActionView) {
    (StageView::Over, InstallActionView::Fail(e))
}

/// What happened outside leads to the next stage: the source is brought, its files
/// are read, it is built, its library is found, and it is installed where nothing is
/// yet.
pub open spec fn install_step(s: InstallView, event: InstallEventView) -> (
    StageView,
    InstallActionView,
) {
    match (s.stage, event) {
        (StageView::Cloning, InstallEventView::Ran(status)) => match status {
            None => failing("cannot run git clone for "@ + s.source),
            Some(false) => failing("git clone failed for "@ + s.source),
            Some(true) => reading(s, s.staging),
        },
        (StageView::Checking, InstallEventView::IsDir(is_dir)) => if is_dir {
            reading(s, s.source)
        } else {
            failing("plugin source `"@ + s.source + "` is not a directory"@)
        },
        (StageView::Reading { dir }, InstallEventView::Files { manifest, cargo_toml }) =>
            match plugin_of(s.source, dir, manifest, cargo_toml, s.platform) {
                Err(e) => failing(e),
                Ok((name, entry)) => (
                    StageView::Building { dir, name, entry },
                    InstallActionView::Build(
                        seq![
                            "build"@,
                            "--release"@,
                            "--manifest-path"@,
                            paths::joined(dir, "Cargo.toml"@),
                        ],
                    ),
                ),
            },
        (StageView::Building { dir, name, entry }, InstallEventView::Ran(status)) => match status {
            None => failing(
                "cannot build plugin "@ + name + " (cargo required at install time)"@,
            ),
            Some(false) => failing("plugin build failed for "@ + name),
            Some(true) => (
                StageView::Finding { dir, name, entry },
                InstallActionView::CheckDirs(release_dirs(paths::components(dir))),
            ),
        },
        (StageView::Finding { dir, name, entry }, InstallEventView::AreDirs(are_dirs)) =>
            match first_dir(release_dirs(paths::components(dir)), are_dirs, 0) {
                None => failing("no target/release found under "@ + dir),
                Some(release) => (
                    StageView::Looking { release, name, entry },
                    InstallActionView::List { file: paths::joined(release, entry), dir: release },
                ),
            },
        (StageView::Looking { release, name, entry }, InstallEventView::Listing { found, files }) =>
            {
            let file = if found {
                Some(entry)
            } else {
                first_library(files, 0)
            };
            match file {
                None => failing("no cdylib artifact found in "@ + release),
                Some(file) => (
                    StageView::Choosing { artifact: paths::joined(release, file), name, entry },
                    InstallActionView::CheckFree(
                        paths::joined(paths::joined(s.agent_dir, "plugins"@), name),
                    ),
                ),
            }
        },
        (StageView::Choosing { artifact, name, entry }, InstallEventView::Exists(taken)) => {
            let dir = paths::joined(paths::joined(s.agent_dir, "plugins"@), name);
            if taken {
                failing(
                    "plugin `"@ + name
                        + "` already installed (remove it first: `agent-m plugins remove "@ + name
                        + "`)"@,
                )
            } else {
                (
                    StageView::Over,
                    InstallActionView::Install {
                        artifact,
                        dir,
                        entry: paths::joined(dir, entry),
                        manifest: json::json_pretty(manifest_of(name, entry)),
                        said: "installed plugin `"@ + name + "` -> "@ + dir,
                    },
                )
            }
        },
        _ => (s.stage, InstallActionView::Nothing),
    }
}

fn read_action(dir: &str) -> (r: InstallAction)
    ensures
        r.deep_view() == (InstallActionView::Read {
            manifest: paths::joined(dir@, MANIFEST@),
            cargo_toml: paths::joined(dir@, "Cargo.toml"@),
        }),
{
    InstallAction::Read {
        manifest: paths::join(dir, MANIFEST),
        cargo_toml: paths::join(dir, "Cargo.toml"),
    }
}

fn build_action(dir: &str) -> (r: InstallAction)
    ensures
        r.deep_view() == InstallActionView::Build(
            seq![
                "build"@,
                "--release"@,
                "--manifest-path"@,
                paths::joined(dir@, "Cargo.toml"@),
            ],
        ),
{
    let mut args: Vec<String> = Vec::new();
    assert(args.deep_view() =~= seq![]);
    text::put(&mut args, "build".to_owned());
    text::put(&mut args, "--release".to_owned());
    text::put(&mut args, "--manifest-path".to_owned());
    text::put(&mut args, paths::join(dir, "Cargo.toml"));
    assert(args.deep_view() =~= seq![
        "build"@,
        "--release"@,
        "--manifest-path"@,
        paths::joined(dir@, "Cargo.toml"@),
    ]);
    InstallAction::Build(args)
}

fn install_action(agent_dir: &str, artifact: String, name: &str, entry: &str) -> (r: InstallAction)
    ensures
        ({
            let dir = paths::joined(paths::joined(agent_dir@, "plugins"@), name@);
            r.deep_view() == InstallActionView::Install {
                artifact: artifact@,
                dir,
                entry: paths::joined(dir, entry@),
                manifest: json::json_pretty(manifest_of(name@, entry@)),
                said: "installed plugin `"@ + name@ + "` -> "@ + dir,
            }
        }),
{
    let dir = paths::join(&plugins_dir(agent_dir), name);
    let manifest = Json::object().with("name", Json::text(name)).with(
        "version",
        Json::text("0.1.0"),
    ).with("entry", Json::text(entry));
    assert(manifest.deep_view()->Object_0 =~= manifest_of(name@, entry@)->Object_0);
    let said = text::concat4("installed plugin `", name, "` -> ", &dir);
    let entry = paths::join(&dir, entry);
    InstallAction::Install { artifact, dir, entry, manifest: json::render_pretty(&manifest), said }
}

impl Installer {
    /// The installation of the plugin at `source`, and what comes first.
    pub fn new(
        agent_dir: &str,
        source: &str,
        rev: Option<&str>,
        staging: &str,
        platform: Platform,
    ) -> (r: (Self, InstallAction))
        ensures
            r.0@ == (InstallView {
                agent_dir: agent_dir@,
                source: source@,
                staging: staging@,
                platform,
                stage: if is_remote(source@) {
                    StageView::Cloning
                } else {
                    StageView::Checking
                },
            }),
            r.1.deep_view() == if is_remote(source@) {
                InstallActionView::Clone(clone_of(source@, rev.deep_view(), staging@))
            } else {
                InstallActionView::CheckDir(source@)
            },
    {
        let (stage, action) = if is_git(source) {
            (Stage::Cloning, InstallAction::Clone(clone_args(source, rev, staging)))
        } else {
            (Stage::Checking, InstallAction::CheckDir(source.to_owned()))
        };
        (
            Installer {
                agent_dir: agent_dir.to_owned(),
                source: source.to_owned(),
                staging: staging.to_owned(),
                platform,
                stage,
            },
            action,
        )
    }

    /// Takes what happened outside, and gives what is to be done next.
    pub fn run_install(&mut self, event: InstallEvent) -> (r: InstallAction)
        ensures
            final(self)@ == (InstallView {
                stage: install_step(old(self)@, event.deep_view()).0,
                ..old(self)@
            }),
            r.deep_view() == install_step(old(self)@, event.deep_view()).1,
    {
        let mut stage = Stage::Over;
        std::mem::swap(&mut stage, &mut self.stage);
        match (stage, event) {
            (Stage::Cloning, InstallEvent::Ran(status)) => match status {
                None => InstallAction::Fail(
                    text::concat("cannot run git clone for ", &self.source),
                ),
                Some(ok) => if ok {
                    self.stage = Stage::Reading { dir: self.staging.dup() };
                    read_action(&self.staging)
                } else {
                    InstallAction::Fail(text::concat("git clone failed for ", &self.source))
                },
            },
            (Stage::Checking, InstallEvent::IsDir(is_dir)) => if is_dir {
                self.stage = Stage::Reading { dir: self.source.dup() };
                read_action(&self.source)
            } else {
                InstallAction::Fail(
                    text::concat3("plugin source `", &self.source, "` is not a directory"),
                )
            },
            (Stage::Reading { dir }, InstallEvent::Files { manifest, cargo_toml }) => {
                let manifest = match &manifest {
                    Some(m) => Some(m.as_str()),
                    None => None,
                };
                let cargo_toml = match &cargo_toml {
                    Some(c) => Some(c.as_str()),
                    None => None,
                };
                match read_plugin(&self.source, &dir, manifest, cargo_toml, self.platform) {
                    Err(e) => InstallAction::Fail(e),
                    Ok((name, entry)) => {
                        let action = build_action(&dir);
                        self.stage = Stage::Building { dir, name, entry };
                        action
                    },
                }
            },
            (Stage::Building { dir, name, entry }, InstallEvent::Ran(status)) => match status {
                None => InstallAction::Fail(
                    text::concat3(
                        "cannot build plugin ",
                        &name,
                        " (cargo required at install time)",
                    ),
                ),
                Some(ok) => if ok {
                    let dirs = put_release_dirs(paths::components_of(&dir).as_slice());
                    self.stage = Stage::Finding { dir, name, entry };
                    InstallAction::CheckDirs(dirs)
                } else {
                    InstallAction::Fail(text::concat("plugin build failed for ", &name))
                },
            },
            (Stage::Finding { dir, name, entry }, InstallEvent::AreDirs(are_dirs)) => {
                let dirs = put_release_dirs(paths::components_of(&dir).as_slice());
                match find_release_dir(dirs.as_slice(), are_dirs.as_slice()) {
                    None => InstallAction::Fail(
                        text::concat("no target/release found under ", &dir),
                    ),
                    Some(release) => {
                        let file = paths::join(&release, &entry);
                        let listed = release.dup();
                        self.stage = Stage::Looking { release, name, entry };
                        InstallAction::List { file, dir: listed }
                    },
                }
            },
            (Stage::Looking { release, name, entry }, InstallEvent::Listing { found, files }) => {
                let file = if found {
                    Some(entry.dup())
                } else {
                    find_library(files.as_slice())
                };
                match file {
                    None => InstallAction::Fail(
                        text::concat("no cdylib artifact found in ", &release),
                    ),
                    Some(file) => {
                        let artifact = paths::join(&release, &file);
                        let dir = paths::join(&plugins_dir(&self.agent_dir), &name);
                        self.stage = Stage::Choosing { artifact, name, entry };
                        InstallAction::CheckFree(dir)
                    },
                }
            },
            (Stage::Choosing { artifact, name, entry }, InstallEvent::Exists(taken)) => {
                if taken {
                    InstallAction::Fail(
                        text::concat5(
                            "plugin `",
                            &name,
                            "` already installed (remove it first: `agent-m plugins remove ",
                            &name,
                            "`)",
                        ),
                    )
                } else {
                    install_action(&self.agent_dir, artifact, &name, &entry)
                }
            },
            (stage, _) => {
                self.stage = stage;
                InstallAction::Nothing
            },
        }
    }
}

/// Nothing is installed over what is there, nor before the plugin was built: a
/// library is copied only where the last thing learnt is that its place is free.
pub proof fn law_nothing_is_overwritten(s: InstallView, event: InstallEventView)
    ensures
        install_step(s, event).1 is Install ==> s.stage is Choosing && event
            == InstallEventView::Exists(false),
        install_step(s, event).0 is Finding ==> (s.stage is Building && event
            == InstallEventView::Ran(Some(true))) || s.stage is Finding,
{
}

/// An installation that is over stays so.
pub proof fn law_over_is_over(s: InstallView, event: InstallEventView)
    requires
        s.stage is Over,
    ensures
        install_step(s, event) == (StageView::Over, InstallActionView::Nothing),
{
}

// ----------------------------------------------------------- list, remove, update
/// The name and the file name of the library of an installed plugin, `?` where the
/// manifest does not tell.
pub open spec fn listed_of(manifest: Seq<char>) -> (Seq<char>, Seq<char>) {
    match json::parsed_json(manifest) {
        Ok(m) => (
            match m.text_field("name"@) {
                Some(name) => name,
                None => "?"@,
            },
            match m.text_field("entry"@) {
                Some(entry) => entry,
                None => "?"@,
            },
        ),
        Err(_) => ("?"@, "?"@),
    }
}

/// The name and the file name of the library of an installed plugin.
pub fn read_manifest(manifest: &str) -> (r: (String, String))
    ensures
        (r.0@, r.1@) == listed_of(manifest@),
{
    match json::parse(manifest) {
        Ok(m) => {
            let name = match m.get_str("name") {
                Some(name) => name.to_owned(),
                None => "?".to_owned(),
            };
            let entry = match m.get_str("entry") {
                Some(entry) => entry.to_owned(),
                None => "?".to_owned(),
            };
            (name, entry)
        },
        Err(_) => ("?".to_owned(), "?".to_owned()),
    }
}

/// The line for an installed plugin, given whether its library is there.
pub open spec fn list_line(plugin: (Seq<char>, bool)) -> Seq<char> {
    plugin.0 + "\t"@ + if plugin.1 {
        "ready"@
    } else {
        "MISSING ENTRY"@
    }
}

/// What is said of the installed plugins; `None` where the directory cannot be read.
pub open spec fn list_of(dir: Seq<char>, plugins: Option<Seq<(Seq<char>, bool)>>) -> Seq<
    Seq<char>,
> {
    match plugins {
        None => seq!["no plugins installed ("@ + dir + " does not exist)"@],
        Some(plugins) => if plugins.len() == 0 {
            seq!["no plugins installed"@]
        } else {
            plugins.map_values(|p: (Seq<char>, bool)| list_line(p))
        },
    }
}

/// What is said of the installed plugins.
pub fn run_list(dir: &str, plugins: Option<&[(String, bool)]>) -> (out: Vec<String>)
    ensures
        out.deep_view() == list_of(
            dir@,
            match plugins {
                Some(p) => Some(p.deep_view()),
                None => None,
            },
        ),
{
    let mut out: Vec<String> = Vec::new();
    assert(out.deep_view() =~= seq![]);
    match plugins {
        None => {
            text::put(&mut out, text::concat3("no plugins installed (", dir, " does not exist)"));
            assert(out.deep_view() =~= seq![
                "no plugins installed ("@ + dir@ + " does not exist)"@,
            ]);
        },
        Some(plugins) => {
            if plugins.len() == 0 {
                text::put(&mut out, "no plugins installed".to_owned());
                assert(out.deep_view() =~= seq!["no plugins installed"@]);
                return out;
            }
            let mut i: usize = 0;
            while i < plugins.len()
                invariant
                    i <= plugins@.len(),
                    out@.len() == i,
                    forall|k: int|
                        0 <= k < i ==> (#[trigger] out@[k])@ == list_line(
                            (plugins@[k].0@, plugins@[k].1),
                        ),
                decreases plugins.len() - i,
            {
                let word = if plugins[i].1 {
                    "ready"
                } else {
                    "MISSING ENTRY"
                };
                out.push(text::concat3(&plugins[i].0, "\t", word));
                i += 1;
            }
            assert(out.deep_view() =~= plugins.deep_view().map_values(
                |p: (Seq<char>, bool)| list_line(p),
            ));
        },
    }
    out
}

/// Whether a plugin can be removed, and what is said.
pub fn run_remove(name: &str, is_there: bool) -> (r: Result<String, String>)
    ensures
        crate::flow::executor::result_view(r) == if is_there {
            Ok("removed plugin `"@ + name@ + "`"@)
        } else {
            Err("plugin `"@ + name@ + "` is not installed"@)
        },
{
    if is_there {
        Ok(text::concat3("removed plugin `", name, "`"))
    } else {
        Err(text::concat3("plugin `", name, "` is not installed"))
    }
}

/// What is done with an installed plugin in an update.
pub enum Update {
    /// It is another than the one to be updated.
    Skip,
    /// It is removed, and installed from here.
    Reinstall(String),
    Say(String),
}

/// What an `Update` stands for.
pub ghost enum UpdateView {
    Skip,
    Reinstall(Seq<char>),
    Say(Seq<char>),
}

impl DeepView for Update {
    type V = UpdateView;

    open spec fn deep_view(&self) -> UpdateView {
        match self {
            Update::Skip => UpdateView::Skip,
            Update::Reinstall(source) => UpdateView::Reinstall(source@),
            Update::Say(s) => UpdateView::Say(s@),
        }
    }
}

/// What is done with an installed plugin in an update of `wanted`, or of all.
pub open spec fn update_of(wanted: Option<Seq<char>>, name: Seq<char>, manifest: Seq<char>) -> UpdateView {
    if wanted is Some && wanted->0 != name {
        UpdateView::Skip
    } else {
        let source = match json::parsed_json(manifest) {
            Ok(m) => m.text_field("source"@),
            Err(_) => None,
        };
        match source {
            Some(source) => UpdateView::Reinstall(source),
            None => UpdateView::Say(
                "plugin `"@ + name
                    + "` has no `source` in its manifest; reinstall from its repo"@,
            ),
        }
    }
}

fn no_source(name: &str) -> (r: Update)
    ensures
        r.deep_view() == UpdateView::Say(
            "plugin `"@ + name@ + "` has no `source` in its manifest; reinstall from its repo"@,
        ),
{
    Update::Say(
        text::concat3(
            "plugin `",
            name,
            "` has no `source` in its manifest; reinstall from its repo",
        ),
    )
}

/// What is done with an installed plugin in an update of `wanted`, or of all.
pub fn run_update(wanted: Option<&str>, name: &str, manifest: &str) -> (r: Update)
    ensures
        r.deep_view() == update_of(wanted.deep_view(), name@, manifest@),
{
    if let Some(w) = wanted {
        if !text::same(w, name) {
            return Update::Skip;
        }
    }
    match json::parse(manifest) {
        Ok(m) => match m.get_str("source") {
            Some(source) => Update::Reinstall(source.to_owned()),
            None => no_source(name),
        },
        Err(_) => no_source(name),
    }
}

/// What is said when all installed plugins were gone through.
pub fn update_end(wanted: Option<&str>, updated: bool) -> (r: Result<Option<String>, String>)
    ensures
        (match r {
            Ok(s) => Ok(s.deep_view()),
            Err(e) => Err(e@),
        }) == if updated {
            Ok(None)
        } else {
            match wanted {
                Some(name) => Err("plugin `"@ + name@ + "` is not installed"@),
                None => Ok(Some("nothing to update"@)),
            }
        },
{
    if updated {
        Ok(None)
    } else {
        match wanted {
            Some(name) => Err(text::concat3("plugin `", name, "` is not installed")),
            None => Ok(Some("nothing to update".to_owned())),
        }
    }
}

} // verus!

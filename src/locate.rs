//! Locating the host application. Each strategy probes the file system, so
//! the chain is a step function: given the answers to the probes asked so
//! far, it names the next probe or the outcome. The caller answers each probe
//! in turn; no probe is asked once an earlier one has succeeded.
use vstd::prelude::*;
use crate::text::{trim, trim_spec};
use crate::branch::{DiscordBranch, install_name_spec, lower_name_spec};
use crate::version::{latest_app_dir, latest_index, names_view, lemma_latest_index_is_highest};

verus! {

/// Where and how to launch the host application.
#[derive(Clone, Debug)]
pub enum DiscordPath {
    Filesystem(String),
    FlatpakId(String),
}

/// The directories that the strategies start from, as the platform reports them.
#[derive(Clone, Debug)]
pub struct HostDirs {
    /// Per-user local data directory.
    pub local_data: Option<String>,
    /// Home directory.
    pub home: Option<String>,
}

/// The next step of the search.
#[derive(Clone, Debug)]
pub enum Lookup {
    /// Ask whether this path is an existing file.
    CheckFile(String),
    /// Ask the shell to resolve this command name (as `command -v` does).
    ResolveCommand(String),
    /// Ask for the names of the subdirectories of this directory.
    ListDirectory(String),
    /// The installation was found.
    Found(DiscordPath),
    /// Every strategy missed.
    NotFound,
}

pub enum LookupView {
    CheckFile(Seq<char>),
    ResolveCommand(Seq<char>),
    ListDirectory(Seq<char>),
    Found(Seq<char>),
    FoundPackage(Seq<char>),
    NotFound,
}

impl View for Lookup {
    type V = LookupView;

    open spec fn view(&self) -> LookupView {
        match self {
            Lookup::CheckFile(p) => LookupView::CheckFile(p@),
            Lookup::ResolveCommand(c) => LookupView::ResolveCommand(c@),
            Lookup::ListDirectory(d) => LookupView::ListDirectory(d@),
            Lookup::Found(DiscordPath::Filesystem(p)) => LookupView::Found(p@),
            Lookup::Found(DiscordPath::FlatpakId(i)) => LookupView::FoundPackage(i@),
            Lookup::NotFound => LookupView::NotFound,
        }
    }
}

/// `dir` joined with a relative path, with one separator between them.
pub open spec fn join_spec(dir: Seq<char>, rel: Seq<char>) -> Seq<char> {
    if dir.len() == 0 {
        rel
    } else if dir.last() == '/' {
        dir + rel
    } else {
        dir + "/"@ + rel
    }
}

pub fn join_path(dir: &str, rel: &str) -> (r: String)
    ensures
        r@ == join_spec(dir@, rel@),
{
    let n = dir.unicode_len();
    if n == 0 {
        return String::from_str(rel);
    }
    let mut r = String::from_str(dir);
    if dir.get_char(n - 1) != '/' {
        r.append("/");
    }
    r.append(rel);
    r
}

/// Per-user install: `<local-data>/<Name>/<Name>`.
pub open spec fn local_install_spec(b: DiscordBranch, local: Seq<char>) -> Seq<char> {
    join_spec(local, install_name_spec(b) + "/"@ + install_name_spec(b))
}

/// Version-manager layout: `<home>/.dvm/branches/<lower>/<Name>/<Name>`.
pub open spec fn dvm_install_spec(b: DiscordBranch, home: Seq<char>) -> Seq<char> {
    join_spec(
        home,
        ".dvm/branches/"@ + lower_name_spec(b) + "/"@ + install_name_spec(b) + "/"@
            + install_name_spec(b),
    )
}

/// Command name of a branch: `discord-<lower>`.
pub open spec fn command_name_spec(b: DiscordBranch) -> Seq<char> {
    "discord-"@ + lower_name_spec(b)
}

/// System install: `/usr/bin/discord-<lower>`.
pub open spec fn system_install_spec(b: DiscordBranch) -> Seq<char> {
    "/usr/bin/"@ + command_name_spec(b)
}

/// The file-system candidates of a POSIX desktop, in the order they are
/// tried. A strategy whose start directory is unknown is left out and the
/// search goes on with the next one: the system path and the command lookup
/// need neither directory, so an unknown local-data or home directory does not
/// end the search by itself.
pub open spec fn posix_candidates(
    b: DiscordBranch,
    local: Option<Seq<char>>,
    home: Option<Seq<char>>,
) -> Seq<Seq<char>> {
    (match local {
        Some(l) => seq![local_install_spec(b, l)],
        None => seq![],
    }) + (match home {
        Some(h) => seq![dvm_install_spec(b, h)],
        None => seq![],
    }) + seq![system_install_spec(b)]
}

/// The search from candidate `i` on: the first candidate that is a file wins;
/// a candidate not yet answered is asked next; after them all comes the
/// command lookup.
pub open spec fn chain_spec(
    b: DiscordBranch,
    cands: Seq<Seq<char>>,
    files: Seq<bool>,
    i: nat,
    command: Option<Option<Seq<char>>>,
) -> LookupView
    decreases cands.len() - i,
{
    if i >= cands.len() {
        match command {
            None => LookupView::ResolveCommand(command_name_spec(b)),
            Some(Some(out)) => LookupView::Found(trim_spec(out)),
            Some(None) => LookupView::NotFound,
        }
    } else if i >= files.len() {
        LookupView::CheckFile(cands[i as int])
    } else if files[i as int] {
        LookupView::Found(cands[i as int])
    } else {
        chain_spec(b, cands, files, i + 1, command)
    }
}

/// The search on a POSIX desktop. `files` holds the answers to the file checks
/// asked so far, in order; `command` the answer to the command lookup once it
/// was asked: the path printed, or none when the command is unknown.
pub open spec fn lookup_spec(
    b: DiscordBranch,
    local: Option<Seq<char>>,
    home: Option<Seq<char>>,
    files: Seq<bool>,
    command: Option<Option<Seq<char>>>,
) -> LookupView {
    chain_spec(b, posix_candidates(b, local, home), files, 0, command)
}

pub open spec fn opt_view(o: Option<String>) -> Option<Seq<char>> {
    match o {
        Some(s) => Some(s@),
        None => None,
    }
}

/// One step of the search for the host application on a POSIX desktop.
pub fn get_discord(
    branch: DiscordBranch,
    dirs: &HostDirs,
    files: &Vec<bool>,
    command: &Option<Option<String>>,
) -> (r: Lookup)
    ensures
        r@ == lookup_spec(
            branch,
            opt_view(dirs.local_data),
            opt_view(dirs.home),
            files@,
            match command {
                Some(c) => Some(opt_view(*c)),
                None => None,
            },
        ),
{
    let name = branch.install_name();
    let lower = branch.lower_name();
    let mut cands: Vec<String> = Vec::new();
    match &dirs.local_data {
        Some(l) => {
            let mut rel = String::from_str(name);
            rel.append("/");
            rel.append(name);
            cands.push(join_path(l.as_str(), rel.as_str()));
        },
        None => {},
    }
    match &dirs.home {
        Some(h) => {
            let mut rel = String::from_str(".dvm/branches/");
            rel.append(lower);
            rel.append("/");
            rel.append(name);
            rel.append("/");
            rel.append(name);
            cands.push(join_path(h.as_str(), rel.as_str()));
        },
        None => {},
    }
    let mut cmd = String::from_str("discord-");
    cmd.append(lower);
    let mut third = String::from_str("/usr/bin/");
    third.append(cmd.as_str());
    cands.push(third);
    let ghost cv = cands@.map_values(|c: String| c@);
    let ghost want = posix_candidates(branch, opt_view(dirs.local_data), opt_view(dirs.home));
    assert(cv =~= want);
    let ghost cmd_v = match command {
        Some(c) => Some(opt_view(*c)),
        None => None,
    };
    let mut i: usize = 0;
    while i < cands.len()
        invariant
            cv == cands@.map_values(|c: String| c@),
            cv == want,
            want == posix_candidates(branch, opt_view(dirs.local_data), opt_view(dirs.home)),
            cmd_v == (match command {
                Some(c) => Some(opt_view(*c)),
                None => None,
            }),
            i <= cands@.len(),
            chain_spec(branch, cv, files@, 0, cmd_v) == chain_spec(branch, cv, files@, i as nat, cmd_v),
        decreases cands.len() - i,
    {
        if i >= files.len() {
            return Lookup::CheckFile(cands[i].clone());
        }
        if files[i] {
            return Lookup::Found(DiscordPath::Filesystem(cands[i].clone()));
        }
        i = i + 1;
    }
    match command {
        None => Lookup::ResolveCommand(cmd),
        Some(Some(out)) => Lookup::Found(DiscordPath::Filesystem(trim(out.as_str()))),
        Some(None) => Lookup::NotFound,
    }
}

/// `dir` joined with a relative path by a Windows separator.
pub open spec fn win_join_spec(dir: Seq<char>, rel: Seq<char>) -> Seq<char> {
    if dir.len() == 0 {
        rel
    } else if dir.last() == '\\' || dir.last() == '/' {
        dir + rel
    } else {
        dir + "\\"@ + rel
    }
}

pub fn join_windows_path(dir: &str, rel: &str) -> (r: String)
    ensures
        r@ == win_join_spec(dir@, rel@),
{
    let n = dir.unicode_len();
    if n == 0 {
        return String::from_str(rel);
    }
    let mut r = String::from_str(dir);
    let last = dir.get_char(n - 1);
    if last != '\\' && last != '/' {
        r.append("\\");
    }
    r.append(rel);
    r
}

/// The search on Windows. The per-branch directory under the local data
/// directory must hold the update manager (`Update.exe`); the executable is
/// then taken from its `app-<version>` subdirectory of highest version.
/// `marker` answers the check for the update manager, `entries` lists the
/// subdirectories.
pub open spec fn windows_lookup_spec(
    b: DiscordBranch,
    local: Option<Seq<char>>,
    marker: Option<bool>,
    entries: Option<Seq<Seq<char>>>,
) -> LookupView {
    match local {
        None => LookupView::NotFound,
        Some(l) => {
            let dir = win_join_spec(l, install_name_spec(b));
            match marker {
                None => LookupView::CheckFile(win_join_spec(dir, "Update.exe"@)),
                Some(false) => LookupView::NotFound,
                Some(true) => match entries {
                    None => LookupView::ListDirectory(dir),
                    Some(es) => match latest_index(es) {
                        None => LookupView::NotFound,
                        Some(i) => LookupView::Found(
                            win_join_spec(win_join_spec(dir, es[i]), install_name_spec(b) + ".exe"@),
                        ),
                    },
                },
            }
        },
    }
}

/// One step of the search for the host application on Windows.
pub fn get_discord_windows(
    branch: DiscordBranch,
    dirs: &HostDirs,
    marker: Option<bool>,
    entries: &Option<Vec<String>>,
) -> (r: Lookup)
    ensures
        r@ == windows_lookup_spec(
            branch,
            opt_view(dirs.local_data),
            marker,
            match entries {
                Some(es) => Some(names_view(es@)),
                None => None,
            },
        ),
{
    let name = branch.install_name();
    let local = match &dirs.local_data {
        Some(l) => l,
        None => return Lookup::NotFound,
    };
    let dir = join_windows_path(local.as_str(), name);
    match marker {
        None => return Lookup::CheckFile(join_windows_path(dir.as_str(), "Update.exe")),
        Some(false) => return Lookup::NotFound,
        Some(true) => {},
    }
    let es = match entries {
        Some(es) => es,
        None => return Lookup::ListDirectory(dir),
    };
    let chosen = latest_app_dir(es);
    let count = es.len();
    proof {
        assert(names_view(es@).len() == count);
        lemma_latest_index_is_highest(names_view(es@));
        if let Some(k) = latest_index(names_view(es@)) {
            assert(chosen == Some(k as usize));
        }
    }
    match chosen {
        None => Lookup::NotFound,
        Some(i) => {
            proof {
                assert(names_view(es@)[i as int] == es@[i as int]@);
            }
            let app_dir = join_windows_path(dir.as_str(), es[i].as_str());
            let mut exe = String::from_str(name);
            exe.append(".exe");
            let path = join_windows_path(app_dir.as_str(), exe.as_str());
            Lookup::Found(DiscordPath::Filesystem(path))
        },
    }
}

/// When the first two strategies miss and the system path is a file, the
/// search ends there with that path; the command lookup is never asked.
pub proof fn lemma_system_install_ends_search(
    b: DiscordBranch,
    local: Seq<char>,
    home: Seq<char>,
    command: Option<Option<Seq<char>>>,
)
    ensures
        lookup_spec(b, Some(local), Some(home), seq![false, false, true], command)
            == LookupView::Found(system_install_spec(b)),
        b == DiscordBranch::PTB ==> system_install_spec(b) == "/usr/bin/discord-ptb"@,
{
    let cands = posix_candidates(b, Some(local), Some(home));
    assert(cands =~= seq![local_install_spec(b, local), dvm_install_spec(b, home), system_install_spec(b)]);
    let files = seq![false, false, true];
    assert(chain_spec(b, cands, files, 0, command) == chain_spec(b, cands, files, 1, command));
    assert(chain_spec(b, cands, files, 1, command) == chain_spec(b, cands, files, 2, command));
    reveal_strlit("/usr/bin/");
    reveal_strlit("discord-");
    reveal_strlit("ptb");
    reveal_strlit("/usr/bin/discord-ptb");
    if b == DiscordBranch::PTB {
        assert(system_install_spec(b) =~= "/usr/bin/discord-ptb"@);
    }
}

} // verus!

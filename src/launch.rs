//! Decisions of the launch: which entrypoint the injected component loads,
//! whether assets are synchronized first, and what the user is told when the
//! host application is missing.
use vstd::prelude::*;
use crate::branch::{DiscordBranch, wm_class_spec};

verus! {

/// File name of the mod entrypoint inside the asset cache directory.
pub const MOD_ENTRYPOINT: &'static str = "injector.js";

/// `s` with every backslash doubled, as the entrypoint path is embedded in a script.
pub open spec fn doubled_backslashes(s: Seq<char>) -> Seq<char>
    decreases s.len(),
{
    if s.len() == 0 {
        seq![]
    } else {
        doubled_backslashes(s.drop_last()) + if s.last() == '\\' {
            seq!['\\', '\\']
        } else {
            seq![s.last()]
        }
    }
}

pub fn double_backslashes(s: &str) -> (r: String)
    ensures
        r@ == doubled_backslashes(s@),
{
    let n = s.unicode_len();
    let mut out = String::new();
    let mut i: usize = 0;
    while i < n
        invariant
            n == s@.len(),
            i <= n,
            out@ == doubled_backslashes(s@.subrange(0, i as int)),
        decreases n - i,
    {
        let ghost before = out@;
        if s.get_char(i) == '\\' {
            out.append("\\\\");
            proof {
                reveal_strlit("\\\\");
            }
        } else {
            out.append(s.substring_char(i, i + 1));
        }
        proof {
            assert(s@.subrange(0, i + 1).drop_last() =~= s@.subrange(0, i as int));
            assert(out@ =~= doubled_backslashes(s@.subrange(0, i + 1)));
        }
        i = i + 1;
    }
    assert(s@.subrange(0, n as int) =~= s@);
    out
}

/// What the launch does once the installation is known.
#[derive(Clone, Debug)]
pub struct LaunchPlan {
    /// Whether assets are synchronized before launching.
    pub synchronize: bool,
    /// The entrypoint script handed to the injection facility.
    pub entrypoint: String,
    /// Window-class tag of the launched application.
    pub wm_class: String,
}

/// A local entrypoint is used verbatim and skips synchronization; otherwise the
/// cached entrypoint is used, whether or not synchronization succeeds.
pub fn plan_launch(branch: DiscordBranch, local: Option<String>, cached_entrypoint: &str) -> (r:
    LaunchPlan)
    ensures
        r.synchronize == local is None,
        r.entrypoint@ == (match local {
            Some(l) => l@,
            None => doubled_backslashes(cached_entrypoint@),
        }),
        r.wm_class@ == wm_class_spec(branch),
{
    let synchronize = local.is_none();
    let entrypoint = match local {
        Some(l) => l,
        None => double_backslashes(cached_entrypoint),
    };
    LaunchPlan { synchronize, entrypoint, wm_class: branch.wm_class() }
}

/// Title of the notice shown when no installation is found.
pub fn no_installation_title(display_name: &str) -> (r: String)
    ensures
        r@ == "No "@ + display_name@ + " installation found!"@,
{
    let mut t = String::from_str("No ");
    t.append(display_name);
    t.append(" installation found!");
    t
}

/// Text of the notice shown when no installation is found.
pub fn no_installation_message(display_name: &str) -> (r: String)
    ensures
        r@ == "moonlight couldn't find your Discord installation.\nTry reinstalling "@
            + display_name@ + " and try again."@,
{
    let mut m = String::from_str("moonlight couldn't find your Discord installation.\nTry reinstalling ");
    m.append(display_name);
    m.append(" and try again.");
    m
}

} // verus!

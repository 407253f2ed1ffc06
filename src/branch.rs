use vstd::prelude::*;

verus! {

/// Release channel of the host application.
#[derive(Clone, Copy, Debug, PartialEq, Eq, Structural)]
pub enum DiscordBranch {
    Stable,
    Canary,
    PTB,
    Development,
}

/// Release channel of the mod itself.
#[derive(Clone, Copy, Debug, PartialEq, Eq, Structural)]
pub enum MoonlightBranch {
    Stable,
    Nightly,
}

/// Name of the install directory (and of the executable inside it).
pub open spec fn install_name_spec(b: DiscordBranch) -> Seq<char> {
    match b {
        DiscordBranch::Stable => "Discord"@,
        DiscordBranch::PTB => "DiscordPTB"@,
        DiscordBranch::Canary => "DiscordCanary"@,
        DiscordBranch::Development => "DiscordDevelopment"@,
    }
}

/// Short lower-case token of a branch.
pub open spec fn lower_name_spec(b: DiscordBranch) -> Seq<char> {
    match b {
        DiscordBranch::Stable => "stable"@,
        DiscordBranch::PTB => "ptb"@,
        DiscordBranch::Canary => "canary"@,
        DiscordBranch::Development => "development"@,
    }
}

/// Window-class tag handed to the injection facility.
pub open spec fn wm_class_spec(b: DiscordBranch) -> Seq<char> {
    "moonlight-"@ + lower_name_spec(b)
}

impl DiscordBranch {
    pub fn install_name(self) -> (r: &'static str)
        ensures
            r@ == install_name_spec(self),
    {
        match self {
            DiscordBranch::Stable => "Discord",
            DiscordBranch::PTB => "DiscordPTB",
            DiscordBranch::Canary => "DiscordCanary",
            DiscordBranch::Development => "DiscordDevelopment",
        }
    }

    pub fn lower_name(self) -> (r: &'static str)
        ensures
            r@ == lower_name_spec(self),
    {
        match self {
            DiscordBranch::Stable => "stable",
            DiscordBranch::PTB => "ptb",
            DiscordBranch::Canary => "canary",
            DiscordBranch::Development => "development",
        }
    }

    pub fn wm_class(self) -> (r: String)
        ensures
            r@ == wm_class_spec(self),
    {
        let mut s = String::from_str("moonlight-");
        s.append(self.lower_name());
        s
    }
}

/// An explicitly supplied mod branch always wins over the compiled-in default.
pub fn resolve_mod_branch(
    requested: Option<MoonlightBranch>,
    default: MoonlightBranch,
) -> (r: MoonlightBranch)
    ensures
        r == (match requested {
            Some(b) => b,
            None => default,
        }),
{
    match requested {
        Some(b) => b,
        None => default,
    }
}

} // verus!

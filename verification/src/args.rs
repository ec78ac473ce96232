//! Command line arguments: what they select and how they filter the build.
use vstd::prelude::*;
use crate::text::{copy_string, owned, is_text};
use crate::context::{Locale, Context, copy_opt, opt_view, manager_entries, detected_locale, overridden_locale, home_of};
use crate::context::parse::{Environment, env_lookup};
use crate::config::{ResolvedConfig, kept_by, kinds_view, kept_for_hook};
use crate::specs::{BuildUnit, BuildUnitKind, unit_kind};
use crate::specs::shell::{Hook, HookView};

verus! {

/// What to do with the build.
pub enum YurtAction {
    /// Show the resolved build (or the unresolved one with `raw`), or the
    /// build context with `context`, limited to the units of `hook` when given.
    Show { raw: bool, context: bool, hook: Option<Hook> },
    /// Install the resolved build, cleaning link target conflicts with `clean`.
    Install { clean: bool },
    /// Uninstall the resolved build.
    Uninstall,
    /// Run the resolved build's hooks of kind `hook`.
    Hook { hook: Hook },
    /// Compare the resolved build with the one at `base`.
    Diff { base: String },
}

/// Command line arguments.
pub struct YurtArgs {
    /// Build file path.
    pub file: Option<String>,
    /// Build file url.
    pub file_url: Option<String>,
    /// Logging level.
    pub log: Option<String>,
    /// Allow running as the root user.
    pub root: bool,
    /// Override of the target user name.
    pub override_user: Option<String>,
    /// Override of the target platform.
    pub override_platform: Option<String>,
    /// Override of the target distribution.
    pub override_distro: Option<String>,
    /// Keep only the build units of these kinds (`--include`).
    pub only: Option<Vec<BuildUnitKind>>,
    /// Leave out the build units of these kinds (`--exclude`).
    pub exclude: Option<Vec<BuildUnitKind>>,
    /// What to do.
    pub action: YurtAction,
}

/// Where the build file is read from.
pub enum ConfigSource {
    /// Downloaded from a url.
    Url(String),
    /// Read from a file.
    Path(String),
}

impl ConfigSource {
    /// The build file named by the variable `YURT_BUILD_FILE` of
    /// `environment`; without it, no build file is specified.
    pub fn from_env(environment: &Environment) -> (r: Result<ConfigSource, ArgsError>)
        ensures
            match env_lookup(environment@, build_file_var()) {
                Some(p) => r matches Ok(ConfigSource::Path(q)) && q@ == p,
                None => r matches Err(ArgsError::NoBuildFile),
            },
    {
        proof {
            reveal_strlit("YURT_BUILD_FILE");
            assert("YURT_BUILD_FILE"@ =~= build_file_var());
        }
        match environment.var(&owned("YURT_BUILD_FILE")) {
            Some(path) => Ok(ConfigSource::Path(path)),
            None => Err(ArgsError::NoBuildFile),
        }
    }
}

/// Why the arguments cannot be acted on.
#[derive(Debug)]
pub enum ArgsError {
    /// No build file is named by the arguments or the environment.
    NoBuildFile,
    /// The program runs as `root` without `--root`.
    RootNotAllowed,
}

/// The environment variable that names the build file when no argument does.
pub open spec fn build_file_var() -> Seq<char> {
    seq!['Y', 'U', 'R', 'T', '_', 'B', 'U', 'I', 'L', 'D', '_', 'F', 'I', 'L', 'E']
}

/// The user name that needs `--root`.
pub open spec fn root_user() -> Seq<char> {
    seq!['r', 'o', 'o', 't']
}

/// The hook whose units an action works on, if it is limited to one.
pub open spec fn action_hook_of(a: YurtAction) -> Option<HookView> {
    match a {
        YurtAction::Show { hook, .. } => match hook {
            Some(h) => Some(h@),
            None => None,
        },
        YurtAction::Hook { hook } => Some(hook@),
        YurtAction::Install { .. } => Some(HookView::Install),
        YurtAction::Uninstall => Some(HookView::Uninstall),
        YurtAction::Diff { .. } => None,
    }
}

impl YurtArgs {
    /// The target locale: the local one with the overrides applied.
    pub fn get_locale(&self) -> (r: Locale)
        ensures
            exists|u: Seq<char>, p: Seq<char>, d: Seq<char>| r@ == overridden_locale(
                opt_view(self.override_user), opt_view(self.override_platform), opt_view(self.override_distro),
                detected_locale(u, p, d)),
    {
        Locale::with_overrides(copy_opt(&self.override_user), copy_opt(&self.override_platform), copy_opt(&self.override_distro))
    }

    /// A fresh context for the target locale, reading `env:` keys from `environment`.
    pub fn get_context(&self, environment: Environment) -> (r: Context)
        ensures
            exists|u: Seq<char>, p: Seq<char>, d: Seq<char>| r.locale@ == overridden_locale(
                opt_view(self.override_user), opt_view(self.override_platform), opt_view(self.override_distro),
                detected_locale(u, p, d)),
            exists|h: Option<Seq<char>>| r.home_dir@ == home_of(h),
            r.variables@.len() == 0,
            manager_entries(r.managers).len() == 0,
            r.environment@ == environment@,
    {
        Context::new(self.get_locale(), environment)
    }

    /// Where to read the build file: the url when given, else the file when
    /// given, else the file named by `YURT_BUILD_FILE` in `environment`.
    pub fn config_source(&self, environment: &Environment) -> (r: Result<ConfigSource, ArgsError>)
        ensures
            self.file_url is Some ==> (r matches Ok(ConfigSource::Url(u)) && u@ == self.file_url->0@),
            self.file_url is None && self.file is Some ==> (r matches Ok(ConfigSource::Path(p)) && p@ == self.file->0@),
            self.file_url is None && self.file is None ==> match env_lookup(environment@, build_file_var()) {
                Some(p) => r matches Ok(ConfigSource::Path(q)) && q@ == p,
                None => r matches Err(ArgsError::NoBuildFile),
            },
    {
        match &self.file_url {
            Some(url) => Ok(ConfigSource::Url(copy_string(url))),
            None => match &self.file {
                Some(path) => Ok(ConfigSource::Path(copy_string(path))),
                None => ConfigSource::from_env(environment),
            },
        }
    }

    /// Checks that the program may run as `username`: `root` needs `--root`.
    pub fn check_user(&self, username: &str) -> (r: Result<(), ArgsError>)
        ensures
            r is Ok <==> (self.root || username@ != root_user()),
            r is Err ==> r matches Err(ArgsError::RootNotAllowed),
    {
        proof {
            reveal_strlit("root");
            assert("root"@ =~= root_user());
        }
        if !self.root && is_text(&owned(username), "root") {
            Err(ArgsError::RootNotAllowed)
        } else {
            Ok(())
        }
    }

    /// The hook whose units the action works on, if it is limited to one.
    pub fn action_hook(&self) -> (r: Option<Hook>)
        ensures
            match r {
                Some(h) => action_hook_of(self.action) == Some(h@),
                None => action_hook_of(self.action) is None,
            },
    {
        match &self.action {
            YurtAction::Show { hook, .. } => match hook {
                Some(h) => Some(h.duplicate()),
                None => None,
            },
            YurtAction::Hook { hook } => Some(hook.duplicate()),
            YurtAction::Install { .. } => Some(Hook::Install),
            YurtAction::Uninstall => Some(Hook::Uninstall),
            YurtAction::Diff { .. } => None,
        }
    }

    /// The resolved build narrowed to the unit kinds the arguments select
    /// and, when the action works on one hook, to the hook units that run on it.
    pub fn resolve(&self, resolved: ResolvedConfig) -> (r: ResolvedConfig)
        ensures
            ({
                let kinds = resolved.build@.filter(|u: BuildUnit| kept_by(unit_kind(u@), kinds_view(self.only), kinds_view(self.exclude)));
                r.build@ == match action_hook_of(self.action) {
                    Some(h) => kinds.filter(|u: BuildUnit| kept_for_hook(u@, h)),
                    None => kinds,
                }
            }),
            r.context == resolved.context,
            r.version == resolved.version,
    {
        let kept = resolved.filter(&self.only, &self.exclude);
        match self.action_hook() {
            Some(h) => kept.for_hook(&h),
            None => kept,
        }
    }
}

/// The build file named in the environment is read from the variable
/// `YURT_BUILD_FILE`, and the user who needs `--root` is `root`.
pub proof fn law_args_names()
    ensures
        build_file_var() == seq!['Y', 'U', 'R', 'T', '_', 'B', 'U', 'I', 'L', 'D', '_', 'F', 'I', 'L', 'E'],
        root_user() == seq!['r', 'o', 'o', 't'],
{
}

} // verus!

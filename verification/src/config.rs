//! Build files: the version requirement and the build specifications.
use vstd::prelude::*;
use crate::context::{Context, state_of, ContextState};
use crate::specs::{
    BuildSpec, BuildUnit, BuildUnitKind, BuildUnitView, Resolution, ResolutionView, ResolveError, ResolveErrorView,
    resolve_specs, resolution_view, unit_kind, units_view,
};
use crate::specs::shell::{ShellCommand, ShellCommandView, Hook, HookView};
use crate::text::copy_string;
use crate::context::copy_opt;
use crate::context::opt_view;

verus! {

/// Version of this program, against which build files state requirements.
pub const VERSION: &'static str = "0.8.0-dev";

/// Whether the version [`VERSION`] satisfies the semver requirement
/// written `req`; `None` when `req` is not a requirement.
pub uninterp spec fn version_satisfies(req: Seq<char>) -> Option<bool>;

/// `semver::VersionReq::parse(req)` then `VersionReq::matches` on
/// [`VERSION`]; the contract names the answer, the semver rules stay the
/// crate's.
#[verifier::external_body]
fn requirement_matches(req: &str) -> (r: Option<bool>)
    ensures
        r == version_satisfies(req@),
{
    let version = semver::Version::parse(VERSION).ok()?;
    semver::VersionReq::parse(req).ok().map(|q| q.matches(&version))
}

/// Whether `req` can be read as a semver version requirement.
pub fn is_requirement(req: &str) -> (r: bool)
    ensures
        r == (version_satisfies(req@) is Some),
{
    requirement_matches(req).is_some()
}

/// Top level build file: an optional version requirement and the build
/// steps. Order of build steps is preserved after resolution.
pub struct Config {
    /// Requirement on the program version, as written in the build file.
    pub version: Option<String>,
    /// Build steps.
    pub build: Vec<BuildSpec>,
}

/// A build file after resolution.
pub struct ResolvedConfig {
    /// State left by the resolution.
    pub context: Context,
    /// Resolved build steps, in order.
    pub build: Vec<BuildUnit>,
    /// The version requirement, which the program satisfies.
    pub version: Option<String>,
}

/// Why a build file could not be resolved.
#[derive(Debug)]
pub enum ConfigError {
    /// The program version does not satisfy the requirement (or the
    /// requirement cannot be read).
    Version { requirement: String },
    /// The build could not be resolved.
    Resolve(ResolveError),
}

/// Outcome of [`Config::resolve`].
pub enum ConfigResolution {
    /// The build file is resolved.
    Resolved(ResolvedConfig),
    /// Resolution needs the outcome of running this command next.
    Pending(ShellCommand),
    /// The build file cannot be resolved.
    Failed(ConfigError),
}

/// The version requirement `req` is met: absent, or satisfied by [`VERSION`].
pub open spec fn version_ok(req: Option<Seq<char>>) -> bool {
    match req {
        None => true,
        Some(r) => version_satisfies(r) == Some(true),
    }
}

/// Checks the version requirement `requirement` given whether [`VERSION`]
/// satisfies it (`None` when it cannot be read as a requirement): only a
/// satisfied requirement passes.
pub fn check_version(requirement: &String, satisfied: Option<bool>) -> (r: Result<(), ConfigError>)
    ensures
        satisfied == Some(true) ==> r is Ok,
        satisfied != Some(true) ==> (r matches Err(ConfigError::Version { requirement: q }) && q@ == requirement@),
{
    match satisfied {
        Some(true) => Ok(()),
        _ => Err(ConfigError::Version { requirement: copy_string(requirement) }),
    }
}

impl Config {
    /// Checks the version requirement, then resolves the build steps in
    /// order from `context`, the `Eval` commands taking their outcomes from
    /// `outs` (see [`resolve_specs`]).
    pub fn resolve(self, context: Context, outs: &Vec<bool>) -> (r: ConfigResolution)
        ensures
            !version_ok(opt_view(self.version)) ==> (r matches ConfigResolution::Failed(ConfigError::Version { requirement })
                && Some(requirement@) == opt_view(self.version)),
            version_ok(opt_view(self.version)) ==> match resolve_specs(self.build@, state_of(&context), outs@, 0) {
                ResolutionView::Done { units, state, .. } => r matches ConfigResolution::Resolved(rc)
                    && units_view(rc.build@) == units && state_of(&rc.context) == state
                    && opt_view(rc.version) == opt_view(self.version),
                ResolutionView::Pending { command, .. } => r matches ConfigResolution::Pending(c) && c@ == command,
                ResolutionView::Failed { error, .. } => r matches ConfigResolution::Failed(ConfigError::Resolve(e)) && e@ == error,
            },
    {
        match &self.version {
            Some(req) => {
                let satisfied = requirement_matches(req.as_str());
                match check_version(req, satisfied) {
                    Ok(()) => {},
                    Err(e) => return ConfigResolution::Failed(e),
                }
            },
            None => {},
        }
        let mut context = context;
        match BuildSpec::resolve_all(&self.build, &mut context, outs, 0) {
            Resolution::Done { units, .. } => ConfigResolution::Resolved(ResolvedConfig {
                context,
                build: units,
                version: self.version,
            }),
            Resolution::Pending { command } => ConfigResolution::Pending(command),
            Resolution::Failed { error } => ConfigResolution::Failed(ConfigError::Resolve(error)),
        }
    }
}

/// The build specification that states the resolved unit `u` again.
pub open spec fn unit_spec(u: BuildUnit) -> BuildSpec {
    match u {
        BuildUnit::Repo(x) => BuildSpec::Repo(x),
        BuildUnit::Link(x) => BuildSpec::Link(x),
        BuildUnit::Hook(x) => BuildSpec::Hook(x),
        BuildUnit::Package(x) => BuildSpec::Package(x),
        BuildUnit::PackageManager(x) => BuildSpec::PackageManager(x),
    }
}

impl BuildSpec {
    /// The build specification that states the resolved unit `unit` again.
    pub fn from_unit(unit: BuildUnit) -> (r: BuildSpec)
        ensures
            r == unit_spec(unit),
    {
        match unit {
            BuildUnit::Repo(x) => BuildSpec::Repo(x),
            BuildUnit::Link(x) => BuildSpec::Link(x),
            BuildUnit::Hook(x) => BuildSpec::Hook(x),
            BuildUnit::Package(x) => BuildSpec::Package(x),
            BuildUnit::PackageManager(x) => BuildSpec::PackageManager(x),
        }
    }
}

/// A unit is kept by the kind filters when its kind is among `only`
/// (when given) and not among `exclude` (when given).
pub open spec fn kept_by(kind: BuildUnitKind, only: Option<Seq<BuildUnitKind>>, exclude: Option<Seq<BuildUnitKind>>) -> bool {
    (match only {
        Some(k) => k.contains(kind),
        None => true,
    }) && (match exclude {
        Some(k) => !k.contains(kind),
        None => true,
    })
}

/// An optional list of kinds taken by its view.
pub open spec fn kinds_view(k: Option<Vec<BuildUnitKind>>) -> Option<Seq<BuildUnitKind>> {
    match k {
        Some(v) => Some(v@),
        None => None,
    }
}

impl ResolvedConfig {
    /// Keeps the units whose kind is among `only` (when given) and not
    /// among `exclude` (when given), in order.
    pub fn filter(self, only: &Option<Vec<BuildUnitKind>>, exclude: &Option<Vec<BuildUnitKind>>) -> (r: ResolvedConfig)
        ensures
            r.build@ == self.build@.filter(|u: BuildUnit| kept_by(unit_kind(u@), kinds_view(*only), kinds_view(*exclude))),
            r.context == self.context,
            r.version == self.version,
    {
        let ghost pred = |u: BuildUnit| kept_by(unit_kind(u@), kinds_view(*only), kinds_view(*exclude));
        let ghost all = self.build@;
        let mut rest = self.build;
        let mut kept: Vec<BuildUnit> = Vec::new();
        let mut i: usize = 0;
        let ghost n = all.len();
        assert(all.take(0) =~= Seq::<BuildUnit>::empty());
        assert(all.skip(0) =~= all);
        while rest.len() > 0
            invariant
                all.len() == n,
                rest@.len() <= n,
                rest@ == all.skip(n - rest@.len()),
                kept@ == all.take(n - rest@.len()).filter(pred),
                pred == (|u: BuildUnit| kept_by(unit_kind(u@), kinds_view(*only), kinds_view(*exclude))),
            decreases rest@.len(),
        {
            let ghost before = rest@;
            let ghost done = n - before.len();
            assert(before[0] == all[done]);
            let unit = rest.remove(0);
            assert(rest@ =~= all.skip(done + 1));
            assert(all.take(done + 1).drop_last() =~= all.take(done));
            assert(all.take(done + 1).last() == unit);
            reveal_with_fuel(Seq::filter, 1);
            let keep_in = match only {
                Some(k) => unit.included_in(k.as_slice()),
                None => true,
            };
            let keep_out = match exclude {
                Some(k) => !unit.included_in(k.as_slice()),
                None => true,
            };
            assert(pred(unit) == (keep_in && keep_out));
            assert(all.take(n - rest@.len()).filter(pred) == (if pred(unit) {
                all.take(done).filter(pred).push(unit)
            } else {
                all.take(done).filter(pred)
            }));
            if keep_in && keep_out {
                kept.push(unit);
            }
        }
        assert(all.take(n as int) =~= all);
        ResolvedConfig { context: self.context, build: kept, version: self.version }
    }

    /// The build file that states the resolved units again, with the same
    /// version requirement.
    pub fn into_config(self) -> (r: Config)
        ensures
            r.version == self.version,
            r.build@ == self.build@.map_values(|u: BuildUnit| unit_spec(u)),
    {
        let ghost all = self.build@;
        let mut rest = self.build;
        let mut build: Vec<BuildSpec> = Vec::new();
        let ghost n = all.len();
        assert(all.skip(0) =~= all);
        assert(all.take(0).map_values(|u: BuildUnit| unit_spec(u)) =~= Seq::<BuildSpec>::empty());
        while rest.len() > 0
            invariant
                all.len() == n,
                rest@.len() <= n,
                rest@ == all.skip(n - rest@.len()),
                build@ == all.take(n - rest@.len()).map_values(|u: BuildUnit| unit_spec(u)),
            decreases rest@.len(),
        {
            let ghost before = rest@;
            let ghost done = n - before.len();
            assert(before[0] == all[done]);
            let unit = rest.remove(0);
            assert(rest@ =~= all.skip(done + 1));
            build.push(BuildSpec::from_unit(unit));
            assert(build@ =~= all.take(done + 1).map_values(|u: BuildUnit| unit_spec(u)));
        }
        assert(all.take(n as int) =~= all);
        Config { version: self.version, build }
    }
}

proof fn lemma_filter_twice<A>(s: Seq<A>, p: spec_fn(A) -> bool)
    ensures
        s.filter(p).filter(p) == s.filter(p),
    decreases s.len(),
{
    reveal_with_fuel(Seq::filter, 1);
    if s.len() > 0 {
        lemma_filter_twice(s.drop_last(), p);
        if p(s.last()) {
            let f = s.drop_last().filter(p);
            assert(f.push(s.last()).drop_last() =~= f);
        }
    }
}

/// Narrowing a build by the same kinds twice keeps what narrowing once
/// keeps, and what is kept is in the build's order.
pub proof fn law_filter_is_idempotent(
    units: Seq<BuildUnit>,
    only: Option<Seq<BuildUnitKind>>,
    exclude: Option<Seq<BuildUnitKind>>,
)
    ensures
        units.filter(|u: BuildUnit| kept_by(unit_kind(u@), only, exclude)).filter(|u: BuildUnit| kept_by(unit_kind(u@), only, exclude))
            == units.filter(|u: BuildUnit| kept_by(unit_kind(u@), only, exclude)),
{
    lemma_filter_twice(units, |u: BuildUnit| kept_by(unit_kind(u@), only, exclude));
}

/// A kind that is both kept and excluded is left out.
pub proof fn law_exclude_wins(kind: BuildUnitKind, only: Seq<BuildUnitKind>, exclude: Seq<BuildUnitKind>)
    requires
        exclude.contains(kind),
    ensures
        !kept_by(kind, Some(only), Some(exclude)),
{
}

/// The program's version as a string.
pub open spec fn version_text() -> Seq<char> {
    seq!['0', '.', '8', '.', '0', '-', 'd', 'e', 'v']
}

/// Whether a build file's version is exactly this program's version; a
/// file without a version matches unless `strict`.
pub fn version_matches(version: &Option<String>, strict: bool) -> (r: bool)
    ensures
        r == match version {
            Some(v) => v@ == version_text(),
            None => !strict,
        },
{
    proof {
        reveal_strlit("0.8.0-dev");
        assert(VERSION@ =~= version_text());
    }
    match version {
        Some(v) => crate::text::is_text(v, VERSION),
        None => !strict,
    }
}

/// A unit is kept for the hook `h`: a hook unit when it runs on `h`, every
/// other unit always.
pub open spec fn kept_for_hook(u: BuildUnitView, h: HookView) -> bool {
    match u {
        BuildUnitView::Hook(sh) => sh.on.contains(h),
        _ => true,
    }
}

impl ResolvedConfig {
    /// Keeps the hook units that run on `hook`, and every other unit, in order.
    pub fn for_hook(self, hook: &Hook) -> (r: ResolvedConfig)
        ensures
            r.build@ == self.build@.filter(|u: BuildUnit| kept_for_hook(u@, hook@)),
            r.context == self.context,
            r.version == self.version,
    {
        let ghost pred = |u: BuildUnit| kept_for_hook(u@, hook@);
        let ghost all = self.build@;
        let mut rest = self.build;
        let mut kept: Vec<BuildUnit> = Vec::new();
        let ghost n = all.len();
        assert(all.take(0) =~= Seq::<BuildUnit>::empty());
        assert(all.skip(0) =~= all);
        while rest.len() > 0
            invariant
                all.len() == n,
                rest@.len() <= n,
                rest@ == all.skip(n - rest@.len()),
                kept@ == all.take(n - rest@.len()).filter(pred),
                pred == (|u: BuildUnit| kept_for_hook(u@, hook@)),
            decreases rest@.len(),
        {
            let ghost before = rest@;
            let ghost done = n - before.len();
            assert(before[0] == all[done]);
            let unit = rest.remove(0);
            assert(rest@ =~= all.skip(done + 1));
            assert(all.take(done + 1).drop_last() =~= all.take(done));
            assert(all.take(done + 1).last() == unit);
            reveal_with_fuel(Seq::filter, 1);
            let keep = match &unit {
                BuildUnit::Hook(h) => h.applies(hook),
                _ => true,
            };
            assert(pred(unit) == keep);
            if keep {
                kept.push(unit);
            }
        }
        assert(all.take(n as int) =~= all);
        ResolvedConfig { context: self.context, build: kept, version: self.version }
    }
}

/// A unit kind is kept when no filter is given; with only `only`, exactly
/// when it is listed there; with only `exclude`, exactly when it is not
/// listed there; with both, when it is in `only` and not in `exclude`.
pub proof fn law_kept_by_filters(kind: BuildUnitKind, only: Seq<BuildUnitKind>, exclude: Seq<BuildUnitKind>)
    ensures
        kept_by(kind, None, None),
        kept_by(kind, Some(only), None) <==> only.contains(kind),
        kept_by(kind, None, Some(exclude)) <==> !exclude.contains(kind),
        kept_by(kind, Some(only), Some(exclude)) <==> (only.contains(kind) && !exclude.contains(kind)),
{
}

/// A hook filter keeps every unit that is not a hook, and a hook unit
/// exactly when it runs on that hook.
pub proof fn law_hook_filter(u: BuildUnitView, h: HookView)
    ensures
        !(u is Hook) ==> kept_for_hook(u, h),
        u matches BuildUnitView::Hook(sh) ==> (kept_for_hook(u, h) <==> sh.on.contains(h)),
{
}

} // verus!

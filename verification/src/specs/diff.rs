//! Comparison of resolved build steps: which steps of one build another
//! build does not have.
use vstd::prelude::*;
use crate::context::opt_view;
use crate::specs::{BuildUnit, BuildUnitView};
use crate::specs::link::Link;
use crate::specs::repo::Repo;
use crate::specs::package::{Package, PackageManager, opt_command_view};
use crate::specs::shell::{Hook, ShellCommand, ShellHook};

verus! {

/// Whether two strings hold the same text.
fn same_string(a: &String, b: &String) -> (r: bool)
    ensures
        r == (a@ == b@),
{
    a.eq(b)
}

/// Whether two optional strings are both absent or hold the same text.
fn same_opt_string(a: &Option<String>, b: &Option<String>) -> (r: bool)
    ensures
        r == (opt_view(*a) == opt_view(*b)),
{
    match (a, b) {
        (Some(x), Some(y)) => same_string(x, y),
        (None, None) => true,
        _ => false,
    }
}

/// Whether two lists of strings hold the same texts in the same order.
fn same_strings(a: &Vec<String>, b: &Vec<String>) -> (r: bool)
    ensures
        r == (a@.map_values(|s: String| s@) == b@.map_values(|s: String| s@)),
{
    let ghost va = a@.map_values(|s: String| s@);
    let ghost vb = b@.map_values(|s: String| s@);
    if a.len() != b.len() {
        assert(va.len() != vb.len());
        return false;
    }
    let mut i: usize = 0;
    while i < a.len()
        invariant
            a@.len() == b@.len(),
            i <= a@.len(),
            va == a@.map_values(|s: String| s@),
            vb == b@.map_values(|s: String| s@),
            forall|j: int| 0 <= j < i ==> va[j] == vb[j],
        decreases a@.len() - i,
    {
        if !same_string(&a[i], &b[i]) {
            assert(va[i as int] != vb[i as int]);
            return false;
        }
        i = i + 1;
    }
    assert(va =~= vb);
    true
}

/// Whether two lists of pairs of strings hold the same pairs in the same
/// order.
fn same_pairs(a: &Vec<(String, String)>, b: &Vec<(String, String)>) -> (r: bool)
    ensures
        r == (a@.map_values(|p: (String, String)| (p.0@, p.1@)) == b@.map_values(|p: (String, String)| (p.0@, p.1@))),
{
    let ghost va = a@.map_values(|p: (String, String)| (p.0@, p.1@));
    let ghost vb = b@.map_values(|p: (String, String)| (p.0@, p.1@));
    if a.len() != b.len() {
        assert(va.len() != vb.len());
        return false;
    }
    let mut i: usize = 0;
    while i < a.len()
        invariant
            a@.len() == b@.len(),
            i <= a@.len(),
            va == a@.map_values(|p: (String, String)| (p.0@, p.1@)),
            vb == b@.map_values(|p: (String, String)| (p.0@, p.1@)),
            forall|j: int| 0 <= j < i ==> va[j] == vb[j],
        decreases a@.len() - i,
    {
        if !same_string(&a[i].0, &b[i].0) || !same_string(&a[i].1, &b[i].1) {
            assert(va[i as int] != vb[i as int]);
            return false;
        }
        i = i + 1;
    }
    assert(va =~= vb);
    true
}

/// Whether two shell commands are the same.
fn same_command(a: &ShellCommand, b: &ShellCommand) -> (r: bool)
    ensures
        r == (a@ == b@),
{
    a.shell.kind == b.shell.kind && same_string(&a.shell.command, &b.shell.command) && same_string(&a.command, &b.command)
}

/// Whether two optional shell commands are both absent or the same.
fn same_opt_command(a: &Option<ShellCommand>, b: &Option<ShellCommand>) -> (r: bool)
    ensures
        r == (opt_command_view(*a) == opt_command_view(*b)),
{
    match (a, b) {
        (Some(x), Some(y)) => same_command(x, y),
        (None, None) => true,
        _ => false,
    }
}

/// Whether two hooks are the same.
fn same_hook(a: &Hook, b: &Hook) -> (r: bool)
    ensures
        r == (a@ == b@),
{
    match (a, b) {
        (Hook::Install, Hook::Install) => true,
        (Hook::Uninstall, Hook::Uninstall) => true,
        (Hook::Custom(x), Hook::Custom(y)) => same_string(x, y),
        _ => false,
    }
}

/// Whether two lists of hooks hold the same hooks in the same order.
fn same_hooks(a: &Vec<Hook>, b: &Vec<Hook>) -> (r: bool)
    ensures
        r == (a@.map_values(|h: Hook| h@) == b@.map_values(|h: Hook| h@)),
{
    let ghost va = a@.map_values(|h: Hook| h@);
    let ghost vb = b@.map_values(|h: Hook| h@);
    if a.len() != b.len() {
        assert(va.len() != vb.len());
        return false;
    }
    let mut i: usize = 0;
    while i < a.len()
        invariant
            a@.len() == b@.len(),
            i <= a@.len(),
            va == a@.map_values(|h: Hook| h@),
            vb == b@.map_values(|h: Hook| h@),
            forall|j: int| 0 <= j < i ==> va[j] == vb[j],
        decreases a@.len() - i,
    {
        if !same_hook(&a[i], &b[i]) {
            assert(va[i as int] != vb[i as int]);
            return false;
        }
        i = i + 1;
    }
    assert(va =~= vb);
    true
}

/// Whether two links are the same.
fn same_link(a: &Link, b: &Link) -> (r: bool)
    ensures
        r == (a@ == b@),
{
    same_string(&a.source, &b.source) && same_string(&a.target, &b.target)
}

/// Whether two repositories are the same.
fn same_repo(a: &Repo, b: &Repo) -> (r: bool)
    ensures
        r == (a@ == b@),
{
    same_string(&a.path, &b.path) && same_string(&a.url, &b.url) && same_opt_string(&a.branch, &b.branch)
        && same_opt_string(&a.remote, &b.remote) && same_opt_string(&a.ssh_key_path, &b.ssh_key_path)
}

/// Whether two packages are the same.
fn same_package(a: &Package, b: &Package) -> (r: bool)
    ensures
        r == (a@ == b@),
{
    same_string(&a.name, &b.name) && same_strings(&a.managers, &b.managers) && same_pairs(&a.aliases, &b.aliases)
}

/// Whether two package managers are the same.
fn same_manager(a: &PackageManager, b: &PackageManager) -> (r: bool)
    ensures
        r == (a@ == b@),
{
    same_string(&a.name, &b.name) && same_opt_command(&a.shell_bootstrap, &b.shell_bootstrap)
        && same_opt_command(&a.shell_install, &b.shell_install)
        && same_opt_command(&a.shell_uninstall, &b.shell_uninstall)
        && same_opt_command(&a.shell_has, &b.shell_has)
}

/// Whether two shell hooks are the same.
fn same_shell_hook(a: &ShellHook, b: &ShellHook) -> (r: bool)
    ensures
        r == (a@ == b@),
{
    same_hooks(&a.on, &b.on) && same_command(&a.command, &b.command)
}

/// Whether two build steps are the same.
pub fn same_unit(a: &BuildUnit, b: &BuildUnit) -> (r: bool)
    ensures
        r == (a@ == b@),
{
    match (a, b) {
        (BuildUnit::Repo(x), BuildUnit::Repo(y)) => same_repo(x, y),
        (BuildUnit::Link(x), BuildUnit::Link(y)) => same_link(x, y),
        (BuildUnit::Hook(x), BuildUnit::Hook(y)) => same_shell_hook(x, y),
        (BuildUnit::Package(x), BuildUnit::Package(y)) => same_package(x, y),
        (BuildUnit::PackageManager(x), BuildUnit::PackageManager(y)) => same_manager(x, y),
        _ => false,
    }
}

/// Build steps taken by their views.
pub open spec fn units_view(units: Seq<BuildUnit>) -> Seq<BuildUnitView> {
    units.map_values(|u: BuildUnit| u@)
}

/// The positions, in increasing order, of the steps among the first `n` of
/// `current` that `base` does not hold.
pub open spec fn steps_missing_from(current: Seq<BuildUnitView>, base: Seq<BuildUnitView>, n: int) -> Seq<int>
    decreases n,
{
    if n <= 0 {
        Seq::empty()
    } else {
        let rest = steps_missing_from(current, base, n - 1);
        if base.contains(current[n - 1]) {
            rest
        } else {
            rest.push(n - 1)
        }
    }
}

/// Whether `base` holds a step that is the same as `unit`.
fn holds_unit(base: &Vec<BuildUnit>, unit: &BuildUnit) -> (r: bool)
    ensures
        r == units_view(base@).contains(unit@),
{
    let ghost vb = units_view(base@);
    let mut i: usize = 0;
    while i < base.len()
        invariant
            i <= base@.len(),
            vb == units_view(base@),
            forall|j: int| 0 <= j < i ==> vb[j] != unit@,
        decreases base@.len() - i,
    {
        if same_unit(&base[i], unit) {
            assert(vb[i as int] == unit@);
            return true;
        }
        i = i + 1;
    }
    assert(!vb.contains(unit@));
    false
}

/// The positions, in order, of the steps of `current` that `base` does not
/// hold.
pub fn unit_diff(current: &Vec<BuildUnit>, base: &Vec<BuildUnit>) -> (r: Vec<usize>)
    ensures
        r@.map_values(|i: usize| i as int) == steps_missing_from(units_view(current@), units_view(base@), current@.len() as int),
{
    let ghost vc = units_view(current@);
    let ghost vb = units_view(base@);
    let mut r: Vec<usize> = Vec::new();
    let mut i: usize = 0;
    while i < current.len()
        invariant
            i <= current@.len(),
            vc == units_view(current@),
            vb == units_view(base@),
            r@.map_values(|k: usize| k as int) == steps_missing_from(vc, vb, i as int),
        decreases current@.len() - i,
    {
        let ghost before = r@;
        if !holds_unit(base, &current[i]) {
            r.push(i);
            assert(r@.map_values(|k: usize| k as int) =~= before.map_values(|k: usize| k as int).push(i as int));
        }
        i = i + 1;
    }
    r
}

} // verus!

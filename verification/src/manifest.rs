//! The project manifest: deployment targets and, per target, the packages it
//! depends on with their version specifiers.

use vstd::prelude::*;

verus! {

/// How a dependency names its version.
#[derive(Clone, Copy, Debug, PartialEq, Eq, Structural)]
pub enum VersionSpec {
    /// An explicit version number.
    Pinned(u64),
    /// Whatever version the cache's "latest" pointer names.
    Latest,
}

/// The deployment endpoints of one target.
#[derive(Debug)]
pub struct Target {
    pub asset_hub: String,
    pub bulletin: String,
    pub registry: String,
}

/// A target under its identifier.
#[derive(Debug)]
pub struct NamedTarget {
    pub target_id: String,
    pub target: Target,
}

/// One package that a target depends on.
#[derive(Debug)]
pub struct Dependency {
    pub name: String,
    pub version: VersionSpec,
}

/// The packages that one target depends on.
#[derive(Debug)]
pub struct TargetDependencies {
    pub target_id: String,
    pub packages: Vec<Dependency>,
}

/// A parsed manifest.
#[derive(Debug)]
pub struct Manifest {
    pub targets: Vec<NamedTarget>,
    pub dependencies: Vec<TargetDependencies>,
}

/// One place where a package was found: the target and the version specifier
/// that the target gives it.
pub struct Located {
    pub target_id: String,
    pub version: VersionSpec,
}

/// Whether no package name occurs twice.
pub open spec fn distinct_packages(packages: Seq<Dependency>) -> bool {
    forall|i: int, j: int|
        0 <= i < j < packages.len() ==> (#[trigger] packages[i]).name@ != (
        #[trigger] packages[j]).name@
}

/// The invariant of a manifest, which holds its two mappings as lists: no
/// target identifier occurs twice in either, and no package name occurs twice
/// among the dependencies of one target.
pub open spec fn manifest_wf(m: Manifest) -> bool {
    &&& forall|i: int, j: int|
        0 <= i < j < m.targets.len() ==> (#[trigger] m.targets[i]).target_id@ != (
        #[trigger] m.targets[j]).target_id@
    &&& forall|i: int, j: int|
        0 <= i < j < m.dependencies.len() ==> (#[trigger] m.dependencies[i]).target_id@ != (
        #[trigger] m.dependencies[j]).target_id@
    &&& forall|i: int|
        0 <= i < m.dependencies.len() ==> distinct_packages(
            (#[trigger] m.dependencies[i]).packages@,
        )
}

/// The version specifier of the first entry for `name`, if there is one.
pub open spec fn lookup(packages: Seq<Dependency>, name: Seq<char>) -> Option<VersionSpec>
    decreases packages.len(),
{
    if packages.len() == 0 {
        None
    } else if packages[0].name@ == name {
        Some(packages[0].version)
    } else {
        lookup(packages.drop_first(), name)
    }
}

/// The targets that depend on `name`, in the manifest's order, each with the
/// specifier it gives.
pub open spec fn matches_of(deps: Seq<TargetDependencies>, name: Seq<char>) -> Seq<
    (Seq<char>, VersionSpec),
>
    decreases deps.len(),
{
    if deps.len() == 0 {
        Seq::empty()
    } else {
        let before = matches_of(deps.drop_last(), name);
        match lookup(deps.last().packages@, name) {
            Some(v) => before.push((deps.last().target_id@, v)),
            None => before,
        }
    }
}

/// `lookup` finds a name exactly when some entry carries it.
pub proof fn lemma_lookup(packages: Seq<Dependency>, name: Seq<char>)
    ensures
        lookup(packages, name) is Some <==> exists|i: int|
            0 <= i < packages.len() && (#[trigger] packages[i]).name@ == name,
    decreases packages.len(),
{
    if packages.len() > 0 && packages[0].name@ != name {
        let rest = packages.drop_first();
        lemma_lookup(rest, name);
        if lookup(rest, name) is Some {
            let i = choose|i: int| 0 <= i < rest.len() && (#[trigger] rest[i]).name@ == name;
            assert(packages[i + 1].name@ == name);
        }
        if exists|i: int| 0 <= i < packages.len() && (#[trigger] packages[i]).name@ == name {
            let i = choose|i: int|
                0 <= i < packages.len() && (#[trigger] packages[i]).name@ == name;
            assert(rest[i - 1].name@ == name);
        }
    } else if packages.len() > 0 {
        assert(packages[0].name@ == name);
    }
}

/// Every target that depends on `name` is listed by `matches_of`, and two such
/// targets are listed in the order in which the manifest holds them.
pub proof fn lemma_matches_hold(deps: Seq<TargetDependencies>, name: Seq<char>, i: int, j: int)
    requires
        0 <= i < j < deps.len(),
        lookup(deps[i].packages@, name) is Some,
        lookup(deps[j].packages@, name) is Some,
    ensures
        exists|a: int, b: int|
            0 <= a < b < matches_of(deps, name).len() && (#[trigger] matches_of(deps, name)[a]).0
                == deps[i].target_id@ && (#[trigger] matches_of(deps, name)[b]).0
                == deps[j].target_id@,
    decreases deps.len(),
{
    let front = deps.drop_last();
    let before = matches_of(front, name);
    let all = matches_of(deps, name);
    if j == deps.len() - 1 {
        lemma_match_held(front, name, i);
        let a = choose|a: int| 0 <= a < before.len() && (#[trigger] before[a]).0 == front[i].target_id@;
        let b = before.len() as int;
        assert(all[a] == before[a]);
        assert(all[b].0 == deps[j].target_id@);
    } else {
        lemma_matches_hold(front, name, i, j);
        let (a, b) = choose|a: int, b: int|
            0 <= a < b < before.len() && (#[trigger] before[a]).0 == front[i].target_id@ && (
            #[trigger] before[b]).0 == front[j].target_id@;
        assert(all[a] == before[a]);
        assert(all[b] == before[b]);
    }
}

/// A target that depends on `name` is listed by `matches_of`.
pub proof fn lemma_match_held(deps: Seq<TargetDependencies>, name: Seq<char>, i: int)
    requires
        0 <= i < deps.len(),
        lookup(deps[i].packages@, name) is Some,
    ensures
        exists|a: int|
            0 <= a < matches_of(deps, name).len() && (#[trigger] matches_of(deps, name)[a]).0
                == deps[i].target_id@,
    decreases deps.len(),
{
    let front = deps.drop_last();
    let before = matches_of(front, name);
    let all = matches_of(deps, name);
    if i == deps.len() - 1 {
        assert(all[before.len() as int].0 == deps[i].target_id@);
    } else {
        lemma_match_held(front, name, i);
        let a = choose|a: int| 0 <= a < before.len() && (#[trigger] before[a]).0 == front[i].target_id@;
        assert(all[a] == before[a]);
    }
}

/// A package that two different targets depend on has at least two matches,
/// among them both targets, whichever of the two the manifest holds first.
pub proof fn lemma_two_targets_are_ambiguous(
    deps: Seq<TargetDependencies>,
    name: Seq<char>,
    i: int,
    j: int,
)
    requires
        0 <= i < deps.len(),
        0 <= j < deps.len(),
        i != j,
        lookup(deps[i].packages@, name) is Some,
        lookup(deps[j].packages@, name) is Some,
    ensures
        matches_of(deps, name).len() > 1,
        exists|a: int|
            0 <= a < matches_of(deps, name).len() && (#[trigger] matches_of(deps, name)[a]).0
                == deps[i].target_id@,
        exists|b: int|
            0 <= b < matches_of(deps, name).len() && (#[trigger] matches_of(deps, name)[b]).0
                == deps[j].target_id@,
{
    if i < j {
        lemma_matches_hold(deps, name, i, j);
    } else {
        lemma_matches_hold(deps, name, j, i);
    }
    lemma_match_held(deps, name, i);
    lemma_match_held(deps, name, j);
}

/// Everything that `matches_of` lists is a target of the manifest that depends
/// on `name`, with the specifier that the target gives.
pub proof fn lemma_matches_come_from_targets(deps: Seq<TargetDependencies>, name: Seq<char>, a: int)
    requires
        0 <= a < matches_of(deps, name).len(),
    ensures
        exists|i: int|
            0 <= i < deps.len() && matches_of(deps, name)[a].0 == (#[trigger] deps[i]).target_id@
                && lookup(deps[i].packages@, name) == Some(matches_of(deps, name)[a].1),
    decreases deps.len(),
{
    let front = deps.drop_last();
    let before = matches_of(front, name);
    if a < before.len() {
        lemma_matches_come_from_targets(front, name, a);
        let i = choose|i: int|
            0 <= i < front.len() && before[a].0 == (#[trigger] front[i]).target_id@ && lookup(
                front[i].packages@,
                name,
            ) == Some(before[a].1);
        assert(deps[i] == front[i]);
    } else {
        assert(deps[deps.len() - 1] == deps.last());
    }
}

/// Where no target identifier occurs twice among the dependencies, no target
/// is listed twice by `matches_of`.
pub proof fn lemma_matches_are_distinct(deps: Seq<TargetDependencies>, name: Seq<char>)
    requires
        forall|i: int, j: int|
            0 <= i < j < deps.len() ==> (#[trigger] deps[i]).target_id@ != (
            #[trigger] deps[j]).target_id@,
    ensures
        forall|a: int, b: int|
            0 <= a < b < matches_of(deps, name).len() ==> (#[trigger] matches_of(deps, name)[a]).0
                != (#[trigger] matches_of(deps, name)[b]).0,
    decreases deps.len(),
{
    if deps.len() > 0 {
        let front = deps.drop_last();
        let before = matches_of(front, name);
        let all = matches_of(deps, name);
        assert forall|i: int, j: int| 0 <= i < j < front.len() implies (
        #[trigger] front[i]).target_id@ != (#[trigger] front[j]).target_id@ by {
            assert(front[i] == deps[i]);
            assert(front[j] == deps[j]);
        }
        lemma_matches_are_distinct(front, name);
        assert forall|a: int, b: int| 0 <= a < b < all.len() implies (#[trigger] all[a]).0 != (
        #[trigger] all[b]).0 by {
            assert(all[a] == before[a]);
            if b < before.len() {
                assert(all[b] == before[b]);
            } else {
                lemma_matches_come_from_targets(front, name, a);
                let i = choose|i: int|
                    0 <= i < front.len() && before[a].0 == (#[trigger] front[i]).target_id@;
                assert(front[i] == deps[i]);
                assert(deps[i].target_id@ != deps[deps.len() - 1].target_id@);
            }
        }
    }
}

/// Looks a package up among the dependencies of one target.
pub fn find_dependency(packages: &Vec<Dependency>, name: &String) -> (r: Option<VersionSpec>)
    ensures
        r == lookup(packages@, name@),
{
    let mut i: usize = 0;
    assert(packages@.subrange(0, packages.len() as int) =~= packages@);
    while i < packages.len()
        invariant
            i <= packages.len(),
            lookup(packages@, name@) == lookup(
                packages@.subrange(i as int, packages.len() as int),
                name@,
            ),
        decreases packages.len() - i,
    {
        proof {
            let tail = packages@.subrange(i as int, packages.len() as int);
            assert(tail[0] == packages@[i as int]);
            assert(tail.drop_first() =~= packages@.subrange(i + 1, packages.len() as int));
        }
        if packages[i].name == *name {
            return Some(packages[i].version);
        }
        i += 1;
    }
    None
}

/// Collects every target of the manifest that depends on `name`.
pub fn find_matches(manifest: &Manifest, name: &String) -> (r: Vec<Located>)
    ensures
        r.len() == matches_of(manifest.dependencies@, name@).len(),
        forall|a: int|
            0 <= a < r.len() ==> (#[trigger] r[a]).target_id@ == matches_of(
                manifest.dependencies@,
                name@,
            )[a].0 && r[a].version == matches_of(manifest.dependencies@, name@)[a].1,
{
    let deps = &manifest.dependencies;
    let mut found: Vec<Located> = Vec::new();
    let mut i: usize = 0;
    while i < deps.len()
        invariant
            i <= deps.len(),
            found.len() == matches_of(deps@.subrange(0, i as int), name@).len(),
            forall|a: int|
                0 <= a < found.len() ==> (#[trigger] found[a]).target_id@ == matches_of(
                    deps@.subrange(0, i as int),
                    name@,
                )[a].0 && found[a].version == matches_of(deps@.subrange(0, i as int), name@)[a].1,
        decreases deps.len() - i,
    {
        proof {
            let next = deps@.subrange(0, i + 1);
            assert(next.last() == deps@[i as int]);
            assert(next.drop_last() =~= deps@.subrange(0, i as int));
        }
        match find_dependency(&deps[i].packages, name) {
            Some(version) => {
                found.push(Located { target_id: deps[i].target_id.clone(), version });
            },
            None => {},
        }
        i += 1;
    }
    assert(deps@.subrange(0, deps.len() as int) =~= deps@);
    found
}

} // verus!

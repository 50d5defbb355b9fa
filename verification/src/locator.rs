//! Choice of the project manifest among the candidates of a directory and its
//! ancestors.

use vstd::prelude::*;
use vstd::string::*;
use crate::resolver::ResolveError;

verus! {

/// One candidate manifest path, and whether a file stands there.
pub struct ManifestProbe {
    /// The manifest path inside one directory.
    pub candidate: String,
    /// Whether that path exists.
    pub exists: bool,
}

/// The candidate of the first probe that exists, if any does.
pub open spec fn first_found(probes: Seq<ManifestProbe>) -> Option<Seq<char>>
    decreases probes.len(),
{
    if probes.len() == 0 {
        None
    } else if probes[0].exists {
        Some(probes[0].candidate@)
    } else {
        first_found(probes.drop_first())
    }
}

/// `first_found` is `None` exactly when no probe exists; otherwise it is the
/// candidate of an existing probe before which none exists.
pub proof fn lemma_first_found(probes: Seq<ManifestProbe>)
    ensures
        first_found(probes) is None <==> forall|i: int|
            0 <= i < probes.len() ==> !(#[trigger] probes[i]).exists,
        first_found(probes) is Some ==> exists|i: int|
            0 <= i < probes.len() && (#[trigger] probes[i]).exists && first_found(probes)
                == Some(probes[i].candidate@) && forall|j: int|
                0 <= j < i ==> !(#[trigger] probes[j]).exists,
    decreases probes.len(),
{
    if probes.len() > 0 && !probes[0].exists {
        let rest = probes.drop_first();
        lemma_first_found(rest);
        assert forall|i: int| 0 <= i < rest.len() implies rest[i] == probes[i + 1] by {}
        if first_found(rest) is Some {
            let k = choose|i: int|
                0 <= i < rest.len() && (#[trigger] rest[i]).exists && first_found(rest) == Some(
                    rest[i].candidate@,
                ) && forall|j: int| 0 <= j < i ==> !(#[trigger] rest[j]).exists;
            assert(probes[k + 1].exists);
            assert forall|j: int| 0 <= j < k + 1 implies !(#[trigger] probes[j]).exists by {
                if j > 0 {
                    assert(rest[j - 1] == probes[j]);
                }
            }
        } else {
            assert forall|i: int| 0 <= i < probes.len() implies !(#[trigger] probes[i]).exists by {
                if i > 0 {
                    assert(rest[i - 1] == probes[i]);
                }
            }
        }
    } else if probes.len() > 0 {
        assert(probes[0].exists);
    }
}

/// Searching from a directory below the manifest finds what searching from the
/// manifest's own directory finds: directories without a manifest, put in front
/// of the search, do not change its result.
pub proof fn lemma_search_from_below(below: Seq<ManifestProbe>, above: Seq<ManifestProbe>)
    requires
        forall|i: int| 0 <= i < below.len() ==> !(#[trigger] below[i]).exists,
    ensures
        first_found(below + above) == first_found(above),
    decreases below.len(),
{
    if below.len() == 0 {
        assert(below + above =~= above);
    } else {
        let all = below + above;
        assert(all[0] == below[0]);
        assert(all.drop_first() =~= below.drop_first() + above);
        assert forall|i: int| 0 <= i < below.drop_first().len() implies !(
        #[trigger] below.drop_first()[i]).exists by {
            assert(below.drop_first()[i] == below[i + 1]);
        }
        lemma_search_from_below(below.drop_first(), above);
    }
}

/// The search needs no probe behind the first that exists: with the probes cut
/// off there, it finds the same manifest, the candidate of that probe.
pub proof fn lemma_search_stops_at_first_hit(probes: Seq<ManifestProbe>, k: int)
    requires
        0 <= k < probes.len(),
        probes[k].exists,
        forall|j: int| 0 <= j < k ==> !(#[trigger] probes[j]).exists,
    ensures
        first_found(probes) == Some(probes[k].candidate@),
        first_found(probes.subrange(0, k + 1)) == first_found(probes),
{
    let below = probes.subrange(0, k);
    let above = probes.subrange(k, probes.len() as int);
    let one = probes.subrange(k, k + 1);
    assert(below + above =~= probes);
    assert(below + one =~= probes.subrange(0, k + 1));
    assert forall|j: int| 0 <= j < below.len() implies !(#[trigger] below[j]).exists by {
        assert(below[j] == probes[j]);
    }
    lemma_search_from_below(below, above);
    lemma_search_from_below(below, one);
    assert(above[0] == probes[k]);
    assert(one[0] == probes[k]);
}

/// Picks the manifest among the probes of a directory and its ancestors,
/// nearest first: the first candidate that exists, or `None` where none does.
pub fn find_cdm_json(probes: &Vec<ManifestProbe>) -> (r: Option<String>)
    ensures
        r is Some == first_found(probes@) is Some,
        r is Some ==> Some(r->Some_0@) == first_found(probes@),
{
    let mut i: usize = 0;
    assert(probes@.subrange(0, probes.len() as int) =~= probes@);
    while i < probes.len()
        invariant
            i <= probes.len(),
            first_found(probes@) == first_found(probes@.subrange(i as int, probes.len() as int)),
        decreases probes.len() - i,
    {
        proof {
            let tail = probes@.subrange(i as int, probes.len() as int);
            assert(tail[0] == probes@[i as int]);
            assert(tail.drop_first() =~= probes@.subrange(i + 1, probes.len() as int));
        }
        if probes[i].exists {
            return Some(probes[i].candidate.clone());
        }
        i += 1;
    }
    None
}

/// Picks the manifest as `find_cdm_json` does, and fails with
/// `ManifestNotFound` and the directory the search began in where no candidate
/// exists.
pub fn locate_manifest(start: &str, probes: &Vec<ManifestProbe>) -> (r: Result<
    String,
    ResolveError,
>)
    ensures
        match r {
            Ok(path) => first_found(probes@) == Some(path@),
            Err(ResolveError::ManifestNotFound { searched_from }) => first_found(probes@) is None
                && searched_from@ == start@,
            Err(_) => false,
        },
{
    match find_cdm_json(probes) {
        Some(path) => Ok(path),
        None => Err(ResolveError::ManifestNotFound { searched_from: String::from_str(start) }),
    }
}

} // verus!

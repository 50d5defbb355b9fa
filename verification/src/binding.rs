//! Naming of the generated binding for a resolved package.

use vstd::prelude::*;
use vstd::string::*;
use crate::resolver::ResolvedReference;
use crate::text::push_char;

verus! {

/// Where the last path segment of `s` begins: just behind its last `/`, or at
/// 0 where it has none.
pub open spec fn segment_start(s: Seq<char>) -> int
    decreases s.len(),
{
    if s.len() == 0 {
        0
    } else if s.last() == '/' {
        s.len() as int
    } else {
        segment_start(s.drop_last())
    }
}

/// The part of `s` behind its last `/`.
pub open spec fn last_segment(s: Seq<char>) -> Seq<char> {
    s.subrange(segment_start(s), s.len() as int)
}

/// The characters that may stand in a binding identifier: the ASCII letters,
/// the ASCII digits and the underscore.
pub open spec fn is_identifier_char(c: char) -> bool {
    let code = c as u32;
    (97 <= code <= 122) || (65 <= code <= 90) || (48 <= code <= 57) || code == 95
}

/// A character that may stand in an identifier stays; every other character,
/// the hyphen among them, becomes an underscore.
pub open spec fn identifier_char(c: char) -> char {
    if is_identifier_char(c) {
        c
    } else {
        '_'
    }
}

/// The binding identifier of a package name.
pub open spec fn module_name(s: Seq<char>) -> Seq<char> {
    last_segment(s).map_values(|c: char| identifier_char(c))
}

/// `segment_start` marks the last `/`: it lies within `s`, a `/` stands right
/// before it unless it is 0, and no `/` follows it.
pub proof fn lemma_segment_start(s: Seq<char>)
    ensures
        0 <= segment_start(s) <= s.len(),
        segment_start(s) > 0 ==> s[segment_start(s) - 1] == '/',
        forall|i: int| segment_start(s) <= i < s.len() ==> s[i] != '/',
    decreases s.len(),
{
    if s.len() > 0 && s.last() != '/' {
        let front = s.drop_last();
        lemma_segment_start(front);
        assert forall|i: int| segment_start(s) <= i < s.len() implies s[i] != '/' by {
            if i < front.len() {
                assert(front[i] == s[i]);
            }
        }
    }
}

/// The derived identifier is as long as the last segment of the package name,
/// every character of it may stand in an identifier, and a character of the
/// segment that may stand in an identifier is kept.
pub proof fn lemma_module_name_is_clean(s: Seq<char>)
    ensures
        module_name(s).len() == last_segment(s).len(),
        forall|i: int|
            0 <= i < module_name(s).len() ==> is_identifier_char(#[trigger] module_name(s)[i]),
        forall|i: int|
            0 <= i < module_name(s).len() && is_identifier_char(last_segment(s)[i])
                ==> #[trigger] module_name(s)[i] == last_segment(s)[i],
{
    lemma_segment_start(s);
}

/// Derives the binding identifier from a package name: the text behind the
/// last `/`, with each character that may not stand in an identifier replaced
/// by an underscore.
pub fn derive_module_name(package_name: &str) -> (r: String)
    ensures
        r@ == module_name(package_name@),
{
    let n: usize = package_name.unicode_len();
    let mut start: usize = 0;
    let mut i: usize = 0;
    while i < n
        invariant
            i <= n,
            n == package_name@.len(),
            start <= i,
            start == segment_start(package_name@.subrange(0, i as int)),
        decreases n - i,
    {
        let c = package_name.get_char(i);
        proof {
            let next = package_name@.subrange(0, i + 1);
            assert(next.last() == c);
            assert(next.drop_last() =~= package_name@.subrange(0, i as int));
        }
        if c == '/' {
            start = i + 1;
        }
        i += 1;
    }
    assert(package_name@.subrange(0, n as int) =~= package_name@);
    let mut out = String::new();
    let mut j: usize = start;
    while j < n
        invariant
            start <= j <= n,
            n == package_name@.len(),
            out@ == package_name@.subrange(start as int, j as int).map_values(
                |c: char| identifier_char(c),
            ),
        decreases n - j,
    {
        let c = package_name.get_char(j);
        let code: u32 = c as u32;
        let keep = (97 <= code && code <= 122) || (65 <= code && code <= 90) || (48 <= code
            && code <= 57) || code == 95;
        let mapped = if keep {
            c
        } else {
            '_'
        };
        push_char(&mut out, mapped);
        assert(out@ =~= package_name@.subrange(start as int, j + 1).map_values(
            |c: char| identifier_char(c),
        ));
        j += 1;
    }
    out
}

/// A generated reference binding: the identifier it is keyed by, the interface
/// file it is built from, and the package it came from.
#[derive(Debug)]
pub struct Binding {
    pub module_name: String,
    pub artifact_path: String,
    pub package_name: String,
}

/// The binding of a resolved reference: keyed by the identifier derived from
/// the package name, and tagged with that name.
pub fn emit_binding(reference: &ResolvedReference) -> (r: Binding)
    ensures
        r.module_name@ == module_name(reference.package_name@),
        r.artifact_path@ == reference.artifact_path@,
        r.package_name@ == reference.package_name@,
{
    Binding {
        module_name: derive_module_name(reference.package_name.as_str()),
        artifact_path: reference.artifact_path.clone(),
        package_name: reference.package_name.clone(),
    }
}

} // verus!

//! Annotation propagation and tag-list utilities.
//!
//! A node owns two annotation buckets: `self_only` tags apply to the node
//! alone, `recursive` tags apply to the node and are re-injected into every
//! descendant.  The effective tag set of a node merges, in order: the
//! self-only tags of the use-site override, the node's own self-only tags,
//! the node's own recursive tags, the override's recursive tags, and the
//! recursive tags inherited from every ancestor.  Because recursive
//! propagation makes repeated tags structurally unavoidable, the merged list
//! is deduplicated silently, keeping the first occurrence of each tag.

use vstd::prelude::*;

use crate::schema::{Annotations, AnnotationsV};

verus! {

// ---------------------------------------------------------------------------
// Membership and first-occurrence deduplication.
// ---------------------------------------------------------------------------

/// Keeps the first occurrence of every tag, dropping later repeats.
pub open spec fn dedup_spec(s: Seq<Seq<char>>) -> Seq<Seq<char>>
    decreases s.len(),
{
    if s.len() == 0 {
        Seq::empty()
    } else {
        let prefix = dedup_spec(s.drop_last());
        if s.drop_last().contains(s.last()) {
            prefix
        } else {
            prefix.push(s.last())
        }
    }
}

/// Deduplication keeps exactly the set of tags.
pub proof fn lemma_dedup_membership(s: Seq<Seq<char>>)
    ensures
        forall|x: Seq<char>| #[trigger] dedup_spec(s).contains(x) <==> s.contains(x),
    decreases s.len(),
{
    if s.len() > 0 {
        lemma_dedup_membership(s.drop_last());
        assert forall|x: Seq<char>| s.contains(x) implies #[trigger] dedup_spec(s).contains(x) by {
            let i = choose|i: int| 0 <= i < s.len() && s[i] == x;
            let p = dedup_spec(s.drop_last());
            if i < s.len() - 1 {
                assert(s.drop_last()[i] == x);
                assert(s.drop_last().contains(x));
                assert(p.contains(x));
                let k = choose|k: int| 0 <= k < p.len() && p[k] == x;
                if s.drop_last().contains(s.last()) {
                    assert(dedup_spec(s) == p);
                } else {
                    assert(dedup_spec(s)[k] == x);
                }
                assert(dedup_spec(s).contains(x));
            } else {
                assert(x == s.last());
                if s.drop_last().contains(x) {
                    assert(p.contains(x));
                    assert(dedup_spec(s) == p);
                } else {
                    assert(dedup_spec(s) == p.push(x));
                    assert(dedup_spec(s)[p.len() as int] == x);
                }
                assert(dedup_spec(s).contains(x));
            }
        }
        assert forall|x: Seq<char>| #[trigger] dedup_spec(s).contains(x) implies s.contains(x) by {
            if dedup_spec(s.drop_last()).contains(x) {
                let i = choose|i: int| 0 <= i < s.drop_last().len() && s.drop_last()[i] == x;
                assert(s[i] == x);
            } else if dedup_spec(s).contains(x) {
                assert(x == s.last());
                assert(s[s.len() - 1] == x);
            }
        }
    }
}

/// Deduplication leaves no repeated tag behind.
pub proof fn lemma_dedup_distinct(s: Seq<Seq<char>>)
    ensures
        forall|i: int, j: int|
            0 <= i < j < dedup_spec(s).len() ==> dedup_spec(s)[i] != dedup_spec(s)[j],
    decreases s.len(),
{
    if s.len() > 0 {
        lemma_dedup_distinct(s.drop_last());
        lemma_dedup_membership(s.drop_last());
        if !s.drop_last().contains(s.last()) {
            assert forall|i: int, j: int|
                0 <= i < j < dedup_spec(s).len() implies dedup_spec(s)[i] != dedup_spec(s)[j] by {
                if j < dedup_spec(s).len() - 1 {
                    assert(dedup_spec(s)[i] == dedup_spec(s.drop_last())[i]);
                    assert(dedup_spec(s)[j] == dedup_spec(s.drop_last())[j]);
                } else {
                    assert(dedup_spec(s)[i] == dedup_spec(s.drop_last())[i]);
                    assert(dedup_spec(s.drop_last()).contains(dedup_spec(s.drop_last())[i]));
                    assert(dedup_spec(s)[j] == s.last());
                }
            }
        }
    }
}

/// Whether `v` holds a string whose characters are `x@`.
pub fn contains_string(v: &Vec<String>, x: &String) -> (b: bool)
    ensures
        b == v.deep_view().contains(x@),
{
    let mut i: usize = 0;
    while i < v.len()
        invariant
            i <= v.len(),
            forall|k: int| 0 <= k < i ==> v.deep_view()[k] != x@,
        decreases v.len() - i,
    {
        if v[i].eq(x) {
            assert(v.deep_view()[i as int] == x@);
            return true;
        }
        i += 1;
    }
    false
}

/// Deduplicates a tag list, keeping the first occurrence of each tag.
pub fn dedup_tags(v: &Vec<String>) -> (r: Vec<String>)
    ensures
        r.deep_view() == dedup_spec(v.deep_view()),
{
    let mut seen: Vec<String> = Vec::new();
    let mut out: Vec<String> = Vec::new();
    let mut i: usize = 0;
    while i < v.len()
        invariant
            i <= v.len(),
            seen.deep_view() == v.deep_view().take(i as int),
            out.deep_view() == dedup_spec(v.deep_view().take(i as int)),
        decreases v.len() - i,
    {
        let ghost prefix = v.deep_view().take(i as int);
        let ghost next = v.deep_view().take(i + 1);
        proof {
            assert(next.drop_last() =~= prefix);
            assert(next.last() == v.deep_view()[i as int]);
        }
        if !contains_string(&seen, &v[i]) {
            out.push(v[i].clone());
        }
        seen.push(v[i].clone());
        proof {
            assert(seen.deep_view() =~= v.deep_view().take(i + 1));
        }
        i += 1;
    }
    proof {
        assert(v.deep_view().take(v.len() as int) =~= v.deep_view());
    }
    out
}

// ---------------------------------------------------------------------------
// Concatenation helpers.
// ---------------------------------------------------------------------------

/// Appends clones of all strings in `src` to `dst`.
pub fn append_strings(dst: &mut Vec<String>, src: &Vec<String>)
    ensures
        final(dst).deep_view() == old(dst).deep_view() + src.deep_view(),
{
    let mut i: usize = 0;
    while i < src.len()
        invariant
            i <= src.len(),
            dst.deep_view() == old(dst).deep_view() + src.deep_view().take(i as int),
        decreases src.len() - i,
    {
        let ghost prev_deep = dst.deep_view();
        let ghost before = (*dst)@;
        let elem = src[i].clone();
        proof {
            assert(elem@ == src.deep_view()[i as int]);
            assert(prev_deep == old(dst).deep_view() + src.deep_view().take(i as int));
            assert(src.deep_view().take(i + 1) =~= src.deep_view().take(i as int).push(
                src.deep_view()[i as int],
            ));
        }
        dst.push(elem);
        proof {
            assert((*dst)@ == before.push(elem));
            assert(dst.deep_view().len() == before.len() + 1);
            assert forall|k: int| 0 <= k < before.len() implies dst.deep_view()[k] == prev_deep[k] by {
                assert((*dst)@[k] == before[k]);
                assert(prev_deep[k] == before[k].deep_view());
            }
            assert(dst.deep_view()[before.len() as int] == elem@);
            assert(dst.deep_view() =~= prev_deep.push(elem@));
            assert(prev_deep.push(elem@) =~= old(dst).deep_view() + src.deep_view().take(i + 1));
        }
        i += 1;
    }
    proof {
        assert(src.deep_view().take(src.len() as int) =~= src.deep_view());
    }
}

/// Pushes one string, tracking the deep view.
pub fn push_string(v: &mut Vec<String>, s: String)
    ensures
        final(v).deep_view() == old(v).deep_view().push(s@),
{
    let ghost prev_deep = v.deep_view();
    let ghost before = (*v)@;
    let ghost sv = s@;
    v.push(s);
    proof {
        assert((*v)@.len() == before.len() + 1);
        assert forall|k: int| 0 <= k < before.len() implies v.deep_view()[k] == prev_deep[k] by {
            assert((*v)@[k] == before[k]);
            assert(prev_deep[k] == before[k].deep_view());
        }
        assert(v.deep_view()[before.len() as int] == sv);
        assert(v.deep_view() =~= prev_deep.push(sv));
    }
}

/// Clones a tag list.
pub fn copy_strings(src: &Vec<String>) -> (r: Vec<String>)
    ensures
        r.deep_view() == src.deep_view(),
{
    let mut out: Vec<String> = Vec::new();
    append_strings(&mut out, src);
    proof {
        assert(Seq::<Seq<char>>::empty() + src.deep_view() =~= src.deep_view());
    }
    out
}

// ---------------------------------------------------------------------------
// The propagation rule.
// ---------------------------------------------------------------------------

/// The effective self-only tag set of a node: use-site override, own
/// declaration and every ancestor's recursive tags, merged and deduplicated.
pub open spec fn effective_spec(site: AnnotationsV, own: AnnotationsV, inherited: Seq<Seq<char>>) -> Seq<
    Seq<char>,
> {
    dedup_spec(site.self_only + own.self_only + own.recursive + site.recursive + inherited)
}

/// The recursive tag set a node hands to its direct children: what it
/// inherited itself, plus its own and its use-site's recursive tags.
pub open spec fn child_inherited_spec(
    site: AnnotationsV,
    own: AnnotationsV,
    inherited: Seq<Seq<char>>,
) -> Seq<Seq<char>> {
    inherited + own.recursive + site.recursive
}

/// Computes the effective self-only tag set of a node.  The rule is the same
/// whether the node is a record, a union, a field or a variant.
pub fn effective_annotations(site: &Annotations, own: &Annotations, inherited: &Vec<String>) -> (r:
    Vec<String>)
    ensures
        r.deep_view() == effective_spec(site.dv(), own.dv(), inherited.deep_view()),
{
    let mut all: Vec<String> = Vec::new();
    append_strings(&mut all, &site.self_only);
    append_strings(&mut all, &own.self_only);
    append_strings(&mut all, &own.recursive);
    append_strings(&mut all, &site.recursive);
    append_strings(&mut all, inherited);
    proof {
        assert(all.deep_view() =~= site.dv().self_only + own.dv().self_only + own.dv().recursive
            + site.dv().recursive + inherited.deep_view());
    }
    dedup_tags(&all)
}

/// Computes the recursive tag set handed to a node's direct children.
pub fn child_inherited(site: &Annotations, own: &Annotations, inherited: &Vec<String>) -> (r: Vec<
    String,
>)
    ensures
        r.deep_view() == child_inherited_spec(site.dv(), own.dv(), inherited.deep_view()),
{
    let mut all: Vec<String> = Vec::new();
    append_strings(&mut all, inherited);
    append_strings(&mut all, &own.recursive);
    append_strings(&mut all, &site.recursive);
    proof {
        assert(all.deep_view() =~= inherited.deep_view() + own.dv().recursive + site.dv().recursive);
    }
    all
}

/// An empty annotation pair, used at the root where no use site exists.
pub fn no_annotations() -> (r: Annotations)
    ensures
        r.dv().self_only == Seq::<Seq<char>>::empty(),
        r.dv().recursive == Seq::<Seq<char>>::empty(),
{
    let r = Annotations { self_only: Vec::new(), recursive: Vec::new() };
    proof {
        assert(r.dv().self_only =~= Seq::<Seq<char>>::empty());
        assert(r.dv().recursive =~= Seq::<Seq<char>>::empty());
    }
    r
}

// ---------------------------------------------------------------------------
// Duplicate-name detection.
// ---------------------------------------------------------------------------

/// The first name in `s` that repeats an earlier one, if any.
pub open spec fn first_duplicate_spec(s: Seq<Seq<char>>) -> Option<Seq<char>>
    decreases s.len(),
{
    if s.len() == 0 {
        Option::None
    } else {
        match first_duplicate_spec(s.drop_last()) {
            Option::Some(x) => Option::Some(x),
            Option::None => if s.drop_last().contains(s.last()) {
                Option::Some(s.last())
            } else {
                Option::None
            },
        }
    }
}

/// There is a duplicate exactly when two positions carry the same name.
pub proof fn lemma_first_duplicate_iff(s: Seq<Seq<char>>)
    ensures
        first_duplicate_spec(s) is Some <==> exists|i: int, j: int|
            0 <= i < j < s.len() && s[i] == s[j],
    decreases s.len(),
{
    if s.len() > 0 {
        lemma_first_duplicate_iff(s.drop_last());
        if first_duplicate_spec(s) is Some {
            if first_duplicate_spec(s.drop_last()) is Some {
                let (i, j) = choose|i: int, j: int|
                    0 <= i < j < s.drop_last().len() && s.drop_last()[i] == s.drop_last()[j];
                assert(s[i] == s[j]);
            } else {
                let i = choose|i: int|
                    0 <= i < s.drop_last().len() && s.drop_last()[i] == s.last();
                assert(s[i] == s[s.len() - 1]);
            }
        }
        if exists|i: int, j: int| 0 <= i < j < s.len() && s[i] == s[j] {
            let (i, j) = choose|i: int, j: int| 0 <= i < j < s.len() && s[i] == s[j];
            if j < s.len() - 1 {
                assert(s.drop_last()[i] == s.drop_last()[j]);
            } else {
                assert(s.drop_last()[i] == s.last());
                assert(s.drop_last().contains(s.last()));
            }
        }
    }
}

/// Finds the first repeated name in `v`, scanning left to right.
pub fn first_duplicate(v: &Vec<String>) -> (r: Option<String>)
    ensures
        match r {
            Option::Some(x) => first_duplicate_spec(v.deep_view()) == Option::Some(x@),
            Option::None => first_duplicate_spec(v.deep_view()) is None,
        },
{
    let mut seen: Vec<String> = Vec::new();
    let mut i: usize = 0;
    while i < v.len()
        invariant
            i <= v.len(),
            seen.deep_view() == v.deep_view().take(i as int),
            first_duplicate_spec(v.deep_view().take(i as int)) is None,
        decreases v.len() - i,
    {
        let ghost prefix = v.deep_view().take(i as int);
        let ghost next = v.deep_view().take(i + 1);
        proof {
            assert(next.drop_last() =~= prefix);
            assert(next.last() == v.deep_view()[i as int]);
        }
        if contains_string(&seen, &v[i]) {
            proof {
                lemma_first_duplicate_take_rest(v.deep_view(), i + 1);
            }
            return Some(v[i].clone());
        }
        seen.push(v[i].clone());
        proof {
            assert(seen.deep_view() =~= v.deep_view().take(i + 1));
        }
        i += 1;
    }
    proof {
        assert(v.deep_view().take(v.len() as int) =~= v.deep_view());
    }
    None
}

/// Once a prefix has produced a duplicate, the whole list produces the same
/// one.
proof fn lemma_first_duplicate_take_rest(s: Seq<Seq<char>>, k: int)
    requires
        0 <= k <= s.len(),
        first_duplicate_spec(s.take(k)) is Some,
    ensures
        first_duplicate_spec(s) == first_duplicate_spec(s.take(k)),
    decreases s.len() - k,
{
    if k < s.len() {
        assert(s.take(k + 1).drop_last() =~= s.take(k));
        lemma_first_duplicate_take_rest(s, k + 1);
    } else {
        assert(s.take(k) =~= s);
    }
}

} // verus!

//! The warnings that the sections of a comment give rise to: one for each
//! section with an empty body, and one for each section whose heading is not
//! recognized.

use vstd::prelude::*;
use crate::error::{
    empty_section_warning, unknown_section_warning, ParseWarning, WarningKind, WarningView,
};
use crate::section::{kind_of_heading, Section, SectionView};

verus! {

/// One warning for each section with an empty body, in the order of the
/// sections.
pub open spec fn empty_warnings(sections: Seq<SectionView>) -> Seq<WarningView>
    decreases sections.len(),
{
    if sections.len() == 0 {
        Seq::empty()
    } else {
        let rest = empty_warnings(sections.drop_last());
        if sections.last().content.len() == 0 {
            rest.push(empty_section_warning(sections.last().heading))
        } else {
            rest
        }
    }
}

/// One warning for each section whose heading is not recognized, in the order
/// of the sections.
pub open spec fn unknown_warnings(sections: Seq<SectionView>) -> Seq<WarningView>
    decreases sections.len(),
{
    if sections.len() == 0 {
        Seq::empty()
    } else {
        let rest = unknown_warnings(sections.drop_last());
        if kind_of_heading(sections.last().heading) is Unknown {
            rest.push(unknown_section_warning(sections.last().heading))
        } else {
            rest
        }
    }
}

/// The warnings that a list of sections gives rise to: first those for empty
/// bodies, then those for headings that are not recognized.
pub open spec fn section_warnings(sections: Seq<SectionView>) -> Seq<WarningView> {
    empty_warnings(sections) + unknown_warnings(sections)
}

/// Number of warnings of the kind `kind` among `warnings`.
pub open spec fn count_of_kind(warnings: Seq<WarningView>, kind: WarningKind) -> nat
    decreases warnings.len(),
{
    if warnings.len() == 0 {
        0
    } else {
        count_of_kind(warnings.drop_last(), kind) + if warnings.last().kind == kind {
            1nat
        } else {
            0nat
        }
    }
}

/// Number of sections with an empty body.
pub open spec fn empty_count(sections: Seq<SectionView>) -> nat
    decreases sections.len(),
{
    if sections.len() == 0 {
        0
    } else {
        empty_count(sections.drop_last()) + if sections.last().content.len() == 0 {
            1nat
        } else {
            0nat
        }
    }
}

/// Number of sections whose heading is not recognized.
pub open spec fn unknown_count(sections: Seq<SectionView>) -> nat
    decreases sections.len(),
{
    if sections.len() == 0 {
        0
    } else {
        unknown_count(sections.drop_last()) + if kind_of_heading(sections.last().heading)
            is Unknown {
            1nat
        } else {
            0nat
        }
    }
}

/// Counting the warnings of one kind in two lists that are put together.
pub proof fn lemma_count_of_kind_add(a: Seq<WarningView>, b: Seq<WarningView>, kind: WarningKind)
    ensures
        count_of_kind(a + b, kind) == count_of_kind(a, kind) + count_of_kind(b, kind),
    decreases b.len(),
{
    if b.len() > 0 {
        assert((a + b).drop_last() =~= a + b.drop_last());
        lemma_count_of_kind_add(a, b.drop_last(), kind);
    }
}

/// The warnings for empty bodies: one for each section with an empty body,
/// all of the kind `EmptySection`, each naming the heading of its section.
pub proof fn lemma_empty_warnings(sections: Seq<SectionView>)
    ensures
        count_of_kind(empty_warnings(sections), WarningKind::EmptySection) == empty_count(
            sections,
        ),
        count_of_kind(empty_warnings(sections), WarningKind::UnknownSection) == 0,
        empty_warnings(sections).len() == empty_count(sections),
        forall|j: int|
            0 <= j < sections.len() && (#[trigger] sections[j]).content.len() == 0
                ==> empty_warnings(sections).contains(empty_section_warning(sections[j].heading)),
        forall|k: int|
            0 <= k < empty_warnings(sections).len() ==> exists|j: int|
                0 <= j < sections.len() && sections[j].content.len() == 0
                    && #[trigger] empty_warnings(sections)[k] == empty_section_warning(
                    sections[j].heading,
                ),
    decreases sections.len(),
{
    if sections.len() > 0 {
        let front = sections.drop_last();
        let last = sections.last();
        lemma_empty_warnings(front);
        let ws = empty_warnings(sections);
        let prev = empty_warnings(front);
        if last.content.len() == 0 {
            assert(ws.drop_last() =~= prev);
            assert(ws[ws.len() - 1] == empty_section_warning(last.heading));
        }
        assert forall|j: int|
            0 <= j < sections.len() && (#[trigger] sections[j]).content.len() == 0 implies ws.contains(
            empty_section_warning(sections[j].heading),
        ) by {
            if j < front.len() {
                assert(prev.contains(empty_section_warning(front[j].heading)));
            }
        }
    }
}

/// The warnings for headings that are not recognized: one for each such
/// section, all of the kind `UnknownSection`, each naming the heading of its
/// section.
pub proof fn lemma_unknown_warnings(sections: Seq<SectionView>)
    ensures
        count_of_kind(unknown_warnings(sections), WarningKind::UnknownSection) == unknown_count(
            sections,
        ),
        count_of_kind(unknown_warnings(sections), WarningKind::EmptySection) == 0,
        unknown_warnings(sections).len() == unknown_count(sections),
        forall|j: int|
            0 <= j < sections.len() && kind_of_heading((#[trigger] sections[j]).heading)
                is Unknown ==> unknown_warnings(sections).contains(
                unknown_section_warning(sections[j].heading),
            ),
        forall|k: int|
            0 <= k < unknown_warnings(sections).len() ==> exists|j: int|
                0 <= j < sections.len() && kind_of_heading(sections[j].heading) is Unknown
                    && #[trigger] unknown_warnings(sections)[k] == unknown_section_warning(
                    sections[j].heading,
                ),
    decreases sections.len(),
{
    if sections.len() > 0 {
        let front = sections.drop_last();
        let last = sections.last();
        lemma_unknown_warnings(front);
        let ws = unknown_warnings(sections);
        let prev = unknown_warnings(front);
        if kind_of_heading(last.heading) is Unknown {
            assert(ws.drop_last() =~= prev);
            assert(ws[ws.len() - 1] == unknown_section_warning(last.heading));
        }
        assert forall|j: int|
            0 <= j < sections.len() && kind_of_heading((#[trigger] sections[j]).heading)
                is Unknown implies ws.contains(unknown_section_warning(sections[j].heading)) by {
            if j < front.len() {
                assert(prev.contains(unknown_section_warning(front[j].heading)));
            }
        }
    }
}

/// Every section whose heading is not recognized gives exactly one warning of
/// the kind `UnknownSection`, whose message names the heading, and every
/// section with an empty body gives exactly one warning of the kind
/// `EmptySection`. There are no other warnings: a warning of either kind
/// exists exactly if there is such a section.
pub proof fn lemma_one_warning_each(sections: Seq<SectionView>)
    ensures
        count_of_kind(section_warnings(sections), WarningKind::UnknownSection) == unknown_count(
            sections,
        ),
        count_of_kind(section_warnings(sections), WarningKind::EmptySection) == empty_count(
            sections,
        ),
        section_warnings(sections).len() == empty_count(sections) + unknown_count(sections),
        forall|j: int|
            0 <= j < sections.len() && kind_of_heading((#[trigger] sections[j]).heading)
                is Unknown ==> section_warnings(sections).contains(
                unknown_section_warning(sections[j].heading),
            ),
        forall|j: int|
            0 <= j < sections.len() && (#[trigger] sections[j]).content.len() == 0
                ==> section_warnings(sections).contains(
                empty_section_warning(sections[j].heading),
            ),
        (exists|k: int|
            0 <= k < section_warnings(sections).len() && (#[trigger] section_warnings(
                sections,
            )[k]).kind == WarningKind::EmptySection) <==> (exists|j: int|
            0 <= j < sections.len() && (#[trigger] sections[j]).content.len() == 0),
        (exists|k: int|
            0 <= k < section_warnings(sections).len() && (#[trigger] section_warnings(
                sections,
            )[k]).kind == WarningKind::UnknownSection) <==> (exists|j: int|
            0 <= j < sections.len() && kind_of_heading((#[trigger] sections[j]).heading)
                is Unknown),
{
    let e = empty_warnings(sections);
    let u = unknown_warnings(sections);
    let all = section_warnings(sections);
    lemma_empty_warnings(sections);
    lemma_unknown_warnings(sections);
    lemma_count_of_kind_add(e, u, WarningKind::UnknownSection);
    lemma_count_of_kind_add(e, u, WarningKind::EmptySection);
    assert forall|j: int|
        0 <= j < sections.len() && kind_of_heading((#[trigger] sections[j]).heading)
            is Unknown implies all.contains(unknown_section_warning(sections[j].heading)) by {
        let k = choose|k: int|
            0 <= k < u.len() && u[k] == unknown_section_warning(sections[j].heading);
        assert(all[e.len() + k] == u[k]);
    }
    assert forall|j: int|
        0 <= j < sections.len() && (#[trigger] sections[j]).content.len() == 0 implies all.contains(
        empty_section_warning(sections[j].heading),
    ) by {
        let k = choose|k: int|
            0 <= k < e.len() && e[k] == empty_section_warning(sections[j].heading);
        assert(all[k] == e[k]);
    }
}

/// Adds to `warnings` one warning for each section whose heading is not
/// recognized.
pub fn warn_unknown(sections: &Vec<Section>, warnings: &mut Vec<ParseWarning>)
    ensures
        final(warnings).deep_view() == old(warnings).deep_view() + unknown_warnings(
            sections.deep_view(),
        ),
{
    let ghost sv = sections.deep_view();
    let mut k: usize = 0;
    while k < sections.len()
        invariant
            k <= sections.len(),
            sv == sections.deep_view(),
            warnings.deep_view() == old(warnings).deep_view() + unknown_warnings(
                sv.take(k as int),
            ),
        decreases sections.len() - k,
    {
        proof {
            assert(sv.take(k + 1).drop_last() =~= sv.take(k as int));
        }
        let ghost before = warnings.deep_view();
        let kind = sections[k].kind();
        if !kind.is_known() {
            let w = ParseWarning::unknown_section(sections[k].heading.as_str());
            warnings.push(w);
            assert(warnings.deep_view() =~= before.push(w@));
        }
        k += 1;
    }
    assert(sv.take(k as int) =~= sv);
}

} // verus!

//! Splitting a line into its parts with the patterns of a language.
use vstd::prelude::*;
use crate::compile::parse_code::{section_type, sections_view, SectionType};
use crate::compile::pattern::{regex_match, Groups};

verus! {

/// The capture groups of a match as plain values.
pub type GroupsView = Seq<(Option<Seq<char>>, Option<Seq<char>>)>;

/// The parts that the first `n` groups of a match give: one for each group
/// that has a name of a kind of part and took part in the match.
pub open spec fn sections_upto(groups: GroupsView, n: int) -> Seq<(SectionType, Seq<char>)>
    decreases n,
{
    if n <= 0 {
        Seq::empty()
    } else {
        let rest = sections_upto(groups, n - 1);
        match groups[n - 1] {
            (Some(name), Some(text)) => match section_type(name) {
                Some(kind) => rest.push((kind, text)),
                None => rest,
            },
            _ => rest,
        }
    }
}

/// The parts that the groups of a match give.
pub open spec fn group_sections(groups: GroupsView) -> Seq<(SectionType, Seq<char>)> {
    sections_upto(groups, groups.len() as int)
}

/// The parts that one pattern finds in a line: none where it does not match.
pub open spec fn pattern_sections(pattern: Seq<char>, line: Seq<char>) -> Seq<
    (SectionType, Seq<char>),
> {
    match regex_match(pattern, line) {
        Some(groups) => group_sections(groups),
        None => Seq::empty(),
    }
}

/// The parts that the first `n` patterns find in a line, pattern after pattern.
pub open spec fn line_sections(patterns: Seq<String>, line: Seq<char>, n: int) -> Seq<
    (SectionType, Seq<char>),
>
    decreases n,
{
    if n <= 0 {
        Seq::empty()
    } else {
        line_sections(patterns, line, n - 1) + pattern_sections(patterns[n - 1]@, line)
    }
}

/// The parts that the groups of a match give, in the order of the groups.
pub fn sections_from_groups(groups: &Groups) -> (sections: Vec<(SectionType, String)>)
    ensures
        sections_view(sections@) == group_sections(groups.deep_view()),
{
    let n = groups.len();
    let mut sections: Vec<(SectionType, String)> = Vec::new();
    let mut i: usize = 0;
    assert(sections_view(sections@) =~= Seq::empty());
    while i < n
        invariant
            n == groups@.len(),
            i <= n,
            groups.deep_view().len() == n,
            sections_view(sections@) == sections_upto(groups.deep_view(), i as int),
        decreases n - i,
    {
        let ghost before = sections_view(sections@);
        assert(groups.deep_view()[i as int] == groups@[i as int].deep_view());
        match &groups[i] {
            (Some(name), Some(text)) => {
                match SectionType::from_name(name.as_str()) {
                    Ok(kind) => {
                        sections.push((kind, text.clone()));
                        assert(sections_view(sections@) =~= before.push((kind, text@)));
                    },
                    Err(_) => {},
                }
            },
            _ => {},
        }
        i += 1;
    }
    sections
}

/// The text of the first part of this kind from `from` on.
pub open spec fn first_section_from(
    sections: Seq<(SectionType, String)>,
    kind: SectionType,
    from: int,
) -> Option<Seq<char>>
    decreases sections.len() - from,
{
    if from < 0 || from >= sections.len() {
        None
    } else if sections[from].0 == kind {
        Some(sections[from].1@)
    } else {
        first_section_from(sections, kind, from + 1)
    }
}

/// The text of the first part of this kind.
pub open spec fn first_section(sections: Seq<(SectionType, String)>, kind: SectionType) -> Option<
    Seq<char>,
> {
    first_section_from(sections, kind, 0)
}

/// The first part of this kind.
pub fn find_section(sections: &Vec<(SectionType, String)>, kind: SectionType) -> (found: Option<
    &String,
>)
    ensures
        match found {
            Some(text) => first_section(sections@, kind) == Some(text@),
            None => first_section(sections@, kind) is None,
        },
{
    let n = sections.len();
    let mut i: usize = 0;
    while i < n
        invariant
            n == sections@.len(),
            i <= n,
            first_section(sections@, kind) == first_section_from(sections@, kind, i as int),
        decreases n - i,
    {
        if sections[i].0 == kind {
            return Some(&sections[i].1);
        }
        i += 1;
    }
    None
}


} // verus!

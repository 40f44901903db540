//! Matching a command against the shapes of its mnemonic. The word that the
//! command starts with names the mnemonic; the shapes of the mnemonic are tried
//! in order, and the first whose pattern matches gives the operands.
use vstd::prelude::*;
use crate::compile::error::ErrorKind;
use crate::compile::parse_code::operands_view;
use crate::compile::pattern::{search, regex_match, Groups};
use crate::compile::text::{chars_of, is_digit, letters_from, same_ignoring_case};
use crate::compile::text::{same_text, starts_ignoring_case};
use crate::compile::tokenize::GroupsView;
use crate::definitions::language::{CommandDefinition, LanguageDefinition};
use crate::definitions::processor::SegType;

verus! {

/// Whether an entry of a shape carries its number itself: it starts with a
/// digit, which the name of a capture group never does.
pub open spec fn is_literal_source(source: Seq<char>) -> bool {
    source.len() > 0 && is_digit(source[0])
}

/// What the first group from `from` on with this name captured. `None` where
/// no group has the name, or the group took no part in the match.
pub open spec fn captured_from(groups: GroupsView, name: Seq<char>, from: int) -> Option<
    Seq<char>,
>
    decreases groups.len() - from,
{
    if from < 0 || from >= groups.len() {
        None
    } else if groups[from].0 == Some(name) {
        groups[from].1
    } else {
        captured_from(groups, name, from + 1)
    }
}

/// What the group with this name captured.
pub open spec fn captured(groups: GroupsView, name: Seq<char>) -> Option<Seq<char>> {
    captured_from(groups, name, 0)
}

/// The operand texts for the first `n` entries of a shape: the entry itself
/// where it carries its number, else what the group that it names captured.
/// `None` where one of those groups captured nothing.
pub open spec fn operand_texts(
    entries: Seq<(SegType, Seq<char>)>,
    groups: GroupsView,
    n: int,
) -> Option<Seq<(SegType, Seq<char>)>>
    decreases n,
{
    if n <= 0 {
        Some(Seq::empty())
    } else {
        match operand_texts(entries, groups, n - 1) {
            None => None,
            Some(rest) => {
                let entry = entries[n - 1];
                if is_literal_source(entry.1) {
                    Some(rest.push(entry))
                } else {
                    match captured(groups, entry.1) {
                        Some(text) => Some(rest.push((entry.0, text))),
                        None => None,
                    }
                }
            },
        }
    }
}

/// The first shape from `from` on whose pattern matches `text`.
pub open spec fn first_match(variants: Seq<CommandDefinition>, text: Seq<char>, from: int) -> Option<
    int,
>
    decreases variants.len() - from,
{
    if from < 0 || from >= variants.len() {
        None
    } else if regex_match(variants[from].regex@, text) is Some {
        Some(from)
    } else {
        first_match(variants, text, from + 1)
    }
}

/// The first mnemonic from `from` on that is `word` but for the case of
/// letters.
pub open spec fn mnemonic_from(
    commands: Seq<(String, Vec<CommandDefinition>)>,
    word: Seq<char>,
    from: int,
) -> Option<int>
    decreases commands.len() - from,
{
    if from < 0 || from >= commands.len() {
        None
    } else if same_ignoring_case(word, commands[from].0@) {
        Some(from)
    } else {
        mnemonic_from(commands, word, from + 1)
    }
}

/// The word that a command starts with: its leading run of letters.
pub open spec fn leading_word(text: Seq<char>) -> Seq<char> {
    text.take(letters_from(text, 0))
}

/// What matching a command gives: the place of its mnemonic in the language,
/// the place of the shape among the shapes of the mnemonic, and the operand
/// texts; or the kind of error.
pub open spec fn command_outcome(def: &LanguageDefinition, text: Seq<char>) -> Result<
    (int, int, Seq<(SegType, Seq<char>)>),
    ErrorKind,
> {
    match mnemonic_from(def.commands@, leading_word(text), 0) {
        None => Err(ErrorKind::UnknownMnemonic),
        Some(m) => {
            let variants = def.commands@[m].1@;
            match first_match(variants, text, 0) {
                None => Err(ErrorKind::InvalidOperandSyntax),
                Some(v) => {
                    let entries = operands_view(variants[v].segments@);
                    let groups = regex_match(variants[v].regex@, text)->0;
                    match operand_texts(entries, groups, entries.len() as int) {
                        None => Err(ErrorKind::InvalidOperandSyntax),
                        Some(texts) => Ok((m, v, texts)),
                    }
                },
            }
        },
    }
}

/// The first shape that matches is the one that no earlier shape hides: its
/// pattern matches the text and the pattern of every shape before it does not.
/// Where no shape is found, no pattern matches.
pub proof fn lemma_first_match_wins(variants: Seq<CommandDefinition>, text: Seq<char>, from: int)
    requires
        0 <= from,
    ensures
        match first_match(variants, text, from) {
            Some(v) => {
                &&& from <= v < variants.len()
                &&& regex_match(variants[v].regex@, text) is Some
                &&& forall|j: int|
                    from <= j < v ==> regex_match((#[trigger] variants[j]).regex@, text) is None
            },
            None => forall|j: int|
                from <= j < variants.len() ==> regex_match(
                    (#[trigger] variants[j]).regex@,
                    text,
                ) is None,
        },
    decreases variants.len() - from,
{
    if from < variants.len() && !(regex_match(variants[from].regex@, text) is Some) {
        lemma_first_match_wins(variants, text, from + 1);
    }
}

/// What the group with this name captured.
pub fn capture_of<'a>(groups: &'a Groups, name: &str) -> (text: Option<&'a String>)
    ensures
        match text {
            Some(t) => captured(groups.deep_view(), name@) == Some(t@),
            None => captured(groups.deep_view(), name@) is None,
        },
{
    let n = groups.len();
    let mut i: usize = 0;
    while i < n
        invariant
            n == groups@.len(),
            i <= n,
            groups.deep_view().len() == n,
            captured(groups.deep_view(), name@) == captured_from(
                groups.deep_view(),
                name@,
                i as int,
            ),
        decreases n - i,
    {
        assert(groups.deep_view()[i as int] == groups@[i as int].deep_view());
        match &groups[i].0 {
            Some(group_name) => {
                if same_text(group_name.as_str(), name) {
                    return match &groups[i].1 {
                        Some(t) => Some(t),
                        None => None,
                    };
                }
            },
            None => {},
        }
        i += 1;
    }
    None
}

/// Whether an entry of a shape carries its number itself.
pub fn literal_source(source: &str) -> (literal: bool)
    ensures
        literal == is_literal_source(source@),
{
    let chars = chars_of(source);
    chars.len() > 0 && '0' <= chars[0] && chars[0] <= '9'
}

/// The operand texts of a command that matched `variant` with these groups.
pub fn operands_from_groups(variant: &CommandDefinition, groups: &Groups) -> (operands: Option<
    Vec<(SegType, String)>,
>)
    ensures
        match operands {
            Some(texts) => operand_texts(
                operands_view(variant.segments@),
                groups.deep_view(),
                variant.segments@.len() as int,
            ) == Some(operands_view(texts@)),
            None => operand_texts(
                operands_view(variant.segments@),
                groups.deep_view(),
                variant.segments@.len() as int,
            ) is None,
        },
{
    let n = variant.segments.len();
    let mut operands: Vec<(SegType, String)> = Vec::new();
    let mut i: usize = 0;
    let ghost entries = operands_view(variant.segments@);
    assert(operands_view(operands@) =~= Seq::empty());
    while i < n
        invariant
            n == variant.segments@.len(),
            i <= n,
            entries == operands_view(variant.segments@),
            operand_texts(entries, groups.deep_view(), i as int) == Some(
                operands_view(operands@),
            ),
        decreases n - i,
    {
        let ghost before = operands_view(operands@);
        let role = variant.segments[i].0;
        let source = &variant.segments[i].1;
        assert(entries[i as int] == (role, source@));
        if literal_source(source.as_str()) {
            operands.push((role, source.clone()));
            assert(operands_view(operands@) =~= before.push((role, source@)));
        } else {
            match capture_of(groups, source.as_str()) {
                Some(text) => {
                    operands.push((role, text.clone()));
                    assert(operands_view(operands@) =~= before.push((role, text@)));
                },
                None => {
                    proof {
                        lemma_operand_texts_none(entries, groups.deep_view(), i + 1, n as int);
                    }
                    return None;
                },
            }
        }
        i += 1;
    }
    Some(operands)
}

/// Once the operand texts fail for some entries, they fail for more entries.
pub proof fn lemma_operand_texts_none(
    entries: Seq<(SegType, Seq<char>)>,
    groups: GroupsView,
    failed: int,
    n: int,
)
    requires
        failed <= n,
        operand_texts(entries, groups, failed) is None,
    ensures
        operand_texts(entries, groups, n) is None,
    decreases n - failed,
{
    if failed < n {
        lemma_operand_texts_none(entries, groups, failed, n - 1);
    }
}

/// The place of the first mnemonic that is the first `run` characters of
/// `text` but for the case of letters.
pub fn find_mnemonic(def: &LanguageDefinition, text: &Vec<char>, run: usize) -> (found: Option<
    usize,
>)
    requires
        run <= text@.len(),
    ensures
        found matches Some(m) ==> m < def.commands@.len(),
        match found {
            Some(m) => mnemonic_from(def.commands@, text@.take(run as int), 0) == Some(m as int),
            None => mnemonic_from(def.commands@, text@.take(run as int), 0) is None,
        },
{
    let n = def.commands.len();
    let mut m: usize = 0;
    while m < n
        invariant
            n == def.commands@.len(),
            m <= n,
            run <= text@.len(),
            mnemonic_from(def.commands@, text@.take(run as int), 0) == mnemonic_from(
                def.commands@,
                text@.take(run as int),
                m as int,
            ),
        decreases n - m,
    {
        let name = chars_of(def.commands[m].0.as_str());
        if starts_ignoring_case(text, run, &name) {
            return Some(m);
        }
        m += 1;
    }
    None
}

/// The first shape whose pattern matches `text`, with the groups of the match.
pub fn find_variant(variants: &Vec<CommandDefinition>, text: &str) -> (found: Option<
    (usize, Groups),
>)
    ensures
        match found {
            Some((v, groups)) => {
                &&& v < variants@.len()
                &&& first_match(variants@, text@, 0) == Some(v as int)
                &&& regex_match(variants@[v as int].regex@, text@) == Some(groups.deep_view())
            },
            None => first_match(variants@, text@, 0) is None,
        },
{
    let n = variants.len();
    let mut v: usize = 0;
    while v < n
        invariant
            n == variants@.len(),
            v <= n,
            first_match(variants@, text@, 0) == first_match(variants@, text@, v as int),
        decreases n - v,
    {
        match search(variants[v].regex.as_str(), text) {
            Some(groups) => {
                return Some((v, groups));
            },
            None => {},
        }
        v += 1;
    }
    None
}

/// There is one operand text for each entry.
pub proof fn lemma_operand_texts_len(
    entries: Seq<(SegType, Seq<char>)>,
    groups: GroupsView,
    n: int,
)
    requires
        0 <= n,
    ensures
        operand_texts(entries, groups, n) matches Some(texts) ==> texts.len() == n && forall|k: int|
            0 <= k < n ==> (#[trigger] texts[k]).0 == entries[k].0,
    decreases n,
{
    if n > 0 {
        lemma_operand_texts_len(entries, groups, n - 1);
    }
}

/// A mnemonic that is found stands in the list, and is the word but for the
/// case of letters.
pub proof fn lemma_mnemonic_from(
    commands: Seq<(String, Vec<CommandDefinition>)>,
    word: Seq<char>,
    from: int,
)
    requires
        0 <= from,
    ensures
        mnemonic_from(commands, word, from) matches Some(m) ==> from <= m < commands.len()
            && same_ignoring_case(word, commands[m].0@),
    decreases commands.len() - from,
{
    if from < commands.len() && !same_ignoring_case(word, commands[from].0@) {
        lemma_mnemonic_from(commands, word, from + 1);
    }
}

/// A command that is matched has a mnemonic and a shape of the language, and
/// one operand text for each entry of the shape, with the role of the entry.
pub proof fn lemma_command_outcome(def: &LanguageDefinition, text: Seq<char>)
    ensures
        command_outcome(def, text) matches Ok((m, v, texts)) ==> {
            &&& 0 <= m < def.commands@.len()
            &&& 0 <= v < def.commands@[m].1@.len()
            &&& texts.len() == def.commands@[m].1@[v].segments@.len()
            &&& forall|k: int|
                0 <= k < texts.len() ==> (#[trigger] texts[k]).0
                    == def.commands@[m].1@[v].segments@[k].0
        },
{
    lemma_mnemonic_from(def.commands@, leading_word(text), 0);
    match mnemonic_from(def.commands@, leading_word(text), 0) {
        Some(m) => {
            let variants = def.commands@[m].1@;
            lemma_first_match_wins(variants, text, 0);
            match first_match(variants, text, 0) {
                Some(v) => {
                    let entries = operands_view(variants[v].segments@);
                    let groups = regex_match(variants[v].regex@, text)->0;
                    lemma_operand_texts_len(entries, groups, entries.len() as int);
                },
                None => {},
            }
        },
        None => {},
    }
}


} // verus!

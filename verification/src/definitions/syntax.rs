//! The grammar of a line, in pieces that can be replaced one by one, and the
//! patterns that the pieces make up.
use vstd::prelude::*;
use vstd::string::StringExecFns;
use crate::compile::text::{digit_char, push_char, texts_view};

verus! {

/// The pieces of the grammar of a line. Every piece but the last is a pattern
/// of its own.
pub struct LineSyntax {
    /// What a comment starts with. The comment runs to the end of the line.
    pub comment_marker: String,
    /// What ends a label.
    pub label_marker: String,
    /// One character of the space that may stand between the parts of a line.
    pub whitespace: String,
    /// What stands between the operands of a command.
    pub operand_delimiter: String,
    /// What a directive may be given besides a word: a number, a quoted text.
    pub literal: String,
    /// What a directive starts with.
    pub directive_marker: String,
    /// The largest number of operands that a command may have.
    pub max_operands: usize,
}

/// `n` written in decimal.
pub open spec fn decimal(n: nat) -> Seq<char>
    decreases n,
{
    if n < 10 {
        seq![digit_char(n as int)]
    } else {
        decimal(n / 10).push(digit_char((n % 10) as int))
    }
}

/// Any run of the space between the parts of a line, the empty one too.
pub open spec fn space_pattern(whitespace: Seq<char>) -> Seq<char> {
    "(?:"@ + whitespace + ")*"@
}

/// A run of at least one character of space.
pub open spec fn gap_pattern(whitespace: Seq<char>) -> Seq<char> {
    "(?:"@ + whitespace + ")+"@
}

/// A label with its marker, or nothing. The label is a name, and is captured
/// without the marker.
pub open spec fn label_pattern(label_marker: Seq<char>) -> Seq<char> {
    "(?:(?P<label>[a-zA-Z_][a-zA-Z0-9_]*)(?:"@ + label_marker + "))?"@
}

/// A comment to the end of the line, or the end of the line.
pub open spec fn comment_pattern(comment_marker: Seq<char>) -> Seq<char> {
    "(?P<comment>(?:"@ + comment_marker + ").*)?$"@
}

/// One operand: it starts and ends with a character of an operand, with space
/// allowed in between.
pub open spec fn operand_pattern(whitespace: Seq<char>) -> Seq<char> {
    r"[a-zA-Z0-9_#\[\]\{\}!+-](?:(?:[a-zA-Z0-9_#\[\]\{\}!+-]|"@ + whitespace
        + r")*[a-zA-Z0-9_#\[\]\{\}!+-])?"@
}

/// A command, or nothing: a word of letters, then, after a gap, up to
/// `max_operands` operands with the delimiter between them.
pub open spec fn command_pattern(
    whitespace: Seq<char>,
    operand_delimiter: Seq<char>,
    max_operands: nat,
) -> Seq<char> {
    if max_operands == 0 {
        "(?P<command>[a-zA-Z]+)?"@
    } else {
        "(?P<command>[a-zA-Z]+(?:"@ + gap_pattern(whitespace) + operand_pattern(whitespace) + "(?:"@
            + space_pattern(whitespace) + "(?:"@ + operand_delimiter + ")"@ + space_pattern(
            whitespace,
        ) + operand_pattern(whitespace) + "){0,"@ + decimal((max_operands - 1) as nat) + "})?)?"@
    }
}

/// A directive: its marker and letters.
pub open spec fn directive_pattern(directive_marker: Seq<char>) -> Seq<char> {
    "(?P<compliemark>(?:"@ + directive_marker + ")[a-zA-Z]*)"@
}

/// The start of every pattern of a line: space, a label or none, space.
pub open spec fn line_start(whitespace: Seq<char>, label_marker: Seq<char>) -> Seq<char> {
    "^"@ + space_pattern(whitespace) + label_pattern(label_marker) + space_pattern(whitespace)
}

/// The patterns that the pieces of a grammar make up, in the order in which a
/// line is held against them. The first is for a line with a command: a label,
/// a command and a comment, each of which may be missing. The second is for a
/// directive that is given a word or nothing, the third for a directive that
/// is given a literal.
pub open spec fn line_patterns_of(
    comment_marker: Seq<char>,
    label_marker: Seq<char>,
    whitespace: Seq<char>,
    operand_delimiter: Seq<char>,
    literal: Seq<char>,
    directive_marker: Seq<char>,
    max_operands: nat,
) -> Seq<Seq<char>> {
    seq![
        line_start(whitespace, label_marker) + command_pattern(
            whitespace,
            operand_delimiter,
            max_operands,
        ) + space_pattern(whitespace) + comment_pattern(comment_marker),
        line_start(whitespace, label_marker) + directive_pattern(directive_marker) + space_pattern(
            whitespace,
        ) + "(?P<literal>[a-zA-Z_]+)?"@ + space_pattern(whitespace) + comment_pattern(
            comment_marker,
        ),
        line_start(whitespace, label_marker) + directive_pattern(directive_marker) + space_pattern(
            whitespace,
        ) + "(?P<literal>"@ + literal + ")"@ + space_pattern(whitespace) + comment_pattern(
            comment_marker,
        ),
    ]
}

/// The patterns of the default language: comments start with `@`, labels end
/// in a colon, space is blanks and tabs, operands are parted by commas, a
/// literal is a number or a quoted text, directives start with a dot, and a
/// command has ten operands at most.
pub open spec fn default_line_patterns() -> Seq<Seq<char>> {
    line_patterns_of(
        "@"@,
        ":"@,
        r"[ \t]"@,
        ","@,
        r##"#?[+-]?(?:0[xX][0-9a-fA-F]+|[0-9]+)|"[^"]*""##@,
        r"\."@,
        10,
    )
}

impl LineSyntax {
    /// The patterns that the pieces make up.
    pub open spec fn patterns(&self) -> Seq<Seq<char>> {
        line_patterns_of(
            self.comment_marker@,
            self.label_marker@,
            self.whitespace@,
            self.operand_delimiter@,
            self.literal@,
            self.directive_marker@,
            self.max_operands as nat,
        )
    }

    /// Whether the pieces are those of the default language.
    pub open spec fn is_default(&self) -> bool {
        &&& self.comment_marker@ == "@"@
        &&& self.label_marker@ == ":"@
        &&& self.whitespace@ == r"[ \t]"@
        &&& self.operand_delimiter@ == ","@
        &&& self.literal@ == r##"#?[+-]?(?:0[xX][0-9a-fA-F]+|[0-9]+)|"[^"]*""##@
        &&& self.directive_marker@ == r"\."@
        &&& self.max_operands == 10
    }

    /// The patterns that the pieces make up.
    pub fn line_patterns(&self) -> (patterns: Vec<String>)
        ensures
            texts_view(patterns@) == self.patterns(),
    {
        let space = join3("(?:", self.whitespace.as_str(), ")*");
        let label = join3(
            "(?:(?P<label>[a-zA-Z_][a-zA-Z0-9_]*)(?:",
            self.label_marker.as_str(),
            "))?",
        );
        let comment = join3("(?P<comment>(?:", self.comment_marker.as_str(), ").*)?$");
        let directive = join3("(?P<compliemark>(?:", self.directive_marker.as_str(), ")[a-zA-Z]*)");
        let command = self.command();
        let mut start = String::from_str("^");
        start.append(space.as_str());
        start.append(label.as_str());
        start.append(space.as_str());
        let mut first = start.clone();
        first.append(command.as_str());
        first.append(space.as_str());
        first.append(comment.as_str());
        let mut second = start.clone();
        second.append(directive.as_str());
        second.append(space.as_str());
        second.append("(?P<literal>[a-zA-Z_]+)?");
        second.append(space.as_str());
        second.append(comment.as_str());
        let mut third = start;
        third.append(directive.as_str());
        third.append(space.as_str());
        third.append("(?P<literal>");
        third.append(self.literal.as_str());
        third.append(")");
        third.append(space.as_str());
        third.append(comment.as_str());
        let patterns = vec![first, second, third];
        assert(texts_view(patterns@) =~= self.patterns());
        patterns
    }

    /// The pattern of a command.
    fn command(&self) -> (pattern: String)
        ensures
            pattern@ == command_pattern(
                self.whitespace@,
                self.operand_delimiter@,
                self.max_operands as nat,
            ),
    {
        if self.max_operands == 0 {
            return String::from_str("(?P<command>[a-zA-Z]+)?");
        }
        let space = join3("(?:", self.whitespace.as_str(), ")*");
        let gap = join3("(?:", self.whitespace.as_str(), ")+");
        let operand = join3(
            r"[a-zA-Z0-9_#\[\]\{\}!+-](?:(?:[a-zA-Z0-9_#\[\]\{\}!+-]|",
            self.whitespace.as_str(),
            r")*[a-zA-Z0-9_#\[\]\{\}!+-])?",
        );
        let count = decimal_text(self.max_operands - 1);
        let mut pattern = String::from_str("(?P<command>[a-zA-Z]+(?:");
        pattern.append(gap.as_str());
        pattern.append(operand.as_str());
        pattern.append("(?:");
        pattern.append(space.as_str());
        pattern.append("(?:");
        pattern.append(self.operand_delimiter.as_str());
        pattern.append(")");
        pattern.append(space.as_str());
        pattern.append(operand.as_str());
        pattern.append("){0,");
        pattern.append(count.as_str());
        pattern.append("})?)?");
        pattern
    }
}

impl Default for LineSyntax {
    /// The pieces of the default language.
    fn default() -> (syntax: LineSyntax)
        ensures
            syntax.is_default(),
    {
        LineSyntax {
            comment_marker: String::from_str("@"),
            label_marker: String::from_str(":"),
            whitespace: String::from_str(r"[ \t]"),
            operand_delimiter: String::from_str(","),
            literal: String::from_str(r##"#?[+-]?(?:0[xX][0-9a-fA-F]+|[0-9]+)|"[^"]*""##),
            directive_marker: String::from_str(r"\."),
            max_operands: 10,
        }
    }
}

/// Three texts joined.
pub fn join3(a: &str, b: &str, c: &str) -> (joined: String)
    ensures
        joined@ == a@ + b@ + c@,
{
    let mut joined = String::from_str(a);
    joined.append(b);
    joined.append(c);
    joined
}

/// `n` written in decimal.
pub fn decimal_text(n: usize) -> (text: String)
    ensures
        text@ == decimal(n as nat),
    decreases n,
{
    if n < 10 {
        let mut text = String::new();
        push_char(&mut text, (48 + n as u8) as char);
        assert(text@ =~= seq![digit_char(n as int)]);
        text
    } else {
        let mut text = decimal_text(n / 10);
        push_char(&mut text, (48 + (n % 10) as u8) as char);
        text
    }
}

} // verus!

//! Characters and the small grammars of operand text: numbers, registers,
//! register lists and names.
use vstd::prelude::*;
use vstd::std_specs::iter::IteratorSpec;
use crate::definitions::bits::{lemma_pow2_monotone, lemma_pow2_values, pow2, two_pow};

verus! {

broadcast use vstd::string::group_string_axioms;

/// A decimal digit.
pub open spec fn is_digit(c: char) -> bool {
    '0' <= c <= '9'
}

/// A hexadecimal digit, in either case.
pub open spec fn is_hex_digit(c: char) -> bool {
    is_digit(c) || 'a' <= c <= 'f' || 'A' <= c <= 'F'
}

/// A letter of the ASCII alphabet.
pub open spec fn is_alpha(c: char) -> bool {
    'a' <= c <= 'z' || 'A' <= c <= 'Z'
}

/// A space or a tab.
pub open spec fn is_blank(c: char) -> bool {
    c == ' ' || c == '\t'
}

/// A character that a name may start with.
pub open spec fn is_name_start(c: char) -> bool {
    is_alpha(c) || c == '_'
}

/// A character that a name may go on with.
pub open spec fn is_name_char(c: char) -> bool {
    is_alpha(c) || is_digit(c) || c == '_'
}

/// The upper-case form of an ASCII letter; every other character is itself.
pub open spec fn upper(c: char) -> char {
    if 'a' <= c <= 'z' {
        ((c as u8 - 32) as u8) as char
    } else {
        c
    }
}

/// The number that a digit stands for. Meant for hexadecimal digits.
pub open spec fn digit_value(c: char) -> int {
    if is_digit(c) {
        c as int - 48
    } else if 'a' <= c <= 'f' {
        c as int - 87
    } else {
        c as int - 55
    }
}

/// Whether `c` is a digit in this radix, ten or sixteen.
pub open spec fn is_radix_digit(c: char, radix: int) -> bool {
    if radix == 16 {
        is_hex_digit(c)
    } else {
        is_digit(c)
    }
}

/// Whether every character of `s` is a digit in this radix.
pub open spec fn all_radix_digits(s: Seq<char>, radix: int) -> bool {
    forall|i: int| 0 <= i < s.len() ==> is_radix_digit(#[trigger] s[i], radix)
}

/// The number that the digits of `s` write in this radix.
pub open spec fn positional(s: Seq<char>, radix: int) -> int
    decreases s.len(),
{
    if s.len() == 0 {
        0
    } else {
        positional(s.drop_last(), radix) * radix + digit_value(s.last())
    }
}

/// The number that an unsigned literal writes: `0x` or `0X` and hexadecimal
/// digits, or decimal digits alone.
pub open spec fn magnitude(s: Seq<char>) -> Option<int> {
    if s.len() > 2 && s[0] == '0' && (s[1] == 'x' || s[1] == 'X') && all_radix_digits(
        s.skip(2),
        16,
    ) {
        Some(positional(s.skip(2), 16))
    } else if s.len() > 0 && all_radix_digits(s, 10) {
        Some(positional(s, 10))
    } else {
        None
    }
}

/// The number that a literal with an optional sign writes.
pub open spec fn signed(s: Seq<char>) -> Option<int> {
    if s.len() > 0 && s[0] == '-' {
        match magnitude(s.skip(1)) {
            Some(m) => Some(-m),
            None => None,
        }
    } else if s.len() > 0 && s[0] == '+' {
        magnitude(s.skip(1))
    } else {
        magnitude(s)
    }
}

/// The number that an immediate writes: an optional `#`, an optional sign, and
/// a hexadecimal literal with `0x` or a decimal one.
pub open spec fn number(s: Seq<char>) -> Option<int> {
    if s.len() > 0 && s[0] == '#' {
        signed(s.skip(1))
    } else {
        signed(s)
    }
}

/// The largest magnitude that a number in the source may have.
pub const NUMBER_LIMIT: u64 = 0xFFFF_FFFF;

/// Why a text is not a number that the assembler takes.
#[derive(Debug, Clone, Copy, PartialEq, Eq, Structural)]
pub enum NumberFault {
    /// The text is not written as a number.
    Malformed,
    /// The number is larger in magnitude than [`NUMBER_LIMIT`].
    TooLarge,
}

/// A decimal digit.
pub fn digit(c: char) -> (d: bool)
    ensures
        d == is_digit(c),
{
    '0' <= c && c <= '9'
}

/// A hexadecimal digit.
pub fn hex_digit(c: char) -> (d: bool)
    ensures
        d == is_hex_digit(c),
{
    ('0' <= c && c <= '9') || ('a' <= c && c <= 'f') || ('A' <= c && c <= 'F')
}

/// A letter of the ASCII alphabet.
pub fn alpha(c: char) -> (a: bool)
    ensures
        a == is_alpha(c),
{
    ('a' <= c && c <= 'z') || ('A' <= c && c <= 'Z')
}

/// A space or a tab.
pub fn blank(c: char) -> (b: bool)
    ensures
        b == is_blank(c),
{
    c == ' ' || c == '\t'
}

/// The upper-case form of an ASCII letter.
pub fn to_upper(c: char) -> (u: char)
    ensures
        u == upper(c),
{
    if 'a' <= c && c <= 'z' {
        ((c as u8) - 32) as char
    } else {
        c
    }
}

/// The number that a hexadecimal digit stands for.
pub fn value_of_digit(c: char) -> (v: u64)
    requires
        is_hex_digit(c),
    ensures
        v == digit_value(c),
        v < 16,
        is_digit(c) ==> v < 10,
{
    if '0' <= c && c <= '9' {
        ((c as u8) - 48) as u64
    } else if 'a' <= c && c <= 'f' {
        ((c as u8) - 87) as u64
    } else {
        ((c as u8) - 55) as u64
    }
}

/// The characters of a string.
pub fn chars_of(s: &str) -> (chars: Vec<char>)
    ensures
        chars@ == s@,
{
    let mut it = s.chars();
    let mut chars: Vec<char> = Vec::new();
    loop
        invariant
            chars@ + it.remaining() == s@,
            it.obeys_prophetic_iter_laws(),
            it.decrease() is Some,
        ensures
            chars@ == s@,
        decreases it.decrease()->0,
    {
        match it.next() {
            Some(c) => {
                chars.push(c);
            },
            None => {
                assert(chars@ =~= chars@ + it.remaining());
                break ;
            },
        }
    }
    chars
}

/// Appends one character to a string, with `String::push`.
#[verifier::external_body]
pub(crate) fn push_char(s: &mut String, c: char)
    ensures
        final(s)@ == old(s)@.push(c),
{
    s.push(c)
}

/// The string made of the characters from `from` up to `to`.
pub fn string_of(chars: &Vec<char>, from: usize, to: usize) -> (s: String)
    requires
        from <= to <= chars@.len(),
    ensures
        s@ == chars@.subrange(from as int, to as int),
{
    let mut s = String::new();
    let mut i = from;
    while i < to
        invariant
            from <= i <= to <= chars@.len(),
            s@ == chars@.subrange(from as int, i as int),
        decreases to - i,
    {
        push_char(&mut s, chars[i]);
        i += 1;
        assert(chars@.subrange(from as int, i as int) =~= chars@.subrange(
            from as int,
            i - 1,
        ).push(chars@[i - 1]));
    }
    s
}

/// A number only grows when a digit is appended.
pub proof fn lemma_positional_grows(s: Seq<char>, radix: int)
    requires
        s.len() > 0,
        all_radix_digits(s, radix),
        radix == 10 || radix == 16,
    ensures
        0 <= positional(s.drop_last(), radix) <= positional(s, radix),
    decreases s.len(),
{
    let front = s.drop_last();
    assert(is_radix_digit(s[s.len() - 1], radix));
    if front.len() > 0 {
        assert forall|i: int| 0 <= i < front.len() implies is_radix_digit(
            #[trigger] front[i],
            radix,
        ) by {
            assert(front[i] == s[i]);
        }
        lemma_positional_grows(front, radix);
    }
    assert(positional(front, radix) * radix >= positional(front, radix)) by (nonlinear_arith)
        requires
            positional(front, radix) >= 0,
            radix >= 1,
    ;
}

/// Reads the digits from `from` to the end of `text` in this radix. The answer
/// is `None` where a character is no digit, and stops at one above
/// [`NUMBER_LIMIT`] where the number is larger than that.
pub fn read_digits(text: &Vec<char>, from: usize, radix: u64) -> (read: Option<u64>)
    requires
        from <= text@.len(),
        radix == 10 || radix == 16,
    ensures
        read is Some <==> all_radix_digits(text@.skip(from as int), radix as int),
        read matches Some(v) ==> v == if positional(text@.skip(from as int), radix as int)
            <= NUMBER_LIMIT {
            positional(text@.skip(from as int), radix as int)
        } else {
            NUMBER_LIMIT + 1
        },
{
    let n = text.len();
    let mut value: u64 = 0;
    let mut i = from;
    while i < n
        invariant
            n == text@.len(),
            from <= i <= n,
            radix == 10 || radix == 16,
            all_radix_digits(text@.subrange(from as int, i as int), radix as int),
            0 <= positional(text@.subrange(from as int, i as int), radix as int),
            value == if positional(text@.subrange(from as int, i as int), radix as int)
                <= NUMBER_LIMIT {
                positional(text@.subrange(from as int, i as int), radix as int)
            } else {
                NUMBER_LIMIT + 1
            },
        decreases n - i,
    {
        let c = text[i];
        let is_one = if radix == 16 {
            hex_digit(c)
        } else {
            digit(c)
        };
        if !is_one {
            assert(text@.skip(from as int)[i - from] == c);
            return None;
        }
        let ghost before = text@.subrange(from as int, i as int);
        let ghost after = text@.subrange(from as int, i + 1);
        proof {
            assert(after.drop_last() =~= before);
            assert(after.last() == c);
            assert forall|k: int| 0 <= k < after.len() implies is_radix_digit(
                #[trigger] after[k],
                radix as int,
            ) by {
                if k < before.len() {
                    assert(after[k] == before[k]);
                }
            }
            lemma_positional_grows(after, radix as int);
            assert(positional(before, radix as int) > NUMBER_LIMIT ==> positional(
                before,
                radix as int,
            ) * radix >= positional(before, radix as int)) by (nonlinear_arith)
                requires
                    radix >= 1,
                    positional(before, radix as int) >= 0,
            ;
        }
        let d = value_of_digit(c);
        value = value * radix + d;
        if value > NUMBER_LIMIT {
            value = NUMBER_LIMIT + 1;
        }
        i += 1;
    }
    assert(text@.subrange(from as int, n as int) =~= text@.skip(from as int));
    Some(value)
}

/// Reads an unsigned literal from `from` to the end of `text`. The answer is
/// `None` where the text is no literal, and stops at one above
/// [`NUMBER_LIMIT`] where the number is larger than that.
pub fn read_magnitude(text: &Vec<char>, from: usize) -> (read: Option<u64>)
    requires
        from <= text@.len(),
    ensures
        read is Some <==> magnitude(text@.skip(from as int)) is Some,
        read matches Some(v) ==> 0 <= magnitude(text@.skip(from as int))->0 && v == if magnitude(
            text@.skip(from as int),
        )->0 <= NUMBER_LIMIT {
            magnitude(text@.skip(from as int))->0
        } else {
            NUMBER_LIMIT + 1
        },
{
    let n = text.len();
    let ghost rest = text@.skip(from as int);
    if n - from >= 2 && text[from] == '0' && (text[from + 1] == 'x' || text[from + 1] == 'X') {
        assert(rest[0] == '0' && rest[1] == text@[from + 1]);
        assert(!is_radix_digit(rest[1], 10));
        if n - from == 2 {
            return None;
        }
        assert(rest.skip(2) =~= text@.skip(from + 2));
        let read = read_digits(text, from + 2, 16);
        proof {
            if read is Some {
                lemma_positional_sign(rest.skip(2), 16);
            }
        }
        read
    } else if n - from == 0 {
        None
    } else {
        let read = read_digits(text, from, 10);
        proof {
            if read is Some {
                lemma_positional_sign(rest, 10);
            }
        }
        read
    }
}

/// Reads a number: an optional `#`, an optional sign, and a literal.
pub fn parse_number(text: &Vec<char>) -> (parsed: Result<i64, NumberFault>)
    ensures
        match parsed {
            Ok(v) => number(text@) == Some(v as int) && -NUMBER_LIMIT <= v <= NUMBER_LIMIT,
            Err(NumberFault::Malformed) => number(text@) is None,
            Err(NumberFault::TooLarge) => number(text@) matches Some(v) && !(-NUMBER_LIMIT <= v
                <= NUMBER_LIMIT),
        },
{
    let n = text.len();
    let mut at: usize = 0;
    if at < n && text[at] == '#' {
        at += 1;
    }
    let ghost body = text@.skip(at as int);
    assert(number(text@) == signed(body)) by {
        if at == 0 {
            assert(body =~= text@);
        }
    }
    let negative = at < n && text[at] == '-';
    let start = at;
    if at < n && (text[at] == '-' || text[at] == '+') {
        at += 1;
    }
    assert(body.len() > 0 ==> body[0] == text@[start as int]);
    assert(at > start ==> body.skip(1) =~= text@.skip(at as int));
    assert(at == start ==> body =~= text@.skip(at as int));
    match read_magnitude(text, at) {
        None => Err(NumberFault::Malformed),
        Some(m) => {
            if m > NUMBER_LIMIT {
                Err(NumberFault::TooLarge)
            } else if negative {
                Ok(-(m as i64))
            } else {
                Ok(m as i64)
            }
        },
    }
}

/// A number written with digits is not negative.
pub proof fn lemma_positional_sign(s: Seq<char>, radix: int)
    requires
        all_radix_digits(s, radix),
        radix == 10 || radix == 16,
    ensures
        0 <= positional(s, radix),
{
    if s.len() > 0 {
        lemma_positional_grows(s, radix);
    }
}

/// The number of bits of a register field. It numbers the eight registers of
/// one half.
pub const REGISTER_FIELD_WIDTH: u32 = 3;

/// A register as the assembly source names it.
#[derive(Debug, Clone, Copy, PartialEq, Eq, Structural)]
pub enum RegisterRef {
    /// One of the low registers, `r0` to `r7`.
    Low(u8),
    /// One of the high registers, `h0` to `h7`, which are registers 8 to 15.
    High(u8),
    /// The stack pointer, register 13.
    Sp,
    /// The link register, register 14.
    Lr,
    /// The program counter, register 15.
    Pc,
}

impl RegisterRef {
    /// A low or high register is numbered 0 to 7 within its half.
    pub open spec fn wf(&self) -> bool {
        match *self {
            RegisterRef::Low(n) => n < 8,
            RegisterRef::High(n) => n < 8,
            _ => true,
        }
    }

    /// The number of the register among the sixteen.
    pub open spec fn spec_number(&self) -> int {
        match *self {
            RegisterRef::Low(n) => n as int,
            RegisterRef::High(n) => n + 8,
            RegisterRef::Sp => 13,
            RegisterRef::Lr => 14,
            RegisterRef::Pc => 15,
        }
    }

    /// What a three-bit register field holds for the register: its number
    /// within its half. Whether the high half is meant is told by a flag of the
    /// instruction, never by the field.
    pub open spec fn spec_field(&self) -> int {
        match *self {
            RegisterRef::Low(n) => n as int,
            RegisterRef::High(n) => n as int,
            RegisterRef::Sp => 5,
            RegisterRef::Lr => 6,
            RegisterRef::Pc => 7,
        }
    }

    /// Whether the register is one of the upper eight.
    pub open spec fn spec_is_high(&self) -> bool {
        !(*self is Low)
    }

    /// The number of the register among the sixteen.
    pub fn number(&self) -> (n: u8)
        requires
            self.wf(),
        ensures
            n == self.spec_number(),
            n < 16,
    {
        match *self {
            RegisterRef::Low(n) => n,
            RegisterRef::High(n) => n + 8,
            RegisterRef::Sp => 13,
            RegisterRef::Lr => 14,
            RegisterRef::Pc => 15,
        }
    }

    /// What a three-bit register field holds for the register.
    pub fn field(&self) -> (n: u8)
        requires
            self.wf(),
        ensures
            n == self.spec_field(),
            n < 8,
            n == self.spec_number() % 8,
    {
        match *self {
            RegisterRef::Low(n) => n,
            RegisterRef::High(n) => n,
            RegisterRef::Sp => 5,
            RegisterRef::Lr => 6,
            RegisterRef::Pc => 7,
        }
    }

    /// Whether the register is one of the upper eight.
    pub fn is_high(&self) -> (high: bool)
        ensures
            high == self.spec_is_high(),
    {
        match *self {
            RegisterRef::Low(_) => false,
            _ => true,
        }
    }
}

/// The register that `s` names: `r0` to `r7`, `h0` to `h7`, `sp`, `lr` or `pc`,
/// in either case.
pub open spec fn register(s: Seq<char>) -> Option<RegisterRef> {
    if s.len() != 2 {
        None
    } else if upper(s[0]) == 'R' && '0' <= s[1] <= '7' {
        Some(RegisterRef::Low((s[1] as u8 - 48) as u8))
    } else if upper(s[0]) == 'H' && '0' <= s[1] <= '7' {
        Some(RegisterRef::High((s[1] as u8 - 48) as u8))
    } else if upper(s[0]) == 'S' && upper(s[1]) == 'P' {
        Some(RegisterRef::Sp)
    } else if upper(s[0]) == 'L' && upper(s[1]) == 'R' {
        Some(RegisterRef::Lr)
    } else if upper(s[0]) == 'P' && upper(s[1]) == 'C' {
        Some(RegisterRef::Pc)
    } else {
        None
    }
}

/// Reads the name of a register.
pub fn parse_register(text: &Vec<char>) -> (parsed: Option<RegisterRef>)
    ensures
        parsed == register(text@),
        parsed matches Some(r) ==> r.wf(),
{
    if text.len() != 2 {
        return None;
    }
    let first = to_upper(text[0]);
    let second = text[1];
    if first == 'R' && '0' <= second && second <= '7' {
        Some(RegisterRef::Low((second as u8) - 48))
    } else if first == 'H' && '0' <= second && second <= '7' {
        Some(RegisterRef::High((second as u8) - 48))
    } else if first == 'S' && to_upper(second) == 'P' {
        Some(RegisterRef::Sp)
    } else if first == 'L' && to_upper(second) == 'R' {
        Some(RegisterRef::Lr)
    } else if first == 'P' && to_upper(second) == 'C' {
        Some(RegisterRef::Pc)
    } else {
        None
    }
}

/// Whether `s` names low register `n` somewhere: an `r` or `R` with the digit
/// of `n` behind it.
pub open spec fn lists_register(s: Seq<char>, n: int) -> bool {
    exists|i: int|
        0 <= i && i + 1 < s.len() && #[trigger] upper(s[i]) == 'R' && s[i + 1] == digit_char(n)
}

/// The character that writes the digit `n`.
pub open spec fn digit_char(n: int) -> char {
    ((48 + n) as u8) as char
}

/// The register list that `s` writes, as far as the first `n` low registers
/// go: bit `k` is set where `s` names register `k`.
pub open spec fn list_bits(s: Seq<char>, n: int) -> int
    decreases n,
{
    if n <= 0 {
        0
    } else {
        list_bits(s, n - 1) + if lists_register(s, n - 1) {
            pow2((n - 1) as nat) as int
        } else {
            0
        }
    }
}

/// Whether `s` is written as a register list: it opens with a brace.
pub open spec fn is_list(s: Seq<char>) -> bool {
    s.len() > 0 && s[0] == '{'
}

/// Whether `text` names low register `n`.
pub fn names_register(text: &Vec<char>, n: u8) -> (found: bool)
    requires
        n < 8,
    ensures
        found == lists_register(text@, n as int),
{
    let len = text.len();
    if len < 2 {
        return false;
    }
    let wanted = (48 + n) as char;
    let mut i: usize = 0;
    while i < len - 1
        invariant
            len == text@.len(),
            len >= 2,
            wanted == digit_char(n as int),
            forall|k: int|
                0 <= k < i ==> !(#[trigger] upper(text@[k]) == 'R' && text@[k + 1] == wanted),
        decreases len - i,
    {
        if to_upper(text[i]) == 'R' && text[i + 1] == wanted {
            assert(upper(text@[i as int]) == 'R' && text@[i + 1] == wanted);
            return true;
        }
        i += 1;
    }
    false
}

/// Reads a register list: the byte with bit `k` set where the text names low
/// register `k`.
pub fn parse_list(text: &Vec<char>) -> (bits: u8)
    ensures
        bits == list_bits(text@, 8),
{
    let mut bits: u64 = 0;
    let mut n: u8 = 0;
    proof {
        lemma_pow2_values();
    }
    while n < 8
        invariant
            n <= 8,
            bits == list_bits(text@, n as int),
            bits < pow2(n as nat),
            pow2(8) == 256,
        decreases 8 - n,
    {
        proof {
            lemma_pow2_monotone((n + 1) as nat, 8);
        }
        let weight = two_pow(n as u32);
        if names_register(text, n) {
            bits = bits + weight;
        }
        n += 1;
    }
    bits as u8
}

/// Whether `s` is a name: a letter or an underscore, then letters, digits and
/// underscores.
pub open spec fn is_name(s: Seq<char>) -> bool {
    &&& s.len() > 0
    &&& is_name_start(s[0])
    &&& forall|i: int| 0 <= i < s.len() ==> is_name_char(#[trigger] s[i])
}

/// Whether the text is a name.
pub fn name(text: &Vec<char>) -> (ok: bool)
    ensures
        ok == is_name(text@),
{
    let n = text.len();
    if n == 0 {
        return false;
    }
    if !(alpha(text[0]) || text[0] == '_') {
        return false;
    }
    let mut i: usize = 0;
    while i < n
        invariant
            n == text@.len(),
            i <= n,
            forall|k: int| 0 <= k < i ==> is_name_char(#[trigger] text@[k]),
        decreases n - i,
    {
        let c = text[i];
        if !(alpha(c) || digit(c) || c == '_') {
            return false;
        }
        i += 1;
    }
    true
}

/// Whether every character of `s` is a space or a tab.
pub open spec fn is_blank_text(s: Seq<char>) -> bool {
    forall|i: int| 0 <= i < s.len() ==> is_blank(#[trigger] s[i])
}

/// Whether the text is empty or made of spaces and tabs.
pub fn blank_text(text: &Vec<char>) -> (ok: bool)
    ensures
        ok == is_blank_text(text@),
{
    let n = text.len();
    let mut i: usize = 0;
    while i < n
        invariant
            n == text@.len(),
            i <= n,
            forall|k: int| 0 <= k < i ==> is_blank(#[trigger] text@[k]),
        decreases n - i,
    {
        if !blank(text[i]) {
            return false;
        }
        i += 1;
    }
    true
}

/// Whether `n` is the length of the run of letters that `s` starts with.
pub open spec fn is_letter_run(s: Seq<char>, n: int) -> bool {
    &&& 0 <= n <= s.len()
    &&& forall|i: int| 0 <= i < n ==> is_alpha(#[trigger] s[i])
    &&& n < s.len() ==> !is_alpha(s[n])
}

/// Where the run of letters that starts at `i` ends.
pub open spec fn letters_from(s: Seq<char>, i: int) -> int
    decreases s.len() - i,
{
    if 0 <= i < s.len() && is_alpha(s[i]) {
        letters_from(s, i + 1)
    } else {
        i
    }
}

/// The length of the run of letters that the text starts with.
pub fn letter_run(text: &Vec<char>) -> (n: usize)
    ensures
        n == letters_from(text@, 0),
        is_letter_run(text@, n as int),
{
    let len = text.len();
    let mut n: usize = 0;
    while n < len && alpha(text[n])
        invariant
            len == text@.len(),
            n <= len,
            forall|i: int| 0 <= i < n ==> is_alpha(#[trigger] text@[i]),
            letters_from(text@, 0) == letters_from(text@, n as int),
        decreases len - n,
    {
        n += 1;
    }
    n
}

/// Whether two strings hold the same text.
pub fn same_text(a: &str, b: &str) -> (same: bool)
    ensures
        same == (a@ == b@),
{
    let left = a.to_owned();
    let right = b.to_owned();
    left == right
}

/// Whether two texts are the same but for the case of their ASCII letters.
pub open spec fn same_ignoring_case(a: Seq<char>, b: Seq<char>) -> bool {
    &&& a.len() == b.len()
    &&& forall|i: int| 0 <= i < a.len() ==> upper(#[trigger] a[i]) == upper(b[i])
}

/// Whether the first `n` characters of `a` are `b` but for the case of letters.
pub fn starts_ignoring_case(a: &Vec<char>, n: usize, b: &Vec<char>) -> (same: bool)
    requires
        n <= a@.len(),
    ensures
        same == same_ignoring_case(a@.take(n as int), b@),
{
    if n != b.len() {
        return false;
    }
    let mut i: usize = 0;
    while i < n
        invariant
            n == b@.len(),
            n <= a@.len(),
            i <= n,
            forall|k: int| 0 <= k < i ==> upper(#[trigger] a@.take(n as int)[k]) == upper(b@[k]),
        decreases n - i,
    {
        if to_upper(a[i]) != to_upper(b[i]) {
            assert(upper(a@.take(n as int)[i as int]) != upper(b@[i as int]));
            return false;
        }
        i += 1;
    }
    true
}

/// A line without the carriage return that may end it.
pub open spec fn without_return(line: Seq<char>) -> Seq<char> {
    if line.len() > 0 && line.last() == '\r' {
        line.drop_last()
    } else {
        line
    }
}

/// The lines that end within the first `n` characters of `s`, and where the
/// line that is still open starts.
pub open spec fn split_upto(s: Seq<char>, n: int) -> (Seq<Seq<char>>, int)
    decreases n,
{
    if n <= 0 {
        (Seq::empty(), 0)
    } else {
        let (done, start) = split_upto(s, n - 1);
        if s[n - 1] == '\n' {
            (done.push(without_return(s.subrange(start, n - 1))), n)
        } else {
            (done, start)
        }
    }
}

/// The lines of a text. A line ends at a line feed, which does not belong to
/// it, nor does a carriage return just before the line feed. What follows the
/// last line feed is a line if it is not empty.
pub open spec fn source_lines(s: Seq<char>) -> Seq<Seq<char>> {
    let (done, start) = split_upto(s, s.len() as int);
    if start < s.len() {
        done.push(s.subrange(start, s.len() as int))
    } else {
        done
    }
}

/// Strings as plain values.
pub open spec fn texts_view(texts: Seq<String>) -> Seq<Seq<char>> {
    Seq::new(texts.len(), |i: int| texts[i]@)
}

/// The lines of a text.
pub fn split_lines(contents: &str) -> (lines: Vec<String>)
    ensures
        texts_view(lines@) == source_lines(contents@),
{
    let chars = chars_of(contents);
    let n = chars.len();
    let mut lines: Vec<String> = Vec::new();
    let mut start: usize = 0;
    let mut i: usize = 0;
    assert(texts_view(lines@) =~= Seq::empty());
    while i < n
        invariant
            n == chars@.len(),
            chars@ == contents@,
            start <= i <= n,
            (texts_view(lines@), start as int) == split_upto(chars@, i as int),
        decreases n - i,
    {
        if chars[i] == '\n' {
            let end = if start < i && chars[i - 1] == '\r' {
                i - 1
            } else {
                i
            };
            let ghost before = texts_view(lines@);
            let line = string_of(&chars, start, end);
            assert(line@ =~= without_return(chars@.subrange(start as int, i as int)));
            lines.push(line);
            assert(texts_view(lines@) =~= before.push(line@));
            start = i + 1;
        }
        i += 1;
    }
    if start < n {
        let ghost before = texts_view(lines@);
        let line = string_of(&chars, start, n);
        lines.push(line);
        assert(texts_view(lines@) =~= before.push(line@));
    }
    lines
}

} // verus!

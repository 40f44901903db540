//! The data that a directive declares: `.byte`, `.hword` and `.word` with a
//! number, `.ascii` with a quoted text.
use vstd::prelude::*;
use vstd::string::StrSliceExecFns;
use crate::compile::error::ErrorKind;
use crate::compile::text::{chars_of, number, parse_number, string_of, NumberFault};
use crate::definitions::bits::{field_bits, lemma_pow2_monotone, lemma_pow2_values, to_field};

verus! {

/// The number of bytes that a directive for numbers declares.
pub open spec fn directive_width(mark: Seq<char>) -> Option<nat> {
    if mark == ".byte"@ {
        Some(1)
    } else if mark == ".hword"@ {
        Some(2)
    } else if mark == ".word"@ {
        Some(4)
    } else {
        None
    }
}

/// The `size` low bytes of `value`, the most significant first.
pub open spec fn be_bytes(value: nat, size: nat) -> Seq<u8>
    decreases size,
{
    if size == 0 {
        Seq::empty()
    } else {
        be_bytes(value / 256, (size - 1) as nat).push((value % 256) as u8)
    }
}

/// Whether a literal is a text in double quotes.
pub open spec fn is_quoted(literal: Seq<char>) -> bool {
    literal.len() >= 2 && literal.first() == '"' && literal.last() == '"'
}

/// The bytes that a directive declares. A directive for numbers takes a number
/// that fits in its bytes and gives them with the most significant first;
/// `.ascii` takes a quoted text and gives its bytes in UTF-8. Every other
/// directive declares nothing.
pub open spec fn data_of(mark: Seq<char>, literal: Option<Seq<char>>) -> Result<
    Option<Seq<u8>>,
    ErrorKind,
> {
    match directive_width(mark) {
        Some(size) => match literal {
            None => Err(ErrorKind::InvalidOperandSyntax),
            Some(text) => match number(text) {
                None => Err(ErrorKind::InvalidOperandSyntax),
                Some(value) => match field_bits(value, 8 * size, false) {
                    None => Err(ErrorKind::ImmediateOverflow),
                    Some(field) => Ok(Some(be_bytes(field, size))),
                },
            },
        },
        None => if mark == ".ascii"@ {
            match literal {
                Some(text) => if is_quoted(text) {
                    Ok(Some(vstd::utf8::encode_utf8(text.subrange(1, text.len() - 1))))
                } else {
                    Err(ErrorKind::InvalidOperandSyntax)
                },
                None => Err(ErrorKind::InvalidOperandSyntax),
            }
        } else {
            Ok(None)
        },
    }
}

/// The `size` low bytes of `value`, the most significant first.
pub fn bytes_of(value: u64, size: usize) -> (bytes: Vec<u8>)
    requires
        size <= 8,
    ensures
        bytes@ == be_bytes(value as nat, size as nat),
    decreases size,
{
    if size == 0 {
        Vec::new()
    } else {
        let mut bytes = bytes_of(value / 256, size - 1);
        bytes.push((value % 256) as u8);
        bytes
    }
}

/// The number of bytes that a directive for numbers declares.
pub fn width_of_directive(mark: &str) -> (size: Option<usize>)
    ensures
        match size {
            Some(n) => directive_width(mark@) == Some(n as nat) && 1 <= n <= 4,
            None => directive_width(mark@) is None,
        },
{
    let owned = mark.to_owned();
    if owned == ".byte".to_owned() {
        Some(1)
    } else if owned == ".hword".to_owned() {
        Some(2)
    } else if owned == ".word".to_owned() {
        Some(4)
    } else {
        None
    }
}

/// The bytes that a directive declares.
pub fn directive_data(mark: &str, literal: Option<&String>) -> (data: Result<
    Option<Vec<u8>>,
    ErrorKind,
>)
    ensures
        match data {
            Ok(Some(bytes)) => data_of(
                mark@,
                match literal {
                    Some(text) => Some(text@),
                    None => None,
                },
            ) == Ok::<Option<Seq<u8>>, ErrorKind>(Some(bytes@)),
            Ok(None) => data_of(
                mark@,
                match literal {
                    Some(text) => Some(text@),
                    None => None,
                },
            ) == Ok::<Option<Seq<u8>>, ErrorKind>(None),
            Err(kind) => data_of(
                mark@,
                match literal {
                    Some(text) => Some(text@),
                    None => None,
                },
            ) == Err::<Option<Seq<u8>>, ErrorKind>(kind),
        },
{
    match width_of_directive(mark) {
        Some(size) => {
            let text = match literal {
                Some(text) => text,
                None => {
                    return Err(ErrorKind::InvalidOperandSyntax);
                },
            };
            let chars = chars_of(text.as_str());
            let value = match parse_number(&chars) {
                Ok(value) => value,
                Err(NumberFault::Malformed) => {
                    return Err(ErrorKind::InvalidOperandSyntax);
                },
                Err(NumberFault::TooLarge) => {
                    proof {
                        lemma_pow2_values();
                        lemma_pow2_monotone(8 * size as nat, 32);
                    }
                    return Err(ErrorKind::ImmediateOverflow);
                },
            };
            match to_field(value, 8 * size as u32, false) {
                Some(field) => Ok(Some(bytes_of(field, size))),
                None => Err(ErrorKind::ImmediateOverflow),
            }
        },
        None => {
            if mark.to_owned() == ".ascii".to_owned() {
                let text = match literal {
                    Some(text) => text,
                    None => {
                        return Err(ErrorKind::InvalidOperandSyntax);
                    },
                };
                let chars = chars_of(text.as_str());
                let n = chars.len();
                if n >= 2 && chars[0] == '"' && chars[n - 1] == '"' {
                    let inner = string_of(&chars, 1, n - 1);
                    Ok(Some(inner.as_str().as_bytes_vec()))
                } else {
                    Err(ErrorKind::InvalidOperandSyntax)
                }
            } else {
                Ok(None)
            }
        },
    }
}

} // verus!

//! The mnemonics of the default language, each with its shapes in the order in
//! which they are tried.
use vstd::prelude::*;
use crate::definitions::language::CommandDefinition;
use crate::definitions::processor::SegType;
use crate::definitions::thumb_default::formats::default_roles;

verus! {

/// Whether a shape is encoded in one of the default formats, with one entry for
/// each field of the format that takes an operand, role by role.
pub open spec fn is_default_shape(variant: &CommandDefinition) -> bool {
    &&& 1 <= variant.format_index <= 19
    &&& variant.roles() == default_roles(variant.format_index as int)
}

/// The shapes of a mnemonic as plain values: for each shape its pattern, the
/// id of its format and what its entries carry.
pub open spec fn shapes_of(mnemonic: &(String, Vec<CommandDefinition>)) -> Seq<
    (Seq<char>, int, Seq<Seq<char>>),
> {
    Seq::new(
        mnemonic.1@.len(),
        |v: int|
            (
                mnemonic.1@[v].regex@,
                mnemonic.1@[v].format_index as int,
                Seq::new(mnemonic.1@[v].segments@.len(), |k: int| mnemonic.1@[v].segments@[k].1@),
            ),
    )
}

/// Whether a mnemonic is the default mnemonic at place `m` of the language: it
/// has the name and the shapes that the tables below list for that place, and
/// every shape of it is a default shape.
pub open spec fn is_default_mnemonic(mnemonic: &(String, Vec<CommandDefinition>), m: int) -> bool {
    &&& mnemonic.0@ == default_name(m)
    &&& shapes_of(mnemonic) == default_shapes(m)
    &&& forall|v: int| 0 <= v < mnemonic.1@.len() ==> is_default_shape(&#[trigger] mnemonic.1@[v])
}

/// The name of the default mnemonic at place `m` of the language.
pub open spec fn default_name(m: int) -> Seq<char> {
    if m == 0 {
        "ADC"@
    } else if m == 1 {
        "ADD"@
    } else if m == 2 {
        "AND"@
    } else if m == 3 {
        "ASR"@
    } else if m == 4 {
        "B"@
    } else if m == 5 {
        "BEQ"@
    } else if m == 6 {
        "BNE"@
    } else if m == 7 {
        "BCS"@
    } else if m == 8 {
        "BCC"@
    } else if m == 9 {
        "BMI"@
    } else if m == 10 {
        "BPL"@
    } else if m == 11 {
        "BVS"@
    } else if m == 12 {
        "BVC"@
    } else if m == 13 {
        "BHI"@
    } else if m == 14 {
        "BLS"@
    } else if m == 15 {
        "BGE"@
    } else if m == 16 {
        "BLT"@
    } else if m == 17 {
        "BGT"@
    } else if m == 18 {
        "BLE"@
    } else if m == 19 {
        "BIC"@
    } else if m == 20 {
        "BL"@
    } else if m == 21 {
        "BX"@
    } else if m == 22 {
        "CMN"@
    } else if m == 23 {
        "CMP"@
    } else if m == 24 {
        "EOR"@
    } else if m == 25 {
        "LDMIA"@
    } else if m == 26 {
        "LDR"@
    } else if m == 27 {
        "LDRB"@
    } else if m == 28 {
        "LDRH"@
    } else if m == 29 {
        "LSL"@
    } else if m == 30 {
        "LDSB"@
    } else if m == 31 {
        "LDSH"@
    } else if m == 32 {
        "LSR"@
    } else if m == 33 {
        "MOV"@
    } else if m == 34 {
        "MUL"@
    } else if m == 35 {
        "MVN"@
    } else if m == 36 {
        "NEG"@
    } else if m == 37 {
        "ORR"@
    } else if m == 38 {
        "POP"@
    } else if m == 39 {
        "PUSH"@
    } else if m == 40 {
        "ROR"@
    } else if m == 41 {
        "SBC"@
    } else if m == 42 {
        "STMIA"@
    } else if m == 43 {
        "STR"@
    } else if m == 44 {
        "STRB"@
    } else if m == 45 {
        "STRH"@
    } else if m == 46 {
        "SWI"@
    } else if m == 47 {
        "SUB"@
    } else if m == 48 {
        "TST"@
    } else {
        Seq::empty()
    }
}

/// The shapes of the default mnemonic at place `m` of the language, in the
/// order in which they are tried: for each shape its pattern, the id of its
/// format and what its entries carry, field by field. An entry that starts with
/// a digit is the number that goes into the field; any other names the group
/// of the pattern that captures the operand.
pub open spec fn default_shapes(m: int) -> Seq<(Seq<char>, int, Seq<Seq<char>>)> {
    if m == 0 {
        seq![
            (
                r"^[aA][dD][cC][ \t]+(?P<destination>[rR][0-7])[ \t]*,[ \t]*(?P<source>[rR][0-7])[ \t]*$"@,
                4int,
                seq!["5"@, "source"@, "destination"@],
            ),
        ]
    } else if m == 1 {
        seq![
            (
                r"^[aA][dD][dD][ \t]+(?P<destination>[rR][0-7])[ \t]*,[ \t]*(?P<source>[rR][0-7])[ \t]*,[ \t]*(?P<immediate>[rR][0-7])[ \t]*$"@,
                2int,
                seq!["0"@, "0"@, "immediate"@, "source"@, "destination"@],
            ),
            (
                r"^[aA][dD][dD][ \t]+(?P<destination>[rR][0-7])[ \t]*,[ \t]*(?P<source>[rR][0-7])[ \t]*,[ \t]*#(?P<immediate>0x[0-9a-fA-F]+|[0-9]+)[ \t]*$"@,
                2int,
                seq!["1"@, "0"@, "immediate"@, "source"@, "destination"@],
            ),
            (
                r"^[aA][dD][dD][ \t]+(?P<destination>[rR][0-7])[ \t]*,[ \t]*#(?P<offset>0x[0-9a-fA-F]+|[0-9]+)[ \t]*$"@,
                3int,
                seq!["2"@, "destination"@, "offset"@],
            ),
            (
                r"^[aA][dD][dD][ \t]+(?P<destination>[rR][0-7])[ \t]*,[ \t]*(?P<source>[hH][0-7])[ \t]*$"@,
                5int,
                seq!["0"@, "0"@, "1"@, "source"@, "destination"@],
            ),
            (
                r"^[aA][dD][dD][ \t]+(?P<destination>[hH][0-7])[ \t]*,[ \t]*(?P<source>[rR][0-7])[ \t]*$"@,
                5int,
                seq!["0"@, "1"@, "0"@, "source"@, "destination"@],
            ),
            (
                r"^[aA][dD][dD][ \t]+(?P<destination>[hH][0-7])[ \t]*,[ \t]*(?P<source>[hH][0-7])[ \t]*$"@,
                5int,
                seq!["0"@, "1"@, "1"@, "source"@, "destination"@],
            ),
            (
                r"^[aA][dD][dD][ \t]+(?P<destination>[rR][0-7])[ \t]*,[ \t]*[pP][cC][ \t]*,[ \t]*#(?P<immediate>0x[0-9a-fA-F]+|[0-9]+)[ \t]*$"@,
                12int,
                seq!["0"@, "destination"@, "immediate"@],
            ),
            (
                r"^[aA][dD][dD][ \t]+(?P<destination>[rR][0-7])[ \t]*,[ \t]*[sS][pP][ \t]*,[ \t]*#(?P<immediate>0x[0-9a-fA-F]+|[0-9]+)[ \t]*$"@,
                12int,
                seq!["1"@, "destination"@, "immediate"@],
            ),
            (
                r"^[aA][dD][dD][ \t]+[sS][pP][ \t]*,[ \t]*#(?P<immediate>0x[0-9a-fA-F]+|[0-9]+)[ \t]*$"@,
                13int,
                seq!["0"@, "immediate"@],
            ),
            (
                r"^[aA][dD][dD][ \t]+[sS][pP][ \t]*,[ \t]*#-(?P<immediate>0x[0-9a-fA-F]+|[0-9]+)[ \t]*$"@,
                13int,
                seq!["1"@, "immediate"@],
            ),
        ]
    } else if m == 2 {
        seq![
            (
                r"^[aA][nN][dD][ \t]+(?P<destination>[rR][0-7])[ \t]*,[ \t]*(?P<source>[rR][0-7])[ \t]*$"@,
                4int,
                seq!["0"@, "source"@, "destination"@],
            ),
        ]
    } else if m == 3 {
        seq![
            (
                r"^[aA][sS][rR][ \t]+(?P<destination>[rR][0-7])[ \t]*,[ \t]*(?P<source>[rR][0-7])[ \t]*,[ \t]*#(?P<offset>0x[0-9a-fA-F]+|[0-9]+)[ \t]*$"@,
                1int,
                seq!["2"@, "offset"@, "source"@, "destination"@],
            ),
            (
                r"^[aA][sS][rR][ \t]+(?P<destination>[rR][0-7])[ \t]*,[ \t]*(?P<source>[rR][0-7])[ \t]*$"@,
                4int,
                seq!["4"@, "source"@, "destination"@],
            ),
        ]
    } else if m == 4 {
        seq![
            (
                r"^[bB][ \t]+(?P<label>[a-zA-Z_][a-zA-Z0-9_]*)[ \t]*$"@,
                18int,
                seq!["label"@],
            ),
        ]
    } else if m == 5 {
        seq![
            (
                r"^[bB][eE][qQ][ \t]+(?P<label>[a-zA-Z_][a-zA-Z0-9_]*)[ \t]*$"@,
                16int,
                seq!["0"@, "label"@],
            ),
        ]
    } else if m == 6 {
        seq![
            (
                r"^[bB][nN][eE][ \t]+(?P<label>[a-zA-Z_][a-zA-Z0-9_]*)[ \t]*$"@,
                16int,
                seq!["1"@, "label"@],
            ),
        ]
    } else if m == 7 {
        seq![
            (
                r"^[bB][cC][sS][ \t]+(?P<label>[a-zA-Z_][a-zA-Z0-9_]*)[ \t]*$"@,
                16int,
                seq!["2"@, "label"@],
            ),
        ]
    } else if m == 8 {
        seq![
            (
                r"^[bB][cC][cC][ \t]+(?P<label>[a-zA-Z_][a-zA-Z0-9_]*)[ \t]*$"@,
                16int,
                seq!["3"@, "label"@],
            ),
        ]
    } else if m == 9 {
        seq![
            (
                r"^[bB][mM][iI][ \t]+(?P<label>[a-zA-Z_][a-zA-Z0-9_]*)[ \t]*$"@,
                16int,
                seq!["4"@, "label"@],
            ),
        ]
    } else if m == 10 {
        seq![
            (
                r"^[bB][pP][lL][ \t]+(?P<label>[a-zA-Z_][a-zA-Z0-9_]*)[ \t]*$"@,
                16int,
                seq!["5"@, "label"@],
            ),
        ]
    } else if m == 11 {
        seq![
            (
                r"^[bB][vV][sS][ \t]+(?P<label>[a-zA-Z_][a-zA-Z0-9_]*)[ \t]*$"@,
                16int,
                seq!["6"@, "label"@],
            ),
        ]
    } else if m == 12 {
        seq![
            (
                r"^[bB][vV][cC][ \t]+(?P<label>[a-zA-Z_][a-zA-Z0-9_]*)[ \t]*$"@,
                16int,
                seq!["7"@, "label"@],
            ),
        ]
    } else if m == 13 {
        seq![
            (
                r"^[bB][hH][iI][ \t]+(?P<label>[a-zA-Z_][a-zA-Z0-9_]*)[ \t]*$"@,
                16int,
                seq!["8"@, "label"@],
            ),
        ]
    } else if m == 14 {
        seq![
            (
                r"^[bB][lL][sS][ \t]+(?P<label>[a-zA-Z_][a-zA-Z0-9_]*)[ \t]*$"@,
                16int,
                seq!["9"@, "label"@],
            ),
        ]
    } else if m == 15 {
        seq![
            (
                r"^[bB][gG][eE][ \t]+(?P<label>[a-zA-Z_][a-zA-Z0-9_]*)[ \t]*$"@,
                16int,
                seq!["10"@, "label"@],
            ),
        ]
    } else if m == 16 {
        seq![
            (
                r"^[bB][lL][tT][ \t]+(?P<label>[a-zA-Z_][a-zA-Z0-9_]*)[ \t]*$"@,
                16int,
                seq!["11"@, "label"@],
            ),
        ]
    } else if m == 17 {
        seq![
            (
                r"^[bB][gG][tT][ \t]+(?P<label>[a-zA-Z_][a-zA-Z0-9_]*)[ \t]*$"@,
                16int,
                seq!["12"@, "label"@],
            ),
        ]
    } else if m == 18 {
        seq![
            (
                r"^[bB][lL][eE][ \t]+(?P<label>[a-zA-Z_][a-zA-Z0-9_]*)[ \t]*$"@,
                16int,
                seq!["13"@, "label"@],
            ),
        ]
    } else if m == 19 {
        seq![
            (
                r"^[bB][iI][cC][ \t]+(?P<destination>[rR][0-7])[ \t]*,[ \t]*(?P<source>[rR][0-7])[ \t]*$"@,
                4int,
                seq!["14"@, "source"@, "destination"@],
            ),
        ]
    } else if m == 20 {
        seq![
            (
                r"^[bB][lL][ \t]+(?P<label>[a-zA-Z_][a-zA-Z0-9_]*)[ \t]*$"@,
                19int,
                seq!["0"@, "label"@],
            ),
        ]
    } else if m == 21 {
        seq![
            (
                r"^[bB][xX][ \t]+(?P<source>[rR][0-7])[ \t]*$"@,
                5int,
                seq!["3"@, "0"@, "0"@, "source"@, "0"@],
            ),
            (
                r"^[bB][xX][ \t]+(?P<source>[hH][0-7])[ \t]*$"@,
                5int,
                seq!["3"@, "0"@, "1"@, "source"@, "0"@],
            ),
        ]
    } else if m == 22 {
        seq![
            (
                r"^[cC][mM][nN][ \t]+(?P<destination>[rR][0-7])[ \t]*,[ \t]*(?P<source>[rR][0-7])[ \t]*$"@,
                4int,
                seq!["11"@, "source"@, "destination"@],
            ),
        ]
    } else if m == 23 {
        seq![
            (
                r"^[cC][mM][pP][ \t]+(?P<destination>[rR][0-7])[ \t]*,[ \t]*#(?P<offset>0x[0-9a-fA-F]+|[0-9]+)[ \t]*$"@,
                3int,
                seq!["1"@, "destination"@, "offset"@],
            ),
            (
                r"^[cC][mM][pP][ \t]+(?P<destination>[rR][0-7])[ \t]*,[ \t]*(?P<source>[rR][0-7])[ \t]*$"@,
                4int,
                seq!["10"@, "source"@, "destination"@],
            ),
            (
                r"^[cC][mM][pP][ \t]+(?P<destination>[rR][0-7])[ \t]*,[ \t]*(?P<source>[hH][0-7])[ \t]*$"@,
                5int,
                seq!["1"@, "0"@, "1"@, "source"@, "destination"@],
            ),
            (
                r"^[cC][mM][pP][ \t]+(?P<destination>[hH][0-7])[ \t]*,[ \t]*(?P<source>[rR][0-7])[ \t]*$"@,
                5int,
                seq!["1"@, "1"@, "0"@, "source"@, "destination"@],
            ),
            (
                r"^[cC][mM][pP][ \t]+(?P<destination>[hH][0-7])[ \t]*,[ \t]*(?P<source>[hH][0-7])[ \t]*$"@,
                5int,
                seq!["1"@, "1"@, "1"@, "source"@, "destination"@],
            ),
        ]
    } else if m == 24 {
        seq![
            (
                r"^[eE][oO][rR][ \t]+(?P<destination>[rR][0-7])[ \t]*,[ \t]*(?P<source>[rR][0-7])[ \t]*$"@,
                4int,
                seq!["1"@, "source"@, "destination"@],
            ),
        ]
    } else if m == 25 {
        seq![
            (
                r"^[lL][dD][mM][iI][aA][ \t]+(?P<base>[rR][0-7])![ \t]*,[ \t]*(?P<list>\{[ \t]*(?:[rR][0-7]|(?:[rR][0-7][ \t]*,[ \t]*){1,7}[rR][0-7])[ \t]*\})[ \t]*$"@,
                15int,
                seq!["1"@, "base"@, "list"@],
            ),
        ]
    } else if m == 26 {
        seq![
            (
                r"^[lL][dD][rR][ \t]+(?P<destination>[rR][0-7])[ \t]*,[ \t]*\[[ \t]*[pP][cC][ \t]*,[ \t]*#(?P<offset>0x[0-9a-fA-F]+|[0-9]+)[ \t]*\][ \t]*$"@,
                6int,
                seq!["destination"@, "offset"@],
            ),
            (
                r"^[lL][dD][rR][ \t]+(?P<destination>[rR][0-7])[ \t]*,[ \t]*\[[ \t]*(?P<base>[rR][0-7])[ \t]*,[ \t]*(?P<offset>[rR][0-7])[ \t]*\][ \t]*$"@,
                7int,
                seq!["1"@, "0"@, "offset"@, "base"@, "destination"@],
            ),
            (
                r"^[lL][dD][rR][ \t]+(?P<destination>[rR][0-7])[ \t]*,[ \t]*\[[ \t]*(?P<base>[rR][0-7])[ \t]*,[ \t]*#(?P<offset>0x[0-9a-fA-F]+|[0-9]+)[ \t]*\][ \t]*$"@,
                9int,
                seq!["0"@, "1"@, "offset"@, "base"@, "destination"@],
            ),
            (
                r"^[lL][dD][rR][ \t]+(?P<destination>[rR][0-7])[ \t]*,[ \t]*\[[ \t]*[sS][pP][ \t]*,[ \t]*#(?P<offset>0x[0-9a-fA-F]+|[0-9]+)[ \t]*\][ \t]*$"@,
                11int,
                seq!["1"@, "destination"@, "offset"@],
            ),
        ]
    } else if m == 27 {
        seq![
            (
                r"^[lL][dD][rR][bB][ \t]+(?P<destination>[rR][0-7])[ \t]*,[ \t]*\[[ \t]*(?P<base>[rR][0-7])[ \t]*,[ \t]*(?P<offset>[rR][0-7])[ \t]*\][ \t]*$"@,
                7int,
                seq!["1"@, "1"@, "offset"@, "base"@, "destination"@],
            ),
            (
                r"^[lL][dD][rR][bB][ \t]+(?P<destination>[rR][0-7])[ \t]*,[ \t]*\[[ \t]*(?P<base>[rR][0-7])[ \t]*,[ \t]*#(?P<offset>0x[0-9a-fA-F]+|[0-9]+)[ \t]*\][ \t]*$"@,
                9int,
                seq!["1"@, "1"@, "offset"@, "base"@, "destination"@],
            ),
        ]
    } else if m == 28 {
        seq![
            (
                r"^[lL][dD][rR][hH][ \t]+(?P<destination>[rR][0-7])[ \t]*,[ \t]*\[[ \t]*(?P<base>[rR][0-7])[ \t]*,[ \t]*(?P<offset>[rR][0-7])[ \t]*\][ \t]*$"@,
                8int,
                seq!["1"@, "0"@, "offset"@, "base"@, "destination"@],
            ),
            (
                r"^[lL][dD][rR][hH][ \t]+(?P<destination>[rR][0-7])[ \t]*,[ \t]*\[[ \t]*(?P<base>[rR][0-7])[ \t]*,[ \t]*#(?P<offset>0x[0-9a-fA-F]+|[0-9]+)[ \t]*\][ \t]*$"@,
                10int,
                seq!["1"@, "offset"@, "base"@, "destination"@],
            ),
        ]
    } else if m == 29 {
        seq![
            (
                r"^[lL][sS][lL][ \t]+(?P<destination>[rR][0-7])[ \t]*,[ \t]*(?P<source>[rR][0-7])[ \t]*,[ \t]*#(?P<offset>0x[0-9a-fA-F]+|[0-9]+)[ \t]*$"@,
                1int,
                seq!["0"@, "offset"@, "source"@, "destination"@],
            ),
            (
                r"^[lL][sS][lL][ \t]+(?P<destination>[rR][0-7])[ \t]*,[ \t]*(?P<source>[rR][0-7])[ \t]*$"@,
                4int,
                seq!["2"@, "source"@, "destination"@],
            ),
        ]
    } else if m == 30 {
        seq![
            (
                r"^[lL][dD][sS][bB][ \t]+(?P<destination>[rR][0-7])[ \t]*,[ \t]*\[[ \t]*(?P<base>[rR][0-7])[ \t]*,[ \t]*(?P<offset>[rR][0-7])[ \t]*\][ \t]*$"@,
                8int,
                seq!["0"@, "1"@, "offset"@, "base"@, "destination"@],
            ),
        ]
    } else if m == 31 {
        seq![
            (
                r"^[lL][dD][sS][hH][ \t]+(?P<destination>[rR][0-7])[ \t]*,[ \t]*\[[ \t]*(?P<base>[rR][0-7])[ \t]*,[ \t]*(?P<offset>[rR][0-7])[ \t]*\][ \t]*$"@,
                8int,
                seq!["1"@, "1"@, "offset"@, "base"@, "destination"@],
            ),
        ]
    } else if m == 32 {
        seq![
            (
                r"^[lL][sS][rR][ \t]+(?P<destination>[rR][0-7])[ \t]*,[ \t]*(?P<source>[rR][0-7])[ \t]*,[ \t]*#(?P<offset>0x[0-9a-fA-F]+|[0-9]+)[ \t]*$"@,
                1int,
                seq!["1"@, "offset"@, "source"@, "destination"@],
            ),
            (
                r"^[lL][sS][rR][ \t]+(?P<destination>[rR][0-7])[ \t]*,[ \t]*(?P<source>[rR][0-7])[ \t]*$"@,
                4int,
                seq!["3"@, "source"@, "destination"@],
            ),
        ]
    } else if m == 33 {
        seq![
            (
                r"^[mM][oO][vV][ \t]+(?P<destination>[rR][0-7])[ \t]*,[ \t]*#(?P<offset>0x[0-9a-fA-F]+|[0-9]+)[ \t]*$"@,
                3int,
                seq!["0"@, "destination"@, "offset"@],
            ),
            (
                r"^[mM][oO][vV][ \t]+(?P<destination>[rR][0-7])[ \t]*,[ \t]*(?P<source>[hH][0-7])[ \t]*$"@,
                5int,
                seq!["2"@, "0"@, "1"@, "source"@, "destination"@],
            ),
            (
                r"^[mM][oO][vV][ \t]+(?P<destination>[hH][0-7])[ \t]*,[ \t]*(?P<source>[rR][0-7])[ \t]*$"@,
                5int,
                seq!["2"@, "1"@, "0"@, "source"@, "destination"@],
            ),
            (
                r"^[mM][oO][vV][ \t]+(?P<destination>[hH][0-7])[ \t]*,[ \t]*(?P<source>[hH][0-7])[ \t]*$"@,
                5int,
                seq!["2"@, "1"@, "1"@, "source"@, "destination"@],
            ),
        ]
    } else if m == 34 {
        seq![
            (
                r"^[mM][uU][lL][ \t]+(?P<destination>[rR][0-7])[ \t]*,[ \t]*(?P<source>[rR][0-7])[ \t]*$"@,
                4int,
                seq!["13"@, "source"@, "destination"@],
            ),
        ]
    } else if m == 35 {
        seq![
            (
                r"^[mM][vV][nN][ \t]+(?P<destination>[rR][0-7])[ \t]*,[ \t]*(?P<source>[rR][0-7])[ \t]*$"@,
                4int,
                seq!["15"@, "source"@, "destination"@],
            ),
        ]
    } else if m == 36 {
        seq![
            (
                r"^[nN][eE][gG][ \t]+(?P<destination>[rR][0-7])[ \t]*,[ \t]*(?P<source>[rR][0-7])[ \t]*$"@,
                4int,
                seq!["9"@, "source"@, "destination"@],
            ),
        ]
    } else if m == 37 {
        seq![
            (
                r"^[oO][rR][rR][ \t]+(?P<destination>[rR][0-7])[ \t]*,[ \t]*(?P<source>[rR][0-7])[ \t]*$"@,
                4int,
                seq!["12"@, "source"@, "destination"@],
            ),
        ]
    } else if m == 38 {
        seq![
            (
                r"^[pP][oO][pP][ \t]+(?P<list>\{[ \t]*(?:[rR][0-7]|(?:[rR][0-7][ \t]*,[ \t]*){1,7}[rR][0-7])[ \t]*\})[ \t]*$"@,
                14int,
                seq!["1"@, "0"@, "list"@],
            ),
            (
                r"^[pP][oO][pP][ \t]+(?P<list>\{[ \t]*(?:[rR][0-7][ \t]*,[ \t]*){0,8}[pP][cC][ \t]*\})[ \t]*$"@,
                14int,
                seq!["1"@, "1"@, "list"@],
            ),
        ]
    } else if m == 39 {
        seq![
            (
                r"^[pP][uU][sS][hH][ \t]+(?P<list>\{[ \t]*(?:[rR][0-7]|(?:[rR][0-7][ \t]*,[ \t]*){1,7}[rR][0-7])[ \t]*\})[ \t]*$"@,
                14int,
                seq!["0"@, "0"@, "list"@],
            ),
            (
                r"^[pP][uU][sS][hH][ \t]+(?P<list>\{[ \t]*(?:[rR][0-7][ \t]*,[ \t]*){0,8}[lL][rR][ \t]*\})[ \t]*$"@,
                14int,
                seq!["0"@, "1"@, "list"@],
            ),
        ]
    } else if m == 40 {
        seq![
            (
                r"^[rR][oO][rR][ \t]+(?P<destination>[rR][0-7])[ \t]*,[ \t]*(?P<source>[rR][0-7])[ \t]*$"@,
                4int,
                seq!["7"@, "source"@, "destination"@],
            ),
        ]
    } else if m == 41 {
        seq![
            (
                r"^[sS][bB][cC][ \t]+(?P<destination>[rR][0-7])[ \t]*,[ \t]*(?P<source>[rR][0-7])[ \t]*$"@,
                4int,
                seq!["6"@, "source"@, "destination"@],
            ),
        ]
    } else if m == 42 {
        seq![
            (
                r"^[sS][tT][mM][iI][aA][ \t]+(?P<base>[rR][0-7])![ \t]*,[ \t]*(?P<list>\{[ \t]*(?:[rR][0-7]|(?:[rR][0-7][ \t]*,[ \t]*){1,7}[rR][0-7])[ \t]*\})[ \t]*$"@,
                15int,
                seq!["0"@, "base"@, "list"@],
            ),
        ]
    } else if m == 43 {
        seq![
            (
                r"^[sS][tT][rR][ \t]+(?P<destination>[rR][0-7])[ \t]*,[ \t]*\[[ \t]*(?P<base>[rR][0-7])[ \t]*,[ \t]*(?P<offset>[rR][0-7])[ \t]*\][ \t]*$"@,
                7int,
                seq!["0"@, "0"@, "offset"@, "base"@, "destination"@],
            ),
            (
                r"^[sS][tT][rR][ \t]+(?P<destination>[rR][0-7])[ \t]*,[ \t]*\[[ \t]*(?P<base>[rR][0-7])[ \t]*,[ \t]*#(?P<offset>0x[0-9a-fA-F]+|[0-9]+)[ \t]*\][ \t]*$"@,
                9int,
                seq!["0"@, "0"@, "offset"@, "base"@, "destination"@],
            ),
            (
                r"^[sS][tT][rR][ \t]+(?P<destination>[rR][0-7])[ \t]*,[ \t]*\[[ \t]*[sS][pP][ \t]*,[ \t]*#(?P<offset>0x[0-9a-fA-F]+|[0-9]+)[ \t]*\][ \t]*$"@,
                11int,
                seq!["0"@, "destination"@, "offset"@],
            ),
        ]
    } else if m == 44 {
        seq![
            (
                r"^[sS][tT][rR][bB][ \t]+(?P<destination>[rR][0-7])[ \t]*,[ \t]*\[[ \t]*(?P<base>[rR][0-7])[ \t]*,[ \t]*(?P<offset>[rR][0-7])[ \t]*\][ \t]*$"@,
                7int,
                seq!["0"@, "1"@, "offset"@, "base"@, "destination"@],
            ),
            (
                r"^[sS][tT][rR][bB][ \t]+(?P<destination>[rR][0-7])[ \t]*,[ \t]*\[[ \t]*(?P<base>[rR][0-7])[ \t]*,[ \t]*#(?P<offset>0x[0-9a-fA-F]+|[0-9]+)[ \t]*\][ \t]*$"@,
                9int,
                seq!["1"@, "0"@, "offset"@, "base"@, "destination"@],
            ),
        ]
    } else if m == 45 {
        seq![
            (
                r"^[sS][tT][rR][hH][ \t]+(?P<destination>[rR][0-7])[ \t]*,[ \t]*\[[ \t]*(?P<base>[rR][0-7])[ \t]*,[ \t]*(?P<offset>[rR][0-7])[ \t]*\][ \t]*$"@,
                8int,
                seq!["0"@, "0"@, "offset"@, "base"@, "destination"@],
            ),
            (
                r"^[sS][tT][rR][hH][ \t]+(?P<destination>[rR][0-7])[ \t]*,[ \t]*\[[ \t]*(?P<base>[rR][0-7])[ \t]*,[ \t]*#(?P<offset>0x[0-9a-fA-F]+|[0-9]+)[ \t]*\][ \t]*$"@,
                10int,
                seq!["0"@, "offset"@, "base"@, "destination"@],
            ),
        ]
    } else if m == 46 {
        seq![
            (
                r"^[sS][wW][iI][ \t]+(?P<comment>[0-9]+)[ \t]*$"@,
                17int,
                seq!["comment"@],
            ),
        ]
    } else if m == 47 {
        seq![
            (
                r"^[sS][uU][bB][ \t]+(?P<destination>[rR][0-7])[ \t]*,[ \t]*(?P<source>[rR][0-7])[ \t]*,[ \t]*(?P<immediate>[rR][0-7])[ \t]*$"@,
                2int,
                seq!["0"@, "1"@, "immediate"@, "source"@, "destination"@],
            ),
            (
                r"^[sS][uU][bB][ \t]+(?P<destination>[rR][0-7])[ \t]*,[ \t]*(?P<source>[rR][0-7])[ \t]*,[ \t]*#(?P<immediate>0x[0-9a-fA-F]+|[0-9]+)[ \t]*$"@,
                2int,
                seq!["1"@, "1"@, "immediate"@, "source"@, "destination"@],
            ),
            (
                r"^[sS][uU][bB][ \t]+(?P<destination>[rR][0-7])[ \t]*,[ \t]*#(?P<offset>0x[0-9a-fA-F]+|[0-9]+)[ \t]*$"@,
                3int,
                seq!["3"@, "destination"@, "offset"@],
            ),
        ]
    } else if m == 48 {
        seq![
            (
                r"^[tT][sS][tT][ \t]+(?P<destination>[rR][0-7])[ \t]*,[ \t]*(?P<source>[rR][0-7])[ \t]*$"@,
                4int,
                seq!["8"@, "source"@, "destination"@],
            ),
        ]
    } else {
        Seq::empty()
    }
}

/// An entry of a shape: the role of a field, and the number to put into it or
/// the name of the group that captures its operand.
pub fn entry(role: SegType, source: &str) -> (made: (SegType, String))
    ensures
        made.0 == role,
        made.1@ == source@,
{
    (role, source.to_owned())
}

/// A shape: the pattern of the command, the id of its format and its entries.
pub(crate) fn shape(regex: &str, format: i32, segments: Vec<(SegType, String)>) -> (variant:
    CommandDefinition)
    requires
        1 <= format <= 19,
        Seq::new(segments@.len(), |k: int| segments@[k].0) =~= default_roles(format as int),
    ensures
        is_default_shape(&variant),
        variant.regex@ == regex@,
        variant.format_index == format,
        variant.segments == segments,
{
    CommandDefinition { regex: regex.to_owned(), segments, format_index: format }
}

/// `ADC`: add with carry.
pub fn adc_shapes() -> (mnemonic: (String, Vec<CommandDefinition>))
    ensures
        is_default_mnemonic(&mnemonic, 0),
{
    let mnemonic = (
        "ADC".to_owned(),
        vec![
            shape(
                r"^[aA][dD][cC][ \t]+(?P<destination>[rR][0-7])[ \t]*,[ \t]*(?P<source>[rR][0-7])[ \t]*$",
                4,
                vec![
                    entry(SegType::Op, "5"),
                    entry(SegType::Source, "source"),
                    entry(SegType::Destination, "destination"),
                ],
            ),
        ],
    );
    proof {
        assert(shapes_of(&mnemonic) =~~= default_shapes(0));
    }
    mnemonic
}

/// `ADD`: add.
pub fn add_shapes() -> (mnemonic: (String, Vec<CommandDefinition>))
    ensures
        is_default_mnemonic(&mnemonic, 1),
{
    let mnemonic = (
        "ADD".to_owned(),
        vec![
            shape(
                r"^[aA][dD][dD][ \t]+(?P<destination>[rR][0-7])[ \t]*,[ \t]*(?P<source>[rR][0-7])[ \t]*,[ \t]*(?P<immediate>[rR][0-7])[ \t]*$",
                2,
                vec![
                    entry(SegType::Flag, "0"),
                    entry(SegType::Op, "0"),
                    entry(SegType::Immediate, "immediate"),
                    entry(SegType::Source, "source"),
                    entry(SegType::Destination, "destination"),
                ],
            ),
            shape(
                r"^[aA][dD][dD][ \t]+(?P<destination>[rR][0-7])[ \t]*,[ \t]*(?P<source>[rR][0-7])[ \t]*,[ \t]*#(?P<immediate>0x[0-9a-fA-F]+|[0-9]+)[ \t]*$",
                2,
                vec![
                    entry(SegType::Flag, "1"),
                    entry(SegType::Op, "0"),
                    entry(SegType::Immediate, "immediate"),
                    entry(SegType::Source, "source"),
                    entry(SegType::Destination, "destination"),
                ],
            ),
            shape(
                r"^[aA][dD][dD][ \t]+(?P<destination>[rR][0-7])[ \t]*,[ \t]*#(?P<offset>0x[0-9a-fA-F]+|[0-9]+)[ \t]*$",
                3,
                vec![
                    entry(SegType::Op, "2"),
                    entry(SegType::Destination, "destination"),
                    entry(SegType::Immediate, "offset"),
                ],
            ),
            shape(
                r"^[aA][dD][dD][ \t]+(?P<destination>[rR][0-7])[ \t]*,[ \t]*(?P<source>[hH][0-7])[ \t]*$",
                5,
                vec![
                    entry(SegType::Op, "0"),
                    entry(SegType::Flag, "0"),
                    entry(SegType::Flag, "1"),
                    entry(SegType::Source, "source"),
                    entry(SegType::Destination, "destination"),
                ],
            ),
            shape(
                r"^[aA][dD][dD][ \t]+(?P<destination>[hH][0-7])[ \t]*,[ \t]*(?P<source>[rR][0-7])[ \t]*$",
                5,
                vec![
                    entry(SegType::Op, "0"),
                    entry(SegType::Flag, "1"),
                    entry(SegType::Flag, "0"),
                    entry(SegType::Source, "source"),
                    entry(SegType::Destination, "destination"),
                ],
            ),
            shape(
                r"^[aA][dD][dD][ \t]+(?P<destination>[hH][0-7])[ \t]*,[ \t]*(?P<source>[hH][0-7])[ \t]*$",
                5,
                vec![
                    entry(SegType::Op, "0"),
                    entry(SegType::Flag, "1"),
                    entry(SegType::Flag, "1"),
                    entry(SegType::Source, "source"),
                    entry(SegType::Destination, "destination"),
                ],
            ),
            shape(
                r"^[aA][dD][dD][ \t]+(?P<destination>[rR][0-7])[ \t]*,[ \t]*[pP][cC][ \t]*,[ \t]*#(?P<immediate>0x[0-9a-fA-F]+|[0-9]+)[ \t]*$",
                12,
                vec![
                    entry(SegType::Flag, "0"),
                    entry(SegType::Destination, "destination"),
                    entry(SegType::Immediate, "immediate"),
                ],
            ),
            shape(
                r"^[aA][dD][dD][ \t]+(?P<destination>[rR][0-7])[ \t]*,[ \t]*[sS][pP][ \t]*,[ \t]*#(?P<immediate>0x[0-9a-fA-F]+|[0-9]+)[ \t]*$",
                12,
                vec![
                    entry(SegType::Flag, "1"),
                    entry(SegType::Destination, "destination"),
                    entry(SegType::Immediate, "immediate"),
                ],
            ),
            shape(
                r"^[aA][dD][dD][ \t]+[sS][pP][ \t]*,[ \t]*#(?P<immediate>0x[0-9a-fA-F]+|[0-9]+)[ \t]*$",
                13,
                vec![
                    entry(SegType::Flag, "0"),
                    entry(SegType::Immediate, "immediate"),
                ],
            ),
            shape(
                r"^[aA][dD][dD][ \t]+[sS][pP][ \t]*,[ \t]*#-(?P<immediate>0x[0-9a-fA-F]+|[0-9]+)[ \t]*$",
                13,
                vec![
                    entry(SegType::Flag, "1"),
                    entry(SegType::Immediate, "immediate"),
                ],
            ),
        ],
    );
    proof {
        assert(shapes_of(&mnemonic) =~~= default_shapes(1));
    }
    mnemonic
}

/// `AND`: bitwise and.
pub fn and_shapes() -> (mnemonic: (String, Vec<CommandDefinition>))
    ensures
        is_default_mnemonic(&mnemonic, 2),
{
    let mnemonic = (
        "AND".to_owned(),
        vec![
            shape(
                r"^[aA][nN][dD][ \t]+(?P<destination>[rR][0-7])[ \t]*,[ \t]*(?P<source>[rR][0-7])[ \t]*$",
                4,
                vec![
                    entry(SegType::Op, "0"),
                    entry(SegType::Source, "source"),
                    entry(SegType::Destination, "destination"),
                ],
            ),
        ],
    );
    proof {
        assert(shapes_of(&mnemonic) =~~= default_shapes(2));
    }
    mnemonic
}

/// `ASR`: arithmetic shift right.
pub fn asr_shapes() -> (mnemonic: (String, Vec<CommandDefinition>))
    ensures
        is_default_mnemonic(&mnemonic, 3),
{
    let mnemonic = (
        "ASR".to_owned(),
        vec![
            shape(
                r"^[aA][sS][rR][ \t]+(?P<destination>[rR][0-7])[ \t]*,[ \t]*(?P<source>[rR][0-7])[ \t]*,[ \t]*#(?P<offset>0x[0-9a-fA-F]+|[0-9]+)[ \t]*$",
                1,
                vec![
                    entry(SegType::Op, "2"),
                    entry(SegType::Immediate, "offset"),
                    entry(SegType::Source, "source"),
                    entry(SegType::Destination, "destination"),
                ],
            ),
            shape(
                r"^[aA][sS][rR][ \t]+(?P<destination>[rR][0-7])[ \t]*,[ \t]*(?P<source>[rR][0-7])[ \t]*$",
                4,
                vec![
                    entry(SegType::Op, "4"),
                    entry(SegType::Source, "source"),
                    entry(SegType::Destination, "destination"),
                ],
            ),
        ],
    );
    proof {
        assert(shapes_of(&mnemonic) =~~= default_shapes(3));
    }
    mnemonic
}

/// `B`: branch.
pub fn b_shapes() -> (mnemonic: (String, Vec<CommandDefinition>))
    ensures
        is_default_mnemonic(&mnemonic, 4),
{
    let mnemonic = (
        "B".to_owned(),
        vec![
            shape(
                r"^[bB][ \t]+(?P<label>[a-zA-Z_][a-zA-Z0-9_]*)[ \t]*$",
                18,
                vec![
                    entry(SegType::Offset, "label"),
                ],
            ),
        ],
    );
    proof {
        assert(shapes_of(&mnemonic) =~~= default_shapes(4));
    }
    mnemonic
}

/// `BEQ`: branch if equal.
pub fn beq_shapes() -> (mnemonic: (String, Vec<CommandDefinition>))
    ensures
        is_default_mnemonic(&mnemonic, 5),
{
    let mnemonic = (
        "BEQ".to_owned(),
        vec![
            shape(
                r"^[bB][eE][qQ][ \t]+(?P<label>[a-zA-Z_][a-zA-Z0-9_]*)[ \t]*$",
                16,
                vec![
                    entry(SegType::Condition, "0"),
                    entry(SegType::Offset, "label"),
                ],
            ),
        ],
    );
    proof {
        assert(shapes_of(&mnemonic) =~~= default_shapes(5));
    }
    mnemonic
}

/// `BNE`: branch if not equal.
pub fn bne_shapes() -> (mnemonic: (String, Vec<CommandDefinition>))
    ensures
        is_default_mnemonic(&mnemonic, 6),
{
    let mnemonic = (
        "BNE".to_owned(),
        vec![
            shape(
                r"^[bB][nN][eE][ \t]+(?P<label>[a-zA-Z_][a-zA-Z0-9_]*)[ \t]*$",
                16,
                vec![
                    entry(SegType::Condition, "1"),
                    entry(SegType::Offset, "label"),
                ],
            ),
        ],
    );
    proof {
        assert(shapes_of(&mnemonic) =~~= default_shapes(6));
    }
    mnemonic
}

/// `BCS`: branch if carry set.
pub fn bcs_shapes() -> (mnemonic: (String, Vec<CommandDefinition>))
    ensures
        is_default_mnemonic(&mnemonic, 7),
{
    let mnemonic = (
        "BCS".to_owned(),
        vec![
            shape(
                r"^[bB][cC][sS][ \t]+(?P<label>[a-zA-Z_][a-zA-Z0-9_]*)[ \t]*$",
                16,
                vec![
                    entry(SegType::Condition, "2"),
                    entry(SegType::Offset, "label"),
                ],
            ),
        ],
    );
    proof {
        assert(shapes_of(&mnemonic) =~~= default_shapes(7));
    }
    mnemonic
}

/// `BCC`: branch if carry clear.
pub fn bcc_shapes() -> (mnemonic: (String, Vec<CommandDefinition>))
    ensures
        is_default_mnemonic(&mnemonic, 8),
{
    let mnemonic = (
        "BCC".to_owned(),
        vec![
            shape(
                r"^[bB][cC][cC][ \t]+(?P<label>[a-zA-Z_][a-zA-Z0-9_]*)[ \t]*$",
                16,
                vec![
                    entry(SegType::Condition, "3"),
                    entry(SegType::Offset, "label"),
                ],
            ),
        ],
    );
    proof {
        assert(shapes_of(&mnemonic) =~~= default_shapes(8));
    }
    mnemonic
}

/// `BMI`: branch if negative.
pub fn bmi_shapes() -> (mnemonic: (String, Vec<CommandDefinition>))
    ensures
        is_default_mnemonic(&mnemonic, 9),
{
    let mnemonic = (
        "BMI".to_owned(),
        vec![
            shape(
                r"^[bB][mM][iI][ \t]+(?P<label>[a-zA-Z_][a-zA-Z0-9_]*)[ \t]*$",
                16,
                vec![
                    entry(SegType::Condition, "4"),
                    entry(SegType::Offset, "label"),
                ],
            ),
        ],
    );
    proof {
        assert(shapes_of(&mnemonic) =~~= default_shapes(9));
    }
    mnemonic
}

/// `BPL`: branch if positive or zero.
pub fn bpl_shapes() -> (mnemonic: (String, Vec<CommandDefinition>))
    ensures
        is_default_mnemonic(&mnemonic, 10),
{
    let mnemonic = (
        "BPL".to_owned(),
        vec![
            shape(
                r"^[bB][pP][lL][ \t]+(?P<label>[a-zA-Z_][a-zA-Z0-9_]*)[ \t]*$",
                16,
                vec![
                    entry(SegType::Condition, "5"),
                    entry(SegType::Offset, "label"),
                ],
            ),
        ],
    );
    proof {
        assert(shapes_of(&mnemonic) =~~= default_shapes(10));
    }
    mnemonic
}

/// `BVS`: branch if overflow.
pub fn bvs_shapes() -> (mnemonic: (String, Vec<CommandDefinition>))
    ensures
        is_default_mnemonic(&mnemonic, 11),
{
    let mnemonic = (
        "BVS".to_owned(),
        vec![
            shape(
                r"^[bB][vV][sS][ \t]+(?P<label>[a-zA-Z_][a-zA-Z0-9_]*)[ \t]*$",
                16,
                vec![
                    entry(SegType::Condition, "6"),
                    entry(SegType::Offset, "label"),
                ],
            ),
        ],
    );
    proof {
        assert(shapes_of(&mnemonic) =~~= default_shapes(11));
    }
    mnemonic
}

/// `BVC`: branch if no overflow.
pub fn bvc_shapes() -> (mnemonic: (String, Vec<CommandDefinition>))
    ensures
        is_default_mnemonic(&mnemonic, 12),
{
    let mnemonic = (
        "BVC".to_owned(),
        vec![
            shape(
                r"^[bB][vV][cC][ \t]+(?P<label>[a-zA-Z_][a-zA-Z0-9_]*)[ \t]*$",
                16,
                vec![
                    entry(SegType::Condition, "7"),
                    entry(SegType::Offset, "label"),
                ],
            ),
        ],
    );
    proof {
        assert(shapes_of(&mnemonic) =~~= default_shapes(12));
    }
    mnemonic
}

/// `BHI`: branch if higher, unsigned.
pub fn bhi_shapes() -> (mnemonic: (String, Vec<CommandDefinition>))
    ensures
        is_default_mnemonic(&mnemonic, 13),
{
    let mnemonic = (
        "BHI".to_owned(),
        vec![
            shape(
                r"^[bB][hH][iI][ \t]+(?P<label>[a-zA-Z_][a-zA-Z0-9_]*)[ \t]*$",
                16,
                vec![
                    entry(SegType::Condition, "8"),
                    entry(SegType::Offset, "label"),
                ],
            ),
        ],
    );
    proof {
        assert(shapes_of(&mnemonic) =~~= default_shapes(13));
    }
    mnemonic
}

/// `BLS`: branch if lower or same, unsigned.
pub fn bls_shapes() -> (mnemonic: (String, Vec<CommandDefinition>))
    ensures
        is_default_mnemonic(&mnemonic, 14),
{
    let mnemonic = (
        "BLS".to_owned(),
        vec![
            shape(
                r"^[bB][lL][sS][ \t]+(?P<label>[a-zA-Z_][a-zA-Z0-9_]*)[ \t]*$",
                16,
                vec![
                    entry(SegType::Condition, "9"),
                    entry(SegType::Offset, "label"),
                ],
            ),
        ],
    );
    proof {
        assert(shapes_of(&mnemonic) =~~= default_shapes(14));
    }
    mnemonic
}

/// `BGE`: branch if greater or equal.
pub fn bge_shapes() -> (mnemonic: (String, Vec<CommandDefinition>))
    ensures
        is_default_mnemonic(&mnemonic, 15),
{
    let mnemonic = (
        "BGE".to_owned(),
        vec![
            shape(
                r"^[bB][gG][eE][ \t]+(?P<label>[a-zA-Z_][a-zA-Z0-9_]*)[ \t]*$",
                16,
                vec![
                    entry(SegType::Condition, "10"),
                    entry(SegType::Offset, "label"),
                ],
            ),
        ],
    );
    proof {
        assert(shapes_of(&mnemonic) =~~= default_shapes(15));
    }
    mnemonic
}

/// `BLT`: branch if less.
pub fn blt_shapes() -> (mnemonic: (String, Vec<CommandDefinition>))
    ensures
        is_default_mnemonic(&mnemonic, 16),
{
    let mnemonic = (
        "BLT".to_owned(),
        vec![
            shape(
                r"^[bB][lL][tT][ \t]+(?P<label>[a-zA-Z_][a-zA-Z0-9_]*)[ \t]*$",
                16,
                vec![
                    entry(SegType::Condition, "11"),
                    entry(SegType::Offset, "label"),
                ],
            ),
        ],
    );
    proof {
        assert(shapes_of(&mnemonic) =~~= default_shapes(16));
    }
    mnemonic
}

/// `BGT`: branch if greater.
pub fn bgt_shapes() -> (mnemonic: (String, Vec<CommandDefinition>))
    ensures
        is_default_mnemonic(&mnemonic, 17),
{
    let mnemonic = (
        "BGT".to_owned(),
        vec![
            shape(
                r"^[bB][gG][tT][ \t]+(?P<label>[a-zA-Z_][a-zA-Z0-9_]*)[ \t]*$",
                16,
                vec![
                    entry(SegType::Condition, "12"),
                    entry(SegType::Offset, "label"),
                ],
            ),
        ],
    );
    proof {
        assert(shapes_of(&mnemonic) =~~= default_shapes(17));
    }
    mnemonic
}

/// `BLE`: branch if less or equal.
pub fn ble_shapes() -> (mnemonic: (String, Vec<CommandDefinition>))
    ensures
        is_default_mnemonic(&mnemonic, 18),
{
    let mnemonic = (
        "BLE".to_owned(),
        vec![
            shape(
                r"^[bB][lL][eE][ \t]+(?P<label>[a-zA-Z_][a-zA-Z0-9_]*)[ \t]*$",
                16,
                vec![
                    entry(SegType::Condition, "13"),
                    entry(SegType::Offset, "label"),
                ],
            ),
        ],
    );
    proof {
        assert(shapes_of(&mnemonic) =~~= default_shapes(18));
    }
    mnemonic
}

/// `BIC`: bit clear.
pub fn bic_shapes() -> (mnemonic: (String, Vec<CommandDefinition>))
    ensures
        is_default_mnemonic(&mnemonic, 19),
{
    let mnemonic = (
        "BIC".to_owned(),
        vec![
            shape(
                r"^[bB][iI][cC][ \t]+(?P<destination>[rR][0-7])[ \t]*,[ \t]*(?P<source>[rR][0-7])[ \t]*$",
                4,
                vec![
                    entry(SegType::Op, "14"),
                    entry(SegType::Source, "source"),
                    entry(SegType::Destination, "destination"),
                ],
            ),
        ],
    );
    proof {
        assert(shapes_of(&mnemonic) =~~= default_shapes(19));
    }
    mnemonic
}

/// `BL`: branch with link.
pub fn bl_shapes() -> (mnemonic: (String, Vec<CommandDefinition>))
    ensures
        is_default_mnemonic(&mnemonic, 20),
{
    let mnemonic = (
        "BL".to_owned(),
        vec![
            shape(
                r"^[bB][lL][ \t]+(?P<label>[a-zA-Z_][a-zA-Z0-9_]*)[ \t]*$",
                19,
                vec![
                    entry(SegType::Flag, "0"),
                    entry(SegType::Offset, "label"),
                ],
            ),
        ],
    );
    proof {
        assert(shapes_of(&mnemonic) =~~= default_shapes(20));
    }
    mnemonic
}

/// `BX`: branch and exchange.
pub fn bx_shapes() -> (mnemonic: (String, Vec<CommandDefinition>))
    ensures
        is_default_mnemonic(&mnemonic, 21),
{
    let mnemonic = (
        "BX".to_owned(),
        vec![
            shape(
                r"^[bB][xX][ \t]+(?P<source>[rR][0-7])[ \t]*$",
                5,
                vec![
                    entry(SegType::Op, "3"),
                    entry(SegType::Flag, "0"),
                    entry(SegType::Flag, "0"),
                    entry(SegType::Source, "source"),
                    entry(SegType::Destination, "0"),
                ],
            ),
            shape(
                r"^[bB][xX][ \t]+(?P<source>[hH][0-7])[ \t]*$",
                5,
                vec![
                    entry(SegType::Op, "3"),
                    entry(SegType::Flag, "0"),
                    entry(SegType::Flag, "1"),
                    entry(SegType::Source, "source"),
                    entry(SegType::Destination, "0"),
                ],
            ),
        ],
    );
    proof {
        assert(shapes_of(&mnemonic) =~~= default_shapes(21));
    }
    mnemonic
}

/// `CMN`: compare negative.
pub fn cmn_shapes() -> (mnemonic: (String, Vec<CommandDefinition>))
    ensures
        is_default_mnemonic(&mnemonic, 22),
{
    let mnemonic = (
        "CMN".to_owned(),
        vec![
            shape(
                r"^[cC][mM][nN][ \t]+(?P<destination>[rR][0-7])[ \t]*,[ \t]*(?P<source>[rR][0-7])[ \t]*$",
                4,
                vec![
                    entry(SegType::Op, "11"),
                    entry(SegType::Source, "source"),
                    entry(SegType::Destination, "destination"),
                ],
            ),
        ],
    );
    proof {
        assert(shapes_of(&mnemonic) =~~= default_shapes(22));
    }
    mnemonic
}

/// `CMP`: compare.
pub fn cmp_shapes() -> (mnemonic: (String, Vec<CommandDefinition>))
    ensures
        is_default_mnemonic(&mnemonic, 23),
{
    let mnemonic = (
        "CMP".to_owned(),
        vec![
            shape(
                r"^[cC][mM][pP][ \t]+(?P<destination>[rR][0-7])[ \t]*,[ \t]*#(?P<offset>0x[0-9a-fA-F]+|[0-9]+)[ \t]*$",
                3,
                vec![
                    entry(SegType::Op, "1"),
                    entry(SegType::Destination, "destination"),
                    entry(SegType::Immediate, "offset"),
                ],
            ),
            shape(
                r"^[cC][mM][pP][ \t]+(?P<destination>[rR][0-7])[ \t]*,[ \t]*(?P<source>[rR][0-7])[ \t]*$",
                4,
                vec![
                    entry(SegType::Op, "10"),
                    entry(SegType::Source, "source"),
                    entry(SegType::Destination, "destination"),
                ],
            ),
            shape(
                r"^[cC][mM][pP][ \t]+(?P<destination>[rR][0-7])[ \t]*,[ \t]*(?P<source>[hH][0-7])[ \t]*$",
                5,
                vec![
                    entry(SegType::Op, "1"),
                    entry(SegType::Flag, "0"),
                    entry(SegType::Flag, "1"),
                    entry(SegType::Source, "source"),
                    entry(SegType::Destination, "destination"),
                ],
            ),
            shape(
                r"^[cC][mM][pP][ \t]+(?P<destination>[hH][0-7])[ \t]*,[ \t]*(?P<source>[rR][0-7])[ \t]*$",
                5,
                vec![
                    entry(SegType::Op, "1"),
                    entry(SegType::Flag, "1"),
                    entry(SegType::Flag, "0"),
                    entry(SegType::Source, "source"),
                    entry(SegType::Destination, "destination"),
                ],
            ),
            shape(
                r"^[cC][mM][pP][ \t]+(?P<destination>[hH][0-7])[ \t]*,[ \t]*(?P<source>[hH][0-7])[ \t]*$",
                5,
                vec![
                    entry(SegType::Op, "1"),
                    entry(SegType::Flag, "1"),
                    entry(SegType::Flag, "1"),
                    entry(SegType::Source, "source"),
                    entry(SegType::Destination, "destination"),
                ],
            ),
        ],
    );
    proof {
        assert(shapes_of(&mnemonic) =~~= default_shapes(23));
    }
    mnemonic
}

/// `EOR`: exclusive or.
pub fn eor_shapes() -> (mnemonic: (String, Vec<CommandDefinition>))
    ensures
        is_default_mnemonic(&mnemonic, 24),
{
    let mnemonic = (
        "EOR".to_owned(),
        vec![
            shape(
                r"^[eE][oO][rR][ \t]+(?P<destination>[rR][0-7])[ \t]*,[ \t]*(?P<source>[rR][0-7])[ \t]*$",
                4,
                vec![
                    entry(SegType::Op, "1"),
                    entry(SegType::Source, "source"),
                    entry(SegType::Destination, "destination"),
                ],
            ),
        ],
    );
    proof {
        assert(shapes_of(&mnemonic) =~~= default_shapes(24));
    }
    mnemonic
}

/// `LDMIA`: load multiple, increment after.
pub fn ldmia_shapes() -> (mnemonic: (String, Vec<CommandDefinition>))
    ensures
        is_default_mnemonic(&mnemonic, 25),
{
    let mnemonic = (
        "LDMIA".to_owned(),
        vec![
            shape(
                r"^[lL][dD][mM][iI][aA][ \t]+(?P<base>[rR][0-7])![ \t]*,[ \t]*(?P<list>\{[ \t]*(?:[rR][0-7]|(?:[rR][0-7][ \t]*,[ \t]*){1,7}[rR][0-7])[ \t]*\})[ \t]*$",
                15,
                vec![
                    entry(SegType::Flag, "1"),
                    entry(SegType::Source, "base"),
                    entry(SegType::Immediate, "list"),
                ],
            ),
        ],
    );
    proof {
        assert(shapes_of(&mnemonic) =~~= default_shapes(25));
    }
    mnemonic
}

/// `LDR`: load word.
pub fn ldr_shapes() -> (mnemonic: (String, Vec<CommandDefinition>))
    ensures
        is_default_mnemonic(&mnemonic, 26),
{
    let mnemonic = (
        "LDR".to_owned(),
        vec![
            shape(
                r"^[lL][dD][rR][ \t]+(?P<destination>[rR][0-7])[ \t]*,[ \t]*\[[ \t]*[pP][cC][ \t]*,[ \t]*#(?P<offset>0x[0-9a-fA-F]+|[0-9]+)[ \t]*\][ \t]*$",
                6,
                vec![
                    entry(SegType::Destination, "destination"),
                    entry(SegType::Immediate, "offset"),
                ],
            ),
            shape(
                r"^[lL][dD][rR][ \t]+(?P<destination>[rR][0-7])[ \t]*,[ \t]*\[[ \t]*(?P<base>[rR][0-7])[ \t]*,[ \t]*(?P<offset>[rR][0-7])[ \t]*\][ \t]*$",
                7,
                vec![
                    entry(SegType::Flag, "1"),
                    entry(SegType::Flag, "0"),
                    entry(SegType::Offset, "offset"),
                    entry(SegType::Source, "base"),
                    entry(SegType::Destination, "destination"),
                ],
            ),
            shape(
                r"^[lL][dD][rR][ \t]+(?P<destination>[rR][0-7])[ \t]*,[ \t]*\[[ \t]*(?P<base>[rR][0-7])[ \t]*,[ \t]*#(?P<offset>0x[0-9a-fA-F]+|[0-9]+)[ \t]*\][ \t]*$",
                9,
                vec![
                    entry(SegType::Flag, "0"),
                    entry(SegType::Flag, "1"),
                    entry(SegType::Offset, "offset"),
                    entry(SegType::Source, "base"),
                    entry(SegType::Destination, "destination"),
                ],
            ),
            shape(
                r"^[lL][dD][rR][ \t]+(?P<destination>[rR][0-7])[ \t]*,[ \t]*\[[ \t]*[sS][pP][ \t]*,[ \t]*#(?P<offset>0x[0-9a-fA-F]+|[0-9]+)[ \t]*\][ \t]*$",
                11,
                vec![
                    entry(SegType::Flag, "1"),
                    entry(SegType::Destination, "destination"),
                    entry(SegType::Offset, "offset"),
                ],
            ),
        ],
    );
    proof {
        assert(shapes_of(&mnemonic) =~~= default_shapes(26));
    }
    mnemonic
}

/// `LDRB`: load byte.
pub fn ldrb_shapes() -> (mnemonic: (String, Vec<CommandDefinition>))
    ensures
        is_default_mnemonic(&mnemonic, 27),
{
    let mnemonic = (
        "LDRB".to_owned(),
        vec![
            shape(
                r"^[lL][dD][rR][bB][ \t]+(?P<destination>[rR][0-7])[ \t]*,[ \t]*\[[ \t]*(?P<base>[rR][0-7])[ \t]*,[ \t]*(?P<offset>[rR][0-7])[ \t]*\][ \t]*$",
                7,
                vec![
                    entry(SegType::Flag, "1"),
                    entry(SegType::Flag, "1"),
                    entry(SegType::Offset, "offset"),
                    entry(SegType::Source, "base"),
                    entry(SegType::Destination, "destination"),
                ],
            ),
            shape(
                r"^[lL][dD][rR][bB][ \t]+(?P<destination>[rR][0-7])[ \t]*,[ \t]*\[[ \t]*(?P<base>[rR][0-7])[ \t]*,[ \t]*#(?P<offset>0x[0-9a-fA-F]+|[0-9]+)[ \t]*\][ \t]*$",
                9,
                vec![
                    entry(SegType::Flag, "1"),
                    entry(SegType::Flag, "1"),
                    entry(SegType::Offset, "offset"),
                    entry(SegType::Source, "base"),
                    entry(SegType::Destination, "destination"),
                ],
            ),
        ],
    );
    proof {
        assert(shapes_of(&mnemonic) =~~= default_shapes(27));
    }
    mnemonic
}

/// `LDRH`: load halfword.
pub fn ldrh_shapes() -> (mnemonic: (String, Vec<CommandDefinition>))
    ensures
        is_default_mnemonic(&mnemonic, 28),
{
    let mnemonic = (
        "LDRH".to_owned(),
        vec![
            shape(
                r"^[lL][dD][rR][hH][ \t]+(?P<destination>[rR][0-7])[ \t]*,[ \t]*\[[ \t]*(?P<base>[rR][0-7])[ \t]*,[ \t]*(?P<offset>[rR][0-7])[ \t]*\][ \t]*$",
                8,
                vec![
                    entry(SegType::Flag, "1"),
                    entry(SegType::Flag, "0"),
                    entry(SegType::Offset, "offset"),
                    entry(SegType::Source, "base"),
                    entry(SegType::Destination, "destination"),
                ],
            ),
            shape(
                r"^[lL][dD][rR][hH][ \t]+(?P<destination>[rR][0-7])[ \t]*,[ \t]*\[[ \t]*(?P<base>[rR][0-7])[ \t]*,[ \t]*#(?P<offset>0x[0-9a-fA-F]+|[0-9]+)[ \t]*\][ \t]*$",
                10,
                vec![
                    entry(SegType::Flag, "1"),
                    entry(SegType::Offset, "offset"),
                    entry(SegType::Source, "base"),
                    entry(SegType::Destination, "destination"),
                ],
            ),
        ],
    );
    proof {
        assert(shapes_of(&mnemonic) =~~= default_shapes(28));
    }
    mnemonic
}

/// `LSL`: logical shift left.
pub fn lsl_shapes() -> (mnemonic: (String, Vec<CommandDefinition>))
    ensures
        is_default_mnemonic(&mnemonic, 29),
{
    let mnemonic = (
        "LSL".to_owned(),
        vec![
            shape(
                r"^[lL][sS][lL][ \t]+(?P<destination>[rR][0-7])[ \t]*,[ \t]*(?P<source>[rR][0-7])[ \t]*,[ \t]*#(?P<offset>0x[0-9a-fA-F]+|[0-9]+)[ \t]*$",
                1,
                vec![
                    entry(SegType::Op, "0"),
                    entry(SegType::Immediate, "offset"),
                    entry(SegType::Source, "source"),
                    entry(SegType::Destination, "destination"),
                ],
            ),
            shape(
                r"^[lL][sS][lL][ \t]+(?P<destination>[rR][0-7])[ \t]*,[ \t]*(?P<source>[rR][0-7])[ \t]*$",
                4,
                vec![
                    entry(SegType::Op, "2"),
                    entry(SegType::Source, "source"),
                    entry(SegType::Destination, "destination"),
                ],
            ),
        ],
    );
    proof {
        assert(shapes_of(&mnemonic) =~~= default_shapes(29));
    }
    mnemonic
}

/// `LDSB`: load byte with sign.
pub fn ldsb_shapes() -> (mnemonic: (String, Vec<CommandDefinition>))
    ensures
        is_default_mnemonic(&mnemonic, 30),
{
    let mnemonic = (
        "LDSB".to_owned(),
        vec![
            shape(
                r"^[lL][dD][sS][bB][ \t]+(?P<destination>[rR][0-7])[ \t]*,[ \t]*\[[ \t]*(?P<base>[rR][0-7])[ \t]*,[ \t]*(?P<offset>[rR][0-7])[ \t]*\][ \t]*$",
                8,
                vec![
                    entry(SegType::Flag, "0"),
                    entry(SegType::Flag, "1"),
                    entry(SegType::Offset, "offset"),
                    entry(SegType::Source, "base"),
                    entry(SegType::Destination, "destination"),
                ],
            ),
        ],
    );
    proof {
        assert(shapes_of(&mnemonic) =~~= default_shapes(30));
    }
    mnemonic
}

/// `LDSH`: load halfword with sign.
pub fn ldsh_shapes() -> (mnemonic: (String, Vec<CommandDefinition>))
    ensures
        is_default_mnemonic(&mnemonic, 31),
{
    let mnemonic = (
        "LDSH".to_owned(),
        vec![
            shape(
                r"^[lL][dD][sS][hH][ \t]+(?P<destination>[rR][0-7])[ \t]*,[ \t]*\[[ \t]*(?P<base>[rR][0-7])[ \t]*,[ \t]*(?P<offset>[rR][0-7])[ \t]*\][ \t]*$",
                8,
                vec![
                    entry(SegType::Flag, "1"),
                    entry(SegType::Flag, "1"),
                    entry(SegType::Offset, "offset"),
                    entry(SegType::Source, "base"),
                    entry(SegType::Destination, "destination"),
                ],
            ),
        ],
    );
    proof {
        assert(shapes_of(&mnemonic) =~~= default_shapes(31));
    }
    mnemonic
}

/// `LSR`: logical shift right.
pub fn lsr_shapes() -> (mnemonic: (String, Vec<CommandDefinition>))
    ensures
        is_default_mnemonic(&mnemonic, 32),
{
    let mnemonic = (
        "LSR".to_owned(),
        vec![
            shape(
                r"^[lL][sS][rR][ \t]+(?P<destination>[rR][0-7])[ \t]*,[ \t]*(?P<source>[rR][0-7])[ \t]*,[ \t]*#(?P<offset>0x[0-9a-fA-F]+|[0-9]+)[ \t]*$",
                1,
                vec![
                    entry(SegType::Op, "1"),
                    entry(SegType::Immediate, "offset"),
                    entry(SegType::Source, "source"),
                    entry(SegType::Destination, "destination"),
                ],
            ),
            shape(
                r"^[lL][sS][rR][ \t]+(?P<destination>[rR][0-7])[ \t]*,[ \t]*(?P<source>[rR][0-7])[ \t]*$",
                4,
                vec![
                    entry(SegType::Op, "3"),
                    entry(SegType::Source, "source"),
                    entry(SegType::Destination, "destination"),
                ],
            ),
        ],
    );
    proof {
        assert(shapes_of(&mnemonic) =~~= default_shapes(32));
    }
    mnemonic
}

/// `MOV`: move.
pub fn mov_shapes() -> (mnemonic: (String, Vec<CommandDefinition>))
    ensures
        is_default_mnemonic(&mnemonic, 33),
{
    let mnemonic = (
        "MOV".to_owned(),
        vec![
            shape(
                r"^[mM][oO][vV][ \t]+(?P<destination>[rR][0-7])[ \t]*,[ \t]*#(?P<offset>0x[0-9a-fA-F]+|[0-9]+)[ \t]*$",
                3,
                vec![
                    entry(SegType::Op, "0"),
                    entry(SegType::Destination, "destination"),
                    entry(SegType::Immediate, "offset"),
                ],
            ),
            shape(
                r"^[mM][oO][vV][ \t]+(?P<destination>[rR][0-7])[ \t]*,[ \t]*(?P<source>[hH][0-7])[ \t]*$",
                5,
                vec![
                    entry(SegType::Op, "2"),
                    entry(SegType::Flag, "0"),
                    entry(SegType::Flag, "1"),
                    entry(SegType::Source, "source"),
                    entry(SegType::Destination, "destination"),
                ],
            ),
            shape(
                r"^[mM][oO][vV][ \t]+(?P<destination>[hH][0-7])[ \t]*,[ \t]*(?P<source>[rR][0-7])[ \t]*$",
                5,
                vec![
                    entry(SegType::Op, "2"),
                    entry(SegType::Flag, "1"),
                    entry(SegType::Flag, "0"),
                    entry(SegType::Source, "source"),
                    entry(SegType::Destination, "destination"),
                ],
            ),
            shape(
                r"^[mM][oO][vV][ \t]+(?P<destination>[hH][0-7])[ \t]*,[ \t]*(?P<source>[hH][0-7])[ \t]*$",
                5,
                vec![
                    entry(SegType::Op, "2"),
                    entry(SegType::Flag, "1"),
                    entry(SegType::Flag, "1"),
                    entry(SegType::Source, "source"),
                    entry(SegType::Destination, "destination"),
                ],
            ),
        ],
    );
    proof {
        assert(shapes_of(&mnemonic) =~~= default_shapes(33));
    }
    mnemonic
}

/// `MUL`: multiply.
pub fn mul_shapes() -> (mnemonic: (String, Vec<CommandDefinition>))
    ensures
        is_default_mnemonic(&mnemonic, 34),
{
    let mnemonic = (
        "MUL".to_owned(),
        vec![
            shape(
                r"^[mM][uU][lL][ \t]+(?P<destination>[rR][0-7])[ \t]*,[ \t]*(?P<source>[rR][0-7])[ \t]*$",
                4,
                vec![
                    entry(SegType::Op, "13"),
                    entry(SegType::Source, "source"),
                    entry(SegType::Destination, "destination"),
                ],
            ),
        ],
    );
    proof {
        assert(shapes_of(&mnemonic) =~~= default_shapes(34));
    }
    mnemonic
}

/// `MVN`: move not.
pub fn mvn_shapes() -> (mnemonic: (String, Vec<CommandDefinition>))
    ensures
        is_default_mnemonic(&mnemonic, 35),
{
    let mnemonic = (
        "MVN".to_owned(),
        vec![
            shape(
                r"^[mM][vV][nN][ \t]+(?P<destination>[rR][0-7])[ \t]*,[ \t]*(?P<source>[rR][0-7])[ \t]*$",
                4,
                vec![
                    entry(SegType::Op, "15"),
                    entry(SegType::Source, "source"),
                    entry(SegType::Destination, "destination"),
                ],
            ),
        ],
    );
    proof {
        assert(shapes_of(&mnemonic) =~~= default_shapes(35));
    }
    mnemonic
}

/// `NEG`: negate.
pub fn neg_shapes() -> (mnemonic: (String, Vec<CommandDefinition>))
    ensures
        is_default_mnemonic(&mnemonic, 36),
{
    let mnemonic = (
        "NEG".to_owned(),
        vec![
            shape(
                r"^[nN][eE][gG][ \t]+(?P<destination>[rR][0-7])[ \t]*,[ \t]*(?P<source>[rR][0-7])[ \t]*$",
                4,
                vec![
                    entry(SegType::Op, "9"),
                    entry(SegType::Source, "source"),
                    entry(SegType::Destination, "destination"),
                ],
            ),
        ],
    );
    proof {
        assert(shapes_of(&mnemonic) =~~= default_shapes(36));
    }
    mnemonic
}

/// `ORR`: bitwise or.
pub fn orr_shapes() -> (mnemonic: (String, Vec<CommandDefinition>))
    ensures
        is_default_mnemonic(&mnemonic, 37),
{
    let mnemonic = (
        "ORR".to_owned(),
        vec![
            shape(
                r"^[oO][rR][rR][ \t]+(?P<destination>[rR][0-7])[ \t]*,[ \t]*(?P<source>[rR][0-7])[ \t]*$",
                4,
                vec![
                    entry(SegType::Op, "12"),
                    entry(SegType::Source, "source"),
                    entry(SegType::Destination, "destination"),
                ],
            ),
        ],
    );
    proof {
        assert(shapes_of(&mnemonic) =~~= default_shapes(37));
    }
    mnemonic
}

/// `POP`: pop registers.
pub fn pop_shapes() -> (mnemonic: (String, Vec<CommandDefinition>))
    ensures
        is_default_mnemonic(&mnemonic, 38),
{
    let mnemonic = (
        "POP".to_owned(),
        vec![
            shape(
                r"^[pP][oO][pP][ \t]+(?P<list>\{[ \t]*(?:[rR][0-7]|(?:[rR][0-7][ \t]*,[ \t]*){1,7}[rR][0-7])[ \t]*\})[ \t]*$",
                14,
                vec![
                    entry(SegType::Flag, "1"),
                    entry(SegType::Flag, "0"),
                    entry(SegType::Immediate, "list"),
                ],
            ),
            shape(
                r"^[pP][oO][pP][ \t]+(?P<list>\{[ \t]*(?:[rR][0-7][ \t]*,[ \t]*){0,8}[pP][cC][ \t]*\})[ \t]*$",
                14,
                vec![
                    entry(SegType::Flag, "1"),
                    entry(SegType::Flag, "1"),
                    entry(SegType::Immediate, "list"),
                ],
            ),
        ],
    );
    proof {
        assert(shapes_of(&mnemonic) =~~= default_shapes(38));
    }
    mnemonic
}

/// `PUSH`: push registers.
pub fn push_shapes() -> (mnemonic: (String, Vec<CommandDefinition>))
    ensures
        is_default_mnemonic(&mnemonic, 39),
{
    let mnemonic = (
        "PUSH".to_owned(),
        vec![
            shape(
                r"^[pP][uU][sS][hH][ \t]+(?P<list>\{[ \t]*(?:[rR][0-7]|(?:[rR][0-7][ \t]*,[ \t]*){1,7}[rR][0-7])[ \t]*\})[ \t]*$",
                14,
                vec![
                    entry(SegType::Flag, "0"),
                    entry(SegType::Flag, "0"),
                    entry(SegType::Immediate, "list"),
                ],
            ),
            shape(
                r"^[pP][uU][sS][hH][ \t]+(?P<list>\{[ \t]*(?:[rR][0-7][ \t]*,[ \t]*){0,8}[lL][rR][ \t]*\})[ \t]*$",
                14,
                vec![
                    entry(SegType::Flag, "0"),
                    entry(SegType::Flag, "1"),
                    entry(SegType::Immediate, "list"),
                ],
            ),
        ],
    );
    proof {
        assert(shapes_of(&mnemonic) =~~= default_shapes(39));
    }
    mnemonic
}

/// `ROR`: rotate right.
pub fn ror_shapes() -> (mnemonic: (String, Vec<CommandDefinition>))
    ensures
        is_default_mnemonic(&mnemonic, 40),
{
    let mnemonic = (
        "ROR".to_owned(),
        vec![
            shape(
                r"^[rR][oO][rR][ \t]+(?P<destination>[rR][0-7])[ \t]*,[ \t]*(?P<source>[rR][0-7])[ \t]*$",
                4,
                vec![
                    entry(SegType::Op, "7"),
                    entry(SegType::Source, "source"),
                    entry(SegType::Destination, "destination"),
                ],
            ),
        ],
    );
    proof {
        assert(shapes_of(&mnemonic) =~~= default_shapes(40));
    }
    mnemonic
}

/// `SBC`: subtract with carry.
pub fn sbc_shapes() -> (mnemonic: (String, Vec<CommandDefinition>))
    ensures
        is_default_mnemonic(&mnemonic, 41),
{
    let mnemonic = (
        "SBC".to_owned(),
        vec![
            shape(
                r"^[sS][bB][cC][ \t]+(?P<destination>[rR][0-7])[ \t]*,[ \t]*(?P<source>[rR][0-7])[ \t]*$",
                4,
                vec![
                    entry(SegType::Op, "6"),
                    entry(SegType::Source, "source"),
                    entry(SegType::Destination, "destination"),
                ],
            ),
        ],
    );
    proof {
        assert(shapes_of(&mnemonic) =~~= default_shapes(41));
    }
    mnemonic
}

/// `STMIA`: store multiple, increment after.
pub fn stmia_shapes() -> (mnemonic: (String, Vec<CommandDefinition>))
    ensures
        is_default_mnemonic(&mnemonic, 42),
{
    let mnemonic = (
        "STMIA".to_owned(),
        vec![
            shape(
                r"^[sS][tT][mM][iI][aA][ \t]+(?P<base>[rR][0-7])![ \t]*,[ \t]*(?P<list>\{[ \t]*(?:[rR][0-7]|(?:[rR][0-7][ \t]*,[ \t]*){1,7}[rR][0-7])[ \t]*\})[ \t]*$",
                15,
                vec![
                    entry(SegType::Flag, "0"),
                    entry(SegType::Source, "base"),
                    entry(SegType::Immediate, "list"),
                ],
            ),
        ],
    );
    proof {
        assert(shapes_of(&mnemonic) =~~= default_shapes(42));
    }
    mnemonic
}

/// `STR`: store word.
pub fn str_shapes() -> (mnemonic: (String, Vec<CommandDefinition>))
    ensures
        is_default_mnemonic(&mnemonic, 43),
{
    let mnemonic = (
        "STR".to_owned(),
        vec![
            shape(
                r"^[sS][tT][rR][ \t]+(?P<destination>[rR][0-7])[ \t]*,[ \t]*\[[ \t]*(?P<base>[rR][0-7])[ \t]*,[ \t]*(?P<offset>[rR][0-7])[ \t]*\][ \t]*$",
                7,
                vec![
                    entry(SegType::Flag, "0"),
                    entry(SegType::Flag, "0"),
                    entry(SegType::Offset, "offset"),
                    entry(SegType::Source, "base"),
                    entry(SegType::Destination, "destination"),
                ],
            ),
            shape(
                r"^[sS][tT][rR][ \t]+(?P<destination>[rR][0-7])[ \t]*,[ \t]*\[[ \t]*(?P<base>[rR][0-7])[ \t]*,[ \t]*#(?P<offset>0x[0-9a-fA-F]+|[0-9]+)[ \t]*\][ \t]*$",
                9,
                vec![
                    entry(SegType::Flag, "0"),
                    entry(SegType::Flag, "0"),
                    entry(SegType::Offset, "offset"),
                    entry(SegType::Source, "base"),
                    entry(SegType::Destination, "destination"),
                ],
            ),
            shape(
                r"^[sS][tT][rR][ \t]+(?P<destination>[rR][0-7])[ \t]*,[ \t]*\[[ \t]*[sS][pP][ \t]*,[ \t]*#(?P<offset>0x[0-9a-fA-F]+|[0-9]+)[ \t]*\][ \t]*$",
                11,
                vec![
                    entry(SegType::Flag, "0"),
                    entry(SegType::Destination, "destination"),
                    entry(SegType::Offset, "offset"),
                ],
            ),
        ],
    );
    proof {
        assert(shapes_of(&mnemonic) =~~= default_shapes(43));
    }
    mnemonic
}

/// `STRB`: store byte.
pub fn strb_shapes() -> (mnemonic: (String, Vec<CommandDefinition>))
    ensures
        is_default_mnemonic(&mnemonic, 44),
{
    let mnemonic = (
        "STRB".to_owned(),
        vec![
            shape(
                r"^[sS][tT][rR][bB][ \t]+(?P<destination>[rR][0-7])[ \t]*,[ \t]*\[[ \t]*(?P<base>[rR][0-7])[ \t]*,[ \t]*(?P<offset>[rR][0-7])[ \t]*\][ \t]*$",
                7,
                vec![
                    entry(SegType::Flag, "0"),
                    entry(SegType::Flag, "1"),
                    entry(SegType::Offset, "offset"),
                    entry(SegType::Source, "base"),
                    entry(SegType::Destination, "destination"),
                ],
            ),
            shape(
                r"^[sS][tT][rR][bB][ \t]+(?P<destination>[rR][0-7])[ \t]*,[ \t]*\[[ \t]*(?P<base>[rR][0-7])[ \t]*,[ \t]*#(?P<offset>0x[0-9a-fA-F]+|[0-9]+)[ \t]*\][ \t]*$",
                9,
                vec![
                    entry(SegType::Flag, "1"),
                    entry(SegType::Flag, "0"),
                    entry(SegType::Offset, "offset"),
                    entry(SegType::Source, "base"),
                    entry(SegType::Destination, "destination"),
                ],
            ),
        ],
    );
    proof {
        assert(shapes_of(&mnemonic) =~~= default_shapes(44));
    }
    mnemonic
}

/// `STRH`: store halfword.
pub fn strh_shapes() -> (mnemonic: (String, Vec<CommandDefinition>))
    ensures
        is_default_mnemonic(&mnemonic, 45),
{
    let mnemonic = (
        "STRH".to_owned(),
        vec![
            shape(
                r"^[sS][tT][rR][hH][ \t]+(?P<destination>[rR][0-7])[ \t]*,[ \t]*\[[ \t]*(?P<base>[rR][0-7])[ \t]*,[ \t]*(?P<offset>[rR][0-7])[ \t]*\][ \t]*$",
                8,
                vec![
                    entry(SegType::Flag, "0"),
                    entry(SegType::Flag, "0"),
                    entry(SegType::Offset, "offset"),
                    entry(SegType::Source, "base"),
                    entry(SegType::Destination, "destination"),
                ],
            ),
            shape(
                r"^[sS][tT][rR][hH][ \t]+(?P<destination>[rR][0-7])[ \t]*,[ \t]*\[[ \t]*(?P<base>[rR][0-7])[ \t]*,[ \t]*#(?P<offset>0x[0-9a-fA-F]+|[0-9]+)[ \t]*\][ \t]*$",
                10,
                vec![
                    entry(SegType::Flag, "0"),
                    entry(SegType::Offset, "offset"),
                    entry(SegType::Source, "base"),
                    entry(SegType::Destination, "destination"),
                ],
            ),
        ],
    );
    proof {
        assert(shapes_of(&mnemonic) =~~= default_shapes(45));
    }
    mnemonic
}

/// `SWI`: software interrupt.
pub fn swi_shapes() -> (mnemonic: (String, Vec<CommandDefinition>))
    ensures
        is_default_mnemonic(&mnemonic, 46),
{
    let mnemonic = (
        "SWI".to_owned(),
        vec![
            shape(
                r"^[sS][wW][iI][ \t]+(?P<comment>[0-9]+)[ \t]*$",
                17,
                vec![
                    entry(SegType::Immediate, "comment"),
                ],
            ),
        ],
    );
    proof {
        assert(shapes_of(&mnemonic) =~~= default_shapes(46));
    }
    mnemonic
}

/// `SUB`: subtract.
pub fn sub_shapes() -> (mnemonic: (String, Vec<CommandDefinition>))
    ensures
        is_default_mnemonic(&mnemonic, 47),
{
    let mnemonic = (
        "SUB".to_owned(),
        vec![
            shape(
                r"^[sS][uU][bB][ \t]+(?P<destination>[rR][0-7])[ \t]*,[ \t]*(?P<source>[rR][0-7])[ \t]*,[ \t]*(?P<immediate>[rR][0-7])[ \t]*$",
                2,
                vec![
                    entry(SegType::Flag, "0"),
                    entry(SegType::Op, "1"),
                    entry(SegType::Immediate, "immediate"),
                    entry(SegType::Source, "source"),
                    entry(SegType::Destination, "destination"),
                ],
            ),
            shape(
                r"^[sS][uU][bB][ \t]+(?P<destination>[rR][0-7])[ \t]*,[ \t]*(?P<source>[rR][0-7])[ \t]*,[ \t]*#(?P<immediate>0x[0-9a-fA-F]+|[0-9]+)[ \t]*$",
                2,
                vec![
                    entry(SegType::Flag, "1"),
                    entry(SegType::Op, "1"),
                    entry(SegType::Immediate, "immediate"),
                    entry(SegType::Source, "source"),
                    entry(SegType::Destination, "destination"),
                ],
            ),
            shape(
                r"^[sS][uU][bB][ \t]+(?P<destination>[rR][0-7])[ \t]*,[ \t]*#(?P<offset>0x[0-9a-fA-F]+|[0-9]+)[ \t]*$",
                3,
                vec![
                    entry(SegType::Op, "3"),
                    entry(SegType::Destination, "destination"),
                    entry(SegType::Immediate, "offset"),
                ],
            ),
        ],
    );
    proof {
        assert(shapes_of(&mnemonic) =~~= default_shapes(47));
    }
    mnemonic
}

/// `TST`: test bits.
pub fn tst_shapes() -> (mnemonic: (String, Vec<CommandDefinition>))
    ensures
        is_default_mnemonic(&mnemonic, 48),
{
    let mnemonic = (
        "TST".to_owned(),
        vec![
            shape(
                r"^[tT][sS][tT][ \t]+(?P<destination>[rR][0-7])[ \t]*,[ \t]*(?P<source>[rR][0-7])[ \t]*$",
                4,
                vec![
                    entry(SegType::Op, "8"),
                    entry(SegType::Source, "source"),
                    entry(SegType::Destination, "destination"),
                ],
            ),
        ],
    );
    proof {
        assert(shapes_of(&mnemonic) =~~= default_shapes(48));
    }
    mnemonic
}

} // verus!

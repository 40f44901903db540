//! The instruction formats of a processor: how the sixteen bits of an
//! instruction word are divided into fields, and how field values are packed
//! into a word and read back from it.
use vstd::prelude::*;
use crate::definitions::bits::{deposit, extract, low_zeros, mask_shift, mask_width, pack};
use crate::definitions::bits::{lemma_pow2_values, popcount, pow2, two_pow, unpack};
use crate::definitions::bits::{lemma_deposit_within, lemma_extract_deposit, lemma_extract_masked};

verus! {

/// The number of bits of an instruction word.
pub const WORD_SIZE: u32 = 16;

/// The part that a field plays in an instruction.
#[derive(Debug, Clone, Copy, PartialEq, Eq, Structural)]
pub enum SegType {
    /// The constant bits that tell the formats apart.
    Main,
    /// Selects one of the operations that share a format.
    Op,
    /// A single choice, such as immediate or register, load or store.
    Flag,
    /// A register that is read.
    Source,
    /// A register that is written.
    Destination,
    /// A distance to an address.
    Offset,
    /// A number written in the source.
    Immediate,
    /// The condition of a conditional branch.
    Condition,
}

impl Default for SegType {
    fn default() -> (role: SegType)
        ensures
            role == SegType::Main,
    {
        SegType::Main
    }
}

/// One field of a format: the bits it occupies, its role, and, where only some
/// bit patterns are legal, the list of them.
pub struct OperationSeg {
    /// What the field is called in the processor's manual.
    pub name: Option<String>,
    /// The bits of the instruction word that the field occupies.
    pub mask: u16,
    pub seg_type: SegType,
    /// The legal contents of the field, each in place under the mask. A field
    /// without a list takes every value that fits.
    pub values: Option<Vec<u16>>,
}

impl OperationSeg {
    /// The listed values lie under the mask, and a `Main` field lists the
    /// constant that it contributes.
    pub open spec fn wf(&self) -> bool {
        &&& self.values matches Some(listed) ==> forall|j: int|
            0 <= j < listed@.len() ==> #[trigger] listed@[j] & !self.mask == 0
        &&& self.seg_type is Main ==> self.values is Some && self.values->0@.len() > 0
    }

    /// Whether the field may hold `piece`, a bit pattern in place under the mask.
    pub open spec fn accepts(&self, piece: u16) -> bool {
        self.values matches Some(listed) ==> listed@.contains(piece)
    }

    /// The number of bits of the field.
    pub open spec fn spec_width(&self) -> nat {
        popcount(self.mask as nat)
    }

    /// Whether `field` fits in the bits of the field.
    pub open spec fn fits(&self, field: u16) -> bool {
        field < pow2(self.spec_width())
    }

    /// What the field contributes to the word when it is given `field`: its
    /// constant for a `Main` field, else `field` spread over the mask.
    pub open spec fn piece(&self, field: u16) -> u16 {
        if self.seg_type is Main {
            self.values->0@[0]
        } else {
            deposit(field as nat, self.mask as nat) as u16
        }
    }

    /// The number of bits of the field.
    pub fn width(&self) -> (width: u32)
        ensures
            width == self.spec_width(),
            width <= 16,
    {
        mask_width(self.mask)
    }

    /// The position of the lowest bit of the field.
    pub fn shift(&self) -> (shift: u32)
        ensures
            shift == low_zeros(self.mask as nat),
            shift < 16,
    {
        mask_shift(self.mask)
    }

    /// Spreads the low bits of `field` over the bits of the field.
    pub fn pack(&self, field: u16) -> (word: u16)
        ensures
            word == deposit(field as nat, self.mask as nat),
            word & !self.mask == 0,
    {
        pack(field, self.mask)
    }

    /// Gathers what `word` holds in the bits of the field.
    pub fn unpack(&self, word: u16) -> (field: u16)
        ensures
            field == extract(word as nat, self.mask as nat),
            self.fits(field),
    {
        unpack(word, self.mask)
    }

    /// Checks the field against [`OperationSeg::wf`].
    pub fn is_valid(&self) -> (valid: bool)
        ensures
            valid == self.wf(),
    {
        match &self.values {
            Option::None => !matches!(self.seg_type, SegType::Main),
            Option::Some(listed) => {
                if matches!(self.seg_type, SegType::Main) && listed.len() == 0 {
                    return false;
                }
                let mut j: usize = 0;
                while j < listed.len()
                    invariant
                        self.values == Some(*listed),
                        j <= listed@.len(),
                        forall|k: int| 0 <= k < j ==> #[trigger] listed@[k] & !self.mask == 0,
                    decreases listed@.len() - j,
                {
                    if listed[j] & !self.mask != 0 {
                        assert(self.values->0@[j as int] & !self.mask != 0);
                        return false;
                    }
                    j += 1;
                }
                true
            },
        }
    }

    /// Whether the field may hold `piece`.
    pub fn permits(&self, piece: u16) -> (ok: bool)
        ensures
            ok == self.accepts(piece),
    {
        match &self.values {
            Option::None => true,
            Option::Some(listed) => {
                let mut j: usize = 0;
                while j < listed.len()
                    invariant
                        self.values == Some(*listed),
                        j <= listed@.len(),
                        forall|k: int| 0 <= k < j ==> listed@[k] != piece,
                    decreases listed@.len() - j,
                {
                    if listed[j] == piece {
                        assert(listed@[j as int] == piece);
                        return true;
                    }
                    j += 1;
                }
                false
            },
        }
    }
}

/// Why a list of field values cannot be packed into a word of a format.
#[derive(Debug, Clone, Copy, PartialEq, Eq, Structural)]
pub enum FieldFault {
    /// The format does not take that many values.
    Count,
    /// The value at this position does not fit in the bits of its field.
    Overflow(usize),
    /// The value at this position is not among the legal values of its field.
    NotListed(usize),
}

/// An instruction format: the fields that make up the instruction word.
pub struct Format {
    pub id: i32,
    /// What the format is called in the processor's manual.
    pub name: String,
    /// The fields, from the most significant bits down.
    pub segments: Vec<OperationSeg>,
    /// Whether an instruction of this format takes two words. The first word
    /// then carries the upper half of each `Offset` field and the second the
    /// lower half, with every `Flag` field of the second word set to all ones.
    pub long: bool,
    /// How far the program counter is ahead of an instruction of this format,
    /// in bytes. A distance to a label is counted from there.
    pub pc_bias: u32,
    /// The number of low bits of a distance that the alignment of the target
    /// implies. They are dropped before the distance is written: 1 where
    /// distances are counted in halfwords.
    pub shift: u32,
}

impl Format {
    /// Every field is well formed, no bit belongs to two fields, and a distance
    /// loses fewer bits than an address has.
    pub open spec fn wf(&self) -> bool {
        &&& self.shift < 32
        &&& forall|i: int| 0 <= i < self.segments@.len() ==> #[trigger] self.segments@[i].wf()
        &&& forall|i: int, j: int|
            #![trigger self.segments@[i], self.segments@[j]]
            0 <= i < j < self.segments@.len() ==> self.segments@[i].mask & self.segments@[j].mask
                == 0
    }

    /// Whether field `i` takes its value from an operand.
    pub open spec fn takes_operand(&self, i: int) -> bool {
        !(self.segments@[i].seg_type is Main)
    }

    /// The number of fields before field `n` that take an operand: the position,
    /// among the operands, of the value that field `n` takes.
    pub open spec fn operands_before(&self, n: int) -> int
        decreases n,
    {
        if n <= 0 {
            0
        } else {
            self.operands_before(n - 1) + if self.takes_operand(n - 1) {
                1int
            } else {
                0int
            }
        }
    }

    /// The number of operands that an instruction of this format takes.
    pub open spec fn operand_count(&self) -> int {
        self.operands_before(self.segments@.len() as int)
    }

    /// What field `i` contributes to the word.
    pub open spec fn segment_piece(&self, fields: Seq<u16>, i: int) -> u16 {
        self.segments@[i].piece(fields[self.operands_before(i)])
    }

    /// Whether field `i` takes its value without fault: the value fits, and the
    /// bit pattern it gives is a legal one.
    pub open spec fn segment_ok(&self, fields: Seq<u16>, i: int) -> bool {
        &&& self.takes_operand(i) ==> self.segments@[i].fits(fields[self.operands_before(i)])
        &&& self.segments@[i].accepts(self.segment_piece(fields, i))
    }

    /// The contributions of the first `n` fields, joined.
    pub open spec fn word_upto(&self, fields: Seq<u16>, n: int) -> u16
        decreases n,
    {
        if n <= 0 {
            0
        } else {
            self.word_upto(fields, n - 1) | self.segment_piece(fields, n - 1)
        }
    }

    /// The instruction word that holds `fields`.
    pub open spec fn word(&self, fields: Seq<u16>) -> u16 {
        self.word_upto(fields, self.segments@.len() as int)
    }

    /// Whether `word` is an instruction of this format: every field with a list
    /// of legal values holds one of them.
    pub open spec fn recognizes(&self, word: u16) -> bool {
        forall|i: int|
            0 <= i < self.segments@.len() ==> (#[trigger] self.segments@[i]).accepts(
                word & self.segments@[i].mask,
            )
    }

    /// The values that `word` holds in the first `n` fields that take an operand.
    pub open spec fn fields_upto(&self, word: u16, n: int) -> Seq<u16>
        decreases n,
    {
        if n <= 0 {
            Seq::empty()
        } else if self.takes_operand(n - 1) {
            self.fields_upto(word, n - 1).push(
                extract(word as nat, self.segments@[n - 1].mask as nat) as u16,
            )
        } else {
            self.fields_upto(word, n - 1)
        }
    }

    /// The operand values that `word` holds.
    pub open spec fn fields_of(&self, word: u16) -> Seq<u16> {
        self.fields_upto(word, self.segments@.len() as int)
    }

    /// The bits that the first `n` fields occupy.
    pub open spec fn covered_upto(&self, n: int) -> u16
        decreases n,
    {
        if n <= 0 {
            0
        } else {
            self.covered_upto(n - 1) | self.segments@[n - 1].mask
        }
    }

    /// The bits that the format declares: those that its fields occupy.
    pub open spec fn covered(&self) -> u16 {
        self.covered_upto(self.segments@.len() as int)
    }

    /// The first `n` contributions set no bit outside the first `n` fields.
    pub proof fn lemma_word_within_cover(&self, fields: Seq<u16>, n: int)
        requires
            self.wf(),
            0 <= n <= self.segments@.len(),
        ensures
            self.word_upto(fields, n) & !self.covered_upto(n) == 0,
        decreases n,
    {
        if n == 0 {
            assert(0u16 & !0u16 == 0) by (bit_vector);
        } else {
            self.lemma_word_within_cover(fields, n - 1);
            self.lemma_piece_within(fields, n - 1);
            let before = self.word_upto(fields, n - 1);
            let cover = self.covered_upto(n - 1);
            let piece = self.segment_piece(fields, n - 1);
            let mask = self.segments@[n - 1].mask;
            assert((before | piece) & !(cover | mask) == 0) by (bit_vector)
                requires
                    before & !cover == 0,
                    piece & !mask == 0,
            ;
        }
    }

    /// An instruction word sets only bits that its format declares.
    pub proof fn lemma_word_within_format(&self, fields: Seq<u16>)
        requires
            self.wf(),
        ensures
            self.word(fields) & !self.covered() == 0,
    {
        self.lemma_word_within_cover(fields, self.segments@.len() as int);
    }

    /// The roles of the first `n` fields that take an operand.
    pub open spec fn roles_upto(&self, n: int) -> Seq<SegType>
        decreases n,
    {
        if n <= 0 {
            Seq::empty()
        } else if self.takes_operand(n - 1) {
            self.roles_upto(n - 1).push(self.segments@[n - 1].seg_type)
        } else {
            self.roles_upto(n - 1)
        }
    }

    /// The roles of the fields that take an operand, in the order of the fields.
    pub open spec fn roles(&self) -> Seq<SegType> {
        self.roles_upto(self.segments@.len() as int)
    }

    /// The list of roles has one entry for each field that takes an operand, at
    /// the position of the field's operand.
    pub proof fn lemma_roles_upto(&self, n: int)
        requires
            0 <= n,
        ensures
            self.roles_upto(n).len() == self.operands_before(n),
            forall|i: int|
                0 <= i < n && self.takes_operand(i) ==> self.roles_upto(n)[self.operands_before(i)]
                    == (#[trigger] self.segments@[i]).seg_type,
        decreases n,
    {
        if n > 0 {
            self.lemma_roles_upto(n - 1);
            assert forall|i: int| 0 <= i < n && self.takes_operand(i) implies self.roles_upto(
                n,
            )[self.operands_before(i)] == (#[trigger] self.segments@[i]).seg_type by {
                self.lemma_operands_before_bounds(i);
                self.lemma_operands_before_monotone(i, n - 1);
            }
        }
    }

    /// A word holds one value for each of the first `n` fields that take an
    /// operand.
    pub proof fn lemma_fields_count(&self, word: u16, n: int)
        requires
            0 <= n,
        ensures
            self.fields_upto(word, n).len() == self.operands_before(n),
        decreases n,
    {
        if n > 0 {
            self.lemma_fields_count(word, n - 1);
        }
    }

    /// The position count only grows, by at most one per field.
    pub proof fn lemma_operands_before_bounds(&self, n: int)
        requires
            0 <= n,
        ensures
            0 <= self.operands_before(n) <= n,
        decreases n,
    {
        if n > 0 {
            self.lemma_operands_before_bounds(n - 1);
        }
    }

    /// Positions are handed out in order: a later field never takes an earlier
    /// position, and two fields that take an operand never share one.
    pub proof fn lemma_operands_before_monotone(&self, i: int, j: int)
        requires
            0 <= i <= j,
        ensures
            self.operands_before(i) <= self.operands_before(j),
            i < j && self.takes_operand(i) ==> self.operands_before(i) < self.operands_before(j),
        decreases j - i,
    {
        if i < j {
            self.lemma_operands_before_monotone(i, j - 1);
        }
    }

    /// Checks the format against [`Format::wf`].
    pub fn is_valid(&self) -> (valid: bool)
        ensures
            valid == self.wf(),
    {
        let n = self.segments.len();
        if self.shift >= 32 {
            return false;
        }
        let mut i: usize = 0;
        while i < n
            invariant
                n == self.segments@.len(),
                self.shift < 32,
                i <= n,
                forall|k: int| 0 <= k < i ==> #[trigger] self.segments@[k].wf(),
                forall|k: int, j: int|
                    #![trigger self.segments@[k], self.segments@[j]]
                    0 <= k < j < i ==> self.segments@[k].mask & self.segments@[j].mask == 0,
            decreases n - i,
        {
            if !self.segments[i].is_valid() {
                assert(!self.segments@[i as int].wf());
                return false;
            }
            let mut k: usize = 0;
            while k < i
                invariant
                    n == self.segments@.len(),
                    k <= i < n,
                    forall|h: int|
                        #![trigger self.segments@[h]]
                        0 <= h < k ==> self.segments@[h].mask & self.segments@[i as int].mask == 0,
                decreases i - k,
            {
                if self.segments[k].mask & self.segments[i].mask != 0 {
                    assert(self.segments@[k as int].mask & self.segments@[i as int].mask != 0);
                    return false;
                }
                k += 1;
            }
            i += 1;
        }
        true
    }

    /// What a field contributes lies under its own mask.
    pub proof fn lemma_piece_within(&self, fields: Seq<u16>, i: int)
        requires
            self.wf(),
            0 <= i < self.segments@.len(),
        ensures
            self.segment_piece(fields, i) & !self.segments@[i].mask == 0,
    {
        let seg = self.segments@[i];
        assert(seg.wf());
        if seg.seg_type is Main {
            assert(seg.values->0@[0] & !seg.mask == 0);
        } else {
            lemma_deposit_within(fields[self.operands_before(i)] as nat, seg.mask);
        }
    }

    /// Under the mask of field `i`, the first `n` contributions show exactly
    /// what field `i` contributed, or nothing if it is not among them.
    pub proof fn lemma_word_masked(&self, fields: Seq<u16>, n: int, i: int)
        requires
            self.wf(),
            0 <= i < self.segments@.len(),
            0 <= n <= self.segments@.len(),
        ensures
            self.word_upto(fields, n) & self.segments@[i].mask == if i < n {
                self.segment_piece(fields, i)
            } else {
                0
            },
        decreases n,
    {
        let mask = self.segments@[i].mask;
        if n == 0 {
            assert(0u16 & mask == 0) by (bit_vector);
        } else {
            self.lemma_word_masked(fields, n - 1, i);
            self.lemma_piece_within(fields, n - 1);
            let before = self.word_upto(fields, n - 1);
            let piece = self.segment_piece(fields, n - 1);
            let other = self.segments@[n - 1].mask;
            if i == n - 1 {
                assert((before | piece) & mask == piece) by (bit_vector)
                    requires
                        before & mask == 0,
                        piece & !mask == 0,
                ;
            } else {
                if i < n - 1 {
                    assert(self.segments@[i].mask & self.segments@[n - 1].mask == 0);
                } else {
                    assert(self.segments@[n - 1].mask & self.segments@[i].mask == 0);
                }
                assert((before | piece) & mask == before & mask) by (bit_vector)
                    requires
                        piece & !other == 0,
                        other & mask == 0 || mask & other == 0,
                ;
            }
        }
    }

    /// Reading the first `n` fields of the word that holds `fields` gives the
    /// values that those fields took.
    pub proof fn lemma_fields_upto(&self, fields: Seq<u16>, n: int)
        requires
            self.wf(),
            fields.len() == self.operand_count(),
            forall|i: int| 0 <= i < self.segments@.len() ==> self.segment_ok(fields, i),
            0 <= n <= self.segments@.len(),
        ensures
            self.fields_upto(self.word(fields), n) == fields.take(self.operands_before(n)),
        decreases n,
    {
        let word = self.word(fields);
        self.lemma_operands_before_bounds(n);
        self.lemma_operands_before_monotone(n, self.segments@.len() as int);
        if n > 0 {
            self.lemma_fields_upto(fields, n - 1);
            self.lemma_operands_before_monotone(n - 1, self.segments@.len() as int);
            self.lemma_operands_before_bounds(n - 1);
            if self.takes_operand(n - 1) {
                let seg = self.segments@[n - 1];
                let field = fields[self.operands_before(n - 1)];
                assert(self.segment_ok(fields, n - 1));
                self.lemma_word_masked(fields, self.segments@.len() as int, n - 1);
                lemma_extract_masked(word, seg.mask);
                lemma_extract_deposit(field as nat, seg.mask as nat);
                lemma_deposit_within(field as nat, seg.mask);
                assert(extract(word as nat, seg.mask as nat) == field);
                assert(fields.take(self.operands_before(n - 1)).push(field) =~= fields.take(
                    self.operands_before(n),
                ));
            }
        } else {
            assert(fields.take(0) =~= Seq::<u16>::empty());
        }
    }

    /// Packing values into a word and reading the word back recovers the
    /// values, and the word shows a legal pattern in every field.
    pub proof fn lemma_decode_encode(&self, fields: Seq<u16>)
        requires
            self.wf(),
            fields.len() == self.operand_count(),
            forall|i: int| 0 <= i < self.segments@.len() ==> self.segment_ok(fields, i),
        ensures
            self.recognizes(self.word(fields)),
            self.fields_of(self.word(fields)) == fields,
    {
        let word = self.word(fields);
        let n = self.segments@.len() as int;
        self.lemma_fields_upto(fields, n);
        assert(fields.take(self.operand_count()) =~= fields);
        assert forall|i: int| 0 <= i < n implies (#[trigger] self.segments@[i]).accepts(
            word & self.segments@[i].mask,
        ) by {
            self.lemma_word_masked(fields, n, i);
            assert(self.segment_ok(fields, i));
        }
    }

    /// Whether field `i` is the first that does not take its value without
    /// fault.
    pub open spec fn first_fault(&self, fields: Seq<u16>, i: int) -> bool {
        &&& 0 <= i < self.segments@.len()
        &&& !self.segment_ok(fields, i)
        &&& forall|j: int| 0 <= j < i ==> self.segment_ok(fields, j)
    }

    /// Packs `fields`, one value for each field that takes an operand, into the
    /// instruction word. The fields are checked from the most significant
    /// down, and the first fault is reported with the position of its value.
    pub fn encode_fields(&self, fields: &Vec<u16>) -> (packed: Result<u16, FieldFault>)
        requires
            self.wf(),
        ensures
            match packed {
                Ok(word) => {
                    &&& fields@.len() == self.operand_count()
                    &&& forall|i: int| 0 <= i < self.segments@.len() ==> self.segment_ok(fields@, i)
                    &&& word == self.word(fields@)
                },
                Err(FieldFault::Count) => fields@.len() != self.operand_count(),
                Err(FieldFault::Overflow(k)) => {
                    &&& fields@.len() == self.operand_count()
                    &&& exists|i: int|
                        {
                            &&& self.first_fault(fields@, i)
                            &&& k == self.operands_before(i)
                            &&& self.takes_operand(i)
                            &&& !self.segments@[i].fits(fields@[k as int])
                        }
                },
                Err(FieldFault::NotListed(k)) => {
                    &&& fields@.len() == self.operand_count()
                    &&& exists|i: int|
                        {
                            &&& self.first_fault(fields@, i)
                            &&& k == self.operands_before(i)
                            &&& self.takes_operand(i)
                            &&& self.segments@[i].fits(fields@[k as int])
                        }
                },
            },
    {
        let n = self.segments.len();
        if fields.len() != self.count_operands() {
            return Err(FieldFault::Count);
        }
        let mut word: u16 = 0;
        let mut k: usize = 0;
        let mut i: usize = 0;
        while i < n
            invariant
                self.wf(),
                n == self.segments@.len(),
                fields@.len() == self.operand_count(),
                i <= n,
                k == self.operands_before(i as int),
                forall|j: int| 0 <= j < i ==> self.segment_ok(fields@, j),
                word == self.word_upto(fields@, i as int),
            decreases n - i,
        {
            let seg = &self.segments[i];
            assert(seg.wf());
            match seg.seg_type {
                SegType::Main => {
                    let listed = seg.values.as_ref().unwrap();
                    let piece = listed[0];
                    assert(seg.values->0@[0] == piece);
                    word = word | piece;
                },
                _ => {
                    proof {
                        self.lemma_operands_before_monotone(i as int, n as int);
                        lemma_pow2_values();
                    }
                    assert(k < fields.len());
                    let field = fields[k];
                    let width = mask_width(seg.mask);
                    if field as u64 >= two_pow(width) {
                        assert(self.first_fault(fields@, i as int));
                        return Err(FieldFault::Overflow(k));
                    }
                    let piece = pack(field, seg.mask);
                    if !seg.permits(piece) {
                        assert(self.first_fault(fields@, i as int));
                        return Err(FieldFault::NotListed(k));
                    }
                    word = word | piece;
                    k += 1;
                },
            }
            i += 1;
        }
        Ok(word)
    }

    /// Reads the operand values out of `word`, or nothing where a field with a
    /// list of legal values holds none of them.
    pub fn decode(&self, word: u16) -> (fields: Option<Vec<u16>>)
        ensures
            fields is Some <==> self.recognizes(word),
            fields matches Some(read) ==> read@ == self.fields_of(word),
    {
        let n = self.segments.len();
        let mut read: Vec<u16> = Vec::new();
        let mut i: usize = 0;
        while i < n
            invariant
                n == self.segments@.len(),
                i <= n,
                read@ == self.fields_upto(word, i as int),
                forall|j: int|
                    0 <= j < i ==> (#[trigger] self.segments@[j]).accepts(
                        word & self.segments@[j].mask,
                    ),
            decreases n - i,
        {
            let seg = &self.segments[i];
            if !seg.permits(word & seg.mask) {
                assert(!self.segments@[i as int].accepts(word & self.segments@[i as int].mask));
                return None;
            }
            if !matches!(seg.seg_type, SegType::Main) {
                read.push(unpack(word, seg.mask));
            }
            i += 1;
        }
        Some(read)
    }

    /// The bits that the format declares.
    pub fn coverage(&self) -> (bits: u16)
        ensures
            bits == self.covered(),
    {
        let n = self.segments.len();
        let mut bits: u16 = 0;
        let mut i: usize = 0;
        while i < n
            invariant
                n == self.segments@.len(),
                i <= n,
                bits == self.covered_upto(i as int),
            decreases n - i,
        {
            bits = bits | self.segments[i].mask;
            i += 1;
        }
        bits
    }

    /// The number of operands that an instruction of this format takes.
    pub fn count_operands(&self) -> (count: usize)
        ensures
            count == self.operand_count(),
    {
        let n = self.segments.len();
        let mut count: usize = 0;
        let mut i: usize = 0;
        while i < n
            invariant
                n == self.segments@.len(),
                i <= n,
                count == self.operands_before(i as int),
                count <= i,
            decreases n - i,
        {
            if !matches!(self.segments[i].seg_type, SegType::Main) {
                count += 1;
            }
            i += 1;
        }
        count
    }
}

/// A processor: its registers and its instruction formats.
pub struct ProcessorDefinition {
    pub name: String,
    /// The number of registers.
    pub num_register: i32,
    /// The width of a register in bits.
    pub register_size: i32,
    pub formats: Vec<Format>,
}

impl ProcessorDefinition {
    /// Every format is well formed and no two formats share an id.
    pub open spec fn wf(&self) -> bool {
        &&& forall|i: int| 0 <= i < self.formats@.len() ==> #[trigger] self.formats@[i].wf()
        &&& forall|i: int, j: int|
            #![trigger self.formats@[i], self.formats@[j]]
            0 <= i < j < self.formats@.len() ==> self.formats@[i].id != self.formats@[j].id
    }

    /// Where the first format with this id stands among those from `start` on.
    pub open spec fn position_from(&self, id: i32, start: int) -> Option<int>
        decreases self.formats@.len() - start,
    {
        if start < 0 || start >= self.formats@.len() {
            None
        } else if self.formats@[start].id == id {
            Some(start)
        } else {
            self.position_from(id, start + 1)
        }
    }

    /// Where the format with this id stands in the list of formats.
    pub open spec fn position(&self, id: i32) -> Option<int> {
        self.position_from(id, 0)
    }

    /// Checks the processor against [`ProcessorDefinition::wf`].
    pub fn is_valid(&self) -> (valid: bool)
        ensures
            valid == self.wf(),
    {
        let n = self.formats.len();
        let mut i: usize = 0;
        while i < n
            invariant
                n == self.formats@.len(),
                i <= n,
                forall|k: int| 0 <= k < i ==> #[trigger] self.formats@[k].wf(),
                forall|k: int, j: int|
                    #![trigger self.formats@[k], self.formats@[j]]
                    0 <= k < j < i ==> self.formats@[k].id != self.formats@[j].id,
            decreases n - i,
        {
            if !self.formats[i].is_valid() {
                assert(!self.formats@[i as int].wf());
                return false;
            }
            let mut k: usize = 0;
            while k < i
                invariant
                    n == self.formats@.len(),
                    k <= i < n,
                    forall|h: int|
                        #![trigger self.formats@[h]]
                        0 <= h < k ==> self.formats@[h].id != self.formats@[i as int].id,
                decreases i - k,
            {
                if self.formats[k].id == self.formats[i].id {
                    assert(self.formats@[k as int].id == self.formats@[i as int].id);
                    return false;
                }
                k += 1;
            }
            i += 1;
        }
        true
    }

    /// Where the format with this id stands in the list of formats.
    pub fn find_format(&self, id: i32) -> (found: Option<usize>)
        ensures
            found matches Some(p) ==> self.position(id) == Some(p as int) && p
                < self.formats@.len() && self.formats@[p as int].id == id,
            found is None ==> self.position(id) is None,
    {
        let n = self.formats.len();
        let mut i: usize = 0;
        while i < n
            invariant
                n == self.formats@.len(),
                i <= n,
                self.position(id) == self.position_from(id, i as int),
            decreases n - i,
        {
            if self.formats[i].id == id {
                return Some(i);
            }
            i += 1;
        }
        None
    }

    /// The format with this id.
    pub fn format(&self, id: i32) -> (found: Option<&Format>)
        ensures
            match found {
                Some(format) => self.position(id) matches Some(p) && 0 <= p < self.formats@.len()
                    && *format == self.formats@[p] && format.id == id,
                None => self.position(id) is None,
            },
    {
        match self.find_format(id) {
            Some(p) => Some(&self.formats[p]),
            None => None,
        }
    }

    /// The instruction formats, in the order of the definition.
    pub fn formats(&self) -> (all: &Vec<Format>)
        ensures
            *all == self.formats,
    {
        &self.formats
    }
}

} // verus!

use vstd::prelude::*;

verus! {

/// The largest number that `bits` bits can hold.
pub open spec fn mask_of(bits: usize) -> u64 {
    if bits >= 64 {
        0xffff_ffff_ffff_ffff
    } else {
        ((1u64 << (bits as u64)) - 1) as u64
    }
}

/// The value of `bits` bits that starts `shift` bits up in `word`.
pub open spec fn field_of(word: u64, shift: usize, bits: usize) -> u64 {
    (word >> (shift as u64)) & mask_of(bits)
}

/// How many values of `bits` bits a 64-bit word takes: none crosses into
/// the next word.
pub open spec fn per_word(bits: usize) -> int {
    64int / (bits as int)
}

/// How many words `length` values of `bits` bits take.
pub open spec fn words_for(length: usize, bits: usize) -> int {
    (length + per_word(bits) - 1) / per_word(bits)
}

/// The value of the field number `slot` of `word`, counted from the lowest
/// bit upward.
pub open spec fn slot_of(word: u64, slot: int, bits: usize) -> u64 {
    field_of(word, (slot * bits) as usize, bits)
}

/// The value at `index` among `words`: no value crosses from a word into
/// the next.
pub open spec fn value_at(words: Seq<u64>, bits: usize, index: int) -> u64 {
    slot_of(words[index / per_word(bits)], index % per_word(bits), bits)
}

/// A fixed run of numbers of `bits_per_value` bits each, packed into 64-bit
/// words.
#[derive(Debug)]
pub struct PackedArray {
    length: usize,
    bits_per_value: usize,
    bits: Vec<u64>,
}

impl View for PackedArray {
    type V = Seq<u64>;

    /// The values, in order.
    closed spec fn view(&self) -> Seq<u64> {
        Seq::new(self.length as nat, |i: int| value_at(self.bits@, self.bits_per_value, i))
    }
}

impl Clone for PackedArray {
    fn clone(&self) -> (copy: PackedArray)
        ensures
            copy@ == self@,
            copy.spec_len() == self.spec_len(),
            copy.spec_bits() == self.spec_bits(),
            copy.words() == self.words(),
            self.wf() ==> copy.wf(),
    {
        PackedArray {
            length: self.length,
            bits_per_value: self.bits_per_value,
            bits: self.bits.clone(),
        }
    }
}

/// No number of fewer than 64 bits reaches 2 to that many bits.
proof fn lemma_mask(bits: u64)
    by (bit_vector)
    requires
        1 <= bits < 64,
    ensures
        (1u64 << bits) >= 2,
{
}

/// Whether `mask` is the largest number of `bits` bits.
pub open spec fn is_mask(mask: u64, bits: u64) -> bool {
    if bits >= 64 {
        mask == 0xffff_ffff_ffff_ffff
    } else {
        mask + 1 == (1u64 << bits)
    }
}

/// What is written into a field is what is read from it.
proof fn lemma_field_written(word: u64, value: u64, mask: u64, bits: u64, shift: u64)
    by (bit_vector)
    requires
        1 <= bits <= 64,
        shift < 64,
        shift + bits <= 64,
        if bits >= 64 {
            mask == 0xffff_ffff_ffff_ffff
        } else {
            mask + 1 == (1u64 << bits)
        },
        value <= mask,
    ensures
        (((word & !(mask << shift)) | (value << shift)) >> shift) & mask == value,
{
}

/// Writing into a field leaves the fields beside it as they were.
proof fn lemma_field_kept(word: u64, value: u64, mask: u64, bits: u64, shift: u64, other: u64)
    by (bit_vector)
    requires
        1 <= bits <= 64,
        shift < 64,
        shift + bits <= 64,
        other < 64,
        other + bits <= 64,
        other + bits <= shift || shift + bits <= other,
        if bits >= 64 {
            mask == 0xffff_ffff_ffff_ffff
        } else {
            mask + 1 == (1u64 << bits)
        },
        value <= mask,
    ensures
        (((word & !(mask << shift)) | (value << shift)) >> other) & mask == (word >> other) & mask,
{
}

/// Where nothing is set from `shift` upward, setting a field there is
/// writing into it, and nothing is set above it afterwards.
proof fn lemma_field_fresh(word: u64, value: u64, mask: u64, bits: u64, shift: u64, above: u64)
    by (bit_vector)
    requires
        1 <= bits <= 64,
        shift < 64,
        shift + bits <= 64,
        above == shift + bits,
        word >> shift == 0,
        if bits >= 64 {
            mask == 0xffff_ffff_ffff_ffff
        } else {
            mask + 1 == (1u64 << bits)
        },
        value <= mask,
    ensures
        word | (value << shift) == (word & !(mask << shift)) | (value << shift),
        above < 64 ==> (word | (value << shift)) >> above == 0,
{
}

/// The largest number of `bits` bits is a mask of that many bits.
proof fn lemma_mask_of(bits: usize)
    requires
        1 <= bits <= 64,
    ensures
        is_mask(mask_of(bits), bits as u64),
{
    if bits < 64 {
        lemma_mask(bits as u64);
    }
}

/// A word takes at least one value and at most 64.
pub proof fn lemma_per_word(bits: usize)
    requires
        1 <= bits <= 64,
    ensures
        1 <= per_word(bits) <= 64,
{
    let n = per_word(bits);
    assert(1 <= n <= 64) by (nonlinear_arith)
        requires
            n == 64int / (bits as int),
            1 <= bits <= 64,
    ;
}

/// The fields of a word lie inside it, one beside the other.
pub proof fn lemma_slots(bits: usize, slot: int)
    requires
        1 <= bits <= 64,
        0 <= slot < per_word(bits),
    ensures
        1 <= per_word(bits) <= 64,
        0 <= slot * bits,
        slot * bits + bits <= 64,
        slot * bits < 64,
{
    let n = per_word(bits);
    assert(n * bits <= 64) by (nonlinear_arith)
        requires
            n == 64int / (bits as int),
            1 <= bits,
    ;
    assert(0 <= slot * bits && slot * bits + bits <= n * bits) by (nonlinear_arith)
        requires
            0 <= slot < n,
            1 <= bits,
    ;
    assert(1 <= n <= 64) by (nonlinear_arith)
        requires
            n == 64int / (bits as int),
            1 <= bits <= 64,
    ;
}

/// Two fields of a word that are not the same do not overlap.
pub proof fn lemma_slots_apart(bits: usize, a: int, b: int)
    requires
        1 <= bits <= 64,
        0 <= a < per_word(bits),
        0 <= b < per_word(bits),
        a != b,
    ensures
        a * bits + bits <= b * bits || b * bits + bits <= a * bits,
{
    if a < b {
        assert(a * bits + bits <= b * bits) by (nonlinear_arith)
            requires
                a + 1 <= b,
                1 <= bits,
        ;
    } else {
        assert(b * bits + bits <= a * bits) by (nonlinear_arith)
            requires
                b + 1 <= a,
                1 <= bits,
        ;
    }
}

/// An index lies in a word that the array has, in a field of that word.
pub proof fn lemma_index(length: usize, bits: usize, index: int)
    requires
        1 <= bits <= 64,
        0 <= index < length,
    ensures
        0 <= index / per_word(bits) < words_for(length, bits),
        0 <= index % per_word(bits) < per_word(bits),
        index == (index / per_word(bits)) * per_word(bits) + index % per_word(bits),
{
    lemma_per_word(bits);
    let n = per_word(bits);
    vstd::arithmetic::div_mod::lemma_fundamental_div_mod(index, n);
    vstd::arithmetic::div_mod::lemma_div_is_ordered(index, length + n - 1, n);
    vstd::arithmetic::div_mod::lemma_fundamental_div_mod(length + n - 1, n);
    let q = (length + n - 1) / n;
    let r = (length + n - 1) % n;
    let qi = index / n;
    let ri = index % n;
    assert(n * qi == qi * n && n * q == q * n) by (nonlinear_arith);
    if qi >= q {
        assert(qi * n >= q * n) by (nonlinear_arith)
            requires
                qi >= q,
                n >= 1,
        ;
        assert(false);
    }
}

/// The value at `index`, or zero where `values` does not reach so far.
pub open spec fn entry(values: Seq<u64>, index: int) -> u64 {
    if 0 <= index < values.len() {
        values[index]
    } else {
        0
    }
}

/// The word number `word` of the packing of `values`, as far as its lowest
/// `slots` fields go: each field holds its value, and nothing else is set.
pub open spec fn packed_word(values: Seq<u64>, bits: usize, word: int, slots: int) -> u64
    decreases slots,
{
    if slots <= 0 {
        0
    } else {
        packed_word(values, bits, word, slots - 1) | (entry(
            values,
            word * per_word(bits) + (slots - 1),
        ) << (((slots - 1) * bits) as u64))
    }
}

/// The words that hold `values` and nothing else: every value in its field,
/// every bit that belongs to no value zero.
pub open spec fn packed_words(values: Seq<u64>, bits: usize) -> Seq<u64> {
    Seq::new(
        words_for(values.len() as usize, bits) as nat,
        |word: int| packed_word(values, bits, word, per_word(bits)),
    )
}

/// A word whose field number `slot` holds `value`, and which is `word` in
/// every other bit.
pub open spec fn written(word: u64, bits: usize, slot: int, value: u64) -> u64 {
    (word & !(mask_of(bits) << ((slot * bits) as u64))) | (value << ((slot * bits) as u64))
}

/// The word whose lowest `slots` fields all hold `value`, and in which
/// nothing else is set.
pub open spec fn repeated(value: u64, bits: usize, slots: int) -> u64
    decreases slots,
{
    if slots <= 0 {
        0
    } else {
        repeated(value, bits, slots - 1) | (value << (((slots - 1) * bits) as u64))
    }
}

/// Whether every one of `values` fits `bits` bits.
pub open spec fn all_fit(values: Seq<u64>, bits: usize) -> bool {
    forall|i: int| 0 <= i < values.len() ==> #[trigger] values[i] <= mask_of(bits)
}

/// Nothing set is nothing set, wherever it is shifted.
proof fn lemma_nothing(shift: u64)
    by (bit_vector)
    requires
        shift < 64,
    ensures
        0u64 | (0u64 << shift) == 0,
        0u64 >> shift == 0,
{
}

/// Clearing a field that was set on fresh ground gives the ground back.
proof fn lemma_field_cleared(word: u64, value: u64, mask: u64, bits: u64, shift: u64)
    by (bit_vector)
    requires
        1 <= bits <= 64,
        shift < 64,
        shift + bits <= 64,
        word >> shift == 0,
        if bits >= 64 {
            mask == 0xffff_ffff_ffff_ffff
        } else {
            mask + 1 == (1u64 << bits)
        },
        value <= mask,
    ensures
        (word | (value << shift)) & !(mask << shift) == word,
{
}

/// Writing into a field and setting a field above it can be done in either
/// order.
proof fn lemma_field_order(
    word: u64,
    value: u64,
    upper: u64,
    mask: u64,
    bits: u64,
    shift: u64,
    above: u64,
)
    by (bit_vector)
    requires
        1 <= bits <= 64,
        shift + bits <= above,
        above < 64,
        if bits >= 64 {
            mask == 0xffff_ffff_ffff_ffff
        } else {
            mask + 1 == (1u64 << bits)
        },
    ensures
        ((word & !(mask << shift)) | (value << shift)) | (upper << above) == ((word | (upper
            << above)) & !(mask << shift)) | (value << shift),
{
}

/// The lowest fields of a packed word reach no higher than they are.
pub proof fn lemma_packed_low(values: Seq<u64>, bits: usize, word: int, slots: int)
    requires
        1 <= bits <= 64,
        0 <= slots <= per_word(bits),
        all_fit(values, bits),
    ensures
        slots * bits < 64 ==> packed_word(values, bits, word, slots) >> ((slots * bits) as u64)
            == 0,
        slots < per_word(bits) ==> slots * bits < 64,
    decreases slots,
{
    lemma_per_word(bits);
    if slots < per_word(bits) {
        lemma_slots(bits, slots);
    }
    if slots == 0 {
        lemma_nothing(0);
        assert(slots * bits == 0) by (nonlinear_arith)
            requires
                slots == 0,
        ;
    } else {
        lemma_packed_low(values, bits, word, slots - 1);
        lemma_slots(bits, slots - 1);
        lemma_mask_of(bits);
        assert((slots - 1) * bits + bits == slots * bits) by (nonlinear_arith);
        let at = word * per_word(bits) + (slots - 1);
        assert(entry(values, at) <= mask_of(bits)) by {
            if 0 <= at < values.len() {
                assert(values[at] <= mask_of(bits));
            }
        }
        lemma_field_fresh(
            packed_word(values, bits, word, slots - 1),
            entry(values, word * per_word(bits) + (slots - 1)),
            mask_of(bits),
            bits as u64,
            ((slots - 1) * bits) as u64,
            (slots * bits) as u64,
        );
    }
}

/// What a change of one value does to a packed word: the word of that value
/// has it written into its field, and every other word stays as it is.
pub proof fn lemma_packed_word_update(
    values: Seq<u64>,
    bits: usize,
    index: int,
    value: u64,
    word: int,
    slots: int,
)
    requires
        1 <= bits <= 64,
        0 <= slots <= per_word(bits),
        0 <= index < values.len(),
        0 <= word,
        all_fit(values, bits),
        value <= mask_of(bits),
    ensures
        packed_word(values.update(index, value), bits, word, slots) == (if word == index
            / per_word(bits) && slots > index % per_word(bits) {
            written(packed_word(values, bits, word, slots), bits, index % per_word(bits), value)
        } else {
            packed_word(values, bits, word, slots)
        }),
    decreases slots,
{
    let n = per_word(bits);
    lemma_per_word(bits);
    let changed = values.update(index, value);
    if slots > 0 {
        lemma_packed_word_update(values, bits, index, value, word, slots - 1);
        let at = word * n + (slots - 1);
        let slot = index % n;
        vstd::arithmetic::div_mod::lemma_fundamental_div_mod(index, n);
        assert(n * (index / n) == (index / n) * n) by (nonlinear_arith);
        if word == index / n {
            lemma_slots(bits, slot);
            lemma_slots(bits, slots - 1);
            lemma_mask_of(bits);
            if slots - 1 == slot {
                assert(at == index);
                lemma_packed_low(values, bits, word, slot);
                lemma_field_cleared(
                    packed_word(values, bits, word, slot),
                    values[index],
                    mask_of(bits),
                    bits as u64,
                    (slot * bits) as u64,
                );
            } else if slots - 1 > slot {
                assert(at != index);
                assert(slot * bits + bits <= (slots - 1) * bits) by (nonlinear_arith)
                    requires
                        slot + 1 <= slots - 1,
                        bits >= 1,
                ;
                lemma_field_order(
                    packed_word(values, bits, word, slots - 1),
                    value,
                    entry(values, at),
                    mask_of(bits),
                    bits as u64,
                    (slot * bits) as u64,
                    ((slots - 1) * bits) as u64,
                );
            } else {
                assert(at != index);
            }
        } else {
            assert(at != index) by {
                if at == index {
                    vstd::arithmetic::div_mod::lemma_fundamental_div_mod_converse(
                        index,
                        n,
                        word,
                        slots - 1,
                    );
                }
            }
        }
    }
}

/// Changing one value of a packing writes that value into its field and
/// leaves every other bit of every word as it is.
pub proof fn lemma_packed_update(values: Seq<u64>, bits: usize, index: int, value: u64)
    requires
        1 <= bits <= 64,
        0 <= index < values.len(),
        values.len() <= usize::MAX,
        all_fit(values, bits),
        value <= mask_of(bits),
    ensures
        index / per_word(bits) < packed_words(values, bits).len(),
        packed_words(values.update(index, value), bits) == packed_words(values, bits).update(
            index / per_word(bits),
            written(
                packed_words(values, bits)[index / per_word(bits)],
                bits,
                index % per_word(bits),
                value,
            ),
        ),
{
    let n = per_word(bits);
    lemma_per_word(bits);
    lemma_index(values.len() as usize, bits, index);
    let before = packed_words(values, bits);
    let after = packed_words(values.update(index, value), bits);
    assert forall|word: int| 0 <= word < before.len() implies after[word] == (if word == index
        / n {
        written(before[word], bits, index % n, value)
    } else {
        before[word]
    }) by {
        lemma_packed_word_update(values, bits, index, value, word, n);
    }
    assert(after =~= before.update(index / n, written(before[index / n], bits, index % n, value)));
}

/// Values that are all zero are packed into words that are all zero.
pub proof fn lemma_packed_zero(values: Seq<u64>, bits: usize, word: int, slots: int)
    requires
        1 <= bits <= 64,
        0 <= slots <= per_word(bits),
        forall|i: int| 0 <= i < values.len() ==> values[i] == 0,
    ensures
        packed_word(values, bits, word, slots) == 0,
    decreases slots,
{
    if slots > 0 {
        lemma_packed_zero(values, bits, word, slots - 1);
        lemma_slots(bits, slots - 1);
        lemma_nothing(((slots - 1) * bits) as u64);
    }
}

impl PackedArray {
    /// Whether the fields make sense together: 1 to 64 bits per value, and
    /// as many words as the values take.
    pub closed spec fn wf(&self) -> bool {
        &&& 1 <= self.bits_per_value <= 64
        &&& self.bits@.len() == words_for(self.length, self.bits_per_value)
    }

    /// The number of values.
    pub closed spec fn spec_len(&self) -> usize {
        self.length
    }

    /// The number of bits of each value.
    pub closed spec fn spec_bits(&self) -> usize {
        self.bits_per_value
    }

    /// The words that hold the values.
    pub closed spec fn words(&self) -> Seq<u64> {
        self.bits@
    }

    /// The view is made of the words, field by field.
    pub proof fn lemma_view(&self)
        ensures
            self@.len() == self.spec_len(),
            forall|i: int|
                0 <= i < self.spec_len() ==> #[trigger] self@[i] == value_at(
                    self.words(),
                    self.spec_bits(),
                    i,
                ),
            self.wf() <==> 1 <= self.spec_bits() <= 64 && self.words().len() == words_for(
                self.spec_len(),
                self.spec_bits(),
            ),
    {
    }

    /// An array has no more words than values, but for the last word.
    pub proof fn lemma_words(&self)
        requires
            self.wf(),
        ensures
            self.words().len() <= self.spec_len() + 63,
    {
        lemma_per_word(self.bits_per_value);
        let n = per_word(self.bits_per_value);
        let x = self.length + n - 1;
        assert(x / n <= x) by (nonlinear_arith)
            requires
                n >= 1,
                x >= 0,
        ;
    }

    /// Every value fits the bits it has.
    pub proof fn lemma_values_fit(&self)
        requires
            self.wf(),
        ensures
            self@.len() == self.spec_len(),
            forall|i: int| 0 <= i < self@.len() ==> #[trigger] self@[i] <= mask_of(self.spec_bits()),
    {
        assert forall|i: int| 0 <= i < self@.len() implies #[trigger] self@[i] <= mask_of(
            self.spec_bits(),
        ) by {
            lemma_index(self.length, self.bits_per_value, i);
            lemma_slots(self.bits_per_value, i % per_word(self.bits_per_value));
            let w = self.bits@[i / per_word(self.bits_per_value)];
            let s = ((i % per_word(self.bits_per_value)) * self.bits_per_value) as u64;
            let m = mask_of(self.bits_per_value);
            assert((w >> s) & m <= m) by (bit_vector);
        }
    }

    /// Creates an array of `length` zeros of `bits_per_value` bits each.
    pub fn new(length: usize, bits_per_value: usize) -> (this: PackedArray)
        requires
            1 <= bits_per_value <= 64,
            length + 64 <= usize::MAX,
        ensures
            this.wf(),
            this.spec_len() == length,
            this.spec_bits() == bits_per_value,
            this@ == Seq::new(length as nat, |i: int| 0u64),
            this.words() == Seq::new(words_for(length, bits_per_value) as nat, |i: int| 0u64),
            this.words() == packed_words(this@, bits_per_value),
    {
        let mut this = PackedArray { length, bits_per_value, bits: Vec::new() };
        proof {
            lemma_per_word(bits_per_value);
        }
        let needed_u64s = this.needed_u64s();
        let mut bits: Vec<u64> = Vec::new();
        let mut i: usize = 0;
        while i < needed_u64s
            invariant
                i <= needed_u64s,
                bits@.len() == i,
                forall|j: int| 0 <= j < i ==> bits@[j] == 0u64,
            decreases needed_u64s - i,
        {
            bits.push(0u64);
            i += 1;
        }
        this.bits = bits;
        proof {
            assert forall|i: int| 0 <= i < length implies value_at(
                this.bits@,
                bits_per_value,
                i,
            ) == 0u64 by {
                lemma_index(length, bits_per_value, i);
                lemma_slots(bits_per_value, i % per_word(bits_per_value));
                let s = ((i % per_word(bits_per_value)) * bits_per_value) as u64;
                let m = mask_of(bits_per_value);
                assert((0u64 >> s) & m == 0) by (bit_vector);
            }
            assert(this@ =~= Seq::new(length as nat, |i: int| 0u64));
            assert(this.bits@ =~= Seq::new(
                words_for(length, bits_per_value) as nat,
                |i: int| 0u64,
            ));
            assert forall|word: int| 0 <= word < this.bits@.len() implies packed_word(
                this@,
                bits_per_value,
                word,
                per_word(bits_per_value),
            ) == 0 by {
                lemma_packed_zero(this@, bits_per_value, word, per_word(bits_per_value));
            }
            assert(this.bits@ =~= packed_words(this@, bits_per_value));
        }
        this
    }

    /// Takes `bits` as the words of `length` values: each value then has as
    /// many bits as the words leave it, rounded down.
    pub fn from_u64_vec(bits: Vec<u64>, length: usize) -> (this: PackedArray)
        requires
            length > 0,
            bits@.len() * 64 <= usize::MAX,
        ensures
            this.spec_len() == length,
            this.spec_bits() == (bits@.len() * 64) as int / (length as int),
            this.words() == bits@,
    {
        let bits_per_value = bits.len() * 64 / length;
        PackedArray { length, bits_per_value, bits }
    }

    /// The value at `index`, if the array is that long.
    #[inline]
    pub fn get(&self, index: usize) -> (value: Option<u64>)
        requires
            self.wf(),
        ensures
            index < self.spec_len() ==> value == Some(self@[index as int]),
            index >= self.spec_len() ==> value is None,
    {
        if index >= self.len() {
            return None;
        }
        let (u64_index, bit_index) = self.indexes(index);
        let word = self.bits[u64_index];
        Some((word >> bit_index) & self.mask())
    }

    /// Puts `value` at `index` and leaves every other value as it was.
    #[inline]
    pub fn set(&mut self, index: usize, value: u64)
        requires
            old(self).wf(),
            index < old(self).spec_len(),
            value <= mask_of(old(self).spec_bits()),
        ensures
            final(self).wf(),
            final(self).spec_len() == old(self).spec_len(),
            final(self).spec_bits() == old(self).spec_bits(),
            final(self)@ == old(self)@.update(index as int, value),
            (index as int) / per_word(old(self).spec_bits()) < old(self).words().len(),
            final(self).words() == old(self).words().update(
                (index as int) / per_word(old(self).spec_bits()),
                written(
                    old(self).words()[(index as int) / per_word(old(self).spec_bits())],
                    old(self).spec_bits(),
                    (index as int) % per_word(old(self).spec_bits()),
                    value,
                ),
            ),
            old(self).words() == packed_words(old(self)@, old(self).spec_bits()) ==> final(self).words() == packed_words(final(self)@, old(self).spec_bits()),
    {
        let mask = self.mask();
        let (u64_index, bit_index) = self.indexes(index);
        let word = self.bits[u64_index];
        let cleared = word & !(mask << bit_index);
        let changed = cleared | (value << bit_index);
        self.bits[u64_index] = changed;
        proof {
            let bits = self.bits_per_value;
            let n = per_word(bits);
            lemma_index(self.length, bits, index as int);
            lemma_slots(bits, (index as int) % n);
            lemma_mask_of(bits);
            assert forall|j: int| 0 <= j < self.length implies value_at(self.bits@, bits, j) == (
            if j == index {
                value
            } else {
                value_at(old(self).bits@, bits, j)
            }) by {
                lemma_index(self.length, bits, j);
                lemma_slots(bits, j % n);
                if j == index {
                    lemma_field_written(word, value, mask, bits as u64, bit_index as u64);
                } else if j / n == u64_index {
                    lemma_slots_apart(bits, j % n, (index as int) % n);
                    lemma_field_kept(
                        word,
                        value,
                        mask,
                        bits as u64,
                        bit_index as u64,
                        ((j % n) * bits) as u64,
                    );
                }
            }
            assert(self@ =~= old(self)@.update(index as int, value));
            assert(self.bits@ =~= old(self).bits@.update(
                (index as int) / n,
                written(old(self).bits@[(index as int) / n], bits, (index as int) % n, value),
            ));
            if old(self).bits@ == packed_words(old(self)@, bits) {
                old(self).lemma_values_fit();
                lemma_packed_update(old(self)@, bits, index as int, value);
            }
        }
    }

    /// Puts `value` at every index.
    pub fn fill(&mut self, value: u64)
        requires
            old(self).wf(),
            value <= mask_of(old(self).spec_bits()),
        ensures
            final(self).wf(),
            final(self).spec_len() == old(self).spec_len(),
            final(self).spec_bits() == old(self).spec_bits(),
            final(self)@ == Seq::new(old(self).spec_len() as nat, |i: int| value),
            final(self).words() == Seq::new(
                old(self).words().len(),
                |i: int| repeated(value, old(self).spec_bits(), per_word(old(self).spec_bits())),
            ),
    {
        let bits = self.bits_per_value;
        let count = self.values_per_u64();
        let mut x: u64 = 0;
        let mut i: usize = 0;
        proof {
            lemma_per_word(bits);
            assert(0u64 >> 0u64 == 0) by (bit_vector);
        }
        while i < count
            invariant
                i <= count,
                count == per_word(bits),
                1 <= bits <= 64,
                value <= mask_of(bits),
                i < count ==> x >> ((i * bits) as u64) == 0,
                x == repeated(value, bits, i as int),
                forall|j: int| 0 <= j < i ==> #[trigger] slot_of(x, j, bits) == value,
            decreases count - i,
        {
            proof {
                lemma_slots(bits, i as int);
                lemma_mask_of(bits);
                lemma_field_fresh(
                    x,
                    value,
                    mask_of(bits),
                    bits as u64,
                    (i * bits) as u64,
                    (i * bits + bits) as u64,
                );
                lemma_field_written(x, value, mask_of(bits), bits as u64, (i * bits) as u64);
                assert forall|j: int| 0 <= j < i implies #[trigger] slot_of(
                    x | (value << ((i * bits) as u64)),
                    j,
                    bits,
                ) == value by {
                    assert(slot_of(x, j, bits) == value);
                    lemma_slots(bits, j);
                    lemma_slots_apart(bits, j, i as int);
                    lemma_field_kept(
                        x,
                        value,
                        mask_of(bits),
                        bits as u64,
                        (i * bits) as u64,
                        (j * bits) as u64,
                    );
                }
                if i + 1 < count {
                    lemma_slots(bits, i + 1);
                    assert((i + 1) * bits == i * bits + bits) by (nonlinear_arith);
                }
            }
            x |= value << (i * bits);
            i += 1;
        }
        let mut k: usize = 0;
        while k < self.bits.len()
            invariant
                k <= self.bits@.len(),
                self.bits@.len() == old(self).bits@.len(),
                self.length == old(self).length,
                self.bits_per_value == old(self).bits_per_value,
                self.bits_per_value == bits,
                count == per_word(bits),
                x == repeated(value, bits, count as int),
                forall|j: int| 0 <= j < k ==> self.bits@[j] == x,
            decreases self.bits@.len() - k,
        {
            self.bits[k] = x;
            k += 1;
        }
        proof {
            assert forall|j: int| 0 <= j < self.length implies value_at(self.bits@, bits, j)
                == value by {
                lemma_index(self.length, bits, j);
            }
            assert(self@ =~= Seq::new(old(self).spec_len() as nat, |i: int| value));
            assert(self.bits@ =~= Seq::new(
                old(self).bits@.len(),
                |i: int| repeated(value, bits, per_word(bits)),
            ));
        }
    }

    /// The values of this array, in order.
    pub fn iter(&self) -> (values: Vec<u64>)
        requires
            self.wf(),
        ensures
            values@ == self@,
    {
        let values_per_u64 = self.values_per_u64();
        let bits_per_value = self.bits_per_value();
        let mask = self.mask();
        let length = self.len();
        let mut values: Vec<u64> = Vec::new();
        let mut i: usize = 0;
        while i < length
            invariant
                i <= length,
                self.wf(),
                length == self.length,
                bits_per_value == self.bits_per_value,
                values_per_u64 == per_word(bits_per_value),
                mask == mask_of(bits_per_value),
                values@.len() == i,
                forall|j: int| 0 <= j < i ==> values@[j] == value_at(self.bits@, bits_per_value, j),
            decreases length - i,
        {
            proof {
                lemma_index(length, bits_per_value, i as int);
                lemma_slots(bits_per_value, (i as int) % per_word(bits_per_value));
            }
            let word = self.bits[i / values_per_u64];
            let shift = (i % values_per_u64) * bits_per_value;
            values.push((word >> shift) & mask);
            i += 1;
        }
        assert(values@ =~= self@);
        values
    }

    /// An array with the same values and `new_bits_per_value` bits for each.
    pub fn resized(&mut self, new_bits_per_value: usize) -> (resized: PackedArray)
        requires
            old(self).wf(),
            1 <= new_bits_per_value <= 64,
            old(self).spec_len() + 64 <= usize::MAX,
            forall|i: int|
                0 <= i < old(self)@.len() ==> #[trigger] old(self)@[i] <= mask_of(
                    new_bits_per_value,
                ),
        ensures
            *final(self) == *old(self),
            resized.wf(),
            resized.spec_bits() == new_bits_per_value,
            resized.spec_len() == old(self).spec_len(),
            resized@ == old(self)@,
            resized.words() == packed_words(old(self)@, new_bits_per_value),
    {
        let values = self.iter();
        Self::from_iter(values, new_bits_per_value)
    }

    /// Packs `values` with `bits_per_value` bits for each.
    pub fn from_iter(values: Vec<u64>, bits_per_value: usize) -> (this: PackedArray)
        requires
            1 <= bits_per_value <= 64,
            values@.len() + 64 <= usize::MAX,
            forall|i: int| 0 <= i < values@.len() ==> #[trigger] values@[i] <= mask_of(bits_per_value),
        ensures
            this.wf(),
            this.spec_bits() == bits_per_value,
            this.spec_len() == values@.len(),
            this@ == values@,
            this.words() == packed_words(values@, bits_per_value),
    {
        let mut this = PackedArray::new(values.len(), bits_per_value);
        let mut i: usize = 0;
        while i < values.len()
            invariant
                i <= values@.len(),
                this.wf(),
                this.length == values@.len(),
                this.bits_per_value == bits_per_value,
                forall|j: int| 0 <= j < values@.len() ==> #[trigger] values@[j] <= mask_of(bits_per_value),
                forall|j: int| 0 <= j < i ==> this@[j] == values@[j],
                this.bits@ == packed_words(this@, bits_per_value),
            decreases values@.len() - i,
        {
            this.set(i, values[i]);
            i += 1;
        }
        assert(this@ =~= values@);
        this
    }

    /// The largest value that an entry can hold.
    #[inline]
    pub fn max_value(&self) -> (max: u64)
        requires
            1 <= self.spec_bits() <= 64,
        ensures
            max == mask_of(self.spec_bits()),
    {
        self.mask()
    }

    /// The number of values.
    #[inline]
    pub fn len(&self) -> (len: usize)
        ensures
            len == self.spec_len(),
            len == self@.len(),
    {
        self.length
    }

    /// Whether there is no value.
    #[inline]
    pub fn is_empty(&self) -> (empty: bool)
        ensures
            empty == (self.spec_len() == 0),
    {
        self.len() == 0
    }

    /// The number of bits of each value.
    #[inline]
    pub fn bits_per_value(&self) -> (bits: usize)
        ensures
            bits == self.spec_bits(),
    {
        self.bits_per_value
    }

    /// Takes `new_value` as the number of bits of each value; the words stay
    /// as they are.
    pub fn set_bits_per_value(&mut self, new_value: usize)
        ensures
            final(self).spec_bits() == new_value,
            final(self).spec_len() == old(self).spec_len(),
            final(self).words() == old(self).words(),
    {
        self.bits_per_value = new_value;
    }

    /// The words that hold the values.
    pub fn as_u64_slice(&self) -> (words: &[u64])
        ensures
            words@ == self.words(),
    {
        self.bits.as_slice()
    }

    /// The words that hold the values, open to change.
    pub fn as_u64_mut_vec(&mut self) -> (words: &mut Vec<u64>)
        ensures
            words@ == old(self).words(),
            final(self).words() == final(words)@,
            final(self).spec_len() == old(self).spec_len(),
            final(self).spec_bits() == old(self).spec_bits(),
    {
        &mut self.bits
    }

    fn mask(&self) -> (mask: u64)
        requires
            1 <= self.bits_per_value <= 64,
        ensures
            mask == mask_of(self.bits_per_value),
    {
        if self.bits_per_value >= 64 {
            0xffff_ffff_ffff_ffff
        } else {
            proof {
                lemma_mask(self.bits_per_value as u64);
            }
            (1u64 << self.bits_per_value) - 1
        }
    }

    fn needed_u64s(&self) -> (needed: usize)
        requires
            1 <= self.bits_per_value <= 64,
            self.length + 64 <= usize::MAX,
        ensures
            needed == words_for(self.length, self.bits_per_value),
    {
        proof {
            lemma_per_word(self.bits_per_value);
        }
        (self.length + self.values_per_u64() - 1) / self.values_per_u64()
    }

    fn values_per_u64(&self) -> (count: usize)
        requires
            1 <= self.bits_per_value <= 64,
        ensures
            count == per_word(self.bits_per_value),
            1 <= count <= 64,
    {
        proof {
            lemma_per_word(self.bits_per_value);
        }
        64 / self.bits_per_value
    }

    fn indexes(&self, index: usize) -> (at: (usize, usize))
        requires
            self.wf(),
            index < self.length,
        ensures
            at.0 == (index as int) / per_word(self.bits_per_value),
            at.0 < self.bits@.len(),
            at.1 == ((index as int) % per_word(self.bits_per_value)) * self.bits_per_value,
            at.1 + self.bits_per_value <= 64,
            at.1 < 64,
    {
        proof {
            lemma_index(self.length, self.bits_per_value, index as int);
            lemma_slots(self.bits_per_value, (index as int) % per_word(self.bits_per_value));
        }
        let u64_index = index / self.values_per_u64();
        let bit_index = (index % self.values_per_u64()) * self.bits_per_value;
        (u64_index, bit_index)
    }
}

} // verus!

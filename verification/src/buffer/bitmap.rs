//! Fixed-capacity slot bitmap.
//!
//! Every registry keeps its per-slot flags one bit per slot. The words live
//! inline, 64 slots to a word, and each scan walks whole words with a
//! trailing-zeros count.

use vstd::prelude::*;

verus! {

/// Every flag from `from` up to `to` is `value`.
pub open spec fn all_are(flags: Seq<bool>, value: bool, from: int, to: int) -> bool {
    forall|slot: int| from <= slot < to ==> #[trigger] flags[slot] == value
}

/// Whether `bit` of `word` is set.
pub open spec fn bit_at(word: u64, bit: u64) -> bool {
    (word >> bit) & 1u64 == 1u64
}

/// One flag per slot, `W` words of 64 slots each.
pub struct Bitmap<const W: usize> {
    words: [u64; W],
}

impl<const W: usize> View for Bitmap<W> {
    type V = Seq<bool>;

    /// The flags in slot order.
    closed spec fn view(&self) -> Seq<bool> {
        Seq::new(
            (W * 64) as nat,
            |slot: int| bit_at(self.words[slot / 64], (slot % 64) as u64),
        )
    }
}

impl<const W: usize> Bitmap<W> {
    /// Builds a bitmap with every flag clear.
    pub fn new() -> (bitmap: Self)
        ensures
            bitmap@ == Seq::new((W * 64) as nat, |slot: int| false),
    {
        let bitmap = Bitmap { words: [0u64; W] };
        proof {
            assert forall|slot: int| 0 <= slot < W * 64 implies !bitmap@[slot] by {
                lemma_zero_word((slot % 64) as u64);
            }
            assert(bitmap@ =~= Seq::new((W * 64) as nat, |slot: int| false));
        }
        bitmap
    }

    /// Whether `slot`'s flag is set.
    pub fn get(&self, slot: usize) -> (flag: bool)
        requires
            slot < self@.len(),
        ensures
            flag == self@[slot as int],
    {
        let bit: u64 = (slot % 64) as u64;
        proof {
            lemma_test_bit(self.words[slot as int / 64], bit);
        }
        self.words[slot / 64] & (1u64 << bit) != 0
    }

    /// Sets `slot`'s flag.
    pub fn set(&mut self, slot: usize)
        requires
            slot < old(self)@.len(),
        ensures
            final(self)@ == old(self)@.update(slot as int, true),
    {
        let word: usize = slot / 64;
        let bit: u64 = (slot % 64) as u64;
        let before: u64 = self.words[word];
        self.words[word] = before | (1u64 << bit);
        proof {
            assert forall|other: int| 0 <= other < W * 64 implies self@[other]
                == old(self)@.update(slot as int, true)[other] by {
                lemma_set_bit(before, bit, (other % 64) as u64);
            }
            assert(self@ =~= old(self)@.update(slot as int, true));
        }
    }

    /// Clears `slot`'s flag.
    pub fn clear(&mut self, slot: usize)
        requires
            slot < old(self)@.len(),
        ensures
            final(self)@ == old(self)@.update(slot as int, false),
    {
        let word: usize = slot / 64;
        let bit: u64 = (slot % 64) as u64;
        let before: u64 = self.words[word];
        self.words[word] = before & !(1u64 << bit);
        proof {
            assert forall|other: int| 0 <= other < W * 64 implies self@[other]
                == old(self)@.update(slot as int, false)[other] by {
                lemma_clear_bit(before, bit, (other % 64) as u64);
            }
            assert(self@ =~= old(self)@.update(slot as int, false));
        }
    }

    /// First clear flag below `limit`, by inverted-word scan.
    pub fn first_clear(&self, limit: usize) -> (found: Option<usize>)
        requires
            limit <= self@.len(),
        ensures
            match found {
                Some(slot) => {
                    &&& slot < limit
                    &&& !self@[slot as int]
                    &&& forall|other: int| 0 <= other < slot ==> self@[other]
                },
                None => forall|other: int| 0 <= other < limit ==> self@[other],
            },
            all_are(
                self@,
                true,
                0,
                match found {
                    Some(slot) => slot as int,
                    None => limit as int,
                },
            ),
    {
        let last_word: usize = limit / 64;
        let last_bit: usize = limit % 64;
        let mut index: usize = 0;
        while index < W
            invariant
                index <= W,
                limit <= self@.len(),
                self@.len() == W * 64,
                last_word == limit / 64,
                last_bit == limit % 64,
                forall|other: int| 0 <= other < index * 64 && other < limit ==> self@[other],
            decreases W - index,
        {
            let word: u64 = self.words[index];
            let mask: u64 = if index < last_word {
                u64::MAX
            } else if index == last_word && last_bit > 0 {
                proof {
                    lemma_mask_no_underflow(last_bit as u64);
                }
                (1u64 << (last_bit as u64)) - 1
            } else {
                return None;
            };
            let available: u64 = !word & mask;
            let ghost width: u64 = if index < last_word { 64u64 } else { last_bit as u64 };
            proof {
                vstd::std_specs::bits::axiom_u64_trailing_zeros(available);
                assert forall|bit: u64| bit < 64 implies (#[trigger] bit_at(available, bit)
                    == (!bit_at(word, bit) && bit < width)) by {
                    if index < last_word {
                        lemma_available_full(word, bit);
                    } else {
                        lemma_available_partial(word, last_bit as u64, bit);
                    }
                }
            }
            if available != 0 {
                let bit: usize = available.trailing_zeros() as usize;
                let slot: usize = index * 64 + bit;
                proof {
                    assert(bit_at(available, bit as u64));
                    assert forall|other: int| 0 <= other < slot implies self@[other] by {
                        if other >= index * 64 {
                            let low: u64 = (other % 64) as u64;
                            assert(!bit_at(available, low));
                        }
                    }
                }
                return Some(slot);
            }
            proof {
                assert forall|other: int|
                    0 <= other < (index + 1) * 64 && other < limit implies self@[other] by {
                    if other >= index * 64 {
                        let low: u64 = (other % 64) as u64;
                        assert(!bit_at(available, low));
                    }
                }
            }
            index = index + 1;
        }
        None
    }

    /// First set flag at or past `from`, by masked-word scan.
    pub fn next_set(&self, from: usize) -> (found: Option<usize>)
        requires
            from <= self@.len() <= usize::MAX,
        ensures
            match found {
                Some(slot) => {
                    &&& from <= slot < self@.len()
                    &&& self@[slot as int]
                    &&& forall|other: int| from <= other < slot ==> !self@[other]
                },
                None => forall|other: int| from <= other < self@.len() ==> !self@[other],
            },
            all_are(
                self@,
                false,
                from as int,
                match found {
                    Some(slot) => slot as int,
                    None => self@.len() as int,
                },
            ),
    {
        let mut index: usize = from / 64;
        while index < W
            invariant
                from / 64 <= index <= W,
                from <= self@.len() <= usize::MAX,
                self@.len() == W * 64,
                forall|other: int| from <= other < index * 64 ==> !self@[other],
            decreases W - index,
        {
            let word: u64 = self.words[index];
            let low: u64 = if index == from / 64 {
                (from % 64) as u64
            } else {
                0
            };
            let pending: u64 = (word >> low) << low;
            proof {
                vstd::std_specs::bits::axiom_u64_trailing_zeros(pending);
                assert forall|bit: u64| bit < 64 implies (#[trigger] bit_at(pending, bit) == (
                bit_at(word, bit) && bit >= low)) by {
                    lemma_drop_low(word, low, bit);
                }
            }
            if pending != 0 {
                let bit: usize = pending.trailing_zeros() as usize;
                let slot: usize = index * 64 + bit;
                proof {
                    assert(bit_at(pending, bit as u64));
                    assert forall|other: int| from <= other < slot implies !self@[other] by {
                        if other >= index * 64 {
                            let position: u64 = (other % 64) as u64;
                            assert(!bit_at(pending, position));
                        }
                    }
                }
                return Some(slot);
            }
            proof {
                assert forall|other: int| from <= other < (index + 1) * 64 implies !self@[other] by {
                    if other >= index * 64 {
                        let position: u64 = (other % 64) as u64;
                        assert(!bit_at(pending, position));
                    }
                }
            }
            index = index + 1;
        }
        None
    }
}

/// A bitmap of `W` words holds 64 flags per word.
pub broadcast proof fn lemma_bitmap_len<const W: usize>(bitmap: &Bitmap<W>)
    ensures
        #[trigger] bitmap@.len() == W * 64,
{
}

proof fn lemma_zero_word(bit: u64)
    ensures
        !bit_at(0, bit),
{
    assert((0u64 >> bit) & 1u64 == 0u64) by (bit_vector);
}

proof fn lemma_test_bit(word: u64, bit: u64)
    by (bit_vector)
    requires
        bit < 64,
    ensures
        (word & (1u64 << bit) != 0) == bit_at(word, bit),
{
}

proof fn lemma_set_bit(word: u64, bit: u64, other: u64)
    by (bit_vector)
    requires
        bit < 64,
        other < 64,
    ensures
        bit_at(word | (1u64 << bit), other) == (other == bit || bit_at(word, other)),
{
}

proof fn lemma_clear_bit(word: u64, bit: u64, other: u64)
    by (bit_vector)
    requires
        bit < 64,
        other < 64,
    ensures
        bit_at(word & !(1u64 << bit), other) == (other != bit && bit_at(word, other)),
{
}

proof fn lemma_mask_no_underflow(width: u64)
    by (bit_vector)
    requires
        width < 64,
    ensures
        1u64 << width >= 1,
{
}

proof fn lemma_available_full(word: u64, bit: u64)
    by (bit_vector)
    requires
        bit < 64,
    ensures
        bit_at(!word & 0xFFFF_FFFF_FFFF_FFFFu64, bit) == !bit_at(word, bit),
{
}

proof fn lemma_available_partial(word: u64, width: u64, bit: u64)
    by (bit_vector)
    requires
        width < 64,
        bit < 64,
    ensures
        bit_at(!word & (((1u64 << width) - 1) as u64), bit) == (!bit_at(word, bit) && bit < width),
{
}

proof fn lemma_drop_low(word: u64, low: u64, bit: u64)
    by (bit_vector)
    requires
        low < 64,
        bit < 64,
    ensures
        bit_at((word >> low) << low, bit) == (bit_at(word, bit) && bit >= low),
{
}

} // verus!

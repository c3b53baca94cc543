use smallvec::SmallVec;
use vstd::prelude::*;

verus! {

/// The words of a bitmask, held in smallvec's `SmallVec` so that a few of them
/// stay inline; what a value holds is read through `mask_words`.
#[verifier::external_body]
#[derive(Debug)]
pub struct MaskWords {
    words: SmallVec<[u16; 8]>,
}

/// The words that a `MaskWords` holds, in order.
pub uninterp spec fn mask_words(v: MaskWords) -> Seq<u16>;

impl Clone for MaskWords {
    /// Relies on `SmallVec`'s `Clone`: a copy holding the same words.
    #[verifier::external_body]
    fn clone(&self) -> (r: Self)
        ensures
            mask_words(r) == mask_words(*self),
    {
        MaskWords { words: self.words.clone() }
    }
}

/// Relies on `SmallVec::from_elem`: `n` copies of `elem`.
#[verifier::external_body]
fn words_from_elem(elem: u16, n: usize) -> (r: MaskWords)
    ensures
        mask_words(r) == Seq::new(n as nat, |_i: int| elem),
{
    MaskWords { words: SmallVec::from_elem(elem, n) }
}

/// Relies on `SmallVec::len`: the number of words held.
#[verifier::external_body]
fn words_len(v: &MaskWords) -> (r: usize)
    ensures
        r == mask_words(*v).len(),
{
    v.words.len()
}

/// Relies on `SmallVec`'s `Index`: the word at a position.
#[verifier::external_body]
fn words_get(v: &MaskWords, i: usize) -> (r: u16)
    requires
        i < mask_words(*v).len(),
    ensures
        r == mask_words(*v)[i as int],
{
    v.words[i]
}

/// Relies on `SmallVec`'s `IndexMut`: replaces the word at a position.
#[verifier::external_body]
fn words_set(v: &mut MaskWords, i: usize, w: u16)
    requires
        i < mask_words(*old(v)).len(),
    ensures
        mask_words(*final(v)) == mask_words(*old(v)).update(i as int, w),
{
    v.words[i] = w;
}

/// Relies on `<[u16]>::fill` through `SmallVec`'s `DerefMut`: every word becomes `w`.
#[verifier::external_body]
fn words_fill(v: &mut MaskWords, w: u16)
    ensures
        mask_words(*final(v)) == Seq::new(mask_words(*old(v)).len(), |_i: int| w),
{
    v.words.fill(w);
}

/// Bit `j` (counted from the least significant) of a word.
pub open spec fn word_bit(w: u16, j: int) -> bool {
    (w >> (j as u16)) & 1u16 == 1u16
}

pub proof fn lemma_word_bit_zero(j: int)
    requires
        0 <= j < 16,
    ensures
        !word_bit(0, j),
{
    let jj = j as u16;
    assert((0u16 >> jj) & 1u16 == 0u16) by (bit_vector);
}

pub proof fn lemma_word_bit_full(j: int)
    requires
        0 <= j < 16,
    ensures
        word_bit(0xffffu16, j),
{
    let jj = j as u16;
    assert((0xffffu16 >> jj) & 1u16 == 1u16) by (bit_vector)
        requires
            jj < 16,
    ;
}

proof fn lemma_word_bit_or(w: u16, b: u16, j: int)
    requires
        b < 16,
        0 <= j < 16,
    ensures
        word_bit(w | (1u16 << b), j) == (word_bit(w, j) || j == b),
{
    let jj = j as u16;
    assert((((w | (1u16 << b)) >> jj) & 1u16 == 1u16) == (((w >> jj) & 1u16 == 1u16) || jj == b))
        by (bit_vector)
        requires
            b < 16,
            jj < 16,
    ;
}

proof fn lemma_word_bit_and(w: u16, b: u16)
    requires
        b < 16,
    ensures
        ((w & (1u16 << b)) != 0) == word_bit(w, b as int),
{
    assert(((w & (1u16 << b)) != 0) == ((w >> b) & 1u16 == 1u16)) by (bit_vector)
        requires
            b < 16,
    ;
}

/// Shifting right twice is shifting by the sum; past the word's width nothing is left.
proof fn lemma_shr_shr(w: u16, a: u16, b: u16)
    requires
        a < 16,
        b <= 16,
    ensures
        (w >> a) >> b == if a + b < 16 {
            w >> ((a + b) as u16)
        } else {
            0u16
        },
{
    assert((w >> a) >> b == if a + b < 16 {
        w >> ((a + b) as u16)
    } else {
        0u16
    }) by (bit_vector)
        requires
            a < 16,
            b <= 16,
    ;
}

/// No bit at or above `t` is set in a word that is zero once shifted right by `t`.
proof fn lemma_shr_zero_bits(w: u16, t: u16, j: u16)
    requires
        t <= j < 16,
        w >> t == 0,
    ensures
        !word_bit(w, j as int),
{
    assert((w >> j) & 1u16 == 0u16) by (bit_vector)
        requires
            t <= j < 16,
            w >> t == 0,
    ;
}

/// A word shifted right by `t` has its top `t` bits clear.
proof fn lemma_shr_top_clear(w: u16, t: u16)
    requires
        0 < t < 16,
    ensures
        ((w >> t) >> ((16 - t) as u16)) & 1u16 == 0u16,
{
    assert(((w >> t) >> ((16 - t) as u16)) & 1u16 == 0u16) by (bit_vector)
        requires
            0 < t < 16,
    ;
}

proof fn lemma_div16(c: int, y: int)
    requires
        16 * c <= y < 16 * c + 16,
    ensures
        y / 16 == c,
        y % 16 == y - 16 * c,
{
    assert(y / 16 == c && y % 16 == y - 16 * c) by (nonlinear_arith)
        requires
            16 * c <= y < 16 * c + 16,
    ;
}

/// The trailing ones of `w >> t0` are set bits `[t0, t0 + count)` of `w`, which
/// end inside the word, followed by a clear bit unless the word ends there.
proof fn lemma_ones_run(w: u16, t0: u16)
    requires
        t0 < 16,
    ensures
        ({
            let count = vstd::std_specs::bits::u16_trailing_ones(w >> t0) as int;
            &&& t0 + count <= 16
            &&& forall|j: int| t0 <= j < t0 + count ==> #[trigger] word_bit(w, j)
            &&& t0 + count < 16 ==> !word_bit(w, t0 + count)
        }),
{
    let chunk = w >> t0;
    let count = vstd::std_specs::bits::u16_trailing_ones(chunk);
    vstd::std_specs::bits::axiom_u16_trailing_ones(chunk);
    if t0 > 0 && count > 16 - t0 {
        lemma_shr_top_clear(w, t0);
        let jj = (16 - t0) as u16;
        assert((chunk >> jj) & 1u16 == 1u16);
    }
    assert forall|j: int| t0 <= j < t0 + count implies #[trigger] word_bit(w, j) by {
        let jj = (j - t0) as u16;
        assert((chunk >> jj) & 1u16 == 1u16);
        lemma_shr_shr(w, t0, jj);
    }
    if t0 + count < 16 {
        let jj = count as u16;
        assert((chunk >> jj) & 1u16 == 0u16);
        lemma_shr_shr(w, t0, jj);
    }
}

/// The trailing zeros of `w >> t1` are clear bits of `w` from `t1` on; there is at
/// least one when bit `t1` is clear.
proof fn lemma_zeros_run(w: u16, t1: u16)
    requires
        t1 < 16,
    ensures
        ({
            let z = vstd::std_specs::bits::u16_trailing_zeros(w >> t1) as int;
            &&& z <= 16
            &&& !word_bit(w, t1 as int) ==> z >= 1
            &&& forall|j: int| t1 <= j < t1 + z && j < 16 ==> !#[trigger] word_bit(w, j)
        }),
{
    let chunk = w >> t1;
    let z = vstd::std_specs::bits::u16_trailing_zeros(chunk);
    vstd::std_specs::bits::axiom_u16_trailing_zeros(chunk);
    lemma_shr_shr(w, t1, 0);
    if !word_bit(w, t1 as int) && z == 0 {
        assert((chunk >> 0u16) & 1u16 == 1u16);
        assert(chunk >> 0u16 == chunk) by (bit_vector);
    }
    assert forall|j: int| t1 <= j < t1 + z && j < 16 implies !#[trigger] word_bit(w, j) by {
        let jj = (j - t1) as u16;
        assert((chunk >> jj) & 1u16 == 0u16);
        lemma_shr_shr(w, t1, jj);
    }
}

proof fn lemma_shape_push(r: Seq<(usize, usize)>, x: (usize, usize), n: int)
    requires
        runs_shape(r, n),
        x.0 < x.1 <= n,
        x.0 / 16 == (x.1 - 1) / 16,
        r.len() > 0 ==> r.last().1 <= x.0 && (r.last().1 == x.0 ==> x.0 % 16 == 0),
    ensures
        runs_shape(r.push(x), n),
{
    let r2 = r.push(x);
    assert forall|k: int| 0 <= k < r2.len() implies (#[trigger] r2[k]).0 < r2[k].1 <= n && r2[k].0 / 16
        == (r2[k].1 - 1) / 16 by {
        if k < r.len() {
            assert(r2[k] == r[k]);
        }
    }
    assert forall|k: int| 0 < k < r2.len() implies r2[k - 1].1 <= (#[trigger] r2[k]).0 && (r2[k - 1].1
        == r2[k].0 ==> r2[k].0 % 16 == 0) by {
        if k < r.len() {
            assert(r2[k] == r[k]);
            assert(r2[k - 1] == r[k - 1]);
        } else {
            assert(r2[k - 1] == r.last());
        }
    }
}

/// Whether some range of `r` holds granule `g`.
pub open spec fn covered(r: Seq<(usize, usize)>, g: int) -> bool {
    exists|k: int| 0 <= k < r.len() && (#[trigger] r[k]).0 <= g < r[k].1
}

/// Ranges that are non-empty and end by `n`, each within one word of sixteen
/// granules, in increasing order, where two meet only at a word boundary.
pub open spec fn runs_shape(r: Seq<(usize, usize)>, n: int) -> bool {
    &&& forall|k: int|
        0 <= k < r.len() ==> (#[trigger] r[k]).0 < r[k].1 <= n && r[k].0 / 16 == (r[k].1 - 1) / 16
    &&& forall|k: int|
        0 < k < r.len() ==> r[k - 1].1 <= (#[trigger] r[k]).0 && (r[k - 1].1 == r[k].0 ==> r[k].0 % 16
            == 0)
}

pub proof fn lemma_covered_push(r: Seq<(usize, usize)>, x: (usize, usize), g: int)
    ensures
        covered(r.push(x), g) == (covered(r, g) || x.0 <= g < x.1),
{
    let r2 = r.push(x);
    if covered(r, g) {
        let k = choose|k: int| 0 <= k < r.len() && (#[trigger] r[k]).0 <= g < r[k].1;
        assert(r2[k] == r[k]);
    }
    if x.0 <= g < x.1 {
        assert(r2[r.len() as int] == x);
    }
    if covered(r2, g) {
        let k = choose|k: int| 0 <= k < r2.len() && (#[trigger] r2[k]).0 <= g < r2[k].1;
        if k < r.len() {
            assert(r[k] == r2[k]);
        }
    }
}

/// One bit per granule of a buffer, packed sixteen to a word, plus a flag that
/// says whether any bit is set, so that an all-clear mask is recognised at once.
#[derive(Debug)]
pub struct UpdateBitmask {
    pub bits: MaskWords,
    pub any: bool,
}

impl Clone for UpdateBitmask {
    fn clone(&self) -> (r: Self)
        ensures
            r.words() == self.words(),
            r.any == self.any,
    {
        UpdateBitmask { bits: self.bits.clone(), any: self.any }
    }
}

impl Default for UpdateBitmask {
    /// A mask with no words.
    fn default() -> (r: Self)
        ensures
            r.words().len() == 0,
            !r.any,
            r.inv(),
    {
        UpdateBitmask::new(0, false)
    }
}

impl UpdateBitmask {
    pub open spec fn words(&self) -> Seq<u16> {
        mask_words(self.bits)
    }

    /// The number of bits the mask holds.
    pub open spec fn capacity(&self) -> int {
        16 * self.words().len() as int
    }

    /// Bit `i`: word `i / 16`, bit `i % 16` of it.
    pub open spec fn bit(&self, i: int) -> bool {
        word_bit(self.words()[i / 16], i % 16)
    }

    pub open spec fn some_bit_set(&self) -> bool {
        exists|i: int| 0 <= i < self.capacity() && #[trigger] self.bit(i)
    }

    /// The flag is set exactly when some bit is.
    pub open spec fn inv(&self) -> bool {
        self.any == self.some_bit_set()
    }

    /// A mask for `size` granules, rounded up to whole words, with every bit
    /// set or every bit clear.
    pub fn new(size: usize, default: bool) -> (r: Self)
        requires
            size + 15 <= usize::MAX,
        ensures
            r.words().len() == (size + 15) / 16,
            r.inv(),
            forall|i: int| 0 <= i < r.capacity() ==> #[trigger] r.bit(i) == default,
    {
        let default_val: u16 = if default { u16::MAX } else { 0 };
        let n: usize = (size + 15) / 16;
        let bits = words_from_elem(default_val, n);
        let r = UpdateBitmask { bits, any: default && n > 0 };
        assert forall|i: int| 0 <= i < r.capacity() implies #[trigger] r.bit(i) == default by {
            if default {
                lemma_word_bit_full(i % 16);
            } else {
                lemma_word_bit_zero(i % 16);
            }
        }
        if default && n > 0 {
            assert(r.bit(0));
        }
        r
    }

    /// Clears every bit.
    pub fn reset(&mut self)
        ensures
            final(self).words().len() == old(self).words().len(),
            final(self).inv(),
            !final(self).any,
            forall|i: int| 0 <= i < final(self).capacity() ==> !#[trigger] final(self).bit(i),
    {
        words_fill(&mut self.bits, 0);
        self.any = false;
        assert forall|i: int| 0 <= i < self.capacity() implies !#[trigger] self.bit(i) by {
            lemma_word_bit_zero(i % 16);
        }
    }

    /// Sets every bit.
    pub fn set_all(&mut self)
        ensures
            final(self).words().len() == old(self).words().len(),
            final(self).inv(),
            forall|i: int| 0 <= i < final(self).capacity() ==> #[trigger] final(self).bit(i),
    {
        words_fill(&mut self.bits, u16::MAX);
        self.any = words_len(&self.bits) > 0;
        assert forall|i: int| 0 <= i < self.capacity() implies #[trigger] self.bit(i) by {
            lemma_word_bit_full(i % 16);
        }
        if self.any {
            assert(self.bit(0));
        }
    }

    /// Whether `r` lists exactly the runs of set bits among the first `n`, each
    /// run cut where a word ends.
    pub open spec fn reports(&self, n: int, r: Seq<(usize, usize)>) -> bool {
        &&& runs_shape(r, n)
        &&& forall|g: int| 0 <= g < n ==> (covered(r, g) <==> #[trigger] self.bit(g))
    }

    proof fn lemma_bit_in_word(&self, c: int, j: int)
        requires
            0 <= c,
            0 <= j < 16,
        ensures
            self.bit(16 * c + j) == word_bit(self.words()[c], j),
    {
        lemma_div16(c, 16 * c + j);
    }

    /// `r` covers exactly the set bits below `limit` among the first `n`.
    pub open spec fn covers_exactly(&self, r: Seq<(usize, usize)>, n: int, limit: int) -> bool {
        forall|g: int|
            #![trigger covered(r, g)]
            #![trigger self.bit(g)]
            0 <= g < n ==> (covered(r, g) <==> (g < limit && self.bit(g)))
    }

    /// A run of set bits `[t0, t0 + count)` of word `c`, appended as a range cut at `n`.
    proof fn lemma_cover_ones(
        &self,
        r: Seq<(usize, usize)>,
        n: int,
        c: int,
        t0: int,
        count: int,
        x: (usize, usize),
    )
        requires
            0 <= c < self.words().len(),
            0 <= t0,
            0 <= count,
            t0 + count <= 16,
            self.covers_exactly(r, n, 16 * c + t0),
            forall|j: int| t0 <= j < t0 + count ==> #[trigger] word_bit(self.words()[c], j),
            x.0 == 16 * c + t0,
            x.1 == if 16 * c + t0 + count < n {
                16 * c + t0 + count
            } else {
                n
            },
        ensures
            self.covers_exactly(if x.0 < x.1 {
                r.push(x)
            } else {
                r
            }, n, 16 * c + t0 + count),
    {
        let r2 = if x.0 < x.1 {
            r.push(x)
        } else {
            r
        };
        assert forall|g: int|
            #![trigger covered(r2, g)]
            #![trigger self.bit(g)]
            0 <= g < n implies (covered(r2, g) <==> (g < 16 * c + t0 + count && self.bit(g))) by {
            assert(covered(r, g) <==> (g < 16 * c + t0 && self.bit(g)));
            if x.0 < x.1 {
                lemma_covered_push(r, x, g);
            }
            if 16 * c + t0 <= g < 16 * c + t0 + count {
                self.lemma_bit_in_word(c, g - 16 * c);
                assert(16 * c + (g - 16 * c) == g);
                assert(word_bit(self.words()[c], g - 16 * c));
            }
        }
        assert(self.covers_exactly(r2, n, 16 * c + t0 + count));
    }

    /// Clear bits `[t1, t2)` of word `c` (those below sixteen) move the limit on.
    proof fn lemma_cover_zeros(&self, r: Seq<(usize, usize)>, n: int, c: int, t1: int, t2: int)
        requires
            0 <= c < self.words().len(),
            0 <= t1 <= 16,
            t1 <= t2,
            self.covers_exactly(r, n, 16 * c + t1),
            forall|j: int| t1 <= j < t2 && j < 16 ==> !#[trigger] word_bit(self.words()[c], j),
        ensures
            self.covers_exactly(r, n, 16 * c + if t2 < 16 {
                t2
            } else {
                16
            }),
    {
        let lim = 16 * c + if t2 < 16 {
            t2
        } else {
            16
        };
        assert forall|g: int| 0 <= g < n implies (covered(r, g) <==> (g < lim && #[trigger] self.bit(
            g,
        ))) by {
            assert(covered(r, g) <==> (g < 16 * c + t1 && self.bit(g)));
            if 16 * c + t1 <= g < lim {
                self.lemma_bit_in_word(c, g - 16 * c);
                assert(16 * c + (g - 16 * c) == g);
                assert(!word_bit(self.words()[c], g - 16 * c));
            }
        }
    }

    /// The runs of set bits among the first `n`, in order, as `[start, end)`
    /// ranges; a run that goes on into the next word is cut where the word ends.
    #[verifier::rlimit(60)]
    pub fn runs(&self, n: usize) -> (r: Vec<(usize, usize)>)
        requires
            n <= self.capacity(),
            self.capacity() <= usize::MAX,
        ensures
            self.reports(n as int, r@),
    {
        let mut out: Vec<(usize, usize)> = Vec::new();
        let n_words = words_len(&self.bits);
        let mut c: usize = 0;
        while c < n_words
            invariant
                n_words == self.words().len(),
                c <= n_words,
                n <= self.capacity(),
                self.capacity() <= usize::MAX,
                runs_shape(out@, n as int),
                self.covers_exactly(out@, n as int, 16 * c),
                out@.len() > 0 ==> out@.last().1 <= 16 * c,
            decreases n_words - c,
        {
            let ci: usize = c * 16;
            let w = words_get(&self.bits, c);
            let mut chunk: u16 = w;
            let mut total: usize = 0;
            assert(w >> 0u16 == w) by (bit_vector);
            while chunk != 0
                invariant
                    n_words == self.words().len(),
                    c < n_words,
                    ci == 16 * c,
                    w == self.words()[c as int],
                    n <= self.capacity(),
                    self.capacity() <= usize::MAX,
                    total <= 32,
                    total < 16 ==> chunk == w >> (total as u16),
                    total >= 16 ==> chunk == 0,
                    runs_shape(out@, n as int),
                    self.covers_exactly(out@, n as int, ci + if total < 16 {
                        total as int
                    } else {
                        16
                    }),
                    out@.len() > 0 ==> out@.last().1 <= ci + 16,
                    out@.len() > 0 ==> (out@.last().1 < ci + total || (total == 0 && out@.last().1
                        <= ci)),
                decreases 32 - total,
            {
                let ghost t0 = total;
                let count = chunk.trailing_ones() as usize;
                proof {
                    lemma_ones_run(w, t0 as u16);
                }
                let start = ci + total;
                let end_run = ci + total + count;
                let end = if end_run < n {
                    end_run
                } else {
                    n
                };
                proof {
                    self.lemma_cover_ones(out@, n as int, c as int, t0 as int, count as int, (start, end));
                }
                if start < end {
                    proof {
                        lemma_div16(c as int, start as int);
                        lemma_div16(c as int, end - 1);
                        lemma_shape_push(out@, (start, end), n as int);
                    }
                    out.push((start, end));
                }
                total = total + count;
                chunk = if count >= 16 {
                    0
                } else {
                    chunk >> (count as u16)
                };
                proof {
                    if count < 16 {
                        lemma_shr_shr(w, t0 as u16, count as u16);
                    }
                }
                let ghost t1 = total;
                let zeros = chunk.trailing_zeros() as usize;
                proof {
                    if t1 < 16 {
                        lemma_zeros_run(w, t1 as u16);
                    } else {
                        vstd::std_specs::bits::axiom_u16_trailing_zeros(chunk);
                    }
                    self.lemma_cover_zeros(out@, n as int, c as int, t1 as int, t1 + zeros);
                }
                chunk = if zeros >= 16 {
                    0
                } else {
                    chunk >> (zeros as u16)
                };
                total = total + zeros;
                proof {
                    if t1 < 16 && zeros < 16 {
                        lemma_shr_shr(w, t1 as u16, zeros as u16);
                    }
                }
            }
            proof {
                if total < 16 {
                    assert forall|j: int| total <= j < 16 && j < 16 implies !#[trigger] word_bit(w, j) by {
                        lemma_shr_zero_bits(w, total as u16, j as u16);
                    }
                    self.lemma_cover_zeros(out@, n as int, c as int, total as int, 16);
                }
            }
            c += 1;
        }
        out
    }

    pub fn any_set(&self) -> (r: bool)
        ensures
            r == self.any,
    {
        self.any
    }

    pub fn get(&self, index: usize) -> (r: bool)
        requires
            index < self.capacity(),
        ensures
            r == self.bit(index as int),
    {
        let bit_index = (index % 16) as u16;
        let word = words_get(&self.bits, index / 16);
        proof {
            lemma_word_bit_and(word, bit_index);
        }
        (word & (1u16 << bit_index)) != 0
    }

    /// Sets one bit.
    pub fn set_one(&mut self, index: usize)
        requires
            old(self).inv(),
            index < old(self).capacity(),
        ensures
            final(self).words().len() == old(self).words().len(),
            final(self).inv(),
            final(self).any,
            forall|i: int|
                0 <= i < final(self).capacity() ==> #[trigger] final(self).bit(i) == (old(self).bit(i)
                    || i == index),
    {
        let bit_index = (index % 16) as u16;
        let word_index = index / 16;
        let word = words_get(&self.bits, word_index);
        words_set(&mut self.bits, word_index, word | (1u16 << bit_index));
        self.any = true;
        assert forall|i: int| 0 <= i < self.capacity() implies #[trigger] self.bit(i) == (old(self).bit(
            i,
        ) || i == index) by {
            if i / 16 == word_index as int {
                lemma_word_bit_or(word, bit_index, i % 16);
            }
        }
        assert(self.bit(index as int));
    }

    /// Sets every bit in `range`.
    pub fn set(&mut self, range: std::ops::Range<usize>)
        requires
            old(self).inv(),
            range.start < range.end ==> range.end <= old(self).capacity(),
        ensures
            final(self).words().len() == old(self).words().len(),
            final(self).inv(),
            final(self).any == (old(self).any || range.start < range.end),
            forall|i: int|
                0 <= i < final(self).capacity() ==> #[trigger] final(self).bit(i) == (old(self).bit(i)
                    || range.start <= i < range.end),
    {
        let mut i: usize = range.start;
        while i < range.end
            invariant
                range.start <= i,
                range.start < range.end ==> i <= range.end,
                range.start >= range.end ==> i == range.start,
                range.start < range.end ==> range.end <= old(self).capacity(),
                self.words().len() == old(self).words().len(),
                self.inv(),
                self.any == (old(self).any || (range.start < range.end && range.start < i)),
                forall|j: int|
                    0 <= j < self.capacity() ==> #[trigger] self.bit(j) == (old(self).bit(j)
                        || range.start <= j < i),
            decreases range.end - i,
        {
            self.set_one(i);
            i += 1;
        }
        assert forall|j: int| 0 <= j < self.capacity() implies #[trigger] self.bit(j) == (old(self).bit(j)
            || range.start <= j < range.end) by {
            if range.start < range.end {
                assert(i == range.end);
            }
        }
    }
}

} // verus!

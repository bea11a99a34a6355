use vstd::prelude::*;
use vstd::wrapping::usize_specs;
use vstd::string::StrSliceExecFns;

verus! {

/// `b - n`: the distance from `n` up to the bound `b`, wrapping.
pub fn neg_mod(n: usize, b: usize) -> (r: usize)
    ensures
        r == usize_specs::wrapping_sub(b, n),
        n <= b ==> r == b - n,
{
    b.wrapping_sub(n)
}

// ---------------------------------------------------------------------------
// Pseudo-random numbers
// ---------------------------------------------------------------------------

/// One step of the 16-bit xorshift generator (shifts 7, 9, 13).
pub open spec fn xorshift16(s: u16) -> u16 {
    let a: u16 = s ^ (s >> 7u16);
    let b: u16 = a ^ (a << 9u16);
    b ^ (b >> 13u16)
}

/// The seed every generator starts from.
pub open spec fn rnd_seed() -> u16 {
    0xfaec
}

/// A 16-bit xorshift pseudo-random number generator.
pub struct Rnd(u16);

impl View for Rnd {
    type V = u16;

    closed spec fn view(&self) -> u16 {
        self.0
    }
}

impl Rnd {
    /// A generator in its fixed initial state.
    pub fn new() -> (r: Rnd)
        ensures
            r@ == rnd_seed(),
    {
        Rnd(0xfaec)
    }

    /// Advances the generator one step and returns the new state.
    pub fn rnd(&mut self) -> (r: u16)
        ensures
            final(self)@ == xorshift16(old(self)@),
            r == final(self)@,
    {
        self.0 = self.0 ^ (self.0 >> 7u16);
        self.0 = self.0 ^ (self.0 << 9u16);
        self.0 = self.0 ^ (self.0 >> 13u16);
        self.0
    }
}

/// The generator never reaches the all-zero state from a non-zero state,
/// so it never gets stuck.
pub proof fn lemma_xorshift16_nonzero(s: u16)
    requires
        s != 0,
    ensures
        xorshift16(s) != 0,
{
    assert(s != 0 ==> {
        let a: u16 = s ^ (s >> 7u16);
        let b: u16 = a ^ (a << 9u16);
        b ^ (b >> 13u16) != 0
    }) by (bit_vector);
}

/// Distinct states step to distinct states: the generator is a permutation of
/// the 16-bit states.
pub proof fn lemma_xorshift16_injective(s: u16, t: u16)
    requires
        s != t,
    ensures
        xorshift16(s) != xorshift16(t),
{
    assert(s != t ==> {
        let a: u16 = s ^ (s >> 7u16);
        let b: u16 = a ^ (a << 9u16);
        let c: u16 = t ^ (t >> 7u16);
        let d: u16 = c ^ (c << 9u16);
        b ^ (b >> 13u16) != d ^ (d >> 13u16)
    }) by (bit_vector);
}

// ---------------------------------------------------------------------------
// Moving average
// ---------------------------------------------------------------------------

/// The sum of a sequence of machine integers.
pub open spec fn seq_sum(s: Seq<usize>) -> nat
    decreases s.len(),
{
    if s.len() == 0 {
        0
    } else {
        seq_sum(s.drop_last()) + s.last() as nat
    }
}

/// Removing the first element takes it off the sum.
pub proof fn lemma_seq_sum_drop_first(s: Seq<usize>)
    requires
        s.len() > 0,
    ensures
        seq_sum(s) == s[0] + seq_sum(s.drop_first()),
    decreases s.len(),
{
    if s.len() > 1 {
        lemma_seq_sum_drop_first(s.drop_last());
        assert(s.drop_last().drop_first() =~= s.drop_first().drop_last());
        assert(s.drop_first().last() == s.last());
        assert(s.drop_last()[0] == s[0]);
        assert(seq_sum(s.drop_first()) == seq_sum(s.drop_first().drop_last()) + s.last());
        assert(seq_sum(s.drop_last()) == s[0] + seq_sum(s.drop_last().drop_first()));
    } else {
        assert(s.last() == s[0]);
        assert(s.drop_first().len() == 0);
        assert(s.drop_last().len() == 0);
        assert(seq_sum(s.drop_first()) == 0);
        assert(seq_sum(s.drop_last()) == 0);
        assert(seq_sum(s) == seq_sum(s.drop_last()) + s.last());
    }
}

/// The last `min(n, max)` values of `added`.
pub open spec fn avg_window(added: Seq<usize>, max: nat) -> Seq<usize> {
    let n = added.len();
    let k: nat = if n < max { n } else { max };
    added.subrange(n - k, n as int)
}

/// The moving average that a window holds: its sum divided by its length.
pub open spec fn window_mean(w: Seq<usize>) -> nat {
    if w.len() == 0 {
        0
    } else {
        seq_sum(w) / w.len()
    }
}

/// The moving average as a machine word computes it: the window's sum,
/// wrapped to the word, divided by its length.
pub open spec fn word_mean(w: Seq<usize>) -> nat {
    if w.len() == 0 {
        0
    } else {
        (seq_sum(w) % (usize::MAX as nat + 1)) / w.len()
    }
}

/// Where the window's sum fits in a word, the word's mean is the mean.
pub proof fn lemma_word_mean_fits(w: Seq<usize>)
    requires
        seq_sum(w) <= usize::MAX,
    ensures
        word_mean(w) == window_mean(w),
{
    vstd::arithmetic::div_mod::lemma_small_mod(seq_sum(w), usize::MAX as nat + 1);
}

/// A sequence of `n` copies of `c` sums to `n * c`.
proof fn lemma_sum_of_constant(w: Seq<usize>, c: usize)
    requires
        forall|i: int| 0 <= i < w.len() ==> #[trigger] w[i] == c,
    ensures
        seq_sum(w) == w.len() * c,
    decreases w.len(),
{
    if w.len() > 0 {
        assert forall|i: int| 0 <= i < w.drop_last().len() implies #[trigger] w.drop_last()[i] == c by {
            assert(w.drop_last()[i] == w[i]);
        }
        lemma_sum_of_constant(w.drop_last(), c);
        assert(w.last() == w[w.len() - 1]);
        vstd::arithmetic::mul::lemma_mul_is_distributive_add_other_way(c as int, w.drop_last().len() as int, 1);
    }
}

/// The moving average of a steady stream is the stream's value: a window
/// that holds only `c` has mean `c`.
pub proof fn lemma_mean_of_constant(w: Seq<usize>, c: usize)
    requires
        w.len() > 0,
        forall|i: int| 0 <= i < w.len() ==> #[trigger] w[i] == c,
    ensures
        window_mean(w) == c,
{
    lemma_sum_of_constant(w, c);
    vstd::arithmetic::mul::lemma_mul_is_commutative(w.len() as int, c as int);
    vstd::arithmetic::div_mod::lemma_div_multiples_vanish(c as int, w.len() as int);
}

/// The average of the last `max` numbers handed to it, over a ring buffer.
pub struct Average {
    max: usize,
    count: usize,
    nums: Vec<usize>,
    idx: usize,
    sum: usize,
    added: Ghost<Seq<usize>>,
}

impl Average {
    /// Every number added so far, oldest first.
    pub closed spec fn added(&self) -> Seq<usize> {
        self.added@
    }

    /// How many of the latest numbers the average covers.
    pub closed spec fn capacity(&self) -> nat {
        self.max as nat
    }

    /// The numbers that the average currently covers.
    pub open spec fn window(&self) -> Seq<usize> {
        avg_window(self.added(), self.capacity())
    }

    /// The ring buffer agrees with the numbers added.
    pub closed spec fn wf(&self) -> bool {
        let n: int = self.added@.len() as int;
        let w = avg_window(self.added@, self.max as nat);
        &&& self.nums@.len() == self.max
        &&& self.count == w.len()
        &&& self.sum == seq_sum(w) % (usize::MAX as nat + 1)
        &&& self.max == 0 ==> n == 0 && self.idx == 0
        &&& self.max > 0 ==> self.idx == n % (self.max as int)
        &&& forall|i: int|
            n - w.len() <= i < n ==> #[trigger] self.nums@[i % (self.max as int)]
                == self.added@[i]
        &&& forall|j: int| n <= j < self.max ==> #[trigger] self.nums@[j] == 0
    }

    /// An empty average over the last `max` numbers.
    pub fn new(max: usize) -> (r: Average)
        ensures
            r.wf(),
            r.capacity() == max,
            r.added() == Seq::<usize>::empty(),
    {
        let nums = vec![0usize; max];
        let r = Average { max, count: 0, nums, idx: 0, sum: 0, added: Ghost(Seq::empty()) };
        assert(avg_window(r.added@, max as nat) =~= Seq::<usize>::empty());
        proof {
            assert(seq_sum(Seq::<usize>::empty()) == 0);
            vstd::arithmetic::div_mod::lemma_small_mod(0, usize::MAX as nat + 1);
        }
        r
    }

    /// Adds `num` and returns the mean of the last `max` numbers added
    /// (of all of them while fewer than `max` were added), rounded down; the
    /// sum is kept in a word and wraps (`word_mean`).
    pub fn add(&mut self, num: usize) -> (r: usize)
        requires
            old(self).wf(),
            old(self).capacity() > 0,
        ensures
            final(self).wf(),
            final(self).capacity() == old(self).capacity(),
            final(self).added() == old(self).added().push(num),
            r == word_mean(final(self).window()),
            seq_sum(final(self).window()) <= usize::MAX ==> r == window_mean(final(self).window()),
    {
        let ghost n: int = self.added@.len() as int;
        let ghost w = avg_window(self.added@, self.max as nat);
        let ghost added2 = self.added@.push(num);
        let ghost w2 = avg_window(added2, self.max as nat);
        let oldv = self.nums[self.idx];
        proof {
            if n >= self.max {
                assert((n - self.max) % (self.max as int) == n % (self.max as int)) by {
                    vstd::arithmetic::div_mod::lemma_mod_sub_multiples_vanish(
                        n as int,
                        self.max as int,
                    );
                }
                assert(oldv == self.added@[n - self.max]);
                assert(w[0] == oldv);
                lemma_seq_sum_drop_first(w);
                assert(w2 =~= w.drop_first().push(num));
                assert(w2.drop_last() =~= w.drop_first());
                assert(seq_sum(w2) == seq_sum(w.drop_first()) + num);
            } else {
                vstd::arithmetic::div_mod::lemma_small_mod(n as nat, self.max as nat);
                assert(self.nums@[n as int] == 0);
                assert(w2 =~= w.push(num));
                assert(w2.drop_last() =~= w);
                assert(seq_sum(w2) == seq_sum(w) + num);
            }
            assert(seq_sum(w) - oldv + num == seq_sum(w2));
            let m: int = usize::MAX as int + 1;
            let a: int = usize_specs::wrapping_sub(self.sum, oldv) as int;
            assert(a == (self.sum - oldv) % m) by {
                if self.sum >= oldv {
                    vstd::arithmetic::div_mod::lemma_small_mod((self.sum - oldv) as nat, m as nat);
                } else {
                    vstd::arithmetic::div_mod::lemma_mod_add_multiples_vanish(self.sum - oldv, m);
                    vstd::arithmetic::div_mod::lemma_small_mod((self.sum - oldv + m) as nat, m as nat);
                }
            }
            let b: int = usize_specs::wrapping_add(usize_specs::wrapping_sub(self.sum, oldv), num) as int;
            assert(b == (a + num) % m) by {
                if a + num < m {
                    vstd::arithmetic::div_mod::lemma_small_mod((a + num) as nat, m as nat);
                } else {
                    vstd::arithmetic::div_mod::lemma_mod_sub_multiples_vanish(a + num, m);
                    vstd::arithmetic::div_mod::lemma_small_mod((a + num - m) as nat, m as nat);
                }
            }
            assert(b == (seq_sum(w2) as int) % m) by {
                vstd::arithmetic::div_mod::lemma_add_mod_noop(self.sum - oldv, num as int, m);
                vstd::arithmetic::div_mod::lemma_mod_twice(num as int, m);
                vstd::arithmetic::div_mod::lemma_small_mod(num as nat, m as nat);
                vstd::arithmetic::div_mod::lemma_sub_mod_noop(seq_sum(w) as int, oldv as int, m);
                vstd::arithmetic::div_mod::lemma_small_mod(oldv as nat, m as nat);
                vstd::arithmetic::div_mod::lemma_add_mod_noop(seq_sum(w) - oldv, num as int, m);
                vstd::arithmetic::div_mod::lemma_mod_twice(seq_sum(w) as int, m);
            }
        }
        self.sum = self.sum.wrapping_sub(oldv).wrapping_add(num);
        self.nums.set(self.idx, num);
        self.idx = (self.idx + 1) % self.max;
        if self.count < self.max {
            self.count += 1;
        }
        self.added = Ghost(added2);
        proof {
            let m = self.max as int;
            assert((n + 1) % m == ((n % m) + 1) % m) by {
                vstd::arithmetic::div_mod::lemma_add_mod_noop(n, 1, m);
                if m > 1 {
                    vstd::arithmetic::div_mod::lemma_small_mod(1, m as nat);
                }
            }
            assert forall|i: int|
                (n + 1) - w2.len() <= i < n + 1 implies #[trigger] self.nums@[i % m]
                == self.added@[i] by {
                if i == n {
                } else {
                    assert(i % m != n % m) by {
                        if i % m == n % m {
                            vstd::arithmetic::div_mod::lemma_mod_sub_multiples_vanish(n, m);
                            assert(n - m < i < n);
                            vstd::arithmetic::div_mod::lemma_fundamental_div_mod(i, m);
                            vstd::arithmetic::div_mod::lemma_fundamental_div_mod(n, m);
                            let q = n / m - i / m;
                            assert(n - i == m * (n / m) - m * (i / m));
                            vstd::arithmetic::mul::lemma_mul_is_distributive_sub(
                                m,
                                n / m,
                                i / m,
                            );
                            assert(0 < m * q < m);
                            assert(false) by (nonlinear_arith)
                                requires
                                    0 < m * q < m,
                                    m > 0,
                            ;
                        }
                    }
                }
            }
        }
        proof {
            if seq_sum(self.window()) <= usize::MAX {
                lemma_word_mean_fits(self.window());
            }
        }
        self.sum / self.count
    }
}

/// The frame rate after a frame that took `micros` microseconds: a million
/// divided by the moving average of the frame times that `avg` keeps
/// (`word_mean`), once `micros` is added; none while that average is zero.
pub fn frames_per_second(avg: &mut Average, micros: usize) -> (fps: Option<usize>)
    requires
        old(avg).wf(),
        old(avg).capacity() > 0,
    ensures
        final(avg).wf(),
        final(avg).capacity() == old(avg).capacity(),
        final(avg).added() == old(avg).added().push(micros),
        fps == (if word_mean(final(avg).window()) == 0 {
            None
        } else {
            Some((1_000_000nat / word_mean(final(avg).window())) as usize)
        }),
{
    let mean = avg.add(micros);
    if mean == 0 {
        None
    } else {
        Some(1_000_000 / mean)
    }
}

// ---------------------------------------------------------------------------
// Terminal size
// ---------------------------------------------------------------------------

/// The size of the terminal in character cells.
pub struct Term {
    pub h: usize,
    pub w: usize,
}

/// Whether every character of `s` is a decimal digit.
pub open spec fn all_digits(s: Seq<char>) -> bool {
    forall|i: int| 0 <= i < s.len() ==> '0' <= #[trigger] s[i] <= '9'
}

/// The number that the decimal digits `s` write, most significant first.
pub open spec fn decimal_value(s: Seq<char>) -> nat
    decreases s.len(),
{
    if s.len() == 0 {
        0
    } else {
        decimal_value(s.drop_last()) * 10 + (s.last() as int - '0' as int) as nat
    }
}

/// What reading `s` as a machine-size number gives: an optional `+`, then
/// one or more decimal digits whose value fits; nothing for anything else.
pub open spec fn parsed_usize(s: Seq<char>) -> Option<usize> {
    let d = if s.len() > 0 && s[0] == '+' { s.drop_first() } else { s };
    if d.len() > 0 && all_digits(d) && decimal_value(d) <= usize::MAX {
        Some(decimal_value(d) as usize)
    } else {
        None
    }
}

/// A longer run of digits is worth at least as much as its first `k` digits.
proof fn lemma_decimal_prefix_le(d: Seq<char>, k: int)
    requires
        all_digits(d),
        0 <= k <= d.len(),
    ensures
        decimal_value(d.take(k)) <= decimal_value(d),
    decreases d.len(),
{
    if k < d.len() {
        assert(d.drop_last().take(k) =~= d.take(k));
        assert(all_digits(d.drop_last())) by {
            assert forall|i: int| 0 <= i < d.drop_last().len() implies '0' <= #[trigger] d.drop_last()[i] <= '9' by {
                assert(d.drop_last()[i] == d[i]);
            }
        }
        lemma_decimal_prefix_le(d.drop_last(), k);
    } else {
        assert(d.take(k) =~= d);
    }
}

/// Reads `s` as a machine-size number (see `parsed_usize`).
pub fn parse_usize(s: &str) -> (r: Option<usize>)
    ensures
        r == parsed_usize(s@),
{
    let n = s.unicode_len();
    if n == 0 {
        return None;
    }
    let start: usize = if s.get_char(0) == '+' { 1 } else { 0 };
    if start == n {
        return None;
    }
    let ghost d = if s@[0] == '+' { s@.drop_first() } else { s@ };
    proof {
        assert(d =~= s@.subrange(start as int, n as int));
    }
    let mut v: usize = 0;
    let mut i: usize = start;
    while i < n
        invariant
            n == s@.len(),
            start <= i <= n,
            start < n,
            d == s@.subrange(start as int, n as int),
            d == (if s@[0] == '+' { s@.drop_first() } else { s@ }),
            all_digits(d.take(i - start)),
            v == decimal_value(d.take(i - start)),
        decreases n - i,
    {
        let c = s.get_char(i);
        let ghost k: int = i - start;
        proof {
            assert(d[k] == c);
            assert(d.take(k + 1).drop_last() =~= d.take(k));
            assert(d.take(k + 1).last() == c);
        }
        if c < '0' || c > '9' {
            proof {
                assert(!all_digits(d));
            }
            return None;
        }
        let digit = (c as u32 - '0' as u32) as usize;
        proof {
            assert(all_digits(d.take(k + 1))) by {
                assert forall|j: int| 0 <= j < d.take(k + 1).len() implies '0' <= #[trigger] d.take(k + 1)[j] <= '9' by {
                    if j < k {
                        assert(d.take(k + 1)[j] == d.take(k)[j]);
                    }
                }
            }
            assert(decimal_value(d.take(k + 1)) == v * 10 + digit);
        }
        if v > (usize::MAX - digit) / 10 {
            proof {
                assert(v * 10 + digit > usize::MAX) by (nonlinear_arith)
                    requires
                        v > (usize::MAX - digit) / 10,
                        digit <= 9,
                ;
                if all_digits(d) {
                    lemma_decimal_prefix_le(d, k + 1);
                }
            }
            return None;
        }
        proof {
            assert(v * 10 + digit <= usize::MAX) by (nonlinear_arith)
                requires
                    v <= (usize::MAX - digit) / 10,
                    digit <= 9,
            ;
        }
        v = v * 10 + digit;
        i += 1;
    }
    proof {
        assert(d.take(n - start) =~= d);
    }
    Some(v)
}

/// The numbers that the arguments `args` read as, in order, leaving out
/// those that do not read as one (see `parsed_usize`).
pub open spec fn parsed_args(args: Seq<Seq<char>>) -> Seq<usize>
    decreases args.len(),
{
    if args.len() == 0 {
        Seq::empty()
    } else {
        let rest = parsed_args(args.drop_last());
        match parsed_usize(args.last()) {
            Some(v) => rest.push(v),
            None => rest,
        }
    }
}

/// The views of strings.
pub open spec fn string_views(args: Seq<String>) -> Seq<Seq<char>> {
    Seq::new(args.len(), |i: int| args[i]@)
}

/// The terminal size that the command-line arguments `args` give: of the
/// first two that read as numbers, the first is the height and the second
/// the width; 25 rows and 80 columns where they are missing.
pub open spec fn term_of_args(args: Seq<Seq<char>>) -> Term {
    let first = args.take(if args.len() < 2 { args.len() as int } else { 2 });
    let found = parsed_args(first);
    Term { h: if found.len() > 0 { found[0] } else { 25 }, w: if found.len() > 1 { found[1] } else { 80 } }
}

impl Term {
    /// The terminal size that the command-line arguments `args` (the
    /// program's name left out) give (see `term_of_args`).
    pub fn new(args: &[String]) -> (t: Term)
        ensures
            t == term_of_args(string_views(args@)),
    {
        let ghost a = string_views(args@);
        let mut found: Vec<usize> = Vec::new();
        let mut i: usize = 0;
        while i < args.len() && i < 2
            invariant
                i <= args@.len(),
                i <= 2,
                a == string_views(args@),
                found@ == parsed_args(a.take(i as int)),
            decreases 2 - i,
        {
            let r = parse_usize(args[i].as_str());
            proof {
                assert(a.take(i + 1).drop_last() =~= a.take(i as int));
                assert(a.take(i + 1).last() == args@[i as int]@);
            }
            match r {
                Some(v) => found.push(v),
                None => {},
            }
            i += 1;
        }
        proof {
            let first = a.take(if a.len() < 2 { a.len() as int } else { 2 });
            assert(first =~= a.take(i as int));
        }
        Term {
            h: if found.len() > 0 { found[0] } else { 25 },
            w: if found.len() > 1 { found[1] } else { 80 },
        }
    }
}

} // verus!

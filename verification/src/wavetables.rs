//! The four single-cycle wavetables and the selector that picks one.
use vstd::prelude::*;

use crate::config::WAVETABLE_SIZE;
use crate::fixed::div_trunc;

verus! {

/// Oscillator waveform.
#[derive(Clone, Copy, Debug, PartialEq, Eq, Structural)]
pub enum Waveform {
    Saw,
    Sine,
    Square,
    Triangle,
}

impl Default for Waveform {
    fn default() -> (w: Self)
        ensures
            w == Waveform::Saw,
    {
        Waveform::Saw
    }
}

/// The waveform that a two-bit switch position selects.
pub open spec fn selected_waveform(selector: u8) -> Waveform {
    let bits = selector % 4;
    if bits == 0 {
        Waveform::Sine
    } else if bits == 1 {
        Waveform::Square
    } else if bits == 2 {
        Waveform::Triangle
    } else {
        Waveform::Saw
    }
}

impl Waveform {
    /// Decodes a switch position; only the two low bits count.
    pub fn from_selector(selector: u8) -> (w: Self)
        ensures
            w == selected_waveform(selector),
    {
        let bits = selector & 0b11;
        assert(bits == selector % 4) by (bit_vector)
            requires
                bits == selector & 3,
        ;
        match bits {
            0 => Self::Sine,
            1 => Self::Square,
            2 => Self::Triangle,
            _ => Self::Saw,
        }
    }
}

/// Half the table length, in the integer arithmetic of the sine approximation.
pub open spec fn half_table() -> int {
    512
}

/// Bhaskara's rational approximation of one sine cycle over the table, in Q15.
pub open spec fn sin_q15(i: int) -> int {
    let h = half_table();
    let x = if i < h { i } else { i - h };
    let sign = if i < h { 1int } else { -1int };
    let common = x * (h - x);
    let num = 16 * common;
    let den = 5 * h * h - 4 * common;
    if den == 0 {
        0
    } else {
        (num * 32767) / den * sign
    }
}

/// Entry `i` of the sine table: the approximation scaled to a peak of 26754.
pub open spec fn sine_entry(i: int) -> int {
    div_trunc(sin_q15(i) * 26754, 32767)
}

/// Entry `i` of the full-scale sawtooth table.
pub open spec fn saw_entry(i: int) -> int {
    (i * 65535) / 1023 - 32768
}

/// Entry `i` of the square table, of peak 18918.
pub open spec fn square_entry(i: int) -> int {
    if i < 512 {
        18918
    } else {
        -18918
    }
}

/// Entry `i` of the full-scale triangle table.
pub open spec fn triangle_entry(i: int) -> int {
    if i < 512 {
        -32768 + (i * 65535) / 512
    } else {
        32767 - ((i - 512) * 65535) / 512
    }
}

/// Bounds of the sine approximation: the numerator never exceeds the denominator.
proof fn lemma_sin_q15_bounds(i: int)
    requires
        0 <= i < 1024,
    ensures
        -32767 <= sin_q15(i) <= 32767,
        i < 512 ==> sin_q15(i) >= 0,
        i >= 512 ==> sin_q15(i) <= 0,
{
    let h = 512int;
    let x = if i < h { i } else { i - h };
    let common = x * (h - x);
    assert(0 <= common && 4 * common <= h * h) by (nonlinear_arith)
        requires
            0 <= x < h,
            common == x * (h - x),
            h == 512,
    ;
    let num = 16 * common;
    let den = 5 * h * h - 4 * common;
    assert(0 <= (num * 32767) / den <= 32767) by (nonlinear_arith)
        requires
            0 <= num <= den,
            den > 0,
    ;
    let q = (num * 32767) / den;
    if i < h {
        assert(sin_q15(i) == q);
    } else {
        assert(q * -1 == -q) by (nonlinear_arith);
        assert(sin_q15(i) == q * -1);
    }
}

/// One entry of the sine approximation, with the table index as the argument.
fn const_sin_q15(i: usize) -> (r: i16)
    requires
        i < WAVETABLE_SIZE,
    ensures
        r == sin_q15(i as int),
{
    let half: usize = WAVETABLE_SIZE / 2;
    let (x, sign): (i64, i64) = if i < half {
        (i as i64, 1)
    } else {
        ((i - half) as i64, -1)
    };
    let h: i64 = half as i64;
    assert(0 <= x * (h - x) <= 262144) by (nonlinear_arith)
        requires
            0 <= x < h,
            h == 512,
    ;
    let common: i64 = x * (h - x);
    let num: i64 = 16 * common;
    let den: i64 = 5 * h * h - 4 * common;
    if den == 0 {
        return 0;
    }
    proof {
        lemma_sin_q15_bounds(i as int);
    }
    assert(0 <= num * 32767 <= 262144 * 16 * 32767) by (nonlinear_arith)
        requires
            0 <= num <= 262144 * 16,
    ;
    let result: i64 = (num * 32767) / den;
    (result * sign) as i16
}

} // verus!

verus! {

fn generate_sine() -> (arr: [i16; WAVETABLE_SIZE])
    ensures
        forall|j: int| 0 <= j < 1024 ==> #[trigger] arr@[j] == sine_entry(j),
{
    let mut arr = [0i16; WAVETABLE_SIZE];
    let mut i: usize = 0;
    while i < WAVETABLE_SIZE
        invariant
            i <= WAVETABLE_SIZE,
            forall|j: int| 0 <= j < i ==> #[trigger] arr@[j] == sine_entry(j),
        decreases WAVETABLE_SIZE - i,
    {
        let s = const_sin_q15(i);
        proof {
            lemma_sin_q15_bounds(i as int);
        }
        let val = (s as i32 * 26754 / 32767) as i16;
        assert(val == sine_entry(i as int));
        arr[i] = val;
        i += 1;
    }
    arr
}

fn generate_saw() -> (arr: [i16; WAVETABLE_SIZE])
    ensures
        forall|j: int| 0 <= j < 1024 ==> #[trigger] arr@[j] == saw_entry(j),
{
    let mut arr = [0i16; WAVETABLE_SIZE];
    let mut i: usize = 0;
    while i < WAVETABLE_SIZE
        invariant
            i <= WAVETABLE_SIZE,
            forall|j: int| 0 <= j < i ==> #[trigger] arr@[j] == saw_entry(j),
        decreases WAVETABLE_SIZE - i,
    {
        assert(0 <= (i as int * 65535) / 1023 <= 65535) by (nonlinear_arith)
            requires
                0 <= i < 1024,
        ;
        let val: i64 = ((i as i64 * 65535) / (WAVETABLE_SIZE as i64 - 1)) - 32768;
        arr[i] = val as i16;
        i += 1;
    }
    arr
}

fn generate_square() -> (arr: [i16; WAVETABLE_SIZE])
    ensures
        forall|j: int| 0 <= j < 1024 ==> #[trigger] arr@[j] == square_entry(j),
{
    let mut arr = [0i16; WAVETABLE_SIZE];
    let mut i: usize = 0;
    while i < WAVETABLE_SIZE
        invariant
            i <= WAVETABLE_SIZE,
            forall|j: int| 0 <= j < i ==> #[trigger] arr@[j] == square_entry(j),
        decreases WAVETABLE_SIZE - i,
    {
        arr[i] = if i < WAVETABLE_SIZE / 2 {
            18918
        } else {
            -18918
        };
        i += 1;
    }
    arr
}

fn generate_triangle() -> (arr: [i16; WAVETABLE_SIZE])
    ensures
        forall|j: int| 0 <= j < 1024 ==> #[trigger] arr@[j] == triangle_entry(j),
{
    let mut arr = [0i16; WAVETABLE_SIZE];
    let mut i: usize = 0;
    let half: i32 = WAVETABLE_SIZE as i32 / 2;
    while i < WAVETABLE_SIZE
        invariant
            i <= WAVETABLE_SIZE,
            half == 512,
            forall|j: int| 0 <= j < i ==> #[trigger] arr@[j] == triangle_entry(j),
        decreases WAVETABLE_SIZE - i,
    {
        let x = i as i32;
        let val = if x < half {
            assert(0 <= (x as int * 65535) / 512 < 65535) by (nonlinear_arith)
                requires
                    0 <= x < 512,
            ;
            -32768 + (x * 65535 / half)
        } else {
            assert(0 <= ((x - 512) as int * 65535) / 512 < 65535) by (nonlinear_arith)
                requires
                    512 <= x < 1024,
            ;
            32767 - ((x - half) * 65535 / half)
        };
        arr[i] = val as i16;
        i += 1;
    }
    arr
}

/// The four wavetables, one cycle each.
pub struct Wavetables {
    pub saw: [i16; WAVETABLE_SIZE],
    pub sine: [i16; WAVETABLE_SIZE],
    pub square: [i16; WAVETABLE_SIZE],
    pub triangle: [i16; WAVETABLE_SIZE],
}

/// Entry `i` of the table of waveform `w`.
pub open spec fn table_entry(w: Waveform, i: int) -> int {
    match w {
        Waveform::Saw => saw_entry(i),
        Waveform::Sine => sine_entry(i),
        Waveform::Square => square_entry(i),
        Waveform::Triangle => triangle_entry(i),
    }
}

/// The table of a waveform, as a sequence.
pub open spec fn waveform_table(wt: Wavetables, w: Waveform) -> Seq<i16> {
    match w {
        Waveform::Saw => wt.saw@,
        Waveform::Sine => wt.sine@,
        Waveform::Square => wt.square@,
        Waveform::Triangle => wt.triangle@,
    }
}

impl Wavetables {
    /// Every table holds its waveform's entries.
    pub open spec fn wf(&self) -> bool {
        forall|j: int|
            0 <= j < 1024 ==> {
                &&& #[trigger] self.saw@[j] == saw_entry(j)
                &&& self.sine@[j] == sine_entry(j)
                &&& self.square@[j] == square_entry(j)
                &&& self.triangle@[j] == triangle_entry(j)
            }
    }

    /// Computes the four tables.
    pub fn new() -> (t: Self)
        ensures
            t.wf(),
    {
        Self {
            saw: generate_saw(),
            sine: generate_sine(),
            square: generate_square(),
            triangle: generate_triangle(),
        }
    }

    /// The table of a waveform.
    pub fn get(&'static self, waveform: &Waveform) -> (t: &'static [i16; WAVETABLE_SIZE])
        ensures
            *t == match *waveform {
                Waveform::Saw => self.saw,
                Waveform::Sine => self.sine,
                Waveform::Square => self.square,
                Waveform::Triangle => self.triangle,
            },
            self.wf() ==> forall|j: int| 0 <= j < 1024 ==> #[trigger] t@[j] == table_entry(*waveform, j),
    {
        let t = match waveform {
            Waveform::Saw => &self.saw,
            Waveform::Sine => &self.sine,
            Waveform::Square => &self.square,
            Waveform::Triangle => &self.triangle,
        };
        proof {
            if self.wf() {
                assert forall|j: int| 0 <= j < 1024 implies #[trigger] t@[j] == table_entry(
                    *waveform,
                    j,
                ) by {
                    assert(self.saw@[j] == saw_entry(j));
                }
            }
        }
        t
    }
}

impl Default for Wavetables {
    fn default() -> (t: Self)
        ensures
            t.wf(),
    {
        Self::new()
    }
}

/// The sawtooth spans the full i16 range and rises strictly across the table.
pub proof fn lemma_saw_shape(i: int, j: int)
    requires
        0 <= i < j < 1024,
    ensures
        saw_entry(0) == -32768,
        saw_entry(1023) == 32767,
        saw_entry(i) < saw_entry(j),
{
    assert(i * 65535 + 1023 <= j * 65535) by (nonlinear_arith)
        requires
            i < j,
    ;
    vstd::arithmetic::div_mod::lemma_div_is_ordered(i * 65535 + 1023, j * 65535, 1023);
    vstd::arithmetic::div_mod::lemma_fundamental_div_mod(i * 65535, 1023);
    vstd::arithmetic::div_mod::lemma_fundamental_div_mod(i * 65535 + 1023, 1023);
    assert((i * 65535 + 1023) / 1023 == (i * 65535) / 1023 + 1) by {
        vstd::arithmetic::div_mod::lemma_div_plus_one(i * 65535, 1023);
    }
}

/// The triangle rises from -32768 at the start to 32767 at the middle of the table, and
/// falls back over the second half.
pub proof fn lemma_triangle_shape(i: int, j: int)
    requires
        0 <= i < j < 1024,
    ensures
        triangle_entry(0) == -32768,
        triangle_entry(512) == 32767,
        triangle_entry(1023) == -32640,
        j <= 512 ==> triangle_entry(i) < triangle_entry(j),
        512 <= i ==> triangle_entry(i) > triangle_entry(j),
{
    if j < 512 {
        assert(i * 65535 + 512 <= j * 65535) by (nonlinear_arith)
            requires
                i < j,
        ;
        vstd::arithmetic::div_mod::lemma_div_is_ordered(i * 65535 + 512, j * 65535, 512);
        vstd::arithmetic::div_mod::lemma_div_plus_one(i * 65535, 512);
    } else if j == 512 {
        assert(0 <= (i * 65535) / 512 < 65535) by (nonlinear_arith)
            requires
                0 <= i < 512,
        ;
    }
    if 512 <= i {
        let a = i - 512;
        let b = j - 512;
        assert(a * 65535 + 512 <= b * 65535) by (nonlinear_arith)
            requires
                a < b,
        ;
        vstd::arithmetic::div_mod::lemma_div_is_ordered(a * 65535 + 512, b * 65535, 512);
        vstd::arithmetic::div_mod::lemma_div_plus_one(a * 65535, 512);
    }
}

/// The sine table: zero at the start and the middle, peak 26754 a quarter in, -26754 three
/// quarters in, never beyond that peak, the second half the negation of the first, and
/// each half symmetric about its middle.
pub proof fn lemma_sine_shape(i: int)
    requires
        0 <= i < 1024,
    ensures
        sine_entry(0) == 0,
        sine_entry(512) == 0,
        sine_entry(256) == 26754,
        sine_entry(768) == -26754,
        -26754 <= sine_entry(i) <= 26754,
        i < 512 ==> sine_entry(i + 512) == -sine_entry(i),
        0 < i < 512 ==> sine_entry(512 - i) == sine_entry(i),
{
    lemma_sin_q15_bounds(i);
    let a = sin_q15(i);
    assert(-32767 * 26754 <= a * 26754 <= 32767 * 26754) by (nonlinear_arith)
        requires
            -32767 <= a <= 32767,
    ;
    if a >= 0 {
        assert((a * 26754) / 32767 <= 26754) by (nonlinear_arith)
            requires
                0 <= a * 26754 <= 32767 * 26754,
        ;
    } else {
        assert((-(a * 26754)) / 32767 <= 26754) by (nonlinear_arith)
            requires
                0 <= -(a * 26754) <= 32767 * 26754,
        ;
    }
    assert(256int * (512 - 256) == 65536);
    vstd::arithmetic::div_mod::lemma_div_multiples_vanish(32767, 1048576);
    assert(16int * 65536 * 32767 == 1048576 * 32767);
    assert(5int * 512 * 512 - 4 * 65536 == 1048576);
    assert(sin_q15(256) == 32767);
    assert(sin_q15(768) == -32767);
    assert(0int * (512 - 0) == 0);
    assert((16int * 0 * 32767) / (5int * 512 * 512 - 4 * 0) == 0);
    assert(sin_q15(0) == 0);
    assert(sin_q15(512) == 0);
    if i < 512 {
        lemma_sin_q15_bounds(i + 512);
        assert(sin_q15(i + 512) == -a);
        assert((-a) * 26754 == -(a * 26754)) by (nonlinear_arith);
    }
    if 0 < i < 512 {
        assert((512 - i) * (512 - (512 - i)) == i * (512 - i)) by (nonlinear_arith);
        assert(sin_q15(512 - i) == a);
    }
}

/// The sine approximation on the table: its denominator never comes near zero (so the
/// zero-denominator branch is never taken), its values lie in [-32767, 32767], it is not
/// negative on the first half, the second half is the negation of the first, and the first
/// half is symmetric about its middle.
pub proof fn lemma_sin_q15_shape(i: int)
    requires
        0 <= i < 1024,
    ensures
        ({
            let x = if i < 512 { i } else { i - 512 };
            5 * 512 * 512 - 4 * (x * (512 - x)) >= 4 * 512 * 512
        }),
        -32767 <= sin_q15(i) <= 32767,
        i < 512 ==> sin_q15(i) >= 0,
        i < 512 ==> sin_q15(i + 512) == -sin_q15(i),
        0 < i < 512 ==> sin_q15(512 - i) == sin_q15(i),
{
    lemma_sin_q15_bounds(i);
    let x = if i < 512 { i } else { i - 512 };
    assert(4 * (x * (512 - x)) <= 512 * 512) by (nonlinear_arith)
        requires
            0 <= x < 512,
    ;
    if i < 512 {
        assert(sin_q15(i + 512) == sin_q15(i) * -1);
        assert(sin_q15(i) * -1 == -sin_q15(i)) by (nonlinear_arith);
    }
    if 0 < i < 512 {
        assert((512 - i) * (512 - (512 - i)) == i * (512 - i)) by (nonlinear_arith);
    }
}

} // verus!

//! The orbital element table loader.
//!
//! The input is a comma-separated table of bytes, one line per body,
//! LF-terminated, with a header line first:
//! `name,region,semi_major_axis_km,eccentricity,argument_of_periapsis,mean_anomaly_at_epoch,period_days`.
//! The header line is skipped and blank lines are ignored.  A row either
//! carries all five numeric columns or leaves all five empty (a body with no
//! orbit, such as the central star).  Numbers are plain decimals with an
//! optional sign and fraction; distances are kept to milli-kilometre and
//! periods to milli-day resolution, angles (radians) to nano-radians.
//!
//! Validation runs per row and in order: column count, required fields
//! present and parseable, eccentricity inside `[0, 1)`, semi-major axis
//! positive, period positive, and finally the name not already taken.  The
//! first failure aborts the whole load, so a partial table is never
//! produced.  Every spec here is a total function of the input bytes; the
//! exec parser returns exactly what the spec says.

use vstd::prelude::*;

verus! {

use crate::num::{norm_tau_i128, SCALE, TAU_NANO};
use crate::orbit::{OrbitalParameters, PERIOD_MAX_MILLIDAYS, SEMI_MAJOR_AXIS_MAX_MKM};
use crate::system::bytes_eq;
use vstd::slice::slice_to_vec;

/// The seven columns of the table, in order.
#[derive(Clone, Copy, Debug, PartialEq, Eq, Structural)]
pub enum Column {
    Name,
    Region,
    SemiMajorAxis,
    Eccentricity,
    ArgumentOfPeriapsis,
    MeanAnomalyAtEpoch,
    PeriodDays,
}

/// Why a load was rejected; `row` is the zero-based line index in the input
/// (the header is line zero).  A failed load never changes the registry.
#[derive(Clone, Copy, Debug, PartialEq, Eq, Structural)]
pub enum LoadError {
    /// The row does not have exactly seven comma-separated columns.
    WrongColumnCount { row: usize },
    /// A required field is empty (the name, or one numeric column of a row
    /// that carries others).
    MissingField { row: usize, column: Column },
    /// A numeric field is not a plain decimal number of the expected
    /// resolution.
    MalformedNumber { row: usize, column: Column },
    /// A numeric field is outside the allowed range of its element.
    InvalidParameter { row: usize, column: Column },
    /// The row's name already appeared on an earlier row.
    DuplicateName { row: usize },
}

/// Index of the first occurrence of `b` at or after `from`, or `-1`.
pub open spec fn spec_find(s: Seq<u8>, from: int, b: u8) -> int
    decreases s.len() - from,
{
    if from < 0 || from >= s.len() {
        -1
    } else if s[from] == b {
        from
    } else {
        spec_find(s, from + 1, b)
    }
}

/// Scanning over a separator-free stretch does not change the find result.
pub proof fn lemma_find_step(s: Seq<u8>, from: int, k: int, b: u8)
    requires
        0 <= from <= k,
        forall|j: int| from <= j < k ==> s[j] != b,
    ensures
        spec_find(s, from, b) == spec_find(s, k, b),
    decreases k - from,
{
    if from < k {
        lemma_find_step(s, from + 1, k, b);
    }
}

/// The pieces of `s` from `from` on, split at each `sep` byte.  A found
/// index always lies in `[from, len)`, so the range guard that makes
/// termination structural only excludes the not-found case.
pub open spec fn spec_split_from(s: Seq<u8>, from: int, sep: u8) -> Seq<Seq<u8>>
    decreases s.len() - from,
{
    let i = spec_find(s, from, sep);
    if from <= i < s.len() {
        seq![s.subrange(from, i)] + spec_split_from(s, i + 1, sep)
    } else {
        seq![s.subrange(from, s.len() as int)]
    }
}

/// `s` split at each `sep` byte; an input without separators is one piece,
/// and every separator ends a piece, so there is always one piece more than
/// there are separators.
pub open spec fn spec_split(s: Seq<u8>, sep: u8) -> Seq<Seq<u8>> {
    spec_split_from(s, 0, sep)
}

/// Splits a byte slice; returns exactly the pieces of [`spec_split`].
pub fn split_bytes(s: &[u8], sep: u8) -> (r: Vec<Vec<u8>>)
    ensures
        r@.map_values(|v: Vec<u8>| v@) == spec_split(s@, sep),
        r@.len() >= 1,
{
    let n: usize = s.len();
    let mut out: Vec<Vec<u8>> = Vec::new();
    let mut pos: usize = 0;
    loop
        invariant
            pos <= n,
            n == s@.len(),
            spec_split(s@, sep) == out@.map_values(|v: Vec<u8>| v@) + spec_split_from(s@,
                pos as int, sep),
        ensures
            out@.map_values(|v: Vec<u8>| v@) == spec_split(s@, sep),
            out@.len() >= 1,
        decreases n - pos,
    {
        let mut j: usize = pos;
        while j < n && s[j] != sep
            invariant
                pos <= j <= n,
                n == s@.len(),
                forall|k: int| pos <= k < j ==> s@[k] != sep,
            decreases n - j,
        {
            j = j + 1;
        }
        proof {
            lemma_find_step(s@, pos as int, j as int, sep);
        }
        let piece: Vec<u8> = slice_to_vec(&s[pos..j]);
        out.push(piece);
        if j == n {
            proof {
                assert(spec_find(s@, j as int, sep) == -1);
                assert(spec_split_from(s@, pos as int, sep) =~= seq![s@.subrange(pos as int,
                    n as int)]);
                assert(out@.map_values(|v: Vec<u8>| v@) =~= spec_split(s@, sep));
            }
            return out;
        }
        proof {
            assert(s@[j as int] == sep);
            assert(spec_find(s@, pos as int, sep) == j as int);
            assert(spec_split_from(s@, pos as int, sep) =~= seq![s@.subrange(pos as int,
                j as int)] + spec_split_from(s@, j as int + 1, sep));
            assert(out@.map_values(|v: Vec<u8>| v@) + spec_split_from(s@, j as int + 1, sep)
                =~= spec_split(s@, sep));
        }
        pos = j + 1;
    }
}

/// All bytes in `[a, b)` of `s` are ASCII decimal digits.
pub open spec fn spec_all_digits(s: Seq<u8>, a: int, b: int) -> bool {
    forall|k: int| a <= k < b ==> 48 <= #[trigger] s[k] <= 57
}

/// The value of a digit string, most significant first.
pub open spec fn spec_digits_val(s: Seq<u8>) -> int
    decreases s.len(),
{
    if s.len() == 0 {
        0
    } else {
        spec_digits_val(s.drop_last()) * 10 + (s.last() - 48)
    }
}

/// Powers of ten.
pub open spec fn spec_pow10(k: nat) -> int
    decreases k,
{
    if k == 0 {
        1
    } else {
        10 * spec_pow10((k - 1) as nat)
    }
}

/// Ten to the `k`, executable; the loader needs it up to `10^28`.
pub fn pow10_u128(k: u64) -> (r: u128)
    requires
        k <= 28,
    ensures
        r == spec_pow10(k as nat),
{
    proof {
        assert(spec_pow10(28) == 0x204fce5e3e25026110000000int) by {
            reveal_with_fuel(spec_pow10, 29);
        }
        lemma_pow10_increases(0, 28);
    }
    let mut r: u128 = 1;
    let mut i: u64 = 0;
    while i < k
        invariant
            i <= k <= 28,
            r == spec_pow10(i as nat),
        decreases k - i,
    {
        proof {
            lemma_pow10_increases(i as nat, 27);
            assert(spec_pow10(27) == 0x33b2e3c9fd0803ce8000000int) by {
                reveal_with_fuel(spec_pow10, 29);
            }
        }
        r = r * 10;
        i = i + 1;
    }
    r
}

/// Powers of ten grow with the exponent.
pub proof fn lemma_pow10_increases(a: nat, b: nat)
    requires
        a <= b,
    ensures
        1 <= spec_pow10(a) <= spec_pow10(b),
    decreases b,
{
    if a < b {
        lemma_pow10_increases(a, (b - 1) as nat);
    } else if b > 0 {
        lemma_pow10_increases((a - 1) as nat, (b - 1) as nat);
    }
}

/// A digit string's value is nonnegative and below ten to its length.
pub proof fn lemma_digits_val_bound(s: Seq<u8>)
    requires
        spec_all_digits(s, 0, s.len() as int),
    ensures
        0 <= spec_digits_val(s) < spec_pow10(s.len()),
    decreases s.len(),
{
    if s.len() > 0 {
        assert(spec_all_digits(s.drop_last(), 0, s.drop_last().len() as int));
        lemma_digits_val_bound(s.drop_last());
    }
}

/// The value of the digits of `s` in `[a, b)`, accumulated left to right.
fn digits_value(s: &[u8], a: usize, b: usize) -> (r: u128)
    requires
        a <= b <= s@.len(),
        b - a <= 19,
        spec_all_digits(s@, a as int, b as int),
    ensures
        r == spec_digits_val(s@.subrange(a as int, b as int)),
        r < spec_pow10((b - a) as nat),
{
    let mut acc: u128 = 0;
    let mut k: usize = a;
    proof {
        assert(s@.subrange(a as int, a as int) =~= Seq::<u8>::empty());
    }
    while k < b
        invariant
            a <= k <= b <= s@.len(),
            b - a <= 19,
            spec_all_digits(s@, a as int, b as int),
            acc == spec_digits_val(s@.subrange(a as int, k as int)),
            acc < spec_pow10((k - a) as nat),
        decreases b - k,
    {
        proof {
            assert(spec_pow10((k - a) as nat) <= spec_pow10(18)) by {
                lemma_pow10_increases((k - a) as nat, 18);
            }
            assert(spec_pow10(18) == 1_000_000_000_000_000_000int) by {
                reveal_with_fuel(spec_pow10, 19);
            }
            assert(48 <= s@[k as int] <= 57);
        }
        let d: u8 = s[k] - 48;
        acc = acc * 10 + (d as u128);
        proof {
            let sub = s@.subrange(a as int, k as int + 1);
            assert(sub.drop_last() =~= s@.subrange(a as int, k as int));
            assert(sub.last() == s@[k as int]);
        }
        k = k + 1;
    }
    proof {
        assert(s@.subrange(a as int, b as int) == s@.subrange(a as int, k as int));
    }
    acc
}

/// Parses a decimal field into a fixed-point integer with `frac` fractional
/// digits: an optional minus sign, one to nineteen integer digits, and an
/// optional point followed by one to `frac` fractional digits.
pub open spec fn spec_parse_fixed(s: Seq<u8>, frac: nat) -> Option<int> {
    let neg = s.len() > 0 && s[0] == 45;
    let start: int = if neg {
        1
    } else {
        0
    };
    let dot = spec_find(s, start, 46);
    if dot == -1 {
        if 1 <= s.len() - start <= 19 && spec_all_digits(s, start, s.len() as int) {
            let mag = spec_digits_val(s.subrange(start, s.len() as int)) * spec_pow10(frac);
            Option::Some(
                if neg {
                    -mag
                } else {
                    mag
                },
            )
        } else {
            Option::None
        }
    } else {
        let fp_len = s.len() - dot - 1;
        if 1 <= dot - start <= 19 && 1 <= fp_len <= frac && spec_all_digits(s, start, dot)
            && spec_all_digits(s, dot + 1, s.len() as int) {
            let mag = spec_digits_val(s.subrange(start, dot)) * spec_pow10(frac)
                + spec_digits_val(s.subrange(dot + 1, s.len() as int)) * spec_pow10(
                (frac - fp_len) as nat,
            );
            Option::Some(
                if neg {
                    -mag
                } else {
                    mag
                },
            )
        } else {
            Option::None
        }
    }
}

/// Checks that `[a, b)` of `s` holds digits only; reports the result of
/// [`spec_all_digits`].
fn check_digits(s: &[u8], a: usize, b: usize) -> (r: bool)
    requires
        a <= b <= s@.len(),
    ensures
        r == spec_all_digits(s@, a as int, b as int),
{
    let mut k: usize = a;
    while k < b
        invariant
            a <= k <= b <= s@.len(),
            forall|j: int| a <= j < k ==> 48 <= #[trigger] s@[j] <= 57,
        decreases b - k,
    {
        if s[k] < 48 || s[k] > 57 {
            proof {
                assert(!(48 <= s@[k as int] <= 57));
            }
            return false;
        }
        k = k + 1;
    }
    true
}

/// Exec mirror of [`spec_parse_fixed`]; the bound on the result keeps later
/// arithmetic inside 128 bits.
pub fn parse_fixed(s: &[u8], frac: u64) -> (r: Option<i128>)
    requires
        frac <= 9,
    ensures
        match r {
            Option::Some(v) => spec_parse_fixed(s@, frac as nat) == Option::Some(v as int)
                && -100_000_000_000_000_000_000_000_000_000i128 < v
                < 100_000_000_000_000_000_000_000_000_000i128,
            Option::None => spec_parse_fixed(s@, frac as nat) == Option::<int>::None,
        },
{
    proof {
        assert(spec_pow10(19) == 10_000_000_000_000_000_000int && spec_pow10(9)
            == 1_000_000_000int && spec_pow10(28) == 0x204fce5e3e25026110000000int) by {
            reveal_with_fuel(spec_pow10, 29);
        }
    }
    let n: usize = s.len();
    let neg: bool = n > 0 && s[0] == 45;
    let start: usize = if neg {
        1
    } else {
        0
    };
    let mut j: usize = start;
    while j < n && s[j] != 46
        invariant
            start <= j <= n,
            n == s@.len(),
            forall|k: int| start <= k < j ==> s@[k] != 46,
        decreases n - j,
    {
        j = j + 1;
    }
    proof {
        lemma_find_step(s@, start as int, j as int, 46);
    }
    if j == n {
        // no decimal point
        if n - start < 1 || n - start > 19 {
            return Option::None;
        }
        if !check_digits(s, start, n) {
            return Option::None;
        }
        let dv: u128 = digits_value(s, start, n);
        let p: u128 = pow10_u128(frac);
        proof {
            lemma_pow10_increases(frac as nat, 9);
            lemma_pow10_increases((n - start) as nat, 19);
            assert((dv as int) * (p as int) < spec_pow10(19) * spec_pow10(9))
                by (nonlinear_arith)
                requires
                    0 <= (dv as int) < spec_pow10(19),
                    0 < (p as int) <= spec_pow10(9),
                    spec_pow10(19) == 10_000_000_000_000_000_000int,
                    spec_pow10(9) == 1_000_000_000int,
            ;
            vstd::arithmetic::mul::lemma_mul_nonnegative(dv as int, p as int);
        }
        let mag: u128 = dv * p;
        if neg {
            Option::Some(-(mag as i128))
        } else {
            Option::Some(mag as i128)
        }
    } else {
        // integer part [start, j), fraction part [j + 1, n)
        let ip_len: usize = j - start;
        let fp_len: usize = n - j - 1;
        if ip_len < 1 || ip_len > 19 || fp_len < 1 || (fp_len as u64) > frac {
            return Option::None;
        }
        if !check_digits(s, start, j) {
            return Option::None;
        }
        if !check_digits(s, j + 1, n) {
            return Option::None;
        }
        let dv_i: u128 = digits_value(s, start, j);
        let dv_f: u128 = digits_value(s, j + 1, n);
        let p_i: u128 = pow10_u128(frac);
        let p_f: u128 = pow10_u128(frac - (fp_len as u64));
        proof {
            lemma_pow10_increases(frac as nat, 9);
            lemma_pow10_increases((frac - fp_len) as nat, 9);
            lemma_pow10_increases(fp_len as nat, 9);
            lemma_pow10_increases(ip_len as nat, 19);
            lemma_pow10_increases(fp_len as nat, 19);
            assert((dv_i as int) * (p_i as int) < spec_pow10(19) * spec_pow10(9))
                by (nonlinear_arith)
                requires
                    0 <= (dv_i as int) < spec_pow10(19),
                    0 < (p_i as int) <= spec_pow10(9),
                    spec_pow10(19) == 10_000_000_000_000_000_000int,
                    spec_pow10(9) == 1_000_000_000int,
            ;
            assert((dv_f as int) * (p_f as int) < spec_pow10(19) * spec_pow10(9))
                by (nonlinear_arith)
                requires
                    0 <= (dv_f as int) < spec_pow10(19),
                    0 < (p_f as int) <= spec_pow10(9),
                    spec_pow10(19) == 10_000_000_000_000_000_000int,
                    spec_pow10(9) == 1_000_000_000int,
            ;
            vstd::arithmetic::mul::lemma_mul_nonnegative(dv_i as int, p_i as int);
            vstd::arithmetic::mul::lemma_mul_nonnegative(dv_f as int, p_f as int);
        }
        let mag: u128 = dv_i * p_i + dv_f * p_f;
        if neg {
            Option::Some(-(mag as i128))
        } else {
            Option::Some(mag as i128)
        }
    }
}


/// The five element values read from one row, at the loader's fixed-point
/// scales, before the derived square root is attached.
#[verifier::ext_equal]
pub ghost struct ElementsView {
    pub semi_major_axis_mkm: int,
    pub eccentricity_nano: int,
    pub arg_periapsis_nano: int,
    pub mean_anomaly_epoch_nano: int,
    pub period_millidays: int,
}

/// One successfully parsed row.
#[verifier::ext_equal]
pub ghost struct RowView {
    pub name: Seq<u8>,
    pub region: Seq<u8>,
    pub orbit: Option<ElementsView>,
}

/// Exec form of a parsed row; its view drops the derived square root.
pub struct ParsedRow {
    pub name: Vec<u8>,
    pub region: Vec<u8>,
    pub orbit: Option<OrbitalParameters>,
}

impl View for ParsedRow {
    type V = RowView;

    open spec fn view(&self) -> RowView {
        RowView {
            name: self.name@,
            region: self.region@,
            orbit: match self.orbit {
                Option::None => Option::None,
                Option::Some(p) => Option::Some(
                    ElementsView {
                        semi_major_axis_mkm: p.semi_major_axis_mkm as int,
                        eccentricity_nano: p.eccentricity_nano as int,
                        arg_periapsis_nano: p.arg_periapsis_nano as int,
                        mean_anomaly_epoch_nano: p.mean_anomaly_epoch_nano as int,
                        period_millidays: p.period_millidays as int,
                    },
                ),
            },
        }
    }
}

/// One row, parsed and validated in the design's order: column count, the
/// name present, the five numeric columns either all empty (a body without
/// an orbit) or each present, parseable and in range.  Angles are reduced
/// into the canonical range.
pub open spec fn spec_parse_row(line: Seq<u8>, row: usize) -> Result<RowView, LoadError> {
    let fs = spec_split(line, 44);
    if fs.len() != 7 {
        Result::Err(LoadError::WrongColumnCount { row })
    } else if fs[0].len() == 0 {
        Result::Err(LoadError::MissingField { row, column: Column::Name })
    } else if fs[2].len() == 0 && fs[3].len() == 0 && fs[4].len() == 0 && fs[5].len() == 0
        && fs[6].len() == 0 {
        Result::Ok(RowView { name: fs[0], region: fs[1], orbit: Option::None })
    } else if fs[2].len() == 0 {
        Result::Err(LoadError::MissingField { row, column: Column::SemiMajorAxis })
    } else if fs[3].len() == 0 {
        Result::Err(LoadError::MissingField { row, column: Column::Eccentricity })
    } else if fs[4].len() == 0 {
        Result::Err(LoadError::MissingField { row, column: Column::ArgumentOfPeriapsis })
    } else if fs[5].len() == 0 {
        Result::Err(LoadError::MissingField { row, column: Column::MeanAnomalyAtEpoch })
    } else if fs[6].len() == 0 {
        Result::Err(LoadError::MissingField { row, column: Column::PeriodDays })
    } else {
        match (spec_parse_fixed(fs[2], 3), spec_parse_fixed(fs[3], 9), spec_parse_fixed(fs[4],
            9), spec_parse_fixed(fs[5], 9), spec_parse_fixed(fs[6], 3)) {
            (Option::None, _, _, _, _) => Result::Err(
                LoadError::MalformedNumber { row, column: Column::SemiMajorAxis },
            ),
            (_, Option::None, _, _, _) => Result::Err(
                LoadError::MalformedNumber { row, column: Column::Eccentricity },
            ),
            (_, _, Option::None, _, _) => Result::Err(
                LoadError::MalformedNumber { row, column: Column::ArgumentOfPeriapsis },
            ),
            (_, _, _, Option::None, _) => Result::Err(
                LoadError::MalformedNumber { row, column: Column::MeanAnomalyAtEpoch },
            ),
            (_, _, _, _, Option::None) => Result::Err(
                LoadError::MalformedNumber { row, column: Column::PeriodDays },
            ),
            (
                Option::Some(a),
                Option::Some(e),
                Option::Some(omega),
                Option::Some(m0),
                Option::Some(period),
            ) => {
                if !(0 <= e < SCALE) {
                    Result::Err(LoadError::InvalidParameter { row, column: Column::Eccentricity })
                } else if !(0 < a <= SEMI_MAJOR_AXIS_MAX_MKM) {
                    Result::Err(
                        LoadError::InvalidParameter { row, column: Column::SemiMajorAxis },
                    )
                } else if !(0 < period <= PERIOD_MAX_MILLIDAYS) {
                    Result::Err(LoadError::InvalidParameter { row, column: Column::PeriodDays })
                } else {
                    Result::Ok(
                        RowView {
                            name: fs[0],
                            region: fs[1],
                            orbit: Option::Some(
                                ElementsView {
                                    semi_major_axis_mkm: a,
                                    eccentricity_nano: e,
                                    arg_periapsis_nano: omega % (TAU_NANO as int),
                                    mean_anomaly_epoch_nano: m0 % (TAU_NANO as int),
                                    period_millidays: period,
                                },
                            ),
                        },
                    )
                }
            },
        }
    }
}

/// Whether some already-accepted row carries this name.
pub open spec fn spec_rows_contain_name(rows: Seq<RowView>, name: Seq<u8>) -> bool {
    exists|i: int| 0 <= i < rows.len() && rows[i].name == name
}

/// Pairwise distinct row names.
pub open spec fn spec_names_distinct(rows: Seq<RowView>) -> bool {
    forall|i: int, j: int|
        0 <= i < j < rows.len() ==> (#[trigger] rows[i]).name != (#[trigger] rows[j]).name
}

/// Folds the data lines (everything after the header) into rows, stopping
/// at the first failure; blank lines are skipped and a repeated name is a
/// duplicate-name error at its row.
pub open spec fn spec_parse_rows(lines: Seq<Seq<u8>>, i: int, acc: Seq<RowView>) -> Result<
    Seq<RowView>,
    LoadError,
>
    decreases lines.len() - i,
{
    if i >= lines.len() {
        Result::Ok(acc)
    } else if lines[i].len() == 0 {
        spec_parse_rows(lines, i + 1, acc)
    } else {
        match spec_parse_row(lines[i], i as usize) {
            Result::Err(e) => Result::Err(e),
            Result::Ok(row) => if spec_rows_contain_name(acc, row.name) {
                Result::Err(LoadError::DuplicateName { row: i as usize })
            } else {
                spec_parse_rows(lines, i + 1, acc.push(row))
            },
        }
    }
}

/// The whole table: line zero is the header and is skipped.
pub open spec fn spec_load_table(src: Seq<u8>) -> Result<Seq<RowView>, LoadError> {
    spec_parse_rows(spec_split(src, 10), 1, Seq::empty())
}

/// Rows accepted by the fold have pairwise distinct names: a table with a
/// duplicate body name can never load successfully.
pub proof fn lemma_parsed_rows_distinct(lines: Seq<Seq<u8>>, i: int, acc: Seq<RowView>)
    requires
        spec_names_distinct(acc),
        spec_parse_rows(lines, i, acc) matches Result::Ok(_),
    ensures
        spec_parse_rows(lines, i, acc) matches Result::Ok(rows) ==> spec_names_distinct(rows),
    decreases lines.len() - i,
{
    if i >= lines.len() {
    } else if lines[i].len() == 0 {
        lemma_parsed_rows_distinct(lines, i + 1, acc);
    } else {
        match spec_parse_row(lines[i], i as usize) {
            Result::Err(_) => {},
            Result::Ok(row) => {
                if !spec_rows_contain_name(acc, row.name) {
                    assert(spec_names_distinct(acc.push(row))) by {
                        assert forall|a: int, b: int| 0 <= a < b < acc.push(row).len() implies (
                        #[trigger] acc.push(row)[a]).name != (#[trigger] acc.push(row)[b]).name by {
                            if b == acc.len() {
                                assert(acc.push(row)[a] == acc[a]);
                                assert(!(0 <= a < acc.len() && acc[a].name == row.name));
                            }
                        }
                    }
                    lemma_parsed_rows_distinct(lines, i + 1, acc.push(row));
                }
            },
        }
    }
}

/// Whether any parsed row already carries `name`.
fn row_name_taken(rows: &Vec<ParsedRow>, name: &[u8]) -> (r: bool)
    ensures
        r == spec_rows_contain_name(rows@.map_values(|p: ParsedRow| p@), name@),
{
    let n: usize = rows.len();
    let mut i: usize = 0;
    while i < n
        invariant
            0 <= i <= n,
            n == rows@.len(),
            forall|j: int| 0 <= j < i ==> (#[trigger] rows@[j])@.name != name@,
        decreases n - i,
    {
        if bytes_eq(rows[i].name.as_slice(), name) {
            proof {
                assert(rows@.map_values(|p: ParsedRow| p@)[i as int].name == name@);
            }
            return true;
        }
        i = i + 1;
    }
    proof {
        let ghost rv = rows@.map_values(|p: ParsedRow| p@);
        assert forall|j: int| 0 <= j < rv.len() implies (#[trigger] rv[j]).name != name@ by {
            assert(rv[j] == rows@[j]@);
        }
    }
    false
}

/// Parses and validates one data line; returns exactly what
/// [`spec_parse_row`] says, with the derived square root attached to the
/// elements of an orbiting row.
pub fn parse_row(line: &[u8], row: usize) -> (r: Result<ParsedRow, LoadError>)
    ensures
        match r {
            Result::Ok(pr) => spec_parse_row(line@, row) == Result::Ok::<RowView, LoadError>(
                pr@,
            ) && (match pr.orbit {
                Option::Some(p) => crate::orbit::spec_params_valid(p),
                Option::None => true,
            }),
            Result::Err(e) => spec_parse_row(line@, row) == Result::Err::<RowView, LoadError>(
                e,
            ),
        },
{
    let fields: Vec<Vec<u8>> = split_bytes(line, 44);
    let ghost fs = spec_split(line@, 44);
    proof {
        assert(fields@.map_values(|v: Vec<u8>| v@).len() == fs.len());
    }
    if fields.len() != 7 {
        return Result::Err(LoadError::WrongColumnCount { row });
    }
    proof {
        assert forall|k: int| 0 <= k < 7 implies fields@[k]@ == fs[k] by {
            assert(fields@.map_values(|v: Vec<u8>| v@)[k] == fs[k]);
        }
    }
    if fields[0].len() == 0 {
        return Result::Err(LoadError::MissingField { row, column: Column::Name });
    }
    let name: Vec<u8> = slice_to_vec(fields[0].as_slice());
    let region: Vec<u8> = slice_to_vec(fields[1].as_slice());
    if fields[2].len() == 0 && fields[3].len() == 0 && fields[4].len() == 0 && fields[5].len()
        == 0 && fields[6].len() == 0 {
        return Result::Ok(ParsedRow { name, region, orbit: Option::None });
    }
    if fields[2].len() == 0 {
        return Result::Err(LoadError::MissingField { row, column: Column::SemiMajorAxis });
    }
    if fields[3].len() == 0 {
        return Result::Err(LoadError::MissingField { row, column: Column::Eccentricity });
    }
    if fields[4].len() == 0 {
        return Result::Err(
            LoadError::MissingField { row, column: Column::ArgumentOfPeriapsis },
        );
    }
    if fields[5].len() == 0 {
        return Result::Err(LoadError::MissingField { row, column: Column::MeanAnomalyAtEpoch });
    }
    if fields[6].len() == 0 {
        return Result::Err(LoadError::MissingField { row, column: Column::PeriodDays });
    }
    let a128: i128 = match parse_fixed(fields[2].as_slice(), 3) {
        Option::None => {
            return Result::Err(
                LoadError::MalformedNumber { row, column: Column::SemiMajorAxis },
            );
        },
        Option::Some(v) => v,
    };
    let e128: i128 = match parse_fixed(fields[3].as_slice(), 9) {
        Option::None => {
            return Result::Err(
                LoadError::MalformedNumber { row, column: Column::Eccentricity },
            );
        },
        Option::Some(v) => v,
    };
    let om128: i128 = match parse_fixed(fields[4].as_slice(), 9) {
        Option::None => {
            return Result::Err(
                LoadError::MalformedNumber { row, column: Column::ArgumentOfPeriapsis },
            );
        },
        Option::Some(v) => v,
    };
    let m0128: i128 = match parse_fixed(fields[5].as_slice(), 9) {
        Option::None => {
            return Result::Err(
                LoadError::MalformedNumber { row, column: Column::MeanAnomalyAtEpoch },
            );
        },
        Option::Some(v) => v,
    };
    let per128: i128 = match parse_fixed(fields[6].as_slice(), 3) {
        Option::None => {
            return Result::Err(LoadError::MalformedNumber { row, column: Column::PeriodDays });
        },
        Option::Some(v) => v,
    };
    if !(0 <= e128 && e128 < SCALE as i128) {
        return Result::Err(LoadError::InvalidParameter { row, column: Column::Eccentricity });
    }
    if !(0 < a128 && a128 <= SEMI_MAJOR_AXIS_MAX_MKM as i128) {
        return Result::Err(LoadError::InvalidParameter { row, column: Column::SemiMajorAxis });
    }
    if !(0 < per128 && per128 <= PERIOD_MAX_MILLIDAYS as i128) {
        return Result::Err(LoadError::InvalidParameter { row, column: Column::PeriodDays });
    }
    let omega: i64 = norm_tau_i128(om128);
    let m0: i64 = norm_tau_i128(m0128);
    let params: OrbitalParameters = OrbitalParameters::new(a128 as i64, e128 as i64, omega, m0,
        per128 as u64);
    Result::Ok(ParsedRow { name, region, orbit: Option::Some(params) })
}

/// Parses the whole table, stopping at the first invalid row; on success
/// the rows are exactly those of [`spec_load_table`], valid and with
/// pairwise distinct names.
pub fn parse_table(src: &[u8]) -> (r: Result<Vec<ParsedRow>, LoadError>)
    ensures
        match r {
            Result::Ok(rows) => {
                &&& spec_load_table(src@) == Result::Ok::<Seq<RowView>, LoadError>(
                    rows@.map_values(|p: ParsedRow| p@),
                )
                &&& forall|i: int|
                    0 <= i < rows@.len() ==> (match (#[trigger] rows@[i]).orbit {
                        Option::Some(p) => crate::orbit::spec_params_valid(p),
                        Option::None => true,
                    })
                &&& spec_names_distinct(rows@.map_values(|p: ParsedRow| p@))
            },
            Result::Err(e) => spec_load_table(src@) == Result::Err::<Seq<RowView>, LoadError>(
                e,
            ),
        },
{
    let lines: Vec<Vec<u8>> = split_bytes(src, 10);
    let ghost linesv = spec_split(src@, 10);
    let mut rows: Vec<ParsedRow> = Vec::new();
    proof {
        assert(rows@.map_values(|p: ParsedRow| p@) =~= Seq::<RowView>::empty());
    }
    let n: usize = lines.len();
    let mut i: usize = 1;
    while i < n
        invariant
            1 <= i <= n,
            n == lines@.len(),
            linesv == spec_split(src@, 10),
            lines@.map_values(|v: Vec<u8>| v@) == linesv,
            spec_load_table(src@) == spec_parse_rows(linesv, i as int, rows@.map_values(
                |p: ParsedRow| p@)),
            forall|k: int|
                0 <= k < rows@.len() ==> (match (#[trigger] rows@[k]).orbit {
                    Option::Some(p) => crate::orbit::spec_params_valid(p),
                    Option::None => true,
                }),
            spec_names_distinct(rows@.map_values(|p: ParsedRow| p@)),
        decreases n - i,
    {
        proof {
            assert(lines@[i as int]@ == linesv[i as int]);
        }
        if lines[i].len() == 0 {
            i = i + 1;
        } else {
            match parse_row(lines[i].as_slice(), i) {
                Result::Err(e) => {
                    return Result::Err(e);
                },
                Result::Ok(pr) => {
                    if row_name_taken(&rows, pr.name.as_slice()) {
                        return Result::Err(LoadError::DuplicateName { row: i });
                    }
                    let ghost oldrows = rows@.map_values(|p: ParsedRow| p@);
                    let ghost prv = pr@;
                    rows.push(pr);
                    proof {
                        assert(rows@.map_values(|p: ParsedRow| p@) =~= oldrows.push(prv));
                        assert(spec_names_distinct(oldrows.push(prv))) by {
                            assert forall|a: int, b: int|
                                0 <= a < b < oldrows.push(prv).len() implies (
                            #[trigger] oldrows.push(prv)[a]).name != (#[trigger] oldrows.push(
                                prv)[b]).name by {
                                if b == oldrows.len() {
                                    assert(oldrows.push(prv)[a] == oldrows[a]);
                                    assert(!(0 <= a < oldrows.len() && oldrows[a].name
                                        == prv.name));
                                }
                            }
                        }
                    }
                    i = i + 1;
                },
            }
        }
    }
    Result::Ok(rows)
}

} // verus!

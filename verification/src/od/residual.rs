use vstd::prelude::*;
use crate::od::estimate::EpochFormat;
use crate::time::{Epoch, TimeTagged};
use crate::utils::string_of;

verus! {

/// What the postfit residual of a measurement update is taken against.
#[derive(Clone, Copy, Debug, PartialEq, Eq, Structural)]
pub enum PostfitBasis {
    /// The prefit residual less the sensitivity times the new estimate of the
    /// deviation: the extended filter.
    Estimate,
    /// The prefit residual less the sensitivity times the predicted deviation:
    /// the classical filter.
    Prediction,
}

/// The record of the residuals of one step. The prefit residual is the real
/// observation less the computed one; the numbers are with the numerical
/// host.
#[derive(Clone, Copy, Debug, PartialEq, Eq, Structural)]
pub struct Residual {
    pub dt: Epoch,
    pub basis: PostfitBasis,
    pub epoch_fmt: EpochFormat,
}

/// The decimal digits of `n`, most significant first.
pub open spec fn digits(n: nat) -> Seq<char>
    decreases n,
{
    if n < 10 {
        seq![digit(n)]
    } else {
        digits(n / 10).push(digit(n % 10))
    }
}

/// The character of one decimal digit.
pub open spec fn digit(d: nat) -> char {
    if d == 0 {
        '0'
    } else if d == 1 {
        '1'
    } else if d == 2 {
        '2'
    } else if d == 3 {
        '3'
    } else if d == 4 {
        '4'
    } else if d == 5 {
        '5'
    } else if d == 6 {
        '6'
    } else if d == 7 {
        '7'
    } else if d == 8 {
        '8'
    } else {
        '9'
    }
}

/// The character of one decimal digit.
fn digit_char(d: usize) -> (c: char)
    requires
        d < 10,
    ensures
        c == digit(d as nat),
{
    if d == 0 {
        '0'
    } else if d == 1 {
        '1'
    } else if d == 2 {
        '2'
    } else if d == 3 {
        '3'
    } else if d == 4 {
        '4'
    } else if d == 5 {
        '5'
    } else if d == 6 {
        '6'
    } else if d == 7 {
        '7'
    } else if d == 8 {
        '8'
    } else {
        '9'
    }
}

/// The decimal digits of `n`, most significant first.
pub fn decimal(n: usize) -> (v: Vec<char>)
    ensures
        v@ == digits(n as nat),
    decreases n,
{
    if n < 10 {
        let mut v: Vec<char> = Vec::new();
        v.push(digit_char(n));
        v
    } else {
        let mut v = decimal(n / 10);
        v.push(digit_char(n % 10));
        v
    }
}

/// The name of column `i` of a kind of residual: the kind, an underscore and
/// the index in decimal.
pub open spec fn column_name(kind: Seq<char>, i: nat) -> Seq<char> {
    kind + seq!['_'] + digits(i)
}

/// The name of the column that holds the epoch.
pub open spec fn epoch_column(epoch_fmt: EpochFormat) -> Seq<char> {
    match epoch_fmt {
        EpochFormat::GregorianUtc => "Epoch:GregorianUtc"@,
        EpochFormat::GregorianTai => "Epoch:GregorianTai"@,
        EpochFormat::MjdTai => "Epoch:MjdTai"@,
        EpochFormat::MjdTt => "Epoch:MjdTt"@,
        EpochFormat::MjdUtc => "Epoch:MjdUtc"@,
        EpochFormat::JdeEt => "Epoch:JdeEt"@,
        EpochFormat::JdeTai => "Epoch:JdeTai"@,
        EpochFormat::JdeTt => "Epoch:JdeTt"@,
        EpochFormat::JdeUtc => "Epoch:JdeUtc"@,
        EpochFormat::TaiSecs(_) => "Epoch:TaiSecs"@,
        EpochFormat::TaiDays(_) => "Epoch:TaiDays"@,
    }
}

fn epoch_column_name(epoch_fmt: EpochFormat) -> (s: String)
    ensures
        s@ == epoch_column(epoch_fmt),
{
    match epoch_fmt {
        EpochFormat::GregorianUtc => "Epoch:GregorianUtc".to_string(),
        EpochFormat::GregorianTai => "Epoch:GregorianTai".to_string(),
        EpochFormat::MjdTai => "Epoch:MjdTai".to_string(),
        EpochFormat::MjdTt => "Epoch:MjdTt".to_string(),
        EpochFormat::MjdUtc => "Epoch:MjdUtc".to_string(),
        EpochFormat::JdeEt => "Epoch:JdeEt".to_string(),
        EpochFormat::JdeTai => "Epoch:JdeTai".to_string(),
        EpochFormat::JdeTt => "Epoch:JdeTt".to_string(),
        EpochFormat::JdeUtc => "Epoch:JdeUtc".to_string(),
        EpochFormat::TaiSecs(_) => "Epoch:TaiSecs".to_string(),
        EpochFormat::TaiDays(_) => "Epoch:TaiDays".to_string(),
    }
}

fn column(kind: &str, i: usize) -> (s: String)
    ensures
        s@ == column_name(kind@, i as nat),
{
    let mut chars = crate::utils::chars_of(kind);
    chars.push('_');
    let number = decimal(i);
    let mut j: usize = 0;
    let ghost base = chars@;
    while j < number.len()
        invariant
            j <= number@.len(),
            chars@ == base + number@.take(j as int),
        decreases number@.len() - j,
    {
        chars.push(number[j]);
        assert(chars@ =~= base + number@.take(j + 1));
        j += 1;
    }
    assert(number@.take(number@.len() as int) =~= number@);
    string_of(chars.as_slice())
}

impl Residual {
    /// The residual of a step without a measurement, at the reference epoch.
    pub fn zeros() -> (r: Residual)
        ensures
            r == (Residual {
                dt: Epoch { nanos: 0 },
                basis: PostfitBasis::Prediction,
                epoch_fmt: EpochFormat::GregorianUtc,
            }),
    {
        Residual {
            dt: Epoch { nanos: 0 },
            basis: PostfitBasis::Prediction,
            epoch_fmt: EpochFormat::GregorianUtc,
        }
    }

    /// The residual of a measurement update at `dt`.
    pub fn new(dt: Epoch, basis: PostfitBasis) -> (r: Residual)
        ensures
            r == (Residual { dt, basis, epoch_fmt: EpochFormat::GregorianUtc }),
    {
        Residual { dt, basis, epoch_fmt: EpochFormat::GregorianUtc }
    }

    /// The names of the columns of a residual of `size` observations: the
    /// epoch, then the prefit residuals, then the postfit residuals.
    pub fn header(epoch_fmt: EpochFormat, size: usize) -> (hdr_v: Vec<String>)
        requires
            2 * size + 1 <= usize::MAX,
        ensures
            hdr_v@.len() == 2 * size + 1,
            hdr_v@[0]@ == epoch_column(epoch_fmt),
            forall|i: int|
                0 <= i < size ==> (#[trigger] hdr_v@[1 + i])@ == column_name("prefit"@, i as nat),
            forall|i: int|
                0 <= i < size ==> (#[trigger] hdr_v@[1 + size + i])@ == column_name(
                    "postfit"@,
                    i as nat,
                ),
    {
        let mut hdr_v: Vec<String> = Vec::new();
        hdr_v.push(epoch_column_name(epoch_fmt));
        let mut i: usize = 0;
        while i < size
            invariant
                i <= size,
                hdr_v@.len() == 1 + i,
                hdr_v@[0]@ == epoch_column(epoch_fmt),
                forall|k: int|
                    0 <= k < i ==> (#[trigger] hdr_v@[1 + k])@ == column_name("prefit"@, k as nat),
            decreases size - i,
        {
            hdr_v.push(column("prefit", i));
            i += 1;
        }
        let mut j: usize = 0;
        while j < size
            invariant
                j <= size,
                2 * size + 1 <= usize::MAX,
                hdr_v@.len() == 1 + size + j,
                hdr_v@[0]@ == epoch_column(epoch_fmt),
                forall|k: int|
                    0 <= k < size ==> (#[trigger] hdr_v@[1 + k])@ == column_name(
                        "prefit"@,
                        k as nat,
                    ),
                forall|k: int|
                    0 <= k < j ==> (#[trigger] hdr_v@[1 + size + k])@ == column_name(
                        "postfit"@,
                        k as nat,
                    ),
            decreases size - j,
        {
            hdr_v.push(column("postfit", j));
            j += 1;
        }
        hdr_v
    }

    /// The names of the columns of a residual whose epoch is written in the
    /// Gregorian calendar, in UTC.
    pub fn default_header(size: usize) -> (hdr_v: Vec<String>)
        requires
            2 * size + 1 <= usize::MAX,
        ensures
            hdr_v@.len() == 2 * size + 1,
            hdr_v@[0]@ == epoch_column(EpochFormat::GregorianUtc),
            forall|i: int|
                0 <= i < size ==> (#[trigger] hdr_v@[1 + i])@ == column_name("prefit"@, i as nat),
            forall|i: int|
                0 <= i < size ==> (#[trigger] hdr_v@[1 + size + i])@ == column_name(
                    "postfit"@,
                    i as nat,
                ),
    {
        Self::header(EpochFormat::GregorianUtc, size)
    }
}

impl TimeTagged for Residual {
    open spec fn tagged_epoch(&self) -> Epoch {
        self.dt
    }

    fn epoch(&self) -> (e: Epoch) {
        self.dt
    }

    fn set_epoch(&mut self, epoch: Epoch) {
        self.dt = epoch;
    }
}

} // verus!

use vstd::prelude::*;

verus! {

/// The sum of a sample.
pub open spec fn sample_sum(s: Seq<usize>) -> int
    decreases s.len(),
{
    if s.len() == 0 {
        0
    } else {
        sample_sum(s.drop_last()) + s.last()
    }
}

/// `m` is the least value of `s`.
pub open spec fn is_min_of(s: Seq<usize>, m: usize) -> bool {
    (exists|i: int| 0 <= i < s.len() && s[i] == m) && forall|i: int|
        0 <= i < s.len() ==> m <= #[trigger] s[i]
}

/// `m` is the greatest value of `s`.
pub open spec fn is_max_of(s: Seq<usize>, m: usize) -> bool {
    (exists|i: int| 0 <= i < s.len() && s[i] == m) && forall|i: int|
        0 <= i < s.len() ==> #[trigger] s[i] <= m
}

/// The positive values of `s`, in their order.
pub open spec fn positive_values(s: Seq<usize>) -> Seq<usize>
    decreases s.len(),
{
    if s.len() == 0 {
        Seq::empty()
    } else if s.last() > 0 {
        positive_values(s.drop_last()).push(s.last())
    } else {
        positive_values(s.drop_last())
    }
}

/// Exact summary statistics of a non-empty sample.
pub struct SampleSummary {
    pub count: usize,
    pub total: u128,
    pub min: usize,
    pub max: usize,
}

/// The count, sum, least and greatest value of `data`, or `None` when there
/// is no data to summarise.
pub fn summarize(data: &[usize]) -> (r: Option<SampleSummary>)
    ensures
        r is None <==> data@.len() == 0,
        r matches Some(sm) ==> {
            &&& sm.count == data@.len()
            &&& sm.total == sample_sum(data@)
            &&& is_min_of(data@, sm.min)
            &&& is_max_of(data@, sm.max)
        },
{
    let n = data.len();
    if n == 0 {
        return None;
    }
    let mut total: u128 = data[0] as u128;
    let mut min = data[0];
    let mut max = data[0];
    let mut i: usize = 1;
    assert(data@.subrange(0, 1).drop_last() =~= data@.subrange(0, 0));
    assert(sample_sum(data@.subrange(0, 0)) == 0);
    while i < n
        invariant
            n == data@.len(),
            1 <= i <= n,
            total == sample_sum(data@.subrange(0, i as int)),
            total <= i * 0xFFFF_FFFF_FFFF_FFFFu128,
            exists|k: int| 0 <= k < i && data@[k] == min,
            exists|k: int| 0 <= k < i && data@[k] == max,
            forall|k: int| 0 <= k < i ==> min <= #[trigger] data@[k],
            forall|k: int| 0 <= k < i ==> #[trigger] data@[k] <= max,
        decreases n - i,
    {
        let x = data[i];
        assert(data@.subrange(0, i + 1).drop_last() =~= data@.subrange(0, i as int));
        assert(total + x <= (i + 1) * 0xFFFF_FFFF_FFFF_FFFFu128) by (nonlinear_arith)
            requires
                total <= i * 0xFFFF_FFFF_FFFF_FFFFu128,
                x <= 0xFFFF_FFFF_FFFF_FFFFu128,
        ;
        assert((i + 1) * 0xFFFF_FFFF_FFFF_FFFFu128 <= 0xFFFF_FFFF_FFFF_FFFF * 0xFFFF_FFFF_FFFF_FFFFu128)
            by (nonlinear_arith)
            requires
                i + 1 <= 0xFFFF_FFFF_FFFF_FFFFu128,
        ;
        total = total + x as u128;
        if x < min {
            min = x;
        }
        if x > max {
            max = x;
        }
        i = i + 1;
    }
    assert(data@.subrange(0, n as int) =~= data@);
    Some(SampleSummary { count: n, total, min, max })
}

/// What the positive values of a sample allow a power-law fit to do.
pub enum PowerLawInput {
    /// No value is positive: there is nothing to fit.
    NoPositiveValues,
    /// Exactly one value is positive: the exponent and cutoff are undefined.
    SingleValue,
    /// At least two positive values, in their order in the sample, and the
    /// least of them, which fixes the cutoff.
    Sample { values: Vec<usize>, x_min: usize },
}

/// Selects the positive values of `data` for a power-law fit, and tells
/// apart the cases in which the fit is not defined.
pub fn power_law_input(data: &[usize]) -> (r: PowerLawInput)
    ensures
        r is NoPositiveValues <==> positive_values(data@).len() == 0,
        r is SingleValue <==> positive_values(data@).len() == 1,
        r matches PowerLawInput::Sample { values, x_min } ==> {
            &&& values@ == positive_values(data@)
            &&& is_min_of(values@, x_min)
        },
{
    let n = data.len();
    let mut values: Vec<usize> = Vec::new();
    let mut i: usize = 0;
    while i < n
        invariant
            n == data@.len(),
            i <= n,
            values@ == positive_values(data@.subrange(0, i as int)),
        decreases n - i,
    {
        assert(data@.subrange(0, i + 1).drop_last() =~= data@.subrange(0, i as int));
        if data[i] > 0 {
            values.push(data[i]);
        }
        i = i + 1;
    }
    assert(data@.subrange(0, n as int) =~= data@);
    let m = values.len();
    if m == 0 {
        return PowerLawInput::NoPositiveValues;
    }
    if m == 1 {
        return PowerLawInput::SingleValue;
    }
    let mut x_min = values[0];
    let mut k: usize = 1;
    while k < m
        invariant
            m == values@.len(),
            1 <= k <= m,
            exists|j: int| 0 <= j < k && values@[j] == x_min,
            forall|j: int| 0 <= j < k ==> x_min <= #[trigger] values@[j],
        decreases m - k,
    {
        if values[k] < x_min {
            x_min = values[k];
        }
        k = k + 1;
    }
    PowerLawInput::Sample { values, x_min }
}

} // verus!

use vstd::prelude::*;
use crate::errors::JobError;

verus! {

/// How long each visualization preset is shown, in seconds, when the request
/// does not choose a duration.
pub const DEFAULT_PRESET_DURATION: u32 = 10;

/// A raw job request, exactly as the caller supplies it.
#[derive(Debug)]
pub struct Args {
    pub input_url: String,
    pub preset_duration: Option<u32>,
    pub resolution: String,
}

/// Target video resolution in pixels. Both sides are positive once a request
/// has been normalized.
#[derive(Debug, Clone, Copy, PartialEq, Eq, Structural)]
pub struct Resolution {
    pub width: u32,
    pub height: u32,
}

/// A validated job request: non-empty input location, a concrete preset
/// duration, and a parsed resolution.
#[derive(Debug)]
pub struct JobRequest {
    pub input_url: String,
    pub preset_duration: u32,
    pub resolution: Resolution,
}

pub open spec fn is_digit(c: char) -> bool {
    '0' as int <= c as int && c as int <= '9' as int
}

pub open spec fn digit_val(c: char) -> int {
    c as int - '0' as int
}

pub open spec fn all_digits(s: Seq<char>) -> bool {
    forall|i: int| 0 <= i < s.len() ==> is_digit(#[trigger] s[i])
}

/// The number written by a string of decimal digits, most significant first.
pub open spec fn digits_value(s: Seq<char>) -> int
    decreases s.len(),
{
    if s.len() == 0 {
        0
    } else {
        digits_value(s.drop_last()) * 10 + digit_val(s.last())
    }
}

/// The resolution grammar: one or more digits, one `'x'` at position `i`,
/// one or more digits.
pub open spec fn resolution_split_at(s: Seq<char>, i: int) -> bool {
    &&& 1 <= i
    &&& i + 1 < s.len()
    &&& s[i] == 'x'
    &&& all_digits(s.subrange(0, i))
    &&& all_digits(s.subrange(i + 1, s.len() as int))
}

/// The position of the separating `'x'`; meaningful only when some split
/// exists, in which case it is unique.
pub open spec fn resolution_split_index(s: Seq<char>) -> int {
    choose|i: int| resolution_split_at(s, i)
}

pub open spec fn spec_width_str(s: Seq<char>) -> Seq<char> {
    s.subrange(0, resolution_split_index(s))
}

pub open spec fn spec_height_str(s: Seq<char>) -> Seq<char> {
    s.subrange(resolution_split_index(s) + 1, s.len() as int)
}

/// A resolution string is valid when it matches the `WIDTHxHEIGHT` grammar
/// and both sides denote positive numbers that fit the machine word.
pub open spec fn valid_resolution(s: Seq<char>) -> bool {
    &&& exists|i: int| resolution_split_at(s, i)
    &&& 1 <= digits_value(spec_width_str(s)) <= u32::MAX
    &&& 1 <= digits_value(spec_height_str(s)) <= u32::MAX
}

pub open spec fn spec_width(s: Seq<char>) -> int {
    digits_value(spec_width_str(s))
}

pub open spec fn spec_height(s: Seq<char>) -> int {
    digits_value(spec_height_str(s))
}

/// Any `'x'` in a string that splits somewhere must be the split itself:
/// the digit segments on either side cannot contain an `'x'`.
pub proof fn lemma_x_position(s: Seq<char>, j: int, k: int)
    requires
        resolution_split_at(s, j),
        0 <= k < s.len(),
        s[k] == 'x',
    ensures
        k == j,
{
    if k < j {
        assert(s.subrange(0, j)[k] == 'x');
        assert(is_digit(s.subrange(0, j)[k]));
        assert(!is_digit('x'));
    } else if k > j {
        assert(s.subrange(j + 1, s.len() as int)[k - j - 1] == 'x');
        assert(is_digit(s.subrange(j + 1, s.len() as int)[k - j - 1]));
        assert(!is_digit('x'));
    }
}

/// With a known split the `choose` in `resolution_split_index` resolves to it.
pub proof fn lemma_split_index_is(s: Seq<char>, i: int)
    requires
        resolution_split_at(s, i),
    ensures
        resolution_split_index(s) == i,
{
    let j = choose|j: int| resolution_split_at(s, j);
    assert(resolution_split_at(s, j));
    assert(s[i] == 'x');
    lemma_x_position(s, j, i);
}

pub proof fn lemma_digits_value_nonneg(s: Seq<char>)
    requires
        all_digits(s),
    ensures
        digits_value(s) >= 0,
    decreases s.len(),
{
    if s.len() > 0 {
        assert(all_digits(s.drop_last())) by {
            assert(forall|i: int| 0 <= i < s.len() - 1 ==> s.drop_last()[i] == s[i]);
        }
        lemma_digits_value_nonneg(s.drop_last());
        assert(is_digit(s.last()));
    }
}

/// Appending further digits never shrinks the number a digit string denotes.
pub proof fn lemma_digits_value_prefix_le(t: Seq<char>, k: int)
    requires
        all_digits(t),
        0 <= k <= t.len(),
    ensures
        digits_value(t.subrange(0, k)) <= digits_value(t),
    decreases t.len() - k,
{
    if k == t.len() {
        assert(t.subrange(0, k) =~= t);
    } else {
        let a = t.subrange(0, k);
        let b = t.subrange(0, k + 1);
        assert(b.drop_last() =~= a);
        assert(all_digits(a)) by {
            assert(forall|i: int| 0 <= i < k ==> a[i] == t[i]);
        }
        lemma_digits_value_nonneg(a);
        assert(b.last() == t[k]);
        assert(is_digit(t[k]));
        assert(digits_value(b) == digits_value(a) * 10 + digit_val(t[k]));
        assert(digits_value(a) * 10 >= digits_value(a));
        lemma_digits_value_prefix_le(t, k + 1);
    }
}

/// Whether every character of `s` in `[from, to)` is a decimal digit.
fn check_digits(s: &str, from: usize, to: usize) -> (r: bool)
    requires
        from <= to <= s@.len(),
    ensures
        r == all_digits(s@.subrange(from as int, to as int)),
{
    let ghost sub = s@.subrange(from as int, to as int);
    let mut i: usize = from;
    while i < to
        invariant
            from <= i <= to <= s@.len(),
            sub == s@.subrange(from as int, to as int),
            forall|k: int| from <= k < i ==> is_digit(#[trigger] s@[k]),
        decreases to - i,
    {
        let c = s.get_char(i);
        let cu = c as u32;
        if cu < 48 || cu > 57 {
            assert(!is_digit(sub[i - from]));
            return false;
        }
        assert(is_digit(s@[i as int]));
        i += 1;
    }
    assert forall|m: int| 0 <= m < sub.len() implies is_digit(#[trigger] sub[m]) by {
        assert(sub[m] == s@[from + m]);
    }
    true
}

/// Parse the digits of `s` in `[from, to)` as a number, most significant
/// first; `None` when the number does not fit the machine word.
fn parse_number(s: &str, from: usize, to: usize) -> (r: Option<u32>)
    requires
        from <= to <= s@.len(),
        all_digits(s@.subrange(from as int, to as int)),
    ensures
        match r {
            Some(v) => v as int == digits_value(s@.subrange(from as int, to as int)),
            None => digits_value(s@.subrange(from as int, to as int)) > u32::MAX,
        },
{
    let ghost full = s@.subrange(from as int, to as int);
    let mut acc: u64 = 0;
    let mut i: usize = from;
    while i < to
        invariant
            from <= i <= to <= s@.len(),
            full == s@.subrange(from as int, to as int),
            all_digits(full),
            acc as int == digits_value(s@.subrange(from as int, i as int)),
            acc <= u32::MAX,
        decreases to - i,
    {
        let c = s.get_char(i);
        assert(is_digit(full[i - from]));
        assert(full[i - from] == s@[i as int]);
        let cu = c as u32;
        let d: u64 = (cu - 48) as u64;
        assert(d as int == digit_val(s@[i as int]));
        let next: u64 = acc * 10 + d;
        let ghost prev_seq = s@.subrange(from as int, i as int);
        let ghost cur_seq = s@.subrange(from as int, i + 1 as int);
        assert(cur_seq.drop_last() =~= prev_seq);
        assert(cur_seq.last() == s@[i as int]);
        assert(next as int == digits_value(cur_seq));
        if next > u32::MAX as u64 {
            assert(all_digits(cur_seq)) by {
                assert(forall|k: int| 0 <= k < cur_seq.len() ==> cur_seq[k] == full[k]);
            }
            proof {
                assert(full.subrange(0, i + 1 - from) =~= cur_seq);
                lemma_digits_value_prefix_le(full, i + 1 - from);
            }
            return None;
        }
        acc = next;
        i += 1;
    }
    assert(s@.subrange(from as int, to as int) == full);
    Some(acc as u32)
}

/// Parse a `WIDTHxHEIGHT` string. Returns the two sides exactly as written
/// when the string matches the grammar and both sides are positive numbers
/// that fit the machine word; `None` otherwise.
pub fn parse_resolution(s: &str) -> (r: Option<Resolution>)
    ensures
        match r {
            Some(res) => valid_resolution(s@) && res.width as int == spec_width(s@)
                && res.height as int == spec_height(s@),
            None => !valid_resolution(s@),
        },
{
    let n = s.unicode_len();

    // Find the first 'x'; any split must sit exactly there.
    let mut xi: usize = 0;
    let mut found = false;
    while xi < n && !found
        invariant
            0 <= xi <= n == s@.len(),
            found ==> xi < n && s@[xi as int] == 'x',
            !found ==> forall|k: int| 0 <= k < xi ==> s@[k] != 'x',
        decreases n - xi, (if found { 0int } else { 1int }),
    {
        if s.get_char(xi) == 'x' {
            found = true;
        } else {
            xi += 1;
        }
    }
    if !found {
        proof {
            if valid_resolution(s@) {
                let j = choose|j: int| resolution_split_at(s@, j);
                assert(s@[j] == 'x');
            }
        }
        return None;
    }
    if xi < 1 || xi + 1 >= n {
        proof {
            if valid_resolution(s@) {
                let j = choose|j: int| resolution_split_at(s@, j);
                lemma_x_position(s@, j, xi as int);
            }
        }
        return None;
    }
    if !check_digits(s, 0, xi) || !check_digits(s, xi + 1, n) {
        proof {
            if valid_resolution(s@) {
                let j = choose|j: int| resolution_split_at(s@, j);
                lemma_x_position(s@, j, xi as int);
            }
        }
        return None;
    }
    proof {
        assert(resolution_split_at(s@, xi as int));
        lemma_split_index_is(s@, xi as int);
    }
    let w = match parse_number(s, 0, xi) {
        Some(v) => v,
        None => {
            return None;
        },
    };
    let h = match parse_number(s, xi + 1, n) {
        Some(v) => v,
        None => {
            return None;
        },
    };
    if w == 0 || h == 0 {
        return None;
    }
    Some(Resolution { width: w, height: h })
}

pub open spec fn normalized_duration(d: Option<u32>) -> u32 {
    match d {
        Some(v) => v,
        None => DEFAULT_PRESET_DURATION,
    }
}

/// Whether a raw request passes validation.
pub open spec fn valid_args(args: Args) -> bool {
    args.input_url@.len() > 0 && valid_resolution(args.resolution@)
}

/// Validate a raw request and fill defaults.
///
/// Fails, with a validation error, exactly when the input location is empty
/// or the resolution does not match the `WIDTHxHEIGHT` grammar; the preset
/// duration defaults to `DEFAULT_PRESET_DURATION` when absent and nothing
/// else is defaulted.
pub fn normalize_request(args: &Args) -> (r: Result<JobRequest, JobError>)
    ensures
        match r {
            Ok(jr) => valid_args(*args) && jr.input_url@ == args.input_url@
                && jr.resolution.width as int == spec_width(args.resolution@)
                && jr.resolution.height as int == spec_height(args.resolution@)
                && jr.preset_duration == normalized_duration(args.preset_duration),
            Err(e) => !valid_args(*args) && e is Validation,
        },
{
    if args.input_url.as_str().is_empty() {
        return Err(JobError::Validation { message: String::from_str("input url is required") });
    }
    let resolution = match parse_resolution(args.resolution.as_str()) {
        Some(res) => res,
        None => {
            return Err(
                JobError::Validation { message: String::from_str("invalid resolution format") },
            );
        },
    };
    let preset_duration = match args.preset_duration {
        Some(d) => d,
        None => DEFAULT_PRESET_DURATION,
    };
    Ok(JobRequest { input_url: args.input_url.clone(), preset_duration, resolution })
}

} // verus!

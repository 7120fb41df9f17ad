//! The sampling parameters, read from their stored text.

use vstd::prelude::*;

verus! {

/// A decimal number: `mantissa` times ten to the power of minus `scale`.
#[derive(PartialEq, Eq, Structural, Clone, Copy, Debug)]
pub struct DecimalNumber {
    pub mantissa: i128,
    pub scale: u32,
}

/// The number that a text denotes, as `rust_decimal` reads it (mantissa and
/// scale), or `None` when it is not a number.
pub uninterp spec fn decimal_of(s: Seq<char>) -> Option<(i128, u32)>;

/// Relies on `rust_decimal::Decimal::from_str`, `Decimal::mantissa` and
/// `Decimal::scale`: whether a text is a number, and which, depends on the
/// text alone.
#[verifier::external_body]
fn parse_decimal(s: &str) -> (r: Option<DecimalNumber>)
    ensures
        match r {
            Some(d) => decimal_of(s@) == Some((d.mantissa, d.scale)),
            None => decimal_of(s@) is None,
        },
{
    match <rust_decimal::Decimal as std::str::FromStr>::from_str(s) {
        Ok(d) => Some(DecimalNumber { mantissa: d.mantissa(), scale: d.scale() }),
        Err(_) => None,
    }
}

/// The decimal number of a text, if it is one.
pub open spec fn decimal_number_of(s: Seq<char>) -> Option<DecimalNumber> {
    match decimal_of(s) {
        Some(p) => Some(DecimalNumber { mantissa: p.0, scale: p.1 }),
        None => None,
    }
}

/// Reads a decimal number.
pub fn read_decimal(s: &str) -> (r: Option<DecimalNumber>)
    ensures
        r == decimal_number_of(s@),
{
    parse_decimal(s)
}

/// Every character is an ASCII digit.
pub open spec fn all_digits(s: Seq<char>) -> bool {
    forall|i: int| 0 <= i < s.len() ==> '0' <= #[trigger] s[i] <= '9'
}

/// The value of a string of decimal digits.
pub open spec fn digits_value(s: Seq<char>) -> int
    decreases s.len(),
{
    if s.len() == 0 {
        0
    } else {
        digits_value(s.drop_last()) * 10 + (s.last() as int - '0' as int)
    }
}

/// The digits of a count: the text without one leading `+`.
pub open spec fn count_digits(s: Seq<char>) -> Seq<char> {
    if s.len() > 0 && s[0] == '+' {
        s.skip(1)
    } else {
        s
    }
}

/// The count that a text denotes, as `usize::from_str` reads it: an
/// optional `+` and at least one digit, with a value that fits in `usize`.
pub open spec fn count_of(s: Seq<char>) -> Option<usize> {
    let d = count_digits(s);
    if d.len() > 0 && all_digits(d) && digits_value(d) <= usize::MAX {
        Some(digits_value(d) as usize)
    } else {
        None
    }
}

proof fn lemma_digits_value_grows(s: Seq<char>, j: int)
    requires
        all_digits(s),
        0 <= j <= s.len(),
    ensures
        0 <= digits_value(s.subrange(0, j)) <= digits_value(s),
    decreases s.len(),
{
    if s.len() > 0 {
        assert(all_digits(s.drop_last()));
        if j == s.len() {
            assert(s.subrange(0, j) =~= s);
            lemma_digits_value_grows(s.drop_last(), j - 1);
        } else {
            lemma_digits_value_grows(s.drop_last(), j);
            assert(s.drop_last().subrange(0, j) =~= s.subrange(0, j));
        }
        assert(s.subrange(0, s.len() - 1) =~= s.drop_last());
    } else {
        assert(s.subrange(0, j) =~= s);
    }
}

/// Reads a count (a number of candidates, a number of tokens).
pub fn read_count(s: &str) -> (r: Option<usize>)
    ensures
        r == count_of(s@),
{
    let n = s.unicode_len();
    let mut start: usize = 0;
    if n > 0 && s.get_char(0) == '+' {
        start = 1;
    }
    let ghost d = count_digits(s@);
    assert(d =~= s@.skip(start as int));
    if start == n {
        return None;
    }
    let mut value: usize = 0;
    let mut i: usize = start;
    while i < n
        invariant
            n == s@.len(),
            start <= i <= n,
            d =~= s@.skip(start as int),
            d == count_digits(s@),
            all_digits(d.subrange(0, i - start)),
            value as int == digits_value(d.subrange(0, i - start)),
        decreases n - i,
    {
        let c = s.get_char(i);
        let ghost prev = d.subrange(0, i - start);
        let ghost next = d.subrange(0, i + 1 - start);
        assert(next.drop_last() =~= prev);
        assert(next.last() == c);
        if c < '0' || c > '9' {
            assert(!all_digits(d)) by {
                assert(d[i - start] == c);
            }
            assert(count_of(s@) is None);
            return None;
        }
        let digit = (c as u32 - '0' as u32) as usize;
        assert(digit as int == c as int - '0' as int);
        if value > (usize::MAX - digit) / 10 {
            proof {
                assert(digits_value(next) > usize::MAX) by (nonlinear_arith)
                    requires
                        value > (usize::MAX - digit) / 10,
                        digits_value(next) == value * 10 + digit,
                        0 <= digit <= 9,
                ;
                if all_digits(d) {
                    lemma_digits_value_grows(d, i + 1 - start);
                }
                assert(count_of(s@) is None);
            }
            return None;
        }
        assert(value * 10 + digit <= usize::MAX) by (nonlinear_arith)
            requires
                value <= (usize::MAX - digit) / 10,
                0 <= digit <= 9,
        ;
        value = value * 10 + digit;
        i = i + 1;
    }
    assert(d.subrange(0, n - start) =~= d);
    Some(value)
}

/// Names a stored sampling setting.
#[derive(PartialEq, Eq, Structural, Clone, Copy, Debug)]
pub enum SettingName {
    Temperature,
    TopP,
    TopK,
    RepetitionPenalty,
}

/// A stored setting whose text is not a value of its kind.
pub struct ConfigurationError {
    pub setting: SettingName,
    pub text: String,
}

/// The sampling parameters as stored: text, as the user typed them.
pub struct InferenceParameters {
    pub prompt_template: String,
    pub temperature: String,
    pub top_p: String,
    pub top_k: String,
    pub repetition_penalty: String,
}

/// The sampling parameters as the generation step uses them.
#[derive(PartialEq, Eq, Structural, Clone, Copy, Debug)]
pub struct SamplingSettings {
    pub temperature: DecimalNumber,
    pub top_p: DecimalNumber,
    pub top_k: usize,
    pub repeat_penalty: DecimalNumber,
}

/// All four settings read as numbers.
pub open spec fn settings_readable(p: InferenceParameters) -> bool {
    &&& decimal_number_of(p.top_p@) is Some
    &&& count_of(p.top_k@) is Some
    &&& decimal_number_of(p.repetition_penalty@) is Some
    &&& decimal_number_of(p.temperature@) is Some
}

/// The first setting, in the order top-p, top-k, repetition penalty,
/// temperature, whose text does not read as a number.
pub open spec fn first_unreadable(p: InferenceParameters) -> SettingName {
    if decimal_number_of(p.top_p@) is None {
        SettingName::TopP
    } else if count_of(p.top_k@) is None {
        SettingName::TopK
    } else if decimal_number_of(p.repetition_penalty@) is None {
        SettingName::RepetitionPenalty
    } else {
        SettingName::Temperature
    }
}

/// The stored text of a setting.
pub open spec fn setting_text(p: InferenceParameters, name: SettingName) -> Seq<char> {
    match name {
        SettingName::Temperature => p.temperature@,
        SettingName::TopP => p.top_p@,
        SettingName::TopK => p.top_k@,
        SettingName::RepetitionPenalty => p.repetition_penalty@,
    }
}

/// Reads the sampling settings from their stored text. A text that is not a
/// number is an error that names the setting; no default stands in for it.
pub fn build_parameters(p: &InferenceParameters) -> (r: Result<SamplingSettings, ConfigurationError>)
    ensures
        settings_readable(*p) <==> r is Ok,
        r matches Ok(s) ==> {
            &&& Some(s.top_p) == decimal_number_of(p.top_p@)
            &&& Some(s.top_k) == count_of(p.top_k@)
            &&& Some(s.repeat_penalty) == decimal_number_of(p.repetition_penalty@)
            &&& Some(s.temperature) == decimal_number_of(p.temperature@)
        },
        r matches Err(e) ==> e.setting == first_unreadable(*p) && e.text@ == setting_text(
            *p,
            e.setting,
        ),
{
    let top_p = match read_decimal(p.top_p.as_str()) {
        Some(v) => v,
        None => {
            return Err(ConfigurationError { setting: SettingName::TopP, text: p.top_p.clone() });
        },
    };
    let top_k = match read_count(p.top_k.as_str()) {
        Some(v) => v,
        None => {
            return Err(ConfigurationError { setting: SettingName::TopK, text: p.top_k.clone() });
        },
    };
    let repeat_penalty = match read_decimal(p.repetition_penalty.as_str()) {
        Some(v) => v,
        None => {
            return Err(
                ConfigurationError {
                    setting: SettingName::RepetitionPenalty,
                    text: p.repetition_penalty.clone(),
                },
            );
        },
    };
    let temperature = match read_decimal(p.temperature.as_str()) {
        Some(v) => v,
        None => {
            return Err(
                ConfigurationError { setting: SettingName::Temperature, text: p.temperature.clone() },
            );
        },
    };
    Ok(SamplingSettings { temperature, top_p, top_k, repeat_penalty })
}

} // verus!

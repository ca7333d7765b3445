//! The size of the audio context that a model encodes, as it is configured and as it is used.

use crate::text::{
    ascii_lowered, chars_of, decimal, digit, str_eq, to_ascii_lower, trim, trimmed,
};
use vstd::prelude::*;

verus! {

/// How the audio context is chosen.
#[derive(Clone, Copy, Debug, PartialEq, Eq, Structural)]
pub enum AudioCtxConfig {
    Auto,
    Fixed(u32),
    Full,
}

impl Default for AudioCtxConfig {
    fn default() -> (r: Self)
        ensures
            r == AudioCtxConfig::Auto,
    {
        AudioCtxConfig::Auto
    }
}

/// Why a value is no audio context.
#[derive(Clone, Copy, Debug, PartialEq, Eq, Structural)]
pub enum AudioCtxError {
    Empty,
    InvalidDigit,
    TooLarge,
    OutOfRange,
}

impl AudioCtxError {
    pub open spec fn text(self) -> Seq<char> {
        match self {
            AudioCtxError::Empty => "cannot parse integer from empty string"@,
            AudioCtxError::InvalidDigit => "invalid digit found in string"@,
            AudioCtxError::TooLarge => "number too large to fit in target type"@,
            AudioCtxError::OutOfRange => "out of range integral type conversion attempted"@,
        }
    }

    pub fn message(self) -> (r: &'static str)
        ensures
            r@ == self.text(),
    {
        match self {
            AudioCtxError::Empty => "cannot parse integer from empty string",
            AudioCtxError::InvalidDigit => "invalid digit found in string",
            AudioCtxError::TooLarge => "number too large to fit in target type",
            AudioCtxError::OutOfRange => "out of range integral type conversion attempted",
        }
    }
}

/// A number as an audio context: zero stands for the full one.
pub open spec fn from_number(value: u32) -> AudioCtxConfig {
    if value == 0 {
        AudioCtxConfig::Full
    } else {
        AudioCtxConfig::Fixed(value)
    }
}

/// A number as an audio context: zero stands for the full one.
pub fn audio_ctx_from_u32(value: u32) -> (r: AudioCtxConfig)
    ensures
        r == from_number(value),
{
    if value == 0 {
        AudioCtxConfig::Full
    } else {
        AudioCtxConfig::Fixed(value)
    }
}

/// The value of a decimal digit.
pub open spec fn digit_value(c: char) -> Option<int> {
    if '0' <= c && c <= '9' {
        Some(c as int - '0' as int)
    } else {
        None
    }
}

/// The number that the digits make after `acc`, read from the left.
pub open spec fn number_of(acc: int, digits: Seq<char>) -> Result<u32, AudioCtxError>
    decreases digits.len(),
{
    if digits.len() == 0 {
        Ok(acc as u32)
    } else {
        match digit_value(digits[0]) {
            None => Err(AudioCtxError::InvalidDigit),
            Some(d) => if acc * 10 + d > u32::MAX {
                Err(AudioCtxError::TooLarge)
            } else {
                number_of(acc * 10 + d, digits.drop_first())
            },
        }
    }
}

/// The number that a text holds: decimal digits, with or without a plus sign in front.
pub open spec fn parsed_number(s: Seq<char>) -> Result<u32, AudioCtxError> {
    if s.len() == 0 {
        Err(AudioCtxError::Empty)
    } else if s.len() == 1 && (s[0] == '+' || s[0] == '-') {
        Err(AudioCtxError::InvalidDigit)
    } else if s[0] == '+' {
        number_of(0, s.drop_first())
    } else {
        number_of(0, s)
    }
}

/// The number that a text holds: decimal digits, with or without a plus sign in front.
pub fn parse_number(s: &str) -> (r: Result<u32, AudioCtxError>)
    ensures
        r == parsed_number(s@),
{
    let chars = chars_of(s);
    if chars.len() == 0 {
        return Err(AudioCtxError::Empty);
    }
    if chars.len() == 1 && (chars[0] == '+' || chars[0] == '-') {
        return Err(AudioCtxError::InvalidDigit);
    }
    let mut i: usize = if chars[0] == '+' {
        1
    } else {
        0
    };
    let mut acc: u32 = 0;
    proof {
        assert(s@.skip(0) == s@);
        assert(s@.skip(1) == s@.drop_first());
    }
    while i < chars.len()
        invariant
            chars@ == s@,
            i <= chars.len(),
            parsed_number(s@) == number_of(acc as int, s@.skip(i as int)),
        decreases chars.len() - i,
    {
        let c = chars[i];
        assert(s@.skip(i as int).drop_first() == s@.skip(i + 1));
        if !('0' <= c && c <= '9') {
            return Err(AudioCtxError::InvalidDigit);
        }
        let d: u32 = c as u32 - '0' as u32;
        if acc as u64 * 10 + d as u64 > u32::MAX as u64 {
            return Err(AudioCtxError::TooLarge);
        }
        acc = acc * 10 + d;
        i += 1;
    }
    Ok(acc)
}

/// The audio context that a text stands for.
pub open spec fn from_text(s: Seq<char>) -> Result<AudioCtxConfig, AudioCtxError> {
    let word = ascii_lowered(trimmed(s));
    if word == "auto"@ {
        Ok(AudioCtxConfig::Auto)
    } else if word == "off"@ || word == "full"@ {
        Ok(AudioCtxConfig::Full)
    } else {
        match parsed_number(word) {
            Ok(value) => Ok(from_number(value)),
            Err(error) => Err(error),
        }
    }
}

/// The audio context that a text stands for: `auto`, `off` or `full` in any case, or a number.
pub fn audio_ctx_from_str(value: &str) -> (r: Result<AudioCtxConfig, AudioCtxError>)
    ensures
        r == from_text(value@),
{
    let word = to_ascii_lower(trim(value));
    let word = word.as_str();
    if str_eq(word, "auto") {
        return Ok(AudioCtxConfig::Auto);
    }
    if str_eq(word, "off") || str_eq(word, "full") {
        return Ok(AudioCtxConfig::Full);
    }
    match parse_number(word) {
        Ok(value) => Ok(audio_ctx_from_u32(value)),
        Err(error) => Err(error),
    }
}

/// The audio context that a number stands for, if it has 32 bits.
pub fn audio_ctx_from_u64(value: u64) -> (r: Result<AudioCtxConfig, AudioCtxError>)
    ensures
        r == (if value <= u32::MAX {
            Ok(from_number(value as u32))
        } else {
            Err::<AudioCtxConfig, AudioCtxError>(AudioCtxError::OutOfRange)
        }),
{
    if value <= u32::MAX as u64 {
        Ok(audio_ctx_from_u32(value as u32))
    } else {
        Err(AudioCtxError::OutOfRange)
    }
}

/// The audio context that a number stands for, if it is not negative and has 32 bits.
pub fn audio_ctx_from_i64(value: i64) -> (r: Result<AudioCtxConfig, AudioCtxError>)
    ensures
        r == (if 0 <= value <= u32::MAX {
            Ok(from_number(value as u32))
        } else {
            Err::<AudioCtxConfig, AudioCtxError>(AudioCtxError::OutOfRange)
        }),
{
    if 0 <= value && value <= u32::MAX as i64 {
        Ok(audio_ctx_from_u32(value as u32))
    } else {
        Err(AudioCtxError::OutOfRange)
    }
}

/// How an audio context is written down: the word `auto`, or a number.
#[derive(Clone, Copy, Debug, PartialEq, Eq, Structural)]
pub enum WrittenAudioCtx {
    Auto,
    Number(u32),
}

/// How an audio context is written down.
pub open spec fn written(config: AudioCtxConfig) -> WrittenAudioCtx {
    match config {
        AudioCtxConfig::Auto => WrittenAudioCtx::Auto,
        AudioCtxConfig::Fixed(value) => WrittenAudioCtx::Number(value),
        AudioCtxConfig::Full => WrittenAudioCtx::Number(0),
    }
}

impl AudioCtxConfig {
    /// How the audio context is written down: the word `auto`, or a number, zero for the full one.
    pub fn to_written(self) -> (r: WrittenAudioCtx)
        ensures
            r == written(self),
    {
        match self {
            AudioCtxConfig::Auto => WrittenAudioCtx::Auto,
            AudioCtxConfig::Fixed(value) => WrittenAudioCtx::Number(value),
            AudioCtxConfig::Full => WrittenAudioCtx::Number(0),
        }
    }
}

/// An audio context as it is read back.
pub open spec fn read_back(w: WrittenAudioCtx) -> Result<AudioCtxConfig, AudioCtxError> {
    match w {
        WrittenAudioCtx::Auto => from_text("auto"@),
        WrittenAudioCtx::Number(value) => Ok(from_number(value)),
    }
}

/// Law: what is written down is read back. A fixed context of zero is the one exception: it is
/// written as the full context is.
pub proof fn law_audio_ctx_is_read_back(config: AudioCtxConfig)
    requires
        config != AudioCtxConfig::Fixed(0),
    ensures
        read_back(written(config)) == Ok::<AudioCtxConfig, AudioCtxError>(config),
{
    reveal_strlit("auto");
    let s = "auto"@;
    reveal_with_fuel(crate::text::trimmed_start, 2);
    reveal_with_fuel(crate::text::trimmed_end, 2);
    assert(trimmed(s) == s);
    assert(ascii_lowered(s) =~= s);
}

proof fn lemma_number_of_push(acc: int, digits: Seq<char>, last: char)
    requires
        acc >= 0,
        number_of(acc, digits) is Ok,
        digit_value(last) is Some,
        number_of(acc, digits)->Ok_0 * 10 + digit_value(last)->Some_0 <= u32::MAX,
        acc <= u32::MAX,
    ensures
        number_of(acc, digits.push(last)) == Ok::<u32, AudioCtxError>(
            (number_of(acc, digits)->Ok_0 * 10 + digit_value(last)->Some_0) as u32,
        ),
    decreases digits.len(),
{
    let all = digits.push(last);
    if digits.len() == 0 {
        assert(all.drop_first() =~= Seq::<char>::empty());
        assert(number_of(acc * 10 + digit_value(last)->Some_0, all.drop_first()) is Ok);
    } else {
        let next = acc * 10 + digit_value(digits[0])->Some_0;
        assert(all.drop_first() == digits.drop_first().push(last));
        lemma_number_of_push(next, digits.drop_first(), last);
    }
}

proof fn lemma_decimal_number(n: nat)
    requires
        n <= u32::MAX,
    ensures
        number_of(0, decimal(n)) == Ok::<u32, AudioCtxError>(n as u32),
        decimal(n).len() > 0,
        forall|i: int| 0 <= i < decimal(n).len() ==> digit_value(#[trigger] decimal(n)[i]) is Some,
    decreases n,
{
    if n < 10 {
        let s = seq![digit(n as int)];
        assert(s.drop_first() =~= Seq::<char>::empty());
        assert(digit_value(digit(n as int)) == Some(n as int));
        assert(number_of(n as int, s.drop_first()) == Ok::<u32, AudioCtxError>(n as u32));
    } else {
        lemma_decimal_number(n / 10);
        let d = digit((n % 10) as int);
        assert(digit_value(d) == Some((n % 10) as int));
        lemma_number_of_push(0, decimal(n / 10), d);
    }
}

/// Law: a number that is written in decimal is parsed back.
pub proof fn law_decimal_is_parsed_back(n: u32)
    ensures
        parsed_number(decimal(n as nat)) == Ok::<u32, AudioCtxError>(n),
{
    lemma_decimal_number(n as nat);
    let s = decimal(n as nat);
    assert(digit_value(s[0]) is Some);
}

/// The number of 20 ms frames in a recording at 16 kHz.
pub open spec fn frames_in(sample_count: int) -> int {
    (sample_count + 319) / 320
}

/// The context for a recording: its frames and a safety margin, but never so few that decoding
/// becomes unstable, nor more than the model has.
pub open spec fn context_for(sample_count: int) -> int {
    let frames = frames_in(sample_count) + 128;
    if frames < 640 {
        640
    } else if frames > 1500 {
        1500
    } else {
        frames
    }
}

/// The context for a recording: its frames and a safety margin, but never so few that decoding
/// becomes unstable, nor more than the model has.
pub fn audio_ctx_for_sample_count(sample_count: usize) -> (r: u32)
    ensures
        r == context_for(sample_count as int),
        640 <= r <= 1500,
{
    let whole: usize = sample_count / 320;
    let rounded: usize = if sample_count % 320 == 0 {
        whole
    } else {
        whole + 1
    };
    assert(rounded == (sample_count + 319) / 320);
    if rounded < 512 {
        640
    } else if rounded > 1372 {
        1500
    } else {
        rounded as u32 + 128
    }
}

/// The context that a model is run with; zero stands for the full one. A fixed one is taken as it
/// is: only one that follows the recording is kept where decoding is stable.
pub open spec fn context_used(config: AudioCtxConfig, sample_count: int) -> int {
    match config {
        AudioCtxConfig::Auto => context_for(sample_count),
        AudioCtxConfig::Fixed(value) => value as int,
        AudioCtxConfig::Full => 0,
    }
}

impl AudioCtxConfig {
    /// The context that a model is run with; zero stands for the full one.
    pub fn context(self, sample_count: usize) -> (r: u32)
        ensures
            r == context_used(self, sample_count as int),
    {
        match self {
            AudioCtxConfig::Auto => audio_ctx_for_sample_count(sample_count),
            AudioCtxConfig::Fixed(value) => value,
            AudioCtxConfig::Full => 0,
        }
    }
}

/// Law: a context that follows the recording lies between what decoding needs and what the model
/// has.
pub proof fn law_context_is_stable(sample_count: int)
    ensures
        640 <= context_used(AudioCtxConfig::Auto, sample_count) <= 1500,
{
}

/// Law: a fixed context is the same for every recording.
pub proof fn law_a_fixed_context_is_pinned(value: u32, sample_count: int)
    ensures
        context_used(AudioCtxConfig::Fixed(value), sample_count) == value,
{
}

/// Law: a longer recording gets no smaller a context.
pub proof fn law_context_grows(shorter: int, longer: int)
    requires
        0 <= shorter <= longer,
    ensures
        context_for(shorter) <= context_for(longer),
{
}

/// Law: a context that follows the recording holds its frames of 320 samples, the last one perhaps
/// not full, and 128 more, as far as that lies between 640 and 1500.
pub proof fn law_a_context_holds_the_recording(sample_count: int)
    requires
        0 <= sample_count,
    ensures
        ({
            let context = context_used(AudioCtxConfig::Auto, sample_count);
            &&& sample_count <= 320 * 512 ==> context == 640
            &&& sample_count > 320 * 1371 ==> context == 1500
            &&& 320 * 512 < sample_count <= 320 * 1371 ==> 320 * (context - 129) < sample_count
                <= 320 * (context - 128)
        }),
{
}

/// Law: the full context is asked for by zero, and no recording changes that.
pub proof fn law_the_full_context_is_zero(sample_count: int)
    ensures
        context_used(AudioCtxConfig::Full, sample_count) == 0,
        from_number(0) == AudioCtxConfig::Full,
{
}

/// Law: a number other than zero is a fixed context of just that size.
pub proof fn law_a_number_is_a_fixed_context(value: u32)
    requires
        value > 0,
    ensures
        from_number(value) == AudioCtxConfig::Fixed(value),
{
}

/// Law: a word stands for a context, whatever its case and the white space around it: `auto` for one
/// that follows the recording, `off` and `full` for the full one.
pub proof fn law_words_stand_for_contexts(s: Seq<char>)
    ensures
        ascii_lowered(trimmed(s)) == "auto"@ ==> from_text(s) == Ok::<AudioCtxConfig, AudioCtxError>(
            AudioCtxConfig::Auto,
        ),
        ascii_lowered(trimmed(s)) == "off"@ || ascii_lowered(trimmed(s)) == "full"@ ==> from_text(s)
            == Ok::<AudioCtxConfig, AudioCtxError>(AudioCtxConfig::Full),
        from_text(s) == Ok::<AudioCtxConfig, AudioCtxError>(AudioCtxConfig::Auto) ==> ascii_lowered(
            trimmed(s),
        ) == "auto"@,
{
    reveal_strlit("auto");
    reveal_strlit("off");
    reveal_strlit("full");
    assert("auto"@.len() == 4 && "off"@.len() == 3 && "full"@.len() == 4);
    assert("auto"@[0] == 'a' && "full"@[0] == 'f');
}

/// Law: a number may have a plus sign in front of it and zeros at its front, and no other character
/// than a digit in it.
pub proof fn law_how_numbers_are_read(s: Seq<char>, c: char)
    ensures
        s.len() > 0 && s[0] != '+' && s[0] != '-' ==> parsed_number(seq!['+'] + s) == parsed_number(
            s,
        ),
        s.len() > 0 && digit_value(s[0]) is Some ==> parsed_number(seq!['0'] + s) == parsed_number(
            s,
        ),
        !('0' <= c && c <= '9') && c != '+' ==> parsed_number(seq![c] + s) == Err::<
            u32,
            AudioCtxError,
        >(AudioCtxError::InvalidDigit),
        parsed_number(Seq::empty()) == Err::<u32, AudioCtxError>(AudioCtxError::Empty),
        parsed_number(seq!['+']) == Err::<u32, AudioCtxError>(AudioCtxError::InvalidDigit),
{
    assert((seq!['+'] + s).drop_first() =~= s);
    assert((seq!['0'] + s).drop_first() =~= s);
}

} // verus!

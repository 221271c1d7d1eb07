//! The decision logic of driving the espeak-ng phonemizer: error kinds,
//! the deadline check, one-time initialization, clause terminators,
//! language-switch stripping, and the accumulation of clauses into
//! sentences.

use vstd::prelude::*;
use crate::text::{
    chars_of, decimal, digit, digit_char, i64_to_decimal, push_decimal, join2, join3, lemma_line_pieces_nonempty, lemma_line_pieces_step,
    line_pieces, owned, signed_decimal, string_from_chars,
};

verus! {

/// An espeak-ng failure.
#[derive(Debug, Clone, PartialEq, Eq)]
pub enum ESpeakError {
    Timeout(String),
    Failure(String),
}

/// The result type of the espeak-ng driver.
pub type ESpeakResult<T> = Result<T, ESpeakError>;

impl ESpeakError {
    /// Whether the failure is a timeout.
    pub fn is_timeout(&self) -> (r: bool)
        ensures
            r == (self is Timeout),
    {
        match self {
            ESpeakError::Timeout(_) => true,
            ESpeakError::Failure(_) => false,
        }
    }

    /// The human-readable rendering of the error.
    pub open spec fn message_spec(&self) -> Seq<char> {
        match self {
            ESpeakError::Timeout(msg) => "eSpeak-ng error: "@ + msg@,
            ESpeakError::Failure(msg) => "eSpeak-ng error: "@ + msg@,
        }
    }

    /// Renders the error as text.
    pub fn message(&self) -> (r: String)
        ensures
            r@ == self.message_spec(),
    {
        match self {
            ESpeakError::Timeout(msg) => join2("eSpeak-ng error: ", msg.as_str()),
            ESpeakError::Failure(msg) => join2("eSpeak-ng error: ", msg.as_str()),
        }
    }
}

/// A span of time: whole seconds and the nanoseconds beyond them.
#[derive(Debug, Clone, Copy, PartialEq, Eq, Structural)]
pub struct TimeSpan {
    pub secs: u64,
    pub nanos: u32,
}

impl TimeSpan {
    /// The span in nanoseconds.
    pub open spec fn total_nanos(self) -> int {
        self.secs * 1_000_000_000 + self.nanos
    }

    /// A span of whole seconds.
    pub fn from_secs(secs: u64) -> (r: Self)
        ensures
            r.secs == secs,
            r.nanos == 0,
    {
        TimeSpan { secs, nanos: 0 }
    }
}

/// Whether `d` is a power of ten.
pub open spec fn is_power_of_ten(d: nat) -> bool
    decreases d,
{
    if d <= 1 {
        d == 1
    } else {
        d % 10 == 0 && is_power_of_ten(d / 10)
    }
}

/// The digits of the fraction `frac / (10 * divisor)`, most significant
/// first, stopping once the rest is zero (so without trailing zeros).
pub open spec fn fraction_digits(frac: nat, divisor: nat) -> Seq<char>
    decreases divisor,
{
    if frac == 0 || divisor == 0 {
        Seq::empty()
    } else {
        seq![digit_char((frac / divisor) as int)] + fraction_digits(frac % divisor, divisor / 10)
    }
}

/// A number rendered with its unit: the whole part, then, if the
/// fraction is not zero, a point and the fraction's digits.
pub open spec fn with_unit(whole: nat, frac: nat, divisor: nat, unit: Seq<char>) -> Seq<char> {
    decimal(whole) + (if frac > 0 { seq!['.'] + fraction_digits(frac, divisor) } else { Seq::empty() }) + unit
}

/// std's `{:?}` rendering of a `Duration` of `secs` seconds and `nanos`
/// nanoseconds: in seconds when there is a whole second, otherwise in the
/// largest of milliseconds, microseconds and nanoseconds that is at least
/// one, with every significant fractional digit (for instance `5s`,
/// `1.5ms`, `250ns`).
pub open spec fn duration_debug_text(secs: u64, nanos: u32) -> Seq<char> {
    if secs > 0 {
        with_unit(secs as nat, nanos as nat, 100_000_000, "s"@)
    } else if nanos >= 1_000_000 {
        with_unit((nanos / 1_000_000) as nat, (nanos % 1_000_000) as nat, 100_000, "ms"@)
    } else if nanos >= 1_000 {
        with_unit((nanos / 1_000) as nat, (nanos % 1_000) as nat, 100, "\u{b5}s"@)
    } else {
        with_unit(nanos as nat, 0, 1, "ns"@)
    }
}

fn push_fraction(frac: u32, divisor: u32, out: &mut Vec<char>)
    requires
        is_power_of_ten(divisor as nat),
        frac < 10 * divisor,
        divisor <= 100_000_000,
    ensures
        final(out)@ == old(out)@ + fraction_digits(frac as nat, divisor as nat),
    decreases divisor,
{
    if frac == 0 {
        assert(old(out)@ + fraction_digits(frac as nat, divisor as nat) =~= old(out)@);
        return;
    }
    let d = frac / divisor;
    assert(d < 10) by (nonlinear_arith)
        requires
            frac < 10 * divisor,
            divisor > 0,
            d == frac / divisor,
    ;
    out.push(digit(d as u64));
    let rest = frac % divisor;
    let next = divisor / 10;
    if divisor > 1 {
        assert(rest < 10 * next) by (nonlinear_arith)
            requires
                rest < divisor,
                divisor % 10 == 0,
                next == divisor / 10,
        ;
        assert(is_power_of_ten(next as nat));
        push_fraction(rest, next, out);
        assert(final(out)@ =~= old(out)@ + fraction_digits(frac as nat, divisor as nat));
    } else {
        assert(rest == 0);
        assert(fraction_digits(rest as nat, next as nat) =~= Seq::<char>::empty());
        assert(out@ =~= old(out)@ + fraction_digits(frac as nat, divisor as nat));
    }
}

fn render_with_unit(whole: u64, frac: u32, divisor: u32, unit: &str) -> (r: String)
    requires
        is_power_of_ten(divisor as nat),
        frac < 10 * divisor,
        divisor <= 100_000_000,
    ensures
        r@ == with_unit(whole as nat, frac as nat, divisor as nat, unit@),
{
    let mut v: Vec<char> = Vec::new();
    push_decimal(whole, &mut v);
    assert(v@ =~= decimal(whole as nat));
    if frac > 0 {
        v.push('.');
        push_fraction(frac, divisor, &mut v);
    }
    let units = chars_of(unit);
    let ghost before = v@;
    for k in 0..units.len()
        invariant
            v@ == before + units@.take(k as int),
    {
        v.push(units[k]);
        assert(units@.take(k + 1) =~= units@.take(k as int).push(units@[k as int]));
    }
    assert(units@.take(units@.len() as int) =~= units@);
    assert(v@ =~= with_unit(whole as nat, frac as nat, divisor as nat, unit@));
    string_from_chars(v.as_slice())
}

/// Renders a `Duration` of `secs` seconds and `nanos` nanoseconds as std's
/// `{:?}` does.
pub fn duration_debug(secs: u64, nanos: u32) -> (r: String)
    requires
        nanos < 1_000_000_000,
    ensures
        r@ == duration_debug_text(secs, nanos),
{
    proof {
        reveal_with_fuel(is_power_of_ten, 10);
    }
    if secs > 0 {
        render_with_unit(secs, nanos, 100_000_000, "s")
    } else if nanos >= 1_000_000 {
        render_with_unit((nanos / 1_000_000) as u64, nanos % 1_000_000, 100_000, "ms")
    } else if nanos >= 1_000 {
        render_with_unit((nanos / 1_000) as u64, nanos % 1_000, 100, "\u{b5}s")
    } else {
        render_with_unit(nanos as u64, 0, 1, "ns")
    }
}

/// The message of a timeout for `language` after the limit rendered as
/// `limit`.
pub open spec fn timeout_text(language: Seq<char>, limit: Seq<char>) -> Seq<char> {
    "Timed out phonemizing `"@ + language + "` text after "@ + limit
}

/// The timeout message of `check_deadline`.
pub open spec fn timeout_message(language: Seq<char>, timeout: TimeSpan) -> Seq<char> {
    timeout_text(language, duration_debug_text(timeout.secs, timeout.nanos))
}

/// The timeout failure for `language`, with the limit rendered as
/// `limit`.
pub fn timeout_error(language: &str, limit: &str) -> (r: ESpeakError)
    ensures
        r matches ESpeakError::Timeout(msg) && msg@ == timeout_text(language@, limit@),
{
    let mut msg = join3("Timed out phonemizing `", language, "` text after ");
    msg.append(limit);
    ESpeakError::Timeout(msg)
}

/// A timeout once `elapsed` exceeds `timeout`; reaching it exactly is
/// still in time.
pub fn check_deadline(elapsed: TimeSpan, timeout: TimeSpan, language: &str) -> (r: ESpeakResult<()>)
    requires
        timeout.nanos < 1_000_000_000,
        elapsed.nanos < 1_000_000_000,
    ensures
        elapsed.total_nanos() > timeout.total_nanos() ==> (r matches Err(ESpeakError::Timeout(msg)) && msg@ == timeout_message(language@, timeout)),
        elapsed.total_nanos() <= timeout.total_nanos() ==> r is Ok,
{
    if elapsed.secs > timeout.secs || (elapsed.secs == timeout.secs && elapsed.nanos > timeout.nanos) {
        let limit = duration_debug(timeout.secs, timeout.nanos);
        Err(timeout_error(language, limit.as_str()))
    } else {
        Ok(())
    }
}

/// The message of the error given for a poisoned lock.
pub open spec fn poisoned_lock_message() -> Seq<char> {
    "espeak-ng lock poisoned by a prior panic; refusing to touch possibly-corrupted state"@
}

/// What taking a lock gives: the guard, or, where the lock was poisoned
/// (`None`), a failure, as the state behind it may be corrupted.
pub fn lock_outcome<G>(guard: Option<G>) -> (r: ESpeakResult<G>)
    ensures
        match guard {
            Some(g) => r == Ok::<G, ESpeakError>(g),
            None => r matches Err(ESpeakError::Failure(msg)) && msg@ == poisoned_lock_message(),
        },
{
    match guard {
        Some(g) => Ok(g),
        None => Err(ESpeakError::Failure(owned("espeak-ng lock poisoned by a prior panic; refusing to touch possibly-corrupted state"))),
    }
}

/// Runs `init` unless `initialized` says it already succeeded; records a
/// success, so that a failed initialization is retried next time.
pub fn ensure_initialized<F: FnOnce() -> ESpeakResult<()>>(initialized: &mut bool, init: F) -> (r: ESpeakResult<()>)
    requires
        !*old(initialized) ==> call_requires(init, ()),
    ensures
        *old(initialized) ==> r is Ok && *final(initialized),
        !*old(initialized) ==> call_ensures(init, (), r) && (*final(initialized) <==> r is Ok),
{
    if *initialized {
        return Ok(());
    }
    let res = init();
    if res.is_ok() {
        *initialized = true;
    }
    res
}

/// The message of a failed espeak-ng initialization.
pub open spec fn init_failure_message(code: i32) -> Seq<char> {
    "Failed to initialize eSpeak-ng (code "@ + signed_decimal(code as int)
        + "). Try setting `PIPER_ESPEAKNG_DATA_DIRECTORY` to the directory containing `espeak-ng-data`."@
}

/// Judges the value `espeak_Initialize` returned: its output sample rate,
/// or a non-positive error code.
pub fn init_outcome(code: i32) -> (r: ESpeakResult<()>)
    ensures
        code > 0 ==> r is Ok,
        code <= 0 ==> (r matches Err(ESpeakError::Failure(msg)) && msg@ == init_failure_message(code)),
{
    if code <= 0 {
        let n = i64_to_decimal(code as i64);
        let mut msg = join2("Failed to initialize eSpeak-ng (code ", n.as_str());
        msg.append("). Try setting `PIPER_ESPEAKNG_DATA_DIRECTORY` to the directory containing `espeak-ng-data`.");
        Err(ESpeakError::Failure(msg))
    } else {
        Ok(())
    }
}

/// Intonation bits of a clause terminator.
pub const CLAUSE_INTONATION_MASK: i32 = 0x7000;
/// Intonation of a full stop.
pub const CLAUSE_INTONATION_FULL_STOP: i32 = 0x0000;
/// Intonation of a comma.
pub const CLAUSE_INTONATION_COMMA: i32 = 0x1000;
/// Intonation of a question.
pub const CLAUSE_INTONATION_QUESTION: i32 = 0x2000;
/// Intonation of an exclamation.
pub const CLAUSE_INTONATION_EXCLAMATION: i32 = 0x3000;
/// Set when the clause ends a sentence.
pub const CLAUSE_TYPE_SENTENCE: i32 = 0x80000;

/// Whether a terminator ends a sentence.
pub open spec fn ends_sentence(terminator: i32) -> bool {
    terminator & CLAUSE_TYPE_SENTENCE != 0
}

/// The punctuation a clause terminator is rendered with: `.` for a full
/// stop that ends a sentence, `:` for one that does not, `,` `?` `!` for
/// the other intonations, nothing for any other.
pub open spec fn terminator_punctuation(terminator: i32) -> Option<char> {
    let intonation = terminator & CLAUSE_INTONATION_MASK;
    if intonation == CLAUSE_INTONATION_FULL_STOP {
        if ends_sentence(terminator) { Some('.') } else { Some(':') }
    } else if intonation == CLAUSE_INTONATION_COMMA {
        Some(',')
    } else if intonation == CLAUSE_INTONATION_QUESTION {
        Some('?')
    } else if intonation == CLAUSE_INTONATION_EXCLAMATION {
        Some('!')
    } else {
        None
    }
}

/// The punctuation of a clause terminator.
pub fn terminator_char(terminator: i32) -> (r: Option<char>)
    ensures
        r == terminator_punctuation(terminator),
{
    let is_sentence = terminator & CLAUSE_TYPE_SENTENCE != 0;
    let intonation = terminator & CLAUSE_INTONATION_MASK;
    if intonation == CLAUSE_INTONATION_FULL_STOP {
        if is_sentence { Some('.') } else { Some(':') }
    } else if intonation == CLAUSE_INTONATION_COMMA {
        Some(',')
    } else if intonation == CLAUSE_INTONATION_QUESTION {
        Some('?')
    } else if intonation == CLAUSE_INTONATION_EXCLAMATION {
        Some('!')
    } else {
        None
    }
}

/// A terminator's punctuation is read off its intonation bits: an
/// exclamation is `!`, a question `?` and a comma `,` whether or not the
/// clause ends a sentence; only a full stop looks at the sentence bit,
/// giving `.` at the end of a sentence and `:` inside one; any other
/// intonation has no punctuation.
pub proof fn lemma_punctuation_follows_intonation(t: i32)
    ensures
        t & 0x7000 == 0x3000 ==> terminator_punctuation(t) == Some('!'),
        t & 0x7000 == 0x2000 ==> terminator_punctuation(t) == Some('?'),
        t & 0x7000 == 0x1000 ==> terminator_punctuation(t) == Some(','),
        t & 0x7000 == 0 && t & 0x80000 != 0 ==> terminator_punctuation(t) == Some('.'),
        t & 0x7000 == 0 && t & 0x80000 == 0 ==> terminator_punctuation(t) == Some(':'),
        t & 0x7000 >= 0x4000 ==> terminator_punctuation(t) is None,
{
}

/// Flipping the sentence bit changes the punctuation of a full stop
/// alone: every other intonation keeps its mark.
pub proof fn lemma_sentence_bit_only_moves_full_stop(t: i32)
    ensures
        t & 0x7000 != 0 ==> terminator_punctuation(t ^ 0x80000) == terminator_punctuation(t),
{
    assert((t ^ 0x80000) & 0x7000 == t & 0x7000) by (bit_vector);
}

/// Whether `s` holds no parenthesis.
pub open spec fn paren_free(s: Seq<char>) -> bool {
    forall|i: int| 0 <= i < s.len() ==> #[trigger] s[i] != '(' && s[i] != ')'
}

/// Scanning `s` for language switches: the characters kept so far and the
/// depth of open parentheses. `(` opens, `)` closes (never below zero),
/// other characters are kept only at depth zero.
pub open spec fn strip_state(s: Seq<char>) -> (Seq<char>, nat)
    decreases s.len(),
{
    if s.len() == 0 {
        (Seq::empty(), 0)
    } else {
        let (out, depth) = strip_state(s.drop_last());
        let c = s.last();
        if c == '(' {
            (out, depth + 1)
        } else if c == ')' {
            (out, if depth > 0 { (depth - 1) as nat } else { 0 })
        } else if depth == 0 {
            (out.push(c), depth)
        } else {
            (out, depth)
        }
    }
}

/// `s` without espeak-ng's `(xx)` language-switch markers and what they
/// enclose.
pub open spec fn stripped(s: Seq<char>) -> Seq<char> {
    strip_state(s).0
}

/// Removes language-switch markers from a phonemized clause.
pub fn strip_lang_switches(s: &str) -> (r: String)
    ensures
        r@ == stripped(s@),
{
    let chars = chars_of(s);
    let mut out: Vec<char> = Vec::new();
    let mut depth: usize = 0;
    let n = chars.len();
    proof {
        assert(chars@.take(0) =~= Seq::<char>::empty());
    }
    for k in 0..n
        invariant
            n == chars@.len(),
            out@ == strip_state(chars@.take(k as int)).0,
            depth == strip_state(chars@.take(k as int)).1,
            depth <= k,
    {
        let c = chars[k];
        proof {
            let t = chars@.take(k + 1);
            assert(t.drop_last() =~= chars@.take(k as int));
            assert(t.last() == c);
        }
        if c == '(' {
            depth = depth + 1;
        } else if c == ')' {
            depth = if depth > 0 { depth - 1 } else { 0 };
        } else if depth == 0 {
            out.push(c);
        }
    }
    proof {
        assert(chars@.take(n as int) =~= chars@);
    }
    string_from_chars(out.as_slice())
}

/// The sentences built so far from phonemized clauses, and the sentence
/// in progress.
pub struct ClauseAccumulator {
    sentences: Vec<String>,
    current: Vec<char>,
}

impl ClauseAccumulator {
    /// No finished sentence is empty.
    #[verifier::type_invariant]
    closed spec fn sentences_nonempty(self) -> bool {
        &&& forall|i: int| 0 <= i < self.sentences@.len() ==> (#[trigger] self.sentences@[i])@.len() > 0
        &&& forall|i: int| 0 <= i < self.sentences@.len() ==> paren_free((#[trigger] self.sentences@[i])@)
        &&& paren_free(self.current@)
    }

    /// The finished sentences.
    pub closed spec fn done(&self) -> Seq<Seq<char>> {
        self.sentences@.map_values(|s: String| s@)
    }

    /// The sentence in progress.
    pub closed spec fn pending(&self) -> Seq<char> {
        self.current@
    }

    /// Nothing accumulated yet.
    pub fn new() -> (r: Self)
        ensures
            r.done() == Seq::<Seq<char>>::empty(),
            r.pending() == Seq::<char>::empty(),
    {
        let r = ClauseAccumulator { sentences: Vec::new(), current: Vec::new() };
        assert(r.done() =~= Seq::<Seq<char>>::empty());
        r
    }

    fn flush(&mut self)
        requires
            old(self).pending().len() > 0,
        ensures
            final(self).pending() == Seq::<char>::empty(),
            final(self).done() == old(self).done().push(old(self).pending()),
    {
        proof {
            use_type_invariant(&*self);
        }
        let s = string_from_chars(self.current.as_slice());
        let mut sentences: Vec<String> = Vec::new();
        std::mem::swap(&mut sentences, &mut self.sentences);
        sentences.push(s);
        assert forall|i: int| 0 <= i < sentences@.len() implies (#[trigger] sentences@[i])@.len() > 0 by {
            if i < sentences@.len() - 1 {
                assert(sentences@[i] == old(self).sentences@[i]);
            }
        }
        self.sentences = sentences;
        self.current = Vec::new();
        assert(self.done() =~= old(self).done().push(old(self).pending()));
    }

    /// Adds one phonemized clause: its text without language switches,
    /// then its terminator's punctuation; a sentence-ending terminator
    /// closes the sentence unless it is empty.
    pub fn push_clause(&mut self, clause: &str, terminator: i32)
        ensures
            ({
                let text = old(self).pending() + stripped(clause@) + match terminator_punctuation(terminator) {
                    Some(c) => seq![c],
                    None => Seq::empty(),
                };
                if ends_sentence(terminator) && text.len() > 0 {
                    final(self).done() == old(self).done().push(text) && final(self).pending() == Seq::<char>::empty()
                } else {
                    final(self).done() == old(self).done() && final(self).pending() == text
                }
            }),
    {
        proof {
            use_type_invariant(&*self);
        }
        let stripped_clause = strip_lang_switches(clause);
        let chars = chars_of(stripped_clause.as_str());
        let mut current: Vec<char> = Vec::new();
        std::mem::swap(&mut current, &mut self.current);
        let ghost start = current@;
        assert(start == old(self).pending());
        for k in 0..chars.len()
            invariant
                current@ == start + chars@.take(k as int),
        {
            current.push(chars[k]);
            assert(chars@.take(k + 1) =~= chars@.take(k as int).push(chars@[k as int]));
        }
        assert(chars@.take(chars@.len() as int) =~= chars@);
        match terminator_char(terminator) {
            Some(c) => {
                current.push(c);
            },
            None => {},
        }
        proof {
            lemma_stripped_has_no_parens(clause@);
            let text = current@;
            assert forall|i: int| 0 <= i < text.len() implies #[trigger] text[i] != '(' && text[i] != ')' by {
                let a = old(self).pending();
                let b = stripped(clause@);
                if i < a.len() {
                    assert(text[i] == a[i]);
                } else if i < a.len() + b.len() {
                    assert(text[i] == b[i - a.len()]);
                }
            }
        }
        self.current = current;
        assert(self.current@ =~= old(self).pending() + stripped(clause@) + match terminator_punctuation(terminator) {
            Some(c) => seq![c],
            None => Seq::<char>::empty(),
        });
        if terminator & CLAUSE_TYPE_SENTENCE != 0 && self.current.len() > 0 {
            self.flush();
        }
    }

    /// Handles what one call of espeak-ng's clause conversion gave:
    /// `clause` (`None` when it returned nothing) with its `terminator`,
    /// and whether the text cursor moved. A clause is accumulated first;
    /// a cursor that did not move is then a failure, since the next call
    /// would return the same. Gives the failure, if any.
    pub fn on_clause(&mut self, clause: Option<&str>, terminator: i32, advanced: bool, language: &str) -> (r: Option<ESpeakError>)
        ensures
            advanced ==> r is None,
            !advanced ==> (r matches Some(ESpeakError::Failure(msg)) && msg@ == stuck_cursor_message(language@, clause is None)),
            clause is None ==> final(self).done() == old(self).done() && final(self).pending() == old(self).pending(),
            clause matches Some(c) ==> ({
                let text = old(self).pending() + stripped(c@) + match terminator_punctuation(terminator) {
                    Some(p) => seq![p],
                    None => Seq::empty(),
                };
                if ends_sentence(terminator) && text.len() > 0 {
                    final(self).done() == old(self).done().push(text) && final(self).pending() == Seq::<char>::empty()
                } else {
                    final(self).done() == old(self).done() && final(self).pending() == text
                }
            }),
    {
        match clause {
            None => {
                if advanced {
                    None
                } else {
                    Some(stuck_cursor(language, true))
                }
            },
            Some(c) => {
                self.push_clause(c, terminator);
                if advanced {
                    None
                } else {
                    Some(stuck_cursor(language, false))
                }
            },
        }
    }

    /// Ends a line of input: a non-empty sentence in progress is closed.
    pub fn end_line(&mut self)
        ensures
            old(self).pending().len() > 0 ==> final(self).done() == old(self).done().push(old(self).pending()),
            old(self).pending().len() == 0 ==> final(self).done() == old(self).done(),
            final(self).pending() == Seq::<char>::empty(),
    {
        if self.current.len() > 0 {
            self.flush();
        }
    }

    /// The finished sentences.
    pub fn into_sentences(self) -> (r: Vec<String>)
        ensures
            r@.map_values(|s: String| s@) == self.done(),
            forall|i: int| 0 <= i < r@.len() ==> (#[trigger] r@[i])@.len() > 0,
            forall|i: int| 0 <= i < r@.len() ==> paren_free((#[trigger] r@[i])@),
    {
        proof {
            use_type_invariant(&self);
        }
        self.sentences
    }
}

/// The phoneme mode espeak-ng is asked for: IPA output, with the
/// separator character, if any, in the bits above the lowest byte.
pub open spec fn phoneme_mode_value(separator: Option<char>) -> i32 {
    match separator {
        Some(c) => (((c as u32) << 8u32) | 0x02u32) as i32,
        None => 0x02i32,
    }
}

/// The IPA phoneme mode with an optional phoneme separator.
pub fn phoneme_mode(separator: Option<char>) -> (r: i32)
    ensures
        r == phoneme_mode_value(separator),
{
    match separator {
        Some(c) => {
            let code = c as u32;
            let shifted = code << 8u32;
            (shifted | 0x02u32) as i32
        },
        None => 0x02,
    }
}

/// The message of the failure for a clause cursor that did not move:
/// after espeak-ng returned nothing (`returned_nothing`), or after it
/// returned a clause.
pub open spec fn stuck_cursor_message(language: Seq<char>, returned_nothing: bool) -> Seq<char> {
    if returned_nothing {
        "espeak_TextToPhonemes returned NULL without advancing past `"@ + language + "` text (stuck clause cursor)"@
    } else {
        "espeak_TextToPhonemes did not advance past `"@ + language + "` text (stuck clause cursor)"@
    }
}

/// The failure for a clause cursor that did not move.
pub fn stuck_cursor(language: &str, returned_nothing: bool) -> (r: ESpeakError)
    ensures
        r matches ESpeakError::Failure(msg) && msg@ == stuck_cursor_message(language@, returned_nothing),
{
    if returned_nothing {
        ESpeakError::Failure(join3("espeak_TextToPhonemes returned NULL without advancing past `", language, "` text (stuck clause cursor)"))
    } else {
        ESpeakError::Failure(join3("espeak_TextToPhonemes did not advance past `", language, "` text (stuck clause cursor)"))
    }
}

/// Stripping leaves no parenthesis behind, and text without parentheses
/// comes back unchanged.
pub proof fn lemma_stripped_has_no_parens(s: Seq<char>)
    ensures
        forall|i: int| 0 <= i < stripped(s).len() ==> #[trigger] stripped(s)[i] != '(' && stripped(s)[i] != ')',
        (forall|i: int| 0 <= i < s.len() ==> #[trigger] s[i] != '(' && s[i] != ')') ==> stripped(s) == s
            && strip_state(s).1 == 0,
    decreases s.len(),
{
    if s.len() > 0 {
        lemma_stripped_has_no_parens(s.drop_last());
        let (out, depth) = strip_state(s.drop_last());
        let c = s.last();
        if c != '(' && c != ')' && depth == 0 {
            assert(stripped(s) == out.push(c));
        } else {
            assert(stripped(s) == out);
        }
        assert forall|i: int| 0 <= i < stripped(s).len() implies #[trigger] stripped(s)[i] != '(' && stripped(s)[i]
            != ')' by {
            if i < out.len() {
                assert(stripped(s)[i] == out[i]);
                assert(stripped(s.drop_last())[i] == out[i]);
            } else {
                assert(stripped(s)[i] == c);
            }
        }
        if forall|i: int| 0 <= i < s.len() ==> #[trigger] s[i] != '(' && s[i] != ')' {
            assert forall|i: int| 0 <= i < s.drop_last().len() implies #[trigger] s.drop_last()[i] != '(' && s.drop_last()[i]
                != ')' by {
                assert(s.drop_last()[i] == s[i]);
            }
            assert(s[s.len() - 1] != '(' && s[s.len() - 1] != ')');
            assert(s.drop_last().push(s.last()) =~= s);
        }
    }
}

/// A line without the carriage return of a `\r\n` ending.
pub open spec fn without_cr(line: Seq<char>) -> Seq<char> {
    if line.len() > 0 && line.last() == '\r' {
        line.drop_last()
    } else {
        line
    }
}

/// The lines of `s` as `str::lines` gives them: the pieces between line
/// feeds, each ended by one losing a carriage return just before it; the
/// last piece only when it is not empty, and as it is.
pub open spec fn text_lines_of(s: Seq<char>) -> Seq<Seq<char>> {
    let p = line_pieces(s);
    let ended = p.drop_last().map_values(|l: Seq<char>| without_cr(l));
    if p.last().len() == 0 {
        ended
    } else {
        ended.push(p.last())
    }
}

/// The lines of a text, phonemized one by one.
pub fn text_lines(text: &str) -> (r: Vec<String>)
    ensures
        r@.map_values(|l: String| l@) == text_lines_of(text@),
{
    let chars = chars_of(text);
    let n = chars.len();
    let mut out: Vec<String> = Vec::new();
    let mut current: Vec<char> = Vec::new();
    proof {
        assert(chars@.take(0) =~= Seq::<char>::empty());
        assert(out@.map_values(|l: String| l@) =~= Seq::<Seq<char>>::empty());
    }
    for i in 0..n
        invariant
            n == chars@.len(),
            chars@ == text@,
            line_pieces(chars@.take(i as int)).len() >= 1,
            current@ == line_pieces(chars@.take(i as int)).last(),
            out@.map_values(|l: String| l@) == line_pieces(chars@.take(i as int)).drop_last().map_values(
                |l: Seq<char>| without_cr(l),
            ),
    {
        proof {
            lemma_line_pieces_step(chars@, i as int);
            lemma_line_pieces_nonempty(chars@.take(i + 1));
        }
        let ghost pieces = line_pieces(chars@.take(i as int));
        let ghost before = out@.map_values(|l: String| l@);
        let c = chars[i];
        if c == '\n' {
            let ghost whole = current@;
            let n_cur = current.len();
            if n_cur > 0 && current[n_cur - 1] == '\r' {
                current.pop();
            }
            assert(current@ =~= without_cr(whole));
            let line = string_from_chars(current.as_slice());
            out.push(line);
            current = Vec::new();
            proof {
                assert(line_pieces(chars@.take(i + 1)).drop_last() =~= pieces);
                assert(pieces =~= pieces.drop_last().push(pieces.last()));
                assert(whole == pieces.last());
                assert(out@.map_values(|l: String| l@) =~= before.push(without_cr(pieces.last())));
                assert(pieces.map_values(|l: Seq<char>| without_cr(l)) =~= pieces.drop_last().map_values(
                    |l: Seq<char>| without_cr(l),
                ).push(without_cr(pieces.last())));
                assert(current@ =~= Seq::<char>::empty());
            }
        } else {
            current.push(c);
            proof {
                assert(line_pieces(chars@.take(i + 1)).drop_last() =~= pieces.drop_last());
            }
        }
    }
    proof {
        assert(chars@.take(n as int) =~= chars@);
    }
    if current.len() > 0 {
        let ghost before = out@.map_values(|l: String| l@);
        let line = string_from_chars(current.as_slice());
        out.push(line);
        assert(out@.map_values(|l: String| l@) =~= before.push(current@));
    }
    out
}

/// Whether `s` holds a NUL character, which a C string cannot carry.
pub open spec fn has_nul(s: Seq<char>) -> bool {
    exists|i: int| 0 <= i < s.len() && s[i] == '\0'
}

fn find_nul(s: &str) -> (r: bool)
    ensures
        r == has_nul(s@),
{
    let chars = chars_of(s);
    for i in 0..chars.len()
        invariant
            chars@ == s@,
            forall|k: int| 0 <= k < i ==> chars@[k] != '\0',
    {
        if chars[i] == '\0' {
            return true;
        }
    }
    false
}

/// Checks that a language name can be handed to espeak-ng.
pub fn check_language(language: &str) -> (r: ESpeakResult<()>)
    ensures
        has_nul(language@) ==> (r matches Err(ESpeakError::Failure(msg)) && msg@ == "Language name contains a null byte"@),
        !has_nul(language@) ==> r is Ok,
{
    if find_nul(language) {
        Err(ESpeakError::Failure(owned("Language name contains a null byte")))
    } else {
        Ok(())
    }
}

/// Checks that a line of text can be handed to espeak-ng.
pub fn check_line(line: &str) -> (r: ESpeakResult<()>)
    ensures
        has_nul(line@) ==> (r matches Err(ESpeakError::Failure(msg)) && msg@ == "Text contains a null byte"@),
        !has_nul(line@) ==> r is Ok,
{
    if find_nul(line) {
        Err(ESpeakError::Failure(owned("Text contains a null byte")))
    } else {
        Ok(())
    }
}

/// Judges the code `espeak_SetVoiceByName` returned: `0` (`EE_OK`) is
/// success, anything else a failure naming the voice.
pub fn set_voice_outcome(code: i32, language: &str) -> (r: ESpeakResult<()>)
    ensures
        code == 0 ==> r is Ok,
        code != 0 ==> (r matches Err(ESpeakError::Failure(msg)) && msg@ == "Failed to set voice: `"@ + language@ + "`"@),
{
    if code == 0 {
        Ok(())
    } else {
        Err(ESpeakError::Failure(join3("Failed to set voice: `", language, "`")))
    }
}

} // verus!

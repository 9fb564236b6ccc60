//! The command line of the `synesthesia` program: which command, which
//! point, and the options, read exactly as the program reads them — flags in
//! order, the first bad one reported — with numbers read by Rust's own
//! grammars for integers and floats.

use vstd::prelude::*;
use crate::text::{decimal_text, digit_char, str_eq, to_chars};

verus! {

/// What the program was asked to do.
#[derive(Clone, Copy, PartialEq, Eq, Debug, Structural)]
pub enum Command {
    /// The console interface (no command, or `tui`).
    Tui,
    /// Render a point offline.
    Render,
    /// Play a point without the interface.
    Play,
}

/// Why an integer option was refused (Rust's `IntErrorKind`, for unsigned).
#[derive(Clone, Copy, PartialEq, Eq, Debug, Structural)]
pub enum IntError {
    Empty,
    InvalidDigit,
    PosOverflow,
}

/// Why a float option was refused.
#[derive(Clone, Copy, PartialEq, Eq, Debug, Structural)]
pub enum FloatError {
    Empty,
    Invalid,
}

/// The options, as given. The two float options are kept as the text that
/// was given, which [`float_literal_ok`] has accepted; reading them is the
/// caller's.
#[derive(Clone, Debug)]
pub struct Options {
    pub command: Command,
    pub preset: usize,
    pub preset_given: bool,
    pub point: Option<String>,
    pub secs: Option<String>,
    pub sr: Option<String>,
    pub seed: u32,
    pub out: Option<String>,
    pub raw: Option<String>,
    pub no_sound: bool,
}

/// What the command line asks for.
#[derive(Clone, Debug)]
pub enum Invocation {
    /// `--help`, `-h` or `help` first: print the usage.
    Help,
    /// `--list`: list the presets.
    List,
    Run(Options),
}

/// Why the command line was refused.
#[derive(Clone, Debug)]
pub enum CliError {
    /// A flag that takes a value came last.
    NeedsValue(String),
    BadInt(String, IntError),
    BadFloat(String, FloatError),
    Unknown(String),
}

pub open spec fn opt_view(o: Option<String>) -> Option<Seq<char>> {
    match o {
        Some(s) => Some(s@),
        None => None,
    }
}

/// The options as values.
pub struct OptionsView {
    pub command: Command,
    pub preset: nat,
    pub preset_given: bool,
    pub point: Option<Seq<char>>,
    pub secs: Option<Seq<char>>,
    pub sr: Option<Seq<char>>,
    pub seed: nat,
    pub out: Option<Seq<char>>,
    pub raw: Option<Seq<char>>,
    pub no_sound: bool,
}

pub enum CliErrorView {
    NeedsValue(Seq<char>),
    BadInt(Seq<char>, IntError),
    BadFloat(Seq<char>, FloatError),
    Unknown(Seq<char>),
}

pub enum InvocationView {
    Help,
    List,
    Run(OptionsView),
}

impl Options {
    pub open spec fn view(&self) -> OptionsView {
        OptionsView {
            command: self.command,
            preset: self.preset as nat,
            preset_given: self.preset_given,
            point: opt_view(self.point),
            secs: opt_view(self.secs),
            sr: opt_view(self.sr),
            seed: self.seed as nat,
            out: opt_view(self.out),
            raw: opt_view(self.raw),
            no_sound: self.no_sound,
        }
    }
}

impl CliError {
    pub open spec fn view(&self) -> CliErrorView {
        match self {
            CliError::NeedsValue(f) => CliErrorView::NeedsValue(f@),
            CliError::BadInt(f, k) => CliErrorView::BadInt(f@, *k),
            CliError::BadFloat(f, k) => CliErrorView::BadFloat(f@, *k),
            CliError::Unknown(f) => CliErrorView::Unknown(f@),
        }
    }
}

impl Invocation {
    pub open spec fn view(&self) -> InvocationView {
        match self {
            Invocation::Help => InvocationView::Help,
            Invocation::List => InvocationView::List,
            Invocation::Run(o) => InvocationView::Run(o.view()),
        }
    }
}

pub open spec fn is_digit(c: char) -> bool {
    '0' <= c && c <= '9'
}

pub open spec fn digit_value(c: char) -> nat {
    (c as int - '0' as int) as nat
}

/// The number the digits of `s` spell.
pub open spec fn decimal_value(s: Seq<char>) -> nat
    decreases s.len(),
{
    if s.len() == 0 {
        0
    } else {
        decimal_value(s.drop_last()) * 10 + digit_value(s.last())
    }
}

/// How many digits `s` starts with.
pub open spec fn leading_digits(s: Seq<char>) -> nat
    decreases s.len(),
{
    if s.len() > 0 && is_digit(s[0]) {
        1 + leading_digits(s.drop_first())
    } else {
        0
    }
}

/// Rust's unsigned integer grammar: an optional `+`, then decimal digits;
/// read left to right, the first trouble decides the error.
pub open spec fn parse_uint_spec(s: Seq<char>, max: nat) -> Result<nat, IntError> {
    if s.len() == 0 {
        Err(IntError::Empty)
    } else {
        let digits = if s[0] == '+' && s.len() > 1 {
            s.drop_first()
        } else {
            s
        };
        let k = leading_digits(digits);
        if decimal_value(digits.take(k as int)) > max {
            Err(IntError::PosOverflow)
        } else if k < digits.len() {
            Err(IntError::InvalidDigit)
        } else {
            Ok(decimal_value(digits))
        }
    }
}

proof fn lemma_leading_digits(s: Seq<char>)
    ensures
        leading_digits(s) <= s.len(),
        forall|i: int| 0 <= i < leading_digits(s) ==> is_digit(s[i]),
        leading_digits(s) < s.len() ==> !is_digit(s[leading_digits(s) as int]),
    decreases s.len(),
{
    if s.len() > 0 && is_digit(s[0]) {
        lemma_leading_digits(s.drop_first());
        assert forall|i: int| 0 <= i < leading_digits(s) implies is_digit(s[i]) by {
            if i > 0 {
                assert(s[i] == s.drop_first()[i - 1]);
            }
        }
    }
}

proof fn lemma_leading_digits_is(s: Seq<char>, k: int)
    requires
        0 <= k <= s.len(),
        forall|i: int| 0 <= i < k ==> is_digit(s[i]),
        k < s.len() ==> !is_digit(s[k]),
    ensures
        leading_digits(s) == k,
    decreases s.len(),
{
    if k > 0 {
        assert forall|i: int| 0 <= i < k - 1 implies is_digit(s.drop_first()[i]) by {
            assert(s.drop_first()[i] == s[i + 1]);
        }
        if k - 1 < s.drop_first().len() {
            assert(s.drop_first()[k - 1] == s[k]);
        }
        lemma_leading_digits_is(s.drop_first(), k - 1);
    }
}

proof fn lemma_decimal_monotone(s: Seq<char>, i: int, j: int)
    requires
        0 <= i <= j <= s.len(),
    ensures
        decimal_value(s.take(i)) <= decimal_value(s.take(j)),
    decreases j - i,
{
    if i < j {
        lemma_decimal_monotone(s, i, j - 1);
        assert(s.take(j).drop_last() =~= s.take(j - 1));
    }
}

/// Reads an unsigned decimal no larger than `max`, as `str::parse` does.
pub fn parse_uint(s: &str, max: u64) -> (r: Result<u64, IntError>)
    ensures
        match r {
            Ok(v) => parse_uint_spec(s@, max as nat) == Ok::<nat, IntError>(v as nat),
            Err(e) => parse_uint_spec(s@, max as nat) == Err::<nat, IntError>(e),
        },
        r matches Ok(v) ==> v <= max,
{
    let cs = to_chars(s);
    let n = cs.len();
    if n == 0 {
        return Err(IntError::Empty);
    }
    let start: usize = if cs[0] == '+' && n > 1 { 1 } else { 0 };
    let ghost digits = if s@[0] == '+' && s@.len() > 1 { s@.drop_first() } else { s@ };
    assert(digits =~= cs@.skip(start as int));
    let mut i = start;
    let mut v: u64 = 0;
    while i < n
        invariant
            n == cs@.len(),
            cs@ == s@,
            start <= i <= n,
            digits == cs@.skip(start as int),
            digits == (if s@[0] == '+' && s@.len() > 1 { s@.drop_first() } else { s@ }),
            s@.len() > 0,
            forall|j: int| start <= j < i ==> is_digit(cs@[j]),
            v as nat == decimal_value(digits.take(i - start)),
            v <= max,
        decreases n - i,
    {
        let c = cs[i];
        if !('0' <= c && c <= '9') {
            proof {
                assert forall|j: int| 0 <= j < i - start implies is_digit(digits[j]) by {
                    assert(digits[j] == cs@[start + j]);
                }
                assert(digits[i - start] == c);
                lemma_leading_digits_is(digits, i - start);
            }
            return Err(IntError::InvalidDigit);
        }
        let d = (c as u32 - '0' as u32) as u64;
        proof {
            assert(digits.take(i - start + 1).drop_last() =~= digits.take(i - start));
            assert(digits.take(i - start + 1).last() == c);
        }
        if d > max || v > (max - d) / 10 {
            proof {
                assert(v * 10 + d > max) by (nonlinear_arith)
                    requires d > max || v > (max - d) / 10;
                let k = leading_digits(digits);
                lemma_leading_digits(digits);
                if k < i - start + 1 {
                    assert(is_digit(digits[k as int]));
                }
                lemma_decimal_monotone(digits, i - start + 1, k as int);
            }
            return Err(IntError::PosOverflow);
        }
        assert(v * 10 + d <= max) by (nonlinear_arith)
            requires v <= (max - d) / 10, d <= max;
        v = v * 10 + d;
        i = i + 1;
    }
    proof {
        assert forall|j: int| 0 <= j < n - start implies is_digit(digits[j]) by {
            assert(digits[j] == cs@[start + j]);
        }
        lemma_leading_digits_is(digits, n - start);
        assert(digits.take(n - start) =~= digits);
    }
    Ok(v)
}

/// ASCII letters compared without case.
pub open spec fn lower(c: char) -> char {
    if 'A' <= c && c <= 'Z' {
        ((c as u8) + 32) as char
    } else {
        c
    }
}

/// `s` spells `word` (given in lower case), ignoring ASCII case.
pub open spec fn eq_ignore_case(s: Seq<char>, word: Seq<char>) -> bool {
    s.len() == word.len() && forall|i: int| 0 <= i < s.len() ==> lower(s[i]) == word[i]
}

/// `Exp ::= ('e' | 'E') Sign? Digit+`
pub open spec fn is_exponent(s: Seq<char>) -> bool {
    s.len() > 0 && (s[0] == 'e' || s[0] == 'E') && {
        let t = s.drop_first();
        let d = if t.len() > 0 && (t[0] == '+' || t[0] == '-') {
            t.drop_first()
        } else {
            t
        };
        d.len() > 0 && leading_digits(d) == d.len()
    }
}

/// `Number ::= (Digit+ | Digit+ '.' Digit* | Digit* '.' Digit+) Exp?`
pub open spec fn is_number(s: Seq<char>) -> bool {
    let a = leading_digits(s);
    let rest = s.skip(a as int);
    if rest.len() > 0 && rest[0] == '.' {
        let frac = rest.drop_first();
        let b = leading_digits(frac);
        let tail = frac.skip(b as int);
        a + b > 0 && (tail.len() == 0 || is_exponent(tail))
    } else {
        a > 0 && (rest.len() == 0 || is_exponent(rest))
    }
}

/// Rust's float grammar (`f64::from_str`): an optional sign, then `inf`,
/// `infinity`, `nan` in any case, or a decimal number.
pub open spec fn float_spec(s: Seq<char>) -> Result<(), FloatError> {
    if s.len() == 0 {
        Err(FloatError::Empty)
    } else {
        let body = if s[0] == '+' || s[0] == '-' {
            s.drop_first()
        } else {
            s
        };
        if body.len() > 0 && (eq_ignore_case(body, "inf"@) || eq_ignore_case(body, "infinity"@)
            || eq_ignore_case(body, "nan"@) || is_number(body)) {
            Ok(())
        } else {
            Err(FloatError::Invalid)
        }
    }
}

fn lower_char(c: char) -> (r: char)
    ensures
        r == lower(c),
{
    if 'A' <= c && c <= 'Z' {
        ((c as u8) + 32) as char
    } else {
        c
    }
}

fn matches_ignore_case(s: &[char], word: &str) -> (r: bool)
    ensures
        r == eq_ignore_case(s@, word@),
{
    let w = to_chars(word);
    if s.len() != w.len() {
        return false;
    }
    let mut i: usize = 0;
    while i < s.len()
        invariant
            s@.len() == w@.len(),
            w@ == word@,
            i <= s@.len(),
            forall|j: int| 0 <= j < i ==> lower(s@[j]) == w@[j],
        decreases s@.len() - i,
    {
        if lower_char(s[i]) != w[i] {
            return false;
        }
        i = i + 1;
    }
    true
}

/// The number of digits in `s` from `from` on.
fn count_digits(s: &[char], from: usize) -> (r: usize)
    requires
        from <= s@.len(),
    ensures
        from + r <= s@.len(),
        r == leading_digits(s@.skip(from as int)),
{
    let n = s.len();
    let mut i = from;
    while i < n && '0' <= s[i] && s[i] <= '9'
        invariant
            n == s@.len(),
            from <= i <= n,
            forall|j: int| from <= j < i ==> is_digit(s@[j]),
        decreases n - i,
    {
        i = i + 1;
    }
    proof {
        let t = s@.skip(from as int);
        assert forall|j: int| 0 <= j < i - from implies is_digit(t[j]) by {
            assert(t[j] == s@[from + j]);
        }
        if i < n {
            assert(t[i - from] == s@[i as int]);
        }
        lemma_leading_digits_is(t, i - from);
    }
    i - from
}

fn exponent_at(s: &[char], from: usize) -> (r: bool)
    requires
        from <= s@.len(),
    ensures
        r == is_exponent(s@.skip(from as int)),
{
    let n = s.len();
    let ghost t = s@.skip(from as int);
    if from >= n || !(s[from] == 'e' || s[from] == 'E') {
        return false;
    }
    let mut i = from + 1;
    if i < n && (s[i] == '+' || s[i] == '-') {
        i = i + 1;
    }
    let k = count_digits(s, i);
    proof {
        let u = t.drop_first();
        let d = if u.len() > 0 && (u[0] == '+' || u[0] == '-') { u.drop_first() } else { u };
        assert(d =~= s@.skip(i as int));
    }
    k > 0 && i + k == n
}

fn number_at(s: &[char], from: usize) -> (r: bool)
    requires
        from <= s@.len(),
    ensures
        r == is_number(s@.skip(from as int)),
{
    let n = s.len();
    let ghost t = s@.skip(from as int);
    let a = count_digits(s, from);
    let p = from + a;
    proof {
        assert(t.skip(a as int) =~= s@.skip(p as int));
    }
    if p < n && s[p] == '.' {
        let b = count_digits(s, p + 1);
        let q = p + 1 + b;
        proof {
            assert(t.skip(a as int).drop_first() =~= s@.skip(p + 1));
            assert(s@.skip(p + 1).skip(b as int) =~= s@.skip(q as int));
        }
        a + b > 0 && (q == n || exponent_at(s, q))
    } else {
        a > 0 && (p == n || exponent_at(s, p))
    }
}

/// Whether `s` reads as an `f64` (the text of a float option).
pub fn float_literal_ok(s: &str) -> (r: Result<(), FloatError>)
    ensures
        r == float_spec(s@),
{
    let cs = to_chars(s);
    let n = cs.len();
    if n == 0 {
        return Err(FloatError::Empty);
    }
    let from: usize = if cs[0] == '+' || cs[0] == '-' { 1 } else { 0 };
    let body = crate::text::sub_chars(cs.as_slice(), from, n);
    proof {
        assert(body@ =~= cs@.skip(from as int));
        assert(body@.skip(0) =~= body@);
        assert(body@ =~= (if s@[0] == '+' || s@[0] == '-' { s@.drop_first() } else { s@ }));
    }
    if body.len() > 0 && (matches_ignore_case(body.as_slice(), "inf") || matches_ignore_case(
        body.as_slice(),
        "infinity",
    ) || matches_ignore_case(body.as_slice(), "nan") || number_at(body.as_slice(), 0)) {
        Ok(())
    } else {
        Err(FloatError::Invalid)
    }
}

proof fn lemma_decimal_text_reads_back(n: nat)
    ensures
        decimal_text(n).len() >= 1,
        forall|i: int| 0 <= i < decimal_text(n).len() ==> is_digit(#[trigger] decimal_text(n)[i]),
        decimal_value(decimal_text(n)) == n,
    decreases n,
{
    if n < 10 {
        let t = decimal_text(n);
        assert(t.drop_last() =~= Seq::<char>::empty());
        assert(digit_value(digit_char(n)) == n);
        assert(t.last() == digit_char(n));
        assert(decimal_value(t) == decimal_value(t.drop_last()) * 10 + digit_value(t.last()));
        assert(decimal_value(Seq::<char>::empty()) == 0);
    } else {
        lemma_decimal_text_reads_back(n / 10);
        let t = decimal_text(n);
        assert(t.drop_last() =~= decimal_text(n / 10));
        assert(digit_value(digit_char(n % 10)) == n % 10);
        assert(forall|i: int| 0 <= i < t.len() - 1 ==> t[i] == decimal_text(n / 10)[i]);
        assert(t.last() == digit_char(n % 10));
        assert(decimal_value(t) == decimal_value(t.drop_last()) * 10 + digit_value(t.last()));
        assert((n / 10) * 10 + n % 10 == n);
    }
}

proof fn lemma_all_digits_lead(s: Seq<char>)
    requires
        forall|i: int| 0 <= i < s.len() ==> is_digit(#[trigger] s[i]),
    ensures
        leading_digits(s) == s.len(),
    decreases s.len(),
{
    if s.len() > 0 {
        let d = s.drop_first();
        assert(forall|i: int| 0 <= i < d.len() ==> d[i] == s[i + 1]);
        lemma_all_digits_lead(d);
    }
}

/// A number written in decimal reads back as itself when it is within the
/// bound, and as an overflow past it.
pub proof fn lemma_uint_reads_its_decimal_text(n: nat, max: nat)
    ensures
        n <= max ==> parse_uint_spec(decimal_text(n), max) == Ok::<nat, IntError>(n),
        n > max ==> parse_uint_spec(decimal_text(n), max) == Err::<nat, IntError>(IntError::PosOverflow),
{
    let t = decimal_text(n);
    lemma_decimal_text_reads_back(n);
    lemma_all_digits_lead(t);
    assert(is_digit(t[0]));
    assert(t.take(t.len() as int) =~= t);
}

/// The options before any flag.
pub open spec fn default_options(command: Command) -> OptionsView {
    OptionsView {
        command,
        preset: 0,
        preset_given: false,
        point: None,
        secs: None,
        sr: None,
        seed: 1,
        out: None,
        raw: None,
        no_sound: false,
    }
}

/// The flags that take a value.
pub open spec fn takes_value(flag: Seq<char>) -> bool {
    flag == "--preset"@ || flag == "--point"@ || flag == "--secs"@ || flag == "--sr"@ || flag
        == "--seed"@ || flag == "--out"@ || flag == "--raw"@
}

/// One value flag applied to the options.
pub open spec fn apply_value(flag: Seq<char>, v: Seq<char>, acc: OptionsView) -> Result<
    OptionsView,
    CliErrorView,
> {
    if flag == "--preset"@ {
        match parse_uint_spec(v, usize::MAX as nat) {
            Ok(n) => Ok(OptionsView { preset: n, preset_given: true, ..acc }),
            Err(k) => Err(CliErrorView::BadInt(flag, k)),
        }
    } else if flag == "--point"@ {
        Ok(OptionsView { point: Some(v), ..acc })
    } else if flag == "--secs"@ {
        match float_spec(v) {
            Ok(_) => Ok(OptionsView { secs: Some(v), ..acc }),
            Err(k) => Err(CliErrorView::BadFloat(flag, k)),
        }
    } else if flag == "--sr"@ {
        match float_spec(v) {
            Ok(_) => Ok(OptionsView { sr: Some(v), ..acc }),
            Err(k) => Err(CliErrorView::BadFloat(flag, k)),
        }
    } else if flag == "--seed"@ {
        match parse_uint_spec(v, u32::MAX as nat) {
            Ok(n) => Ok(OptionsView { seed: n, ..acc }),
            Err(k) => Err(CliErrorView::BadInt(flag, k)),
        }
    } else if flag == "--out"@ {
        Ok(OptionsView { out: Some(v), ..acc })
    } else {
        Ok(OptionsView { raw: Some(v), ..acc })
    }
}

/// Every field of `n` that the flag `flag` does not name is as in `acc`.
pub open spec fn keeps_other_fields(n: OptionsView, acc: OptionsView, flag: Seq<char>) -> bool {
    &&& n.command == acc.command
    &&& n.no_sound == acc.no_sound
    &&& flag != "--preset"@ ==> n.preset == acc.preset && n.preset_given == acc.preset_given
    &&& flag != "--point"@ ==> n.point == acc.point
    &&& flag != "--secs"@ ==> n.secs == acc.secs
    &&& flag != "--sr"@ ==> n.sr == acc.sr
    &&& flag != "--seed"@ ==> n.seed == acc.seed
    &&& flag != "--out"@ ==> n.out == acc.out
    &&& flag != "--raw"@ ==> n.raw == acc.raw
}

/// The flag names are pairwise different.
proof fn lemma_flag_names_differ()
    ensures
        "--preset"@ != "--point"@,
        "--preset"@ != "--secs"@,
        "--preset"@ != "--sr"@,
        "--preset"@ != "--seed"@,
        "--preset"@ != "--out"@,
        "--preset"@ != "--raw"@,
        "--point"@ != "--secs"@,
        "--point"@ != "--sr"@,
        "--point"@ != "--seed"@,
        "--point"@ != "--out"@,
        "--point"@ != "--raw"@,
        "--secs"@ != "--sr"@,
        "--secs"@ != "--seed"@,
        "--secs"@ != "--out"@,
        "--secs"@ != "--raw"@,
        "--sr"@ != "--seed"@,
        "--sr"@ != "--out"@,
        "--sr"@ != "--raw"@,
        "--seed"@ != "--out"@,
        "--seed"@ != "--raw"@,
        "--out"@ != "--raw"@,
        "--list"@ != "--sr"@,
        "--list"@ != "--secs"@,
        "--no-sound"@ != "--sr"@,
        "--no-sound"@ != "--secs"@,
{
    reveal_strlit("--preset");
    reveal_strlit("--point");
    reveal_strlit("--secs");
    reveal_strlit("--sr");
    reveal_strlit("--seed");
    reveal_strlit("--out");
    reveal_strlit("--raw");
    reveal_strlit("--list");
    reveal_strlit("--no-sound");
    assert("--preset"@.len() != "--point"@.len());
    assert("--preset"@.len() != "--secs"@.len());
    assert("--preset"@.len() != "--sr"@.len());
    assert("--preset"@.len() != "--seed"@.len());
    assert("--preset"@.len() != "--out"@.len());
    assert("--preset"@.len() != "--raw"@.len());
    assert("--point"@.len() != "--secs"@.len());
    assert("--point"@.len() != "--sr"@.len());
    assert("--point"@.len() != "--seed"@.len());
    assert("--point"@.len() != "--out"@.len());
    assert("--point"@.len() != "--raw"@.len());
    assert("--secs"@.len() != "--sr"@.len());
    assert("--secs"@[4] != "--seed"@[4]);
    assert("--secs"@.len() != "--out"@.len());
    assert("--secs"@.len() != "--raw"@.len());
    assert("--sr"@.len() != "--seed"@.len());
    assert("--sr"@.len() != "--out"@.len());
    assert("--sr"@.len() != "--raw"@.len());
    assert("--seed"@.len() != "--out"@.len());
    assert("--seed"@.len() != "--raw"@.len());
    assert("--out"@[2] != "--raw"@[2]);
    assert("--list"@.len() != "--sr"@.len());
    assert("--list"@[2] != "--secs"@[2]);
    assert("--no-sound"@.len() != "--sr"@.len());
    assert("--no-sound"@.len() != "--secs"@.len());
}

/// Each value flag writes its own field and no other: `--preset n` the
/// preset (and marks it given), `--point` the point, `--secs` the duration,
/// `--sr` the sample rate, `--seed` the seed, `--out` and `--raw` the two
/// paths. Text flags always take their value; number flags take it exactly
/// when it reads as their kind of number, and are refused with that reading's
/// error otherwise.
pub proof fn lemma_value_flag_writes_its_own_field(flag: Seq<char>, v: Seq<char>, acc: OptionsView)
    requires
        takes_value(flag),
    ensures
        apply_value(flag, v, acc) matches Ok(n) ==> keeps_other_fields(n, acc, flag),
        flag == "--preset"@ ==> match parse_uint_spec(v, usize::MAX as nat) {
            Ok(k) => apply_value(flag, v, acc) matches Ok(n) && n.preset == k && n.preset_given,
            Err(e) => apply_value(flag, v, acc) == Err::<OptionsView, CliErrorView>(
                CliErrorView::BadInt(flag, e),
            ),
        },
        flag == "--seed"@ ==> match parse_uint_spec(v, u32::MAX as nat) {
            Ok(k) => apply_value(flag, v, acc) matches Ok(n) && n.seed == k,
            Err(e) => apply_value(flag, v, acc) == Err::<OptionsView, CliErrorView>(
                CliErrorView::BadInt(flag, e),
            ),
        },
        flag == "--secs"@ ==> match float_spec(v) {
            Ok(_) => apply_value(flag, v, acc) matches Ok(n) && n.secs == Some(v),
            Err(e) => apply_value(flag, v, acc) == Err::<OptionsView, CliErrorView>(
                CliErrorView::BadFloat(flag, e),
            ),
        },
        flag == "--sr"@ ==> match float_spec(v) {
            Ok(_) => apply_value(flag, v, acc) matches Ok(n) && n.sr == Some(v),
            Err(e) => apply_value(flag, v, acc) == Err::<OptionsView, CliErrorView>(
                CliErrorView::BadFloat(flag, e),
            ),
        },
        flag == "--point"@ ==> (apply_value(flag, v, acc) matches Ok(n) && n.point == Some(v)),
        flag == "--out"@ ==> (apply_value(flag, v, acc) matches Ok(n) && n.out == Some(v)),
        flag == "--raw"@ ==> (apply_value(flag, v, acc) matches Ok(n) && n.raw == Some(v)),
{
    reveal_strlit("--preset");
    reveal_strlit("--point");
    reveal_strlit("--secs");
    reveal_strlit("--sr");
    reveal_strlit("--seed");
    reveal_strlit("--out");
    reveal_strlit("--raw");
    lemma_flag_names_differ();
}

/// On the command line, a well-formed `--sr v` after the command sets the
/// sample rate to `v` and leaves the duration unset; `--secs v` the other
/// way round.
pub proof fn lemma_rate_and_duration_flags(cmd: Seq<char>, v: Seq<char>)
    requires
        cmd == "render"@ || cmd == "play"@ || cmd == "tui"@,
        float_spec(v) is Ok,
    ensures
        parse_args_spec(seq![cmd, "--sr"@, v]) matches Ok(InvocationView::Run(o)) && o.sr == Some(v)
            && o.secs is None,
        parse_args_spec(seq![cmd, "--secs"@, v]) matches Ok(InvocationView::Run(o)) && o.secs
            == Some(v) && o.sr is None,
{
    reveal_strlit("render");
    reveal_strlit("play");
    reveal_strlit("tui");
    reveal_strlit("--help");
    reveal_strlit("-h");
    reveal_strlit("help");
    reveal_strlit("--list");
    reveal_strlit("--no-sound");
    reveal_strlit("--preset");
    reveal_strlit("--point");
    reveal_strlit("--secs");
    reveal_strlit("--sr");
    reveal_strlit("--seed");
    reveal_strlit("--out");
    reveal_strlit("--raw");
    lemma_flag_names_differ();
    let a = seq![cmd, "--sr"@, v];
    let b = seq![cmd, "--secs"@, v];
    assert(a.skip(1) =~= seq!["--sr"@, v]);
    assert(b.skip(1) =~= seq!["--secs"@, v]);
    assert(seq!["--sr"@, v].skip(2) =~= Seq::<Seq<char>>::empty());
    assert(seq!["--secs"@, v].skip(2) =~= Seq::<Seq<char>>::empty());
    assert(cmd != "--help"@ && cmd != "-h"@ && cmd != "help"@) by {
        assert("render"@[0] != "--help"@[0]);
        assert("render"@.len() != "-h"@.len() && "render"@.len() != "help"@.len());
        assert("play"@.len() != "--help"@.len() && "play"@.len() != "-h"@.len());
        assert("play"@[0] != "help"@[0]);
        assert("tui"@.len() != "--help"@.len() && "tui"@.len() != "-h"@.len());
        assert("tui"@.len() != "help"@.len());
    }
    assert("render"@.len() != "play"@.len() && "render"@.len() != "tui"@.len());
    assert("play"@.len() != "tui"@.len());
    let c = if cmd == "render"@ {
        Command::Render
    } else if cmd == "play"@ {
        Command::Play
    } else {
        Command::Tui
    };
    assert(parse_args_spec(a) == flags_spec(seq!["--sr"@, v], default_options(c)));
    assert(parse_args_spec(b) == flags_spec(seq!["--secs"@, v], default_options(c)));
    let na = OptionsView { sr: Some(v), ..default_options(c) };
    let nb = OptionsView { secs: Some(v), ..default_options(c) };
    assert(apply_value("--sr"@, v, default_options(c)) == Ok::<OptionsView, CliErrorView>(na));
    assert(apply_value("--secs"@, v, default_options(c)) == Ok::<OptionsView, CliErrorView>(nb));
    assert(flags_spec(Seq::<Seq<char>>::empty(), na) == Ok::<InvocationView, CliErrorView>(InvocationView::Run(na)));
    assert(flags_spec(Seq::<Seq<char>>::empty(), nb) == Ok::<InvocationView, CliErrorView>(InvocationView::Run(nb)));
    assert(takes_value("--sr"@) && takes_value("--secs"@));
}

/// The flags read in order: `--list` ends the reading at once; the first
/// refused flag is the error.
pub open spec fn flags_spec(args: Seq<Seq<char>>, acc: OptionsView) -> Result<
    InvocationView,
    CliErrorView,
>
    decreases args.len(),
{
    if args.len() == 0 {
        Ok(InvocationView::Run(acc))
    } else {
        let flag = args[0];
        if flag == "--list"@ {
            Ok(InvocationView::List)
        } else if flag == "--no-sound"@ {
            flags_spec(args.drop_first(), OptionsView { no_sound: true, ..acc })
        } else if takes_value(flag) {
            if args.len() < 2 {
                Err(CliErrorView::NeedsValue(flag))
            } else {
                match apply_value(flag, args[1], acc) {
                    Ok(next) => flags_spec(args.skip(2), next),
                    Err(e) => Err(e),
                }
            }
        } else {
            Err(CliErrorView::Unknown(flag))
        }
    }
}

/// The whole command line: help first, then an optional command (no
/// command means the interface), then the flags.
pub open spec fn parse_args_spec(argv: Seq<Seq<char>>) -> Result<InvocationView, CliErrorView> {
    let first = if argv.len() > 0 {
        argv[0]
    } else {
        ""@
    };
    if first == "--help"@ || first == "-h"@ || first == "help"@ {
        Ok(InvocationView::Help)
    } else if first == "render"@ {
        flags_spec(argv.skip(1), default_options(Command::Render))
    } else if first == "play"@ {
        flags_spec(argv.skip(1), default_options(Command::Play))
    } else if first == "tui"@ {
        flags_spec(argv.skip(1), default_options(Command::Tui))
    } else {
        flags_spec(argv, default_options(Command::Tui))
    }
}

pub open spec fn args_view(argv: Seq<String>) -> Seq<Seq<char>> {
    argv.map_values(|s: String| s@)
}

pub open spec fn result_view(r: Result<Invocation, CliError>) -> Result<InvocationView, CliErrorView> {
    match r {
        Ok(i) => Ok(i.view()),
        Err(e) => Err(e.view()),
    }
}

fn copy_string(s: &String) -> (r: String)
    ensures
        r@ == s@,
{
    s.clone()
}

/// Applies one value flag to the options.
fn apply_flag(flag: &String, v: &String, opts: &mut Options) -> (r: Result<(), CliError>)
    requires
        takes_value(flag@),
    ensures
        match apply_value(flag@, v@, old(opts).view()) {
            Ok(next) => r is Ok && final(opts).view() == next,
            Err(e) => r matches Err(x) && x.view() == e,
        },
{
    if str_eq(flag.as_str(), "--preset") {
        match parse_uint(v.as_str(), usize::MAX as u64) {
            Ok(n) => {
                opts.preset = n as usize;
                opts.preset_given = true;
                Ok(())
            },
            Err(k) => Err(CliError::BadInt(copy_string(flag), k)),
        }
    } else if str_eq(flag.as_str(), "--point") {
        opts.point = Some(copy_string(v));
        Ok(())
    } else if str_eq(flag.as_str(), "--secs") {
        match float_literal_ok(v.as_str()) {
            Ok(()) => {
                opts.secs = Some(copy_string(v));
                Ok(())
            },
            Err(k) => Err(CliError::BadFloat(copy_string(flag), k)),
        }
    } else if str_eq(flag.as_str(), "--sr") {
        match float_literal_ok(v.as_str()) {
            Ok(()) => {
                opts.sr = Some(copy_string(v));
                Ok(())
            },
            Err(k) => Err(CliError::BadFloat(copy_string(flag), k)),
        }
    } else if str_eq(flag.as_str(), "--seed") {
        match parse_uint(v.as_str(), u32::MAX as u64) {
            Ok(n) => {
                opts.seed = n as u32;
                Ok(())
            },
            Err(k) => Err(CliError::BadInt(copy_string(flag), k)),
        }
    } else if str_eq(flag.as_str(), "--out") {
        opts.out = Some(copy_string(v));
        Ok(())
    } else {
        opts.raw = Some(copy_string(v));
        Ok(())
    }
}

fn is_value_flag(flag: &String) -> (r: bool)
    ensures
        r == takes_value(flag@),
{
    let f = flag.as_str();
    str_eq(f, "--preset") || str_eq(f, "--point") || str_eq(f, "--secs") || str_eq(f, "--sr")
        || str_eq(f, "--seed") || str_eq(f, "--out") || str_eq(f, "--raw")
}

/// Reads the flags from `argv[start..]`.
fn parse_flags(argv: &Vec<String>, start: usize, command: Command) -> (r: Result<Invocation, CliError>)
    requires
        start <= argv@.len(),
    ensures
        result_view(r) == flags_spec(args_view(argv@).skip(start as int), default_options(command)),
{
    let ghost all = args_view(argv@).skip(start as int);
    let mut opts = Options {
        command,
        preset: 0,
        preset_given: false,
        point: None,
        secs: None,
        sr: None,
        seed: 1,
        out: None,
        raw: None,
        no_sound: false,
    };
    let n = argv.len();
    let mut i = start;
    while i < n
        invariant
            n == argv@.len(),
            start <= i <= n,
            all == args_view(argv@).skip(start as int),
            flags_spec(all, default_options(command)) == flags_spec(
                args_view(argv@).skip(i as int),
                opts.view(),
            ),
        decreases n - i,
    {
        let ghost rest = args_view(argv@).skip(i as int);
        assert(rest[0] == argv@[i as int]@);
        let flag = &argv[i];
        if str_eq(flag.as_str(), "--list") {
            return Ok(Invocation::List);
        } else if str_eq(flag.as_str(), "--no-sound") {
            opts.no_sound = true;
            proof {
                assert(rest.drop_first() =~= args_view(argv@).skip(i + 1));
            }
            i = i + 1;
        } else if is_value_flag(flag) {
            if i + 1 >= n {
                return Err(CliError::NeedsValue(copy_string(flag)));
            }
            assert(rest[1] == argv@[i + 1]@);
            match apply_flag(flag, &argv[i + 1], &mut opts) {
                Ok(()) => {},
                Err(e) => {
                    return Err(e);
                },
            }
            proof {
                assert(rest.skip(2) =~= args_view(argv@).skip(i + 2));
            }
            i = i + 2;
        } else {
            return Err(CliError::Unknown(copy_string(flag)));
        }
    }
    proof {
        assert(args_view(argv@).skip(i as int).len() == 0);
    }
    Ok(Invocation::Run(opts))
}

/// Reads the program's command line (without the program name).
pub fn parse_args(argv: &Vec<String>) -> (r: Result<Invocation, CliError>)
    ensures
        result_view(r) == parse_args_spec(args_view(argv@)),
{
    let ghost av = args_view(argv@);
    proof {
        assert(av.skip(0) =~= av);
    }
    if argv.len() == 0 {
        proof {
            reveal_strlit("");
            reveal_strlit("--help");
            reveal_strlit("-h");
            reveal_strlit("help");
            reveal_strlit("render");
            reveal_strlit("play");
            reveal_strlit("tui");
            assert(""@.len() != "--help"@.len());
            assert(""@.len() != "-h"@.len());
            assert(""@.len() != "help"@.len());
            assert(""@.len() != "render"@.len());
            assert(""@.len() != "play"@.len());
            assert(""@.len() != "tui"@.len());
        }
        return parse_flags(argv, 0, Command::Tui);
    }
    assert(av[0] == argv@[0]@);
    let first = argv[0].as_str();
    if str_eq(first, "--help") || str_eq(first, "-h") || str_eq(first, "help") {
        Ok(Invocation::Help)
    } else if str_eq(first, "render") {
        parse_flags(argv, 1, Command::Render)
    } else if str_eq(first, "play") {
        parse_flags(argv, 1, Command::Play)
    } else if str_eq(first, "tui") {
        parse_flags(argv, 1, Command::Tui)
    } else {
        parse_flags(argv, 0, Command::Tui)
    }
}

} // verus!

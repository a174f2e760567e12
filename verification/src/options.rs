//! Command-line options of the game.
use vstd::prelude::*;
use crate::text::{chars_of, equals_str, extend_chars, extend_str, string_of};
use crate::track::opt_view;

verus! {

pub open spec fn is_digit(c: char) -> bool {
    48 <= (c as u32) <= 57
}

/// The value of a string of decimal digits.
pub open spec fn digits_value(s: Seq<char>) -> nat
    decreases s.len(),
{
    if s.len() == 0 {
        0
    } else {
        digits_value(s.drop_last()) * 10 + ((s.last() as u32) - 48) as nat
    }
}

pub open spec fn all_digits(s: Seq<char>) -> bool {
    forall|i: int| 0 <= i < s.len() ==> is_digit(#[trigger] s[i])
}

/// What `str::parse::<u64>` accepts: an optional `+` and then one or more
/// decimal digits whose value fits in 64 bits.
pub open spec fn parse_u64_spec(s: Seq<char>) -> Option<u64> {
    let d = if s.len() > 0 && s[0] == '+' {
        s.drop_first()
    } else {
        s
    };
    if d.len() == 0 || !all_digits(d) || digits_value(d) > u64::MAX {
        None
    } else {
        Some(digits_value(d) as u64)
    }
}

/// Reads an unsigned 64-bit decimal number.
pub fn parse_u64(s: &Vec<char>) -> (r: Option<u64>)
    ensures
        r == parse_u64_spec(s@),
{
    let start: usize = if s.len() > 0 && s[0] == '+' {
        1
    } else {
        0
    };
    let ghost d = if s@.len() > 0 && s@[0] == '+' {
        s@.drop_first()
    } else {
        s@
    };
    assert(d =~= s@.skip(start as int));
    if start == s.len() {
        return None;
    }
    let mut value: u64 = 0;
    let mut i = start;
    assert(s@.subrange(start as int, start as int) =~= Seq::<char>::empty());
    while i < s.len()
        invariant
            start <= i <= s.len(),
            start < s.len(),
            d == (if s@.len() > 0 && s@[0] == '+' {
                s@.drop_first()
            } else {
                s@
            }),
            d =~= s@.skip(start as int),
            all_digits(s@.subrange(start as int, i as int)),
            value == digits_value(s@.subrange(start as int, i as int)),
        decreases s.len() - i,
    {
        let c = s[i];
        let ghost prefix = s@.subrange(start as int, i as int);
        let ghost next = s@.subrange(start as int, i + 1);
        assert(next.drop_last() =~= prefix);
        assert(next.last() == c);
        assert(digits_value(next) == digits_value(prefix) * 10 + ((c as u32) - 48) as nat);
        if !((c as u32) >= 48 && (c as u32) <= 57) {
            assert(!all_digits(d)) by {
                assert(d[i - start] == c);
            }
            return None;
        }
        let digit = ((c as u32) - 48) as u64;
        let grown = match value.checked_mul(10) {
            Some(v) => v.checked_add(digit),
            None => None,
        };
        match grown {
            Some(v) => {
                value = v;
            },
            None => {
                proof {
                    lemma_digits_value_prefix(d, i - start + 1);
                    assert(d.take(i - start + 1) =~= next);
                }
                assert(!all_digits(d) || digits_value(d) > u64::MAX);
                return None;
            },
        }
        i += 1;
    }
    assert(s@.subrange(start as int, s.len() as int) =~= d);
    Some(value)
}

proof fn lemma_digits_value_prefix(d: Seq<char>, k: int)
    requires
        0 <= k <= d.len(),
    ensures
        all_digits(d) ==> digits_value(d.take(k)) <= digits_value(d),
    decreases d.len() - k,
{
    if k < d.len() {
        lemma_digits_value_prefix(d, k + 1);
        assert(d.take(k + 1).drop_last() =~= d.take(k));
        if all_digits(d) {
            assert(is_digit(d[k]));
        }
    } else {
        assert(d.take(k) =~= d);
    }
}

/// ASCII lowercase.
pub open spec fn ascii_lower(c: char) -> char {
    if 65 <= (c as u32) <= 90 {
        ((c as u32) + 32) as char
    } else {
        c
    }
}

/// A mantissa: digits with at most one decimal point, and at least one digit.
pub open spec fn is_mantissa(m: Seq<char>) -> bool {
    &&& forall|i: int| 0 <= i < m.len() ==> is_digit(#[trigger] m[i]) || m[i] == '.'
    &&& forall|i: int, j: int| 0 <= i < j < m.len() && #[trigger] m[i] == '.' ==> #[trigger] m[j] != '.'
    &&& exists|i: int| 0 <= i < m.len() && is_digit(#[trigger] m[i])
}

/// An exponent: `e`, an optional sign, then one or more digits.
pub open spec fn is_exponent(e: Seq<char>) -> bool {
    &&& e.len() >= 2
    &&& e[0] == 'e'
    &&& {
        let rest = if e[1] == '+' || e[1] == '-' {
            e.skip(2)
        } else {
            e.skip(1)
        };
        rest.len() > 0 && all_digits(rest)
    }
}

/// The position of the first `e`, or the length when there is none.
pub open spec fn first_e(b: Seq<char>, i: int) -> int
    decreases b.len() - i,
{
    if i < 0 || i >= b.len() {
        b.len() as int
    } else if b[i] == 'e' {
        i
    } else {
        first_e(b, i + 1)
    }
}

/// What `str::parse::<f32>` accepts, as its documentation gives the grammar
/// (case-insensitively): an optional sign, then `inf`, `infinity`, `nan`,
/// or digits with an optional decimal point and an optional exponent.
pub open spec fn is_float_literal(s: Seq<char>) -> bool {
    let t = Seq::new(s.len(), |i: int| ascii_lower(s[i]));
    let b = if t.len() > 0 && (t[0] == '+' || t[0] == '-') {
        t.drop_first()
    } else {
        t
    };
    let k = first_e(b, 0);
    ||| b == "inf"@
    ||| b == "infinity"@
    ||| b == "nan"@
    ||| is_mantissa(b.take(k)) && (k == b.len() || is_exponent(b.skip(k)))
}


fn lower_char(c: char) -> (r: char)
    ensures
        r == ascii_lower(c),
{
    let v = c as u32;
    if v >= 65 && v <= 90 {
        assert(v + 32 <= 122);
        ((v + 32) as u8) as char
    } else {
        c
    }
}

fn check_mantissa(b: &Vec<char>, k: usize) -> (r: bool)
    requires
        k <= b.len(),
    ensures
        r == is_mantissa(b@.take(k as int)),
{
    let ghost m = b@.take(k as int);
    let mut i: usize = 0;
    let mut dots: usize = 0;
    let mut digits = false;
    while i < k
        invariant
            i <= k <= b.len(),
            m == b@.take(k as int),
            forall|j: int| 0 <= j < i ==> is_digit(#[trigger] m[j]) || m[j] == '.',
            dots <= 1,
            dots == 0 ==> forall|j: int| 0 <= j < i ==> #[trigger] m[j] != '.',
            dots == 1 ==> exists|j: int| 0 <= j < i && #[trigger] m[j] == '.',
            dots == 1 ==> forall|a: int, c: int|
                0 <= a < c < i && #[trigger] m[a] == '.' ==> #[trigger] m[c] != '.',
            digits <==> exists|j: int| 0 <= j < i && is_digit(#[trigger] m[j]),
        decreases k - i,
    {
        let c = b[i];
        assert(m[i as int] == c);
        if c == '.' {
            if dots == 1 {
                assert(!is_mantissa(m)) by {
                    let j = choose|j: int| 0 <= j < i && #[trigger] m[j] == '.';
                    assert(m[j] == '.' && m[i as int] == '.');
                }
                return false;
            }
            dots = 1;
        } else if (c as u32) >= 48 && (c as u32) <= 57 {
            digits = true;
        } else {
            assert(!is_mantissa(m)) by {
                assert(!(is_digit(m[i as int]) || m[i as int] == '.'));
            }
            return false;
        }
        i += 1;
    }
    if !digits {
        return false;
    }
    true
}

fn check_exponent(b: &Vec<char>, k: usize) -> (r: bool)
    requires
        k <= b.len(),
    ensures
        r == is_exponent(b@.skip(k as int)),
{
    let ghost e = b@.skip(k as int);
    if b.len() - k < 2 || b[k] != 'e' {
        return false;
    }
    assert(e[0] == b@[k as int] && e[1] == b@[k + 1]);
    let first = if b[k + 1] == '+' || b[k + 1] == '-' {
        k + 2
    } else {
        k + 1
    };
    let ghost rest = b@.skip(first as int);
    assert(rest =~= (if e[1] == '+' || e[1] == '-' {
        e.skip(2)
    } else {
        e.skip(1)
    }));
    if first == b.len() {
        return false;
    }
    let mut i = first;
    while i < b.len()
        invariant
            first <= i <= b.len(),
            k <= b.len(),
            rest == b@.skip(first as int),
            e == b@.skip(k as int),
            e.len() >= 2,
            e[0] == 'e',
            rest == (if e[1] == '+' || e[1] == '-' {
                e.skip(2)
            } else {
                e.skip(1)
            }),
            forall|j: int| 0 <= j < i - first ==> is_digit(#[trigger] rest[j]),
        decreases b.len() - i,
    {
        assert(rest[i - first] == b@[i as int]);
        if !((b[i] as u32) >= 48 && (b[i] as u32) <= 57) {
            assert(!is_digit(rest[i - first]));
            return false;
        }
        i += 1;
    }
    true
}

/// Whether `str::parse::<f32>` accepts `s`.
pub fn float_literal(s: &Vec<char>) -> (r: bool)
    ensures
        r == is_float_literal(s@),
{
    let ghost t = Seq::new(s@.len(), |i: int| ascii_lower(s@[i]));
    let signed = s.len() > 0 && (s[0] == '+' || s[0] == '-');
    let mut b: Vec<char> = Vec::new();
    let mut i: usize = if signed {
        1
    } else {
        0
    };
    let ghost start: int = i as int;
    if signed {
        assert(t[0] == s@[0]);
    }
    while i < s.len()
        invariant
            start <= i <= s.len(),
            start == (if signed {
                1int
            } else {
                0int
            }),
            t == Seq::new(s@.len(), |i: int| ascii_lower(s@[i])),
            b@ == t.subrange(start, i as int),
        decreases s.len() - i,
    {
        let c = lower_char(s[i]);
        b.push(c);
        assert(t.subrange(start, i + 1) =~= t.subrange(start, i as int).push(t[i as int]));
        i += 1;
    }
    assert(b@ =~= (if t.len() > 0 && (t[0] == '+' || t[0] == '-') {
        t.drop_first()
    } else {
        t
    }));
    if equals_str(&b, "inf") || equals_str(&b, "infinity") || equals_str(&b, "nan") {
        return true;
    }
    let mut k: usize = 0;
    while k < b.len() && b[k] != 'e'
        invariant
            k <= b.len(),
            first_e(b@, 0) == first_e(b@, k as int),
        decreases b.len() - k,
    {
        k += 1;
    }
    assert(first_e(b@, 0) == k);
    if !check_mantissa(&b, k) {
        return false;
    }
    k == b.len() || check_exponent(&b, k)
}


/// How the game was asked to run.
#[derive(Debug)]
pub struct Options {
    pub path: String,
    pub validate: bool,
    pub frames: Option<u64>,
    pub capture: Option<String>,
    pub autodrive: bool,
    /// Drive every bundled course in turn, starting over after the last.
    pub demo: bool,
    /// A distance along the track to start the preview at, as written;
    /// it is a number `str::parse::<f32>` accepts.
    pub at: Option<String>,
}

/// Either options to run with, or a request for the usage text.
#[derive(Debug)]
pub enum Invocation {
    Run(Options),
    Help,
}

pub ghost struct OptionsView {
    pub path: Seq<char>,
    pub validate: bool,
    pub frames: Option<u64>,
    pub capture: Option<Seq<char>>,
    pub autodrive: bool,
    pub demo: bool,
    pub at: Option<Seq<char>>,
}

pub ghost enum InvocationView {
    Run(OptionsView),
    Help,
}

impl View for Options {
    type V = OptionsView;

    open spec fn view(&self) -> OptionsView {
        OptionsView {
            path: self.path@,
            validate: self.validate,
            frames: self.frames,
            capture: opt_view(self.capture),
            autodrive: self.autodrive,
            demo: self.demo,
            at: opt_view(self.at),
        }
    }
}

impl View for Invocation {
    type V = InvocationView;

    open spec fn view(&self) -> InvocationView {
        match self {
            Invocation::Run(o) => InvocationView::Run(o@),
            Invocation::Help => InvocationView::Help,
        }
    }
}

/// The options before any argument is read.
pub open spec fn default_options() -> OptionsView {
    OptionsView {
        path: "tracks/alpine.track"@,
        validate: false,
        frames: None,
        capture: None,
        autodrive: false,
        demo: false,
        at: None,
    }
}

/// The checks after the last argument: a frame count must be positive, and
/// a capture without a frame count renders 30 frames.
pub open spec fn options_end(o: OptionsView) -> Result<InvocationView, Seq<char>> {
    if o.frames == Some(0u64) {
        Err("--frames must be positive"@)
    } else if o.capture is Some && o.frames is None {
        Ok(InvocationView::Run(OptionsView { frames: Some(30u64), ..o }))
    } else {
        Ok(InvocationView::Run(o))
    }
}

/// Reading the arguments from index `i` on.
pub open spec fn options_from(args: Seq<Seq<char>>, i: int, o: OptionsView) -> Result<
    InvocationView,
    Seq<char>,
>
    decreases args.len() - i,
{
    if i < 0 || i >= args.len() {
        options_end(o)
    } else {
        let a = args[i];
        let has_next = i + 1 < args.len();
        if a == "--track"@ {
            if !has_next {
                Err("--track needs a path"@)
            } else {
                options_from(args, i + 2, OptionsView { path: args[i + 1], ..o })
            }
        } else if a == "--validate"@ {
            if has_next {
                options_from(args, i + 2, OptionsView { validate: true, path: args[i + 1], ..o })
            } else {
                options_from(args, i + 1, OptionsView { validate: true, ..o })
            }
        } else if a == "--frames"@ {
            if !has_next {
                Err("--frames needs a positive integer"@)
            } else {
                match parse_u64_spec(args[i + 1]) {
                    Some(n) => options_from(args, i + 2, OptionsView { frames: Some(n), ..o }),
                    None => Err("invalid frame count"@),
                }
            }
        } else if a == "--capture"@ {
            if !has_next {
                Err("--capture needs a PNG path"@)
            } else {
                options_from(args, i + 2, OptionsView { capture: Some(args[i + 1]), ..o })
            }
        } else if a == "--autodrive"@ {
            options_from(args, i + 1, OptionsView { autodrive: true, ..o })
        } else if a == "--smoke-test"@ {
            options_from(args, i + 1, OptionsView { frames: Some(240u64), autodrive: true, ..o })
        } else if a == "--demo"@ {
            options_from(args, i + 1, OptionsView { demo: true, autodrive: true, ..o })
        } else if a == "--at"@ {
            if !has_next {
                Err("--at needs a distance in meters"@)
            } else if !is_float_literal(args[i + 1]) {
                Err("invalid distance"@)
            } else {
                options_from(args, i + 2, OptionsView { at: Some(args[i + 1]), ..o })
            }
        } else if a == "--help"@ || a == "-h"@ {
            Ok(InvocationView::Help)
        } else if a.len() == 0 || a[0] != '-' {
            options_from(args, i + 1, OptionsView { path: a, ..o })
        } else {
            Err("Unknown option: "@ + a + ". Use --help."@)
        }
    }
}

/// The meaning of the command-line arguments (the program name excluded),
/// before the preview distance's value is checked (see `finish_options`).
pub open spec fn options_spec(args: Seq<Seq<char>>) -> Result<InvocationView, Seq<char>> {
    options_from(args, 0, default_options())
}

pub open spec fn string_views(v: Seq<String>) -> Seq<Seq<char>> {
    Seq::new(v.len(), |i: int| v[i]@)
}

/// Reads the command-line arguments (the program name excluded). The range
/// of the preview distance is checked afterwards by `finish_options`.
pub fn options(args: &Vec<String>) -> (r: Result<Invocation, String>)
    ensures
        match r {
            Ok(inv) => options_spec(string_views(args@)) == Ok::<InvocationView, Seq<char>>(inv@),
            Err(e) => options_spec(string_views(args@)) == Err::<InvocationView, Seq<char>>(e@),
        },
{
    let ghost av = string_views(args@);
    let mut out = Options {
        path: String::from_str("tracks/alpine.track"),
        validate: false,
        frames: None,
        capture: None,
        autodrive: false,
        demo: false,
        at: None,
    };
    let n = args.len();
    let mut i: usize = 0;
    while i < n
        invariant
            i <= n + 1,
            n == args.len(),
            av == string_views(args@),
            options_spec(av) == options_from(av, i as int, out@),
        decreases n + 1 - i,
    {
        let a = chars_of(args[i].as_str());
        let has_next = i + 1 < n;
        assert(av[i as int] == a@);
        if has_next {
            assert(av[i + 1] == args@[i + 1]@);
        }
        if equals_str(&a, "--track") {
            if !has_next {
                return Err(String::from_str("--track needs a path"));
            }
            out.path = args[i + 1].clone();
            i += 2;
        } else if equals_str(&a, "--validate") {
            out.validate = true;
            if has_next {
                out.path = args[i + 1].clone();
                i += 2;
            } else {
                i += 1;
            }
        } else if equals_str(&a, "--frames") {
            if !has_next {
                return Err(String::from_str("--frames needs a positive integer"));
            }
            let v = chars_of(args[i + 1].as_str());
            match parse_u64(&v) {
                Some(count) => {
                    out.frames = Some(count);
                },
                None => {
                    return Err(String::from_str("invalid frame count"));
                },
            }
            i += 2;
        } else if equals_str(&a, "--capture") {
            if !has_next {
                return Err(String::from_str("--capture needs a PNG path"));
            }
            out.capture = Some(args[i + 1].clone());
            i += 2;
        } else if equals_str(&a, "--autodrive") {
            out.autodrive = true;
            i += 1;
        } else if equals_str(&a, "--smoke-test") {
            out.frames = Some(240);
            out.autodrive = true;
            i += 1;
        } else if equals_str(&a, "--demo") {
            out.demo = true;
            out.autodrive = true;
            i += 1;
        } else if equals_str(&a, "--at") {
            if !has_next {
                return Err(String::from_str("--at needs a distance in meters"));
            }
            let v = chars_of(args[i + 1].as_str());
            if !float_literal(&v) {
                return Err(String::from_str("invalid distance"));
            }
            out.at = Some(args[i + 1].clone());
            i += 2;
        } else if equals_str(&a, "--help") || equals_str(&a, "-h") {
            return Ok(Invocation::Help);
        } else if a.len() == 0 || a[0] != '-' {
            out.path = args[i].clone();
            i += 1;
        } else {
            let mut m: Vec<char> = Vec::new();
            extend_str(&mut m, "Unknown option: ");
            extend_chars(&mut m, &a);
            extend_str(&mut m, ". Use --help.");
            assert(m@ =~= "Unknown option: "@ + a@ + ". Use --help."@);
            return Err(string_of(&m));
        }
    }
    if out.frames == Some(0u64) {
        return Err(String::from_str("--frames must be positive"));
    }
    if out.capture.is_some() && out.frames.is_none() {
        out.frames = Some(30);
    }
    Ok(Invocation::Run(out))
}

/// The last check on the options: a preview distance must be a finite,
/// nonnegative number. `at_in_range` says whether the value that
/// `str::parse::<f32>` gives for the distance text is finite and not below
/// zero; it is not read when no distance was given.
pub open spec fn range_checked(inv: InvocationView, at_in_range: bool) -> Result<
    InvocationView,
    Seq<char>,
> {
    match inv {
        InvocationView::Run(o) => if o.at is Some && !at_in_range {
            Err("--at must be finite and nonnegative"@)
        } else {
            Ok(inv)
        },
        InvocationView::Help => Ok(inv),
    }
}

/// The whole outcome of reading the command line: the arguments in order,
/// then a zero frame count, then the preview distance's range, and last the
/// capture's default frame count.
pub open spec fn program_options_spec(args: Seq<Seq<char>>, at_in_range: bool) -> Result<
    InvocationView,
    Seq<char>,
> {
    match options_spec(args) {
        Ok(inv) => range_checked(inv, at_in_range),
        Err(e) => Err(e),
    }
}

/// Refuses a preview distance whose value is infinite, not a number, or
/// negative; `at_in_range` is that verdict on the value of `inv`'s distance.
pub fn finish_options(inv: Invocation, at_in_range: bool) -> (r: Result<Invocation, String>)
    ensures
        match r {
            Ok(out) => range_checked(inv@, at_in_range) == Ok::<InvocationView, Seq<char>>(out@),
            Err(e) => range_checked(inv@, at_in_range) == Err::<InvocationView, Seq<char>>(e@),
        },
{
    let refused = match &inv {
        Invocation::Run(o) => o.at.is_some() && !at_in_range,
        Invocation::Help => false,
    };
    if refused {
        Err(String::from_str("--at must be finite and nonnegative"))
    } else {
        Ok(inv)
    }
}

/// Reading the arguments and checking the distance's range give exactly
/// the outcome of the command line: a distance out of range is refused
/// after every argument has been read and a zero frame count refused.
pub proof fn lemma_program_options(args: Seq<Seq<char>>, at_in_range: bool, inv: InvocationView)
    requires
        options_spec(args) == Ok::<InvocationView, Seq<char>>(inv),
    ensures
        program_options_spec(args, at_in_range) == range_checked(inv, at_in_range),
        (inv matches InvocationView::Run(o) && o.at is Some && !at_in_range)
            ==> program_options_spec(args, at_in_range) is Err,
{
}

/// The frame count given by the arguments from index `i` on, where `given`
/// is the count given before them: each `--frames N` gives `N`, each
/// `--smoke-test` gives 240, and a later one replaces an earlier one. The
/// words that follow `--track`, `--capture`, `--at` and `--validate` are
/// their values, not options.
pub open spec fn frames_given(args: Seq<Seq<char>>, i: int, given: Option<u64>) -> Option<u64>
    decreases args.len() - i,
{
    if i < 0 || i >= args.len() {
        given
    } else {
        let w = args[i];
        let has_value = i + 1 < args.len();
        if w == "--frames"@ && has_value {
            frames_given(args, i + 2, parse_u64_spec(args[i + 1]))
        } else if w == "--smoke-test"@ {
            frames_given(args, i + 1, Some(240u64))
        } else if (w == "--track"@ || w == "--capture"@ || w == "--at"@ || w == "--validate"@)
            && has_value {
            frames_given(args, i + 2, given)
        } else {
            frames_given(args, i + 1, given)
        }
    }
}

/// The frame count once a capture is accounted for: the count given, or 30
/// frames for a capture without one.
pub open spec fn frames_with_capture(given: Option<u64>, capture: bool) -> Option<u64> {
    match given {
        Some(n) => Some(n),
        None => if capture {
            Some(30u64)
        } else {
            None
        },
    }
}

proof fn lemma_option_words_differ()
    ensures
        "--frames"@ != "--track"@,
        "--frames"@ != "--validate"@,
        "--frames"@ != "--capture"@,
        "--frames"@ != "--autodrive"@,
        "--frames"@ != "--smoke-test"@,
        "--frames"@ != "--demo"@,
        "--frames"@ != "--at"@,
        "--smoke-test"@ != "--track"@,
        "--smoke-test"@ != "--validate"@,
        "--smoke-test"@ != "--capture"@,
        "--smoke-test"@ != "--autodrive"@,
        "--smoke-test"@ != "--demo"@,
        "--smoke-test"@ != "--at"@,
        "--autodrive"@ != "--track"@,
        "--autodrive"@ != "--capture"@,
        "--autodrive"@ != "--at"@,
        "--autodrive"@ != "--validate"@,
        "--demo"@ != "--track"@,
        "--demo"@ != "--capture"@,
        "--demo"@ != "--at"@,
        "--demo"@ != "--validate"@,
        "--frames"@[0] == '-',
        "--smoke-test"@[0] == '-',
        "--track"@[0] == '-',
        "--capture"@[0] == '-',
        "--at"@[0] == '-',
        "--validate"@[0] == '-',
{
    reveal_strlit("--frames");
    reveal_strlit("--smoke-test");
    reveal_strlit("--track");
    reveal_strlit("--validate");
    reveal_strlit("--capture");
    reveal_strlit("--autodrive");
    reveal_strlit("--demo");
    reveal_strlit("--at");
    assert("--frames"@[2] != "--track"@[2]);
    assert("--frames"@[2] != "--validate"@[2]);
    assert("--frames"@[2] != "--capture"@[2]);
    assert("--frames"@[2] != "--autodrive"@[2]);
    assert("--frames"@[2] != "--smoke-test"@[2]);
    assert("--frames"@[2] != "--demo"@[2]);
    assert("--frames"@[2] != "--at"@[2]);
    assert("--smoke-test"@[2] != "--track"@[2]);
    assert("--smoke-test"@[2] != "--validate"@[2]);
    assert("--smoke-test"@[2] != "--capture"@[2]);
    assert("--smoke-test"@[2] != "--autodrive"@[2]);
    assert("--smoke-test"@[2] != "--demo"@[2]);
    assert("--smoke-test"@[2] != "--at"@[2]);
    assert("--autodrive"@[2] != "--track"@[2]);
    assert("--autodrive"@[2] != "--capture"@[2]);
    assert("--autodrive"@[3] != "--at"@[3]);
    assert("--autodrive"@[2] != "--validate"@[2]);
    assert("--demo"@[2] != "--track"@[2]);
    assert("--demo"@[2] != "--capture"@[2]);
    assert("--demo"@[2] != "--at"@[2]);
    assert("--demo"@[2] != "--validate"@[2]);
}

proof fn lemma_frames_from(args: Seq<Seq<char>>, i: int, o: OptionsView)
    requires
        0 <= i,
    ensures
        options_from(args, i, o) matches Ok(InvocationView::Run(r)) ==> r.frames
            == frames_with_capture(frames_given(args, i, o.frames), r.capture is Some),
    decreases args.len() - i,
{
    lemma_option_words_differ();
    if i < args.len() {
        let a = args[i];
        let has_next = i + 1 < args.len();
        if a == "--track"@ {
            if has_next {
                lemma_frames_from(args, i + 2, OptionsView { path: args[i + 1], ..o });
            }
        } else if a == "--validate"@ {
            if has_next {
                lemma_frames_from(
                    args,
                    i + 2,
                    OptionsView { validate: true, path: args[i + 1], ..o },
                );
            } else {
                lemma_frames_from(args, i + 1, OptionsView { validate: true, ..o });
            }
        } else if a == "--frames"@ {
            if has_next {
                if let Some(n) = parse_u64_spec(args[i + 1]) {
                    lemma_frames_from(args, i + 2, OptionsView { frames: Some(n), ..o });
                }
            }
        } else if a == "--capture"@ {
            if has_next {
                lemma_frames_from(args, i + 2, OptionsView { capture: Some(args[i + 1]), ..o });
            }
        } else if a == "--autodrive"@ {
            lemma_frames_from(args, i + 1, OptionsView { autodrive: true, ..o });
        } else if a == "--smoke-test"@ {
            lemma_frames_from(
                args,
                i + 1,
                OptionsView { frames: Some(240u64), autodrive: true, ..o },
            );
        } else if a == "--demo"@ {
            lemma_frames_from(args, i + 1, OptionsView { demo: true, autodrive: true, ..o });
        } else if a == "--at"@ {
            if has_next && is_float_literal(args[i + 1]) {
                lemma_frames_from(args, i + 2, OptionsView { at: Some(args[i + 1]), ..o });
            }
        } else if a == "--help"@ || a == "-h"@ {
        } else if a.len() == 0 || a[0] != '-' {
            lemma_frames_from(args, i + 1, OptionsView { path: a, ..o });
        }
    }
}

/// The frame count of accepted arguments is the one given by the last
/// `--frames` or `--smoke-test`; only when neither was given does a capture
/// default to 30 frames, and without a capture there is then no limit. A
/// capture never changes a frame count that was given, before or after it.
pub proof fn lemma_last_frame_count_wins(args: Seq<Seq<char>>)
    ensures
        options_spec(args) matches Ok(InvocationView::Run(o)) ==> o.frames == frames_with_capture(
            frames_given(args, 0, None),
            o.capture is Some,
        ),
{
    lemma_frames_from(args, 0, default_options());
}

} // verus!

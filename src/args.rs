use vstd::prelude::*;
use crate::config::{ArgError, Config, Mode, Output, default_config};
use vstd::slice::slice_subrange;

verus! {

pub open spec fn is_digit(c: u8) -> bool {
    48 <= c <= 57
}

/// The value of a string of decimal digits, most significant first.
pub open spec fn digits_value(s: Seq<u8>) -> int
    decreases s.len(),
{
    if s.len() == 0 {
        0
    } else {
        digits_value(s.drop_last()) * 10 + (s.last() - 48)
    }
}

/// The digits of an unsigned integer's text: one leading `+` is allowed.
pub open spec fn digits_part(s: Seq<u8>) -> Seq<u8> {
    if s.len() > 0 && s[0] == 43 {
        s.drop_first()
    } else {
        s
    }
}

/// Text of an unsigned integer: an optional `+`, then one or more digits.
pub open spec fn is_unsigned(s: Seq<u8>) -> bool {
    digits_part(s).len() > 0 && forall|i: int|
        0 <= i < digits_part(s).len() ==> is_digit(#[trigger] digits_part(s)[i])
}

/// The integer that `s` holds, if it is one and at most `max`.
pub open spec fn unsigned_of(s: Seq<u8>, max: int) -> Option<int> {
    if is_unsigned(s) && digits_value(digits_part(s)) <= max {
        Some(digits_value(digits_part(s)))
    } else {
        None
    }
}

proof fn lemma_digits_step(s: Seq<u8>, i: int)
    requires
        0 <= i < s.len(),
    ensures
        digits_value(s.take(i + 1)) == digits_value(s.take(i)) * 10 + (s[i] - 48),
{
    assert(s.take(i + 1).drop_last() =~= s.take(i));
}

/// Reads an unsigned decimal integer no larger than `max`.
pub fn parse_unsigned(s: &[u8], max: u64) -> (r: Option<u64>)
    ensures
        match unsigned_of(s@, max as int) {
            Some(v) => r.is_some() && r.unwrap() as int == v,
            None => r.is_none(),
        },
{
    let mut start: usize = 0;
    if s.len() > 0 && s[0] == 43u8 {
        start = 1;
    }
    let ghost d = digits_part(s@);
    assert(d =~= s@.subrange(start as int, s@.len() as int));
    if start == s.len() {
        return None;
    }
    let mut acc: u64 = 0;
    let mut over = false;
    let mut i: usize = start;
    while i < s.len()
        invariant
            start <= i <= s.len(),
            d == s@.subrange(start as int, s@.len() as int),
            d == digits_part(s@),
            forall|j: int| 0 <= j < i - start ==> is_digit(#[trigger] d[j]),
            !over ==> acc as int == digits_value(d.take(i - start)) && acc <= max,
            over ==> digits_value(d.take(i - start)) > max,
        decreases s.len() - i,
    {
        let c = s[i];
        if c < 48u8 || c > 57u8 {
            assert(!is_digit(digits_part(s@)[i - start]));
            return None;
        }
        proof {
            lemma_digits_step(d, i - start);
            assert(d[i - start] == c);
        }
        let dig = (c - 48u8) as u64;
        if !over {
            if dig > max || acc > (max - dig) / 10 {
                over = true;
                assert(acc * 10 + dig > max) by (nonlinear_arith)
                    requires dig > max || acc > (max - dig) / 10, acc >= 0;
            } else {
                assert(acc * 10 + dig <= max) by (nonlinear_arith)
                    requires acc <= (max - dig) / 10, dig <= max;
                acc = acc * 10 + dig;
            }
        } else {
            assert(digits_value(d.take(i - start)) * 10 + dig > max) by (nonlinear_arith)
                requires digits_value(d.take(i - start)) > max, dig >= 0;
        }
        i = i + 1;
    }
    assert(d.take(i - start) =~= d);
    if over {
        None
    } else {
        Some(acc)
    }
}

/// Where the first `=` at or after `i` stands; the length if there is none.
pub open spec fn eq_pos(a: Seq<u8>, i: int) -> int
    decreases a.len() - i,
{
    if i < 0 || i >= a.len() {
        a.len() as int
    } else if a[i] == 61 {
        i
    } else {
        eq_pos(a, i + 1)
    }
}

/// An option starts with `--`; other arguments are ignored.
pub open spec fn is_option(a: Seq<u8>) -> bool {
    a.len() >= 2 && a[0] == 45 && a[1] == 45
}

/// The option's name: after `--`, up to the first `=`.
pub open spec fn option_key(a: Seq<u8>) -> Seq<u8> {
    a.subrange(2, eq_pos(a, 2))
}

/// The option's value: after the first `=`, or empty when there is none.
pub open spec fn option_value(a: Seq<u8>) -> Seq<u8> {
    if eq_pos(a, 2) < a.len() {
        a.subrange(eq_pos(a, 2) + 1, a.len() as int)
    } else {
        Seq::empty()
    }
}

pub open spec fn key_n() -> Seq<u8> {
    seq![110u8]
}

pub open spec fn key_runs() -> Seq<u8> {
    seq![114u8, 117u8, 110u8, 115u8]
}

pub open spec fn key_warmup() -> Seq<u8> {
    seq![119u8, 97u8, 114u8, 109u8, 117u8, 112u8]
}

pub open spec fn key_seed() -> Seq<u8> {
    seq![115u8, 101u8, 101u8, 100u8]
}

pub open spec fn key_mode() -> Seq<u8> {
    seq![109u8, 111u8, 100u8, 101u8]
}

pub open spec fn key_output() -> Seq<u8> {
    seq![111u8, 117u8, 116u8, 112u8, 117u8, 116u8]
}

pub open spec fn mode_named(v: Seq<u8>) -> Option<Mode> {
    if v == seq![102u8, 117u8, 108u8, 108u8] {
        Some(Mode::Full)
    } else if v == seq![103u8, 110u8] {
        Some(Mode::Gn)
    } else if v == seq![111u8, 117u8] {
        Some(Mode::Ou)
    } else {
        None
    }
}

pub open spec fn output_named(v: Seq<u8>) -> Option<Output> {
    if v == seq![116u8, 101u8, 120u8, 116u8] {
        Some(Output::Text)
    } else if v == seq![106u8, 115u8, 111u8, 110u8] {
        Some(Output::Json)
    } else {
        None
    }
}

/// The settings after the argument `a` is read on top of `c`.
pub open spec fn applied(c: Config, a: Seq<u8>) -> Result<Config, ArgError> {
    if !is_option(a) {
        Ok(c)
    } else {
        let k = option_key(a);
        let v = option_value(a);
        if k == key_n() {
            match unsigned_of(v, usize::MAX as int) {
                None => Err(ArgError::NNotInteger),
                Some(x) => if x < 2 {
                    Err(ArgError::NTooSmall)
                } else {
                    Ok(Config { n: x as usize, ..c })
                },
            }
        } else if k == key_runs() {
            match unsigned_of(v, usize::MAX as int) {
                None => Err(ArgError::RunsNotInteger),
                Some(x) => if x < 1 {
                    Err(ArgError::RunsTooSmall)
                } else {
                    Ok(Config { runs: x as usize, ..c })
                },
            }
        } else if k == key_warmup() {
            match unsigned_of(v, usize::MAX as int) {
                None => Err(ArgError::WarmupNotInteger),
                Some(x) => Ok(Config { warmup: x as usize, ..c }),
            }
        } else if k == key_seed() {
            match unsigned_of(v, u64::MAX as int) {
                None => Err(ArgError::SeedNotInteger),
                Some(x) => Ok(Config { seed: (x % 0x1_0000_0000) as u32, ..c }),
            }
        } else if k == key_mode() {
            match mode_named(v) {
                None => Err(ArgError::UnknownMode),
                Some(m) => Ok(Config { mode: m, ..c }),
            }
        } else if k == key_output() {
            match output_named(v) {
                None => Err(ArgError::UnknownOutput),
                Some(o) => Ok(Config { output: o, ..c }),
            }
        } else {
            Ok(c)
        }
    }
}

/// The settings that the arguments give, read in order from the defaults;
/// the first refused argument decides the error.
pub open spec fn parsed(args: Seq<Seq<u8>>) -> Result<Config, ArgError>
    decreases args.len(),
{
    if args.len() == 0 {
        Ok(default_config())
    } else {
        match parsed(args.drop_last()) {
            Ok(c) => applied(c, args.last()),
            Err(e) => Err(e),
        }
    }
}

/// Whether two byte strings are equal.
pub fn same_bytes(a: &[u8], b: &[u8]) -> (r: bool)
    ensures
        r == (a@ == b@),
{
    if a.len() != b.len() {
        return false;
    }
    let mut i: usize = 0;
    while i < a.len()
        invariant
            a@.len() == b@.len(),
            0 <= i <= a.len(),
            forall|j: int| 0 <= j < i ==> a@[j] == b@[j],
        decreases a.len() - i,
    {
        if a[i] != b[i] {
            return false;
        }
        i = i + 1;
    }
    assert(a@ =~= b@);
    true
}

/// The position of the first `=` at or after `from`.
fn find_eq(a: &[u8], from: usize) -> (r: usize)
    requires
        from <= a.len(),
    ensures
        r as int == eq_pos(a@, from as int),
        from <= r <= a.len(),
{
    let mut i: usize = from;
    while i < a.len() && a[i] != 61u8
        invariant
            from <= i <= a.len(),
            eq_pos(a@, from as int) == eq_pos(a@, i as int),
        decreases a.len() - i,
    {
        i = i + 1;
    }
    assert(eq_pos(a@, i as int) == i as int);
    i
}

fn mode_of(v: &[u8]) -> (r: Option<Mode>)
    ensures
        r == mode_named(v@),
{
    if same_bytes(v, vec![102u8, 117u8, 108u8, 108u8].as_slice()) {
        Some(Mode::Full)
    } else if same_bytes(v, vec![103u8, 110u8].as_slice()) {
        Some(Mode::Gn)
    } else if same_bytes(v, vec![111u8, 117u8].as_slice()) {
        Some(Mode::Ou)
    } else {
        None
    }
}

fn output_of(v: &[u8]) -> (r: Option<Output>)
    ensures
        r == output_named(v@),
{
    if same_bytes(v, vec![116u8, 101u8, 120u8, 116u8].as_slice()) {
        Some(Output::Text)
    } else if same_bytes(v, vec![106u8, 115u8, 111u8, 110u8].as_slice()) {
        Some(Output::Json)
    } else {
        None
    }
}

/// Reads one argument on top of the settings `c`.
pub fn apply_arg(c: Config, a: &[u8]) -> (r: Result<Config, ArgError>)
    ensures
        r == applied(c, a@),
{
    if a.len() < 2 || a[0] != 45u8 || a[1] != 45u8 {
        return Ok(c);
    }
    let e = find_eq(a, 2);
    let k = slice_subrange(a, 2, e);
    let v = if e < a.len() {
        slice_subrange(a, e + 1, a.len())
    } else {
        slice_subrange(a, 0, 0)
    };
    assert(v@ =~= option_value(a@));
    assert(k@ == option_key(a@));
    let name_n = vec![110u8];
    assert(name_n@ =~= key_n());
    if same_bytes(k, name_n.as_slice()) {
        match parse_unsigned(v, usize::MAX as u64) {
            None => Err(ArgError::NNotInteger),
            Some(x) => if x < 2 {
                Err(ArgError::NTooSmall)
            } else {
                Ok(Config { n: x as usize, ..c })
            },
        }
    } else if same_bytes(k, vec![114u8, 117u8, 110u8, 115u8].as_slice()) {
        match parse_unsigned(v, usize::MAX as u64) {
            None => Err(ArgError::RunsNotInteger),
            Some(x) => if x < 1 {
                Err(ArgError::RunsTooSmall)
            } else {
                Ok(Config { runs: x as usize, ..c })
            },
        }
    } else if same_bytes(k, vec![119u8, 97u8, 114u8, 109u8, 117u8, 112u8].as_slice()) {
        match parse_unsigned(v, usize::MAX as u64) {
            None => Err(ArgError::WarmupNotInteger),
            Some(x) => Ok(Config { warmup: x as usize, ..c }),
        }
    } else if same_bytes(k, vec![115u8, 101u8, 101u8, 100u8].as_slice()) {
        match parse_unsigned(v, u64::MAX) {
            None => Err(ArgError::SeedNotInteger),
            Some(x) => {
                let low = x & 0xFFFF_FFFF;
                assert(low == x % 0x1_0000_0000 && low < 0x1_0000_0000) by (bit_vector)
                    requires low == x & 0xFFFF_FFFF;
                Ok(Config { seed: low as u32, ..c })
            },
        }
    } else if same_bytes(k, vec![109u8, 111u8, 100u8, 101u8].as_slice()) {
        match mode_of(v) {
            None => Err(ArgError::UnknownMode),
            Some(m) => Ok(Config { mode: m, ..c }),
        }
    } else if same_bytes(k, vec![111u8, 117u8, 116u8, 112u8, 117u8, 116u8].as_slice()) {
        match output_of(v) {
            None => Err(ArgError::UnknownOutput),
            Some(o) => Ok(Config { output: o, ..c }),
        }
    } else {
        Ok(c)
    }
}

/// Reads the arguments in order, starting from the defaults.
pub fn parse_args(args: &Vec<Vec<u8>>) -> (r: Result<Config, ArgError>)
    ensures
        r == parsed(args@.map_values(|a: Vec<u8>| a@)),
{
    let ghost all = args@.map_values(|a: Vec<u8>| a@);
    let mut c = Config::default_settings();
    let mut i: usize = 0;
    while i < args.len()
        invariant
            0 <= i <= args.len(),
            all == args@.map_values(|a: Vec<u8>| a@),
            parsed(all.take(i as int)) == Ok::<Config, ArgError>(c),
        decreases args.len() - i,
    {
        assert(all.take(i + 1).drop_last() =~= all.take(i as int));
        match apply_arg(c, args[i].as_slice()) {
            Ok(next) => {
                c = next;
            },
            Err(e) => {
                proof {
                    lemma_parsed_err(all, i as int + 1, e);
                }
                return Err(e);
            },
        }
        i = i + 1;
    }
    assert(all.take(i as int) =~= all);
    Ok(c)
}

proof fn lemma_parsed_err(all: Seq<Seq<u8>>, i: int, e: ArgError)
    requires
        0 <= i <= all.len(),
        parsed(all.take(i)) == Err::<Config, ArgError>(e),
    ensures
        parsed(all) == Err::<Config, ArgError>(e),
    decreases all.len() - i,
{
    if i < all.len() {
        assert(all.take(i + 1).drop_last() =~= all.take(i));
        lemma_parsed_err(all, i + 1, e);
    } else {
        assert(all.take(i) =~= all);
    }
}

} // verus!

use vstd::prelude::*;
use vstd::string::*;

use crate::mi_parse::{
    chars_of, decimal_value, failure, is_digit, quoted, rest_from, spec_quoted, ParseFailure,
};

verus! {

/// Where the run of ASCII digits that starts at `i` ends.
pub open spec fn digit_run(s: Seq<char>, i: int) -> int
    decreases s.len() - i,
{
    if 0 <= i < s.len() && is_digit(s[i]) {
        digit_run(s, i + 1)
    } else {
        i
    }
}

/// Where the run of characters equal to `a` or `b` that starts at `i` ends.
pub open spec fn run_of(s: Seq<char>, i: int, a: char, b: char) -> int
    decreases s.len() - i,
{
    if 0 <= i < s.len() && (s[i] == a || s[i] == b) {
        run_of(s, i + 1, a, b)
    } else {
        i
    }
}

/// The decimal number at the start of `s`, when there is one no larger than
/// `bound`, with the number of digits read.
pub open spec fn spec_decimal(s: Seq<char>, bound: nat) -> Option<(nat, int)> {
    let j = digit_run(s, 0);
    if j > 0 && decimal_value(s.subrange(0, j)) <= bound {
        Some((decimal_value(s.subrange(0, j)), j))
    } else {
        None
    }
}

fn decimal(s: &str, bound: u64) -> (r: Option<(u64, usize)>)
    ensures
        match r {
            Some((v, k)) => spec_decimal(s@, bound as nat) == Some((v as nat, k as int)) && k
                <= s@.len(),
            None => spec_decimal(s@, bound as nat) is None,
        },
{
    let cs = chars_of(s);
    let mut j: usize = 0;
    let mut acc: u128 = 0;
    let mut over = false;
    assert(cs@.subrange(0, 0) =~= Seq::<char>::empty());
    while j < cs.len() && '0' <= cs[j] && cs[j] <= '9'
        invariant
            j <= cs.len(),
            cs@ == s@,
            digit_run(cs@, j as int) == digit_run(cs@, 0),
            forall|k: int| 0 <= k < j ==> is_digit(#[trigger] cs@[k]),
            !over ==> acc == decimal_value(cs@.subrange(0, j as int)) && acc <= bound,
            over ==> decimal_value(cs@.subrange(0, j as int)) > bound,
        decreases cs.len() - j,
    {
        let ghost p = cs@.subrange(0, j + 1);
        assert(p.drop_last() =~= cs@.subrange(0, j as int));
        assert(p.last() == cs@[j as int]);
        if !over {
            acc = acc * 10 + (cs[j] as u128 - '0' as u128);
            if acc > bound as u128 {
                over = true;
            }
        }
        j += 1;
    }
    if j == 0 || over {
        None
    } else {
        Some((acc as u64, j))
    }
}

/// Values that can be read from the start of a text in the debugger's notation.
pub trait FromMI: Sized + DeepView {
    /// What reading a value from the start of `s` gives, and where reading stopped.
    spec fn spec_from_mi(s: Seq<char>) -> Option<(<Self as DeepView>::V, int)>;

    /// Reads a value from the start of `input`; gives the text left and the value.
    fn from_mi(input: &str) -> (r: Result<(String, Self), ParseFailure>)
        ensures
            match r {
                Ok((rest, v)) => match Self::spec_from_mi(input@) {
                    Some((sv, k)) => v.deep_view() == sv && 0 <= k <= input@.len() && rest@
                        == input@.subrange(k, input@.len() as int),
                    None => false,
                },
                Err(_) => Self::spec_from_mi(input@) is None,
            },
    ;
}

impl FromMI for u64 {
    open spec fn spec_from_mi(s: Seq<char>) -> Option<(u64, int)> {
        match spec_decimal(s, u64::MAX as nat) {
            Some((v, k)) => Some((v as u64, k)),
            None => None,
        }
    }

    fn from_mi(input: &str) -> (r: Result<(String, u64), ParseFailure>) {
        match decimal(input, u64::MAX) {
            Some((v, k)) => Ok((rest_from(input, k), v)),
            None => Err(failure(input)),
        }
    }
}

impl FromMI for u32 {
    open spec fn spec_from_mi(s: Seq<char>) -> Option<(u32, int)> {
        match spec_decimal(s, u32::MAX as nat) {
            Some((v, k)) => Some((v as u32, k)),
            None => None,
        }
    }

    fn from_mi(input: &str) -> (r: Result<(String, u32), ParseFailure>) {
        match decimal(input, u32::MAX as u64) {
            Some((v, k)) => Ok((rest_from(input, k), v as u32)),
            None => Err(failure(input)),
        }
    }
}

impl FromMI for String {
    open spec fn spec_from_mi(s: Seq<char>) -> Option<(Seq<char>, int)> {
        spec_quoted(s, 0)
    }

    fn from_mi(input: &str) -> (r: Result<(String, String), ParseFailure>) {
        let cs = chars_of(input);
        match quoted(input, &cs, 0) {
            Some((t, k)) => Ok((rest_from(input, k), t)),
            None => Err(failure(input)),
        }
    }
}

impl<A: FromMI> FromMI for Option<A> {
    /// A value if one can be read, else none and nothing read.
    open spec fn spec_from_mi(s: Seq<char>) -> Option<(Option<<A as DeepView>::V>, int)> {
        match A::spec_from_mi(s) {
            Some((v, k)) => Some((Some(v), k)),
            None => Some((None, 0)),
        }
    }

    fn from_mi(input: &str) -> (r: Result<(String, Option<A>), ParseFailure>) {
        match A::from_mi(input) {
            Ok((rest, v)) => Ok((rest, Some(v))),
            Err(_) => {
                proof {
                    assert(input@.subrange(0, input@.len() as int) =~= input@);
                }
                Ok((String::from_str(input), None))
            },
        }
    }
}

/// The items of a list from position `i` to its closing `]`: each item is
/// followed by any run of commas and spaces, and an item together with that
/// run must not be empty.
pub open spec fn spec_items<A: FromMI>(s: Seq<char>, i: int) -> Option<(Seq<<A as DeepView>::V>, int)>
    decreases s.len() - i,
{
    if i < 0 || i > s.len() {
        None
    } else if i < s.len() && s[i] == ']' {
        Some((Seq::empty(), i + 1))
    } else {
        match A::spec_from_mi(s.subrange(i, s.len() as int)) {
            Some((v, k)) => {
                let j = run_of(s, i + k, ',', ' ');
                if 0 <= k && i + k <= s.len() && i < j <= s.len() {
                    match spec_items::<A>(s, j) {
                        Some((vs, e)) => Some((seq![v] + vs, e)),
                        None => None,
                    }
                } else {
                    None
                }
            },
            None => None,
        }
    }
}

fn run_end(cs: &Vec<char>, i: usize, a: char, b: char) -> (r: usize)
    requires
        i <= cs.len(),
    ensures
        r as int == run_of(cs@, i as int, a, b),
        i <= r <= cs.len(),
{
    let mut j = i;
    while j < cs.len() && (cs[j] == a || cs[j] == b)
        invariant
            i <= j <= cs.len(),
            run_of(cs@, j as int, a, b) == run_of(cs@, i as int, a, b),
        decreases cs.len() - j,
    {
        j += 1;
    }
    j
}

impl<A: FromMI> FromMI for Vec<A> {
    /// Any run of `[` and spaces, then the items up to the closing `]`.
    open spec fn spec_from_mi(s: Seq<char>) -> Option<(Seq<<A as DeepView>::V>, int)> {
        spec_items::<A>(s, run_of(s, 0, '[', ' '))
    }

    fn from_mi(input: &str) -> (r: Result<(String, Vec<A>), ParseFailure>) {
        let cs = chars_of(input);
        let n = cs.len();
        let start = run_end(&cs, 0, '[', ' ');
        let mut i = start;
        let mut out: Vec<A> = Vec::new();
        assert(out.deep_view() =~= Seq::<<A as DeepView>::V>::empty());
        assert(spec_items::<A>(cs@, start as int) == match spec_items::<A>(cs@, i as int) {
            Some((vs, e)) => Some((out.deep_view() + vs, e)),
            None => None,
        }) by {
            match spec_items::<A>(cs@, i as int) {
                Some((vs, e)) => {
                    assert(out.deep_view() + vs =~= vs);
                },
                None => {},
            }
        }
        loop
            invariant
                cs@ == input@,
                n == cs.len(),
                start as int == run_of(cs@, 0, '[', ' '),
                start <= i <= n,
                spec_items::<A>(cs@, start as int) == match spec_items::<A>(cs@, i as int) {
                    Some((vs, e)) => Some((out.deep_view() + vs, e)),
                    None => None,
                },
            decreases n - i,
        {
            if i < n && cs[i] == ']' {
                assert(out.deep_view() + Seq::<<A as DeepView>::V>::empty() =~= out.deep_view());
                return Ok((rest_from(input, i + 1), out));
            }
            let sub = input.substring_char(i, n);
            match A::from_mi(sub) {
                Err(_) => {
                    return Err(failure(input));
                },
                Ok((rest, v)) => {
                    let k = (n - i) - rest.as_str().unicode_len();
                    let j = run_end(&cs, i + k, ',', ' ');
                    if j == i {
                        return Err(failure(input));
                    }
                    let ghost tail = spec_items::<A>(cs@, j as int);
                    let ghost before = out.deep_view();
                    out.push(v);
                    proof {
                        assert(out.deep_view() =~= before.push(v.deep_view()));
                        match tail {
                            Some((vs, e)) => {
                                assert(before + (seq![v.deep_view()] + vs) =~= out.deep_view()
                                    + vs);
                            },
                            None => {},
                        }
                    }
                    i = j;
                },
            }
        }
    }
}

} // verus!

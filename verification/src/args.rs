//! The command line: the size to test, the test chosen with `--test`, and
//! the mode flags.

use vstd::prelude::*;

use crate::text::{
    ascii_digit, ascii_upper, chars_of, is_digit, parse_decimal, parse_unsigned, to_ascii_upper,
};

verus! {

/// The views of the arguments.
pub open spec fn arg_views(args: Seq<String>) -> Seq<Seq<char>> {
    args.map_values(|a: String| a@)
}

/// Whether `flag` is one of the arguments (the program's name included).
pub open spec fn has_flag_spec(args: Seq<Seq<char>>, flag: Seq<char>) -> bool {
    exists|i: int| 0 <= i < args.len() && #[trigger] args[i] == flag
}

/// Whether `flag` is one of the arguments.
pub fn has_flag(args: &Vec<String>, flag: &str) -> (b: bool)
    ensures
        b == has_flag_spec(arg_views(args@), flag@),
{
    let f = chars_of(flag);
    let mut i: usize = 0;
    while i < args.len()
        invariant
            0 <= i <= args@.len(),
            f@ == flag@,
            forall|k: int| 0 <= k < i ==> #[trigger] args@[k]@ != flag@,
        decreases args@.len() - i,
    {
        let a = chars_of(args[i].as_str());
        if same_chars(&a, &f) {
            assert(arg_views(args@)[i as int] == flag@);
            return true;
        }
        i = i + 1;
    }
    assert forall|k: int| 0 <= k < arg_views(args@).len() implies #[trigger] arg_views(args@)[k]
        != flag@ by {
        assert(args@[k]@ != flag@);
    }
    false
}

/// Whether two character vectors hold the same characters.
fn same_chars(a: &Vec<char>, b: &Vec<char>) -> (r: bool)
    ensures
        r == (a@ == b@),
{
    if a.len() != b.len() {
        return false;
    }
    let mut i: usize = 0;
    while i < a.len()
        invariant
            a@.len() == b@.len(),
            0 <= i <= a@.len(),
            forall|k: int| 0 <= k < i ==> a@[k] == b@[k],
        decreases a@.len() - i,
    {
        if a[i] != b[i] {
            return false;
        }
        i = i + 1;
    }
    assert(a@ =~= b@);
    true
}

/// The test chosen on the command line, looking at the arguments from the
/// third one up to (not including) position `upto`: each `--test` followed
/// by an argument that reads as a number from 1 to 16 chooses that test,
/// and the last such choice stands; 0 where there is none.
pub open spec fn chosen_test(args: Seq<Seq<char>>, upto: int) -> nat
    decreases upto,
{
    if upto <= 2 {
        0
    } else {
        let prev = chosen_test(args, upto - 1);
        let i = upto - 1;
        if args[i] == "--test"@ && i + 1 < args.len() {
            match parse_unsigned(args[i + 1], usize::MAX as nat) {
                Some(v) => if 0 < v <= 16 {
                    v
                } else {
                    prev
                },
                None => prev,
            }
        } else {
            prev
        }
    }
}

/// The test chosen with `--test <N>` (1 to 16), or 0 where there is none.
pub fn parse_test_index(args: &Vec<String>) -> (n: usize)
    ensures
        n == chosen_test(arg_views(args@), args@.len() as int),
        n <= 16,
{
    let ghost views = arg_views(args@);
    let key = chars_of("--test");
    let mut test_index: usize = 0;
    let mut i: usize = 2;
    if args.len() <= 2 {
        return 0;
    }
    while i < args.len()
        invariant
            2 <= i <= args@.len(),
            views == arg_views(args@),
            key@ == "--test"@,
            test_index == chosen_test(views, i as int),
            test_index <= 16,
        decreases args@.len() - i,
    {
        let a = chars_of(args[i].as_str());
        assert(views[i as int] == args@[i as int]@);
        if same_chars(&a, &key) && i + 1 < args.len() {
            let next = chars_of(args[i + 1].as_str());
            assert(views[i + 1] == args@[i + 1]@);
            let parsed = parse_decimal(&next, usize::MAX as u64);
            if let Some(idx) = parsed {
                if idx > 0 && idx <= 16 {
                    test_index = idx as usize;
                }
            }
        }
        i = i + 1;
    }
    test_index
}

/// Whether `s` is `MAX` in any mix of capitals and small letters.
pub open spec fn is_max_word(s: Seq<char>) -> bool {
    s.len() == 3 && ascii_upper(s[0]) == 'M' && ascii_upper(s[1]) == 'A' && ascii_upper(s[2]) == 'X'
}

/// The unit letter of a size: its last character in capitals (a space for
/// an empty argument).
pub open spec fn unit_of(s: Seq<char>) -> char {
    if s.len() == 0 {
        ' '
    } else {
        ascii_upper(s.last())
    }
}

/// The number part of a size: the argument without its last character
/// where that is not a digit and more than one character is given.
pub open spec fn number_part(s: Seq<char>) -> Seq<char> {
    if s.len() > 1 && !is_digit(s.last()) {
        s.drop_last()
    } else {
        s
    }
}

/// The number of bytes a size argument asks for: the available amount for
/// `MAX`; else the number (0 where it does not parse) in MiB for the unit
/// `M` or GiB for `G`, modulo 2^64 as in a release build; `None` for any
/// other unit.
pub open spec fn requested_size(s: Seq<char>, available: u64) -> Option<usize> {
    if is_max_word(s) {
        Some(available as usize)
    } else {
        let value: u64 = match parse_unsigned(number_part(s), u64::MAX as nat) {
            Some(v) => v as u64,
            None => 0,
        };
        if unit_of(s) == 'M' {
            Some(value.wrapping_mul(1048576) as usize)
        } else if unit_of(s) == 'G' {
            Some(value.wrapping_mul(1073741824) as usize)
        } else {
            None
        }
    }
}

/// Whether a size argument can be read: cutting off its unit must not cut
/// a character in two, so an argument that is not `MAX` ends in an ASCII
/// character (or is empty).
pub open spec fn size_arg_ok(s: Seq<char>) -> bool {
    is_max_word(s) || s.len() == 0 || (s.last() as u32) < 128
}

/// The number of bytes a size argument (`512M`, `2G`, `MAX`) asks for;
/// `None` where its unit is neither `M` nor `G`.
pub fn parse_size(arg: &str, available: u64) -> (r: Option<usize>)
    requires
        size_arg_ok(arg@),
    ensures
        r == requested_size(arg@, available),
{
    let s = chars_of(arg);
    let n = s.len();
    if n == 3 && to_ascii_upper(s[0]) == 'M' && to_ascii_upper(s[1]) == 'A' && to_ascii_upper(s[2])
        == 'X' {
        return Some(available as usize);
    }
    let unit = if n == 0 {
        ' '
    } else {
        to_ascii_upper(s[n - 1])
    };
    let mut number: Vec<char> = s.clone();
    if n > 1 && !ascii_digit(s[n - 1]) {
        number.pop();
        assert(number@ =~= s@.drop_last());
    }
    assert(number@ == number_part(arg@));
    let value: u64 = match parse_decimal(&number, u64::MAX) {
        Some(v) => v,
        None => 0,
    };
    if unit == 'M' {
        Some(value.wrapping_mul(1048576) as usize)
    } else if unit == 'G' {
        Some(value.wrapping_mul(1073741824) as usize)
    } else {
        None
    }
}

} // verus!

verus! {

/// Whether a size argument can be read (see `size_arg_ok`).
pub fn size_arg_readable(arg: &str) -> (b: bool)
    ensures
        b == size_arg_ok(arg@),
{
    let s = chars_of(arg);
    let n = s.len();
    if n == 3 && to_ascii_upper(s[0]) == 'M' && to_ascii_upper(s[1]) == 'A' && to_ascii_upper(s[2])
        == 'X' {
        return true;
    }
    n == 0 || (s[n - 1] as u32) < 128
}

} // verus!

verus! {

/// Whether a size argument is `MAX`, in any mix of capitals and small
/// letters.
pub fn is_max_keyword(arg: &str) -> (b: bool)
    ensures
        b == is_max_word(arg@),
{
    let s = chars_of(arg);
    s.len() == 3 && to_ascii_upper(s[0]) == 'M' && to_ascii_upper(s[1]) == 'A' && to_ascii_upper(
        s[2],
    ) == 'X'
}

} // verus!

//! Choosing a free name for a file that is copied, moved or created where
//! one of that name already exists.
use vstd::prelude::*;
use crate::path::{
    extension_of, file_stem_of, joined, parent_of, path_exists, path_extension, path_file_stem, path_join,
    path_parent,
};
use crate::text::{chars_of, string_from_chars};

verus! {

/// The decimal digits of `n` as characters, most significant first.
pub open spec fn decimal_chars(n: nat) -> Seq<char>
    decreases n,
{
    if n < 10 {
        seq![(n + 48) as char]
    } else {
        decimal_chars(n / 10).push(((n % 10) + 48) as char)
    }
}

/// The text added to the stem at attempt `n`: ` (copy)` first, then
/// ` (2)`, ` (3)` and so on.
pub open spec fn attempt_suffix(n: nat) -> Seq<char> {
    if n <= 1 {
        seq![' ', '(', 'c', 'o', 'p', 'y', ')']
    } else {
        seq![' ', '('] + decimal_chars(n) + seq![')']
    }
}

/// The file name made of a stem, a suffix and, when there is one, `.` and
/// the extension.
pub open spec fn with_suffix(stem: Seq<char>, suffix: Seq<char>, ext: Option<Seq<char>>) -> Seq<char> {
    match ext {
        Some(e) => stem + suffix + seq!['.'] + e,
        None => stem + suffix,
    }
}

/// The path tried at attempt `n` for `target`: in the same directory (or
/// `.` when it has none), the stem with the attempt's suffix, then the
/// extension.
pub open spec fn candidate(target: Seq<char>, n: nat) -> Seq<char> {
    let dir = match parent_of(target) {
        Some(d) => d,
        None => seq!['.'],
    };
    let stem = match file_stem_of(target) {
        Some(s) => s,
        None => Seq::empty(),
    };
    joined(dir, with_suffix(stem, attempt_suffix(n), extension_of(target)))
}

/// The first free name for `target`, scanning from attempt `k`, given for
/// each attempt whether its path is taken: attempt 0 is the target itself,
/// attempt `n` the name with the `n`-th suffix. When all are taken, the
/// target.
pub open spec fn first_free_from(target: Seq<char>, taken: Seq<bool>, k: int) -> Seq<char>
    decreases taken.len() - k,
{
    if k < 0 || k >= taken.len() {
        target
    } else if !taken[k] {
        if k == 0 {
            target
        } else {
            candidate(target, k as nat)
        }
    } else {
        first_free_from(target, taken, k + 1)
    }
}

/// The first free name for `target` given whether each attempt is taken.
pub open spec fn first_free(target: Seq<char>, taken: Seq<bool>) -> Seq<char> {
    first_free_from(target, taken, 0)
}

/// The decimal digits of `n` as a character vector.
pub fn decimal_char_vec(n: u32) -> (r: Vec<char>)
    ensures
        r@ == decimal_chars(n as nat),
    decreases n,
{
    if n < 10 {
        let mut v: Vec<char> = Vec::new();
        v.push(((n as u8) + 48u8) as char);
        assert(v@ =~= seq![(n + 48) as char]);
        v
    } else {
        let mut v = decimal_char_vec(n / 10);
        v.push((((n % 10) as u8) + 48u8) as char);
        v
    }
}

/// The path tried at attempt `n` (from 1) for `target`.
pub fn conflict_candidate(target: &str, n: u32) -> (r: String)
    requires
        n >= 1,
    ensures
        r@ == candidate(target@, n as nat),
{
    let dir = match path_parent(target) {
        Some(d) => d,
        None => {
            let dot: [char; 1] = ['.'];
            let d = string_from_chars(&dot);
            assert(d@ =~= seq!['.']);
            d
        },
    };
    let mut name: Vec<char> = match path_file_stem(target) {
        Some(s) => chars_of(s.as_str()),
        None => Vec::new(),
    };
    let ghost stem = name@;
    name.push(' ');
    name.push('(');
    if n == 1 {
        name.push('c');
        name.push('o');
        name.push('p');
        name.push('y');
    } else {
        let digits = decimal_char_vec(n);
        let mut i: usize = 0;
        while i < digits.len()
            invariant
                i <= digits.len(),
                name@ == stem + seq![' ', '('] + digits@.take(i as int),
            decreases digits.len() - i,
        {
            name.push(digits[i]);
            assert(digits@.take(i as int).push(digits@[i as int]) =~= digits@.take(i + 1));
            i += 1;
        }
        assert(digits@.take(digits.len() as int) =~= digits@);
    }
    name.push(')');
    assert(name@ =~= stem + attempt_suffix(n as nat));
    let ghost named = name@;
    match path_extension(target) {
        Some(e) => {
            name.push('.');
            let ec = chars_of(e.as_str());
            let mut i: usize = 0;
            while i < ec.len()
                invariant
                    i <= ec.len(),
                    name@ == named + seq!['.'] + ec@.take(i as int),
                decreases ec.len() - i,
            {
                name.push(ec[i]);
                assert(ec@.take(i as int).push(ec@[i as int]) =~= ec@.take(i + 1));
                i += 1;
            }
            assert(ec@.take(ec.len() as int) =~= ec@);
            assert(name@ =~= with_suffix(stem, attempt_suffix(n as nat), extension_of(target@)));
        },
        None => {
            assert(name@ =~= with_suffix(stem, attempt_suffix(n as nat), extension_of(target@)));
        },
    }
    let file = string_from_chars(name.as_slice());
    path_join(dir.as_str(), file.as_str())
}

/// The first free name for `target`, given for each attempt (the target
/// itself first, then the names with ` (copy)`, ` (2)`, ...) whether its
/// path is taken; the target when all of them are.
pub fn pick_free(target: &str, taken: &Vec<bool>) -> (r: String)
    requires
        taken.len() <= u32::MAX as int + 1,
    ensures
        r@ == first_free(target@, taken@),
{
    let mut k: usize = 0;
    while k < taken.len()
        invariant
            k <= taken.len(),
            taken.len() <= u32::MAX as int + 1,
            first_free(target@, taken@) == first_free_from(target@, taken@, k as int),
        decreases taken.len() - k,
    {
        if !taken[k] {
            if k == 0 {
                return target.to_string();
            }
            return conflict_candidate(target, k as u32);
        }
        k += 1;
    }
    target.to_string()
}

/// Given a desired target path, if something already exists there, try
/// the stem with ` (copy)`, then ` (2)`, ` (3)` and so on, and return the
/// first that is free; the target itself when all of them are taken.
/// Whether a path is taken is read from the disk, one attempt after the
/// other until a free one: the result is `pick_free` of what the disk
/// answered for those attempts.
pub fn resolve_conflict(target: &str) -> (r: String)
    ensures
        exists|taken: Seq<bool>| taken.len() <= u32::MAX as int + 1 && r@ == #[trigger] first_free(target@, taken),
{
    let mut taken: Vec<bool> = Vec::new();
    let t = path_exists(target);
    taken.push(t);
    if t {
        let mut n: u32 = 1;
        loop
            invariant_except_break
                taken.len() == n,
            invariant
                1 <= n,
            ensures
                taken.len() <= u32::MAX as int + 1,
            decreases u32::MAX - n,
        {
            let c = conflict_candidate(target, n);
            let e = path_exists(c.as_str());
            taken.push(e);
            if !e || n == u32::MAX {
                break;
            }
            n = n + 1;
        }
    }
    pick_free(target, &taken)
}

} // verus!

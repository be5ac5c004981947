//! Rendering of run artifacts: decimal numbers, the per-trial log line,
//! and the output file names, including the rename an interrupted run
//! performs to record how many trials actually completed.

use vstd::prelude::*;
use vstd::string::{StrSliceExecFns, StringExecFns};

verus! {

/// Character-for-character string comparison.
pub fn str_eq(a: &str, b: &str) -> (r: bool)
    ensures
        r == (a@ == b@),
{
    let a_len = a.unicode_len();
    let b_len = b.unicode_len();
    if a_len != b_len {
        return false;
    }
    let mut i: usize = 0;
    while i < a_len
        invariant
            0 <= i <= a_len,
            a_len == a@.len(),
            a_len == b@.len(),
            forall|j: int| 0 <= j < i ==> a@[j] == b@[j],
        decreases a_len - i,
    {
        if a.get_char(i) != b.get_char(i) {
            return false;
        }
        i = i + 1;
    }
    proof {
        assert(a@ =~= b@);
    }
    true
}

/// The decimal digit character for `d`.
pub open spec fn digit_char(d: int) -> char {
    ((48 + d) as u8) as char
}

/// The decimal digits of `n`, most significant first.
pub open spec fn dec_digits(n: nat) -> Seq<char>
    decreases n,
{
    if n < 10 {
        seq![digit_char(n as int)]
    } else {
        dec_digits(n / 10).push(digit_char((n % 10) as int))
    }
}

fn digit_str(d: u64) -> (r: &'static str)
    requires
        d < 10,
    ensures
        r@ =~= seq![digit_char(d as int)],
{
    proof {
        reveal_strlit("0");
        reveal_strlit("1");
        reveal_strlit("2");
        reveal_strlit("3");
        reveal_strlit("4");
        reveal_strlit("5");
        reveal_strlit("6");
        reveal_strlit("7");
        reveal_strlit("8");
        reveal_strlit("9");
    }
    if d == 0 {
        "0"
    } else if d == 1 {
        "1"
    } else if d == 2 {
        "2"
    } else if d == 3 {
        "3"
    } else if d == 4 {
        "4"
    } else if d == 5 {
        "5"
    } else if d == 6 {
        "6"
    } else if d == 7 {
        "7"
    } else if d == 8 {
        "8"
    } else {
        "9"
    }
}

/// Renders `n` in decimal.
pub fn dec_string(n: u64) -> (r: String)
    ensures
        r@ == dec_digits(n as nat),
    decreases n,
{
    if n < 10 {
        digit_str(n).to_owned()
    } else {
        let mut s = dec_string(n / 10);
        s.append(digit_str(n % 10));
        proof {
            assert(s@ =~= dec_digits(n as nat));
        }
        s
    }
}

/// The decimal digits of `v`, with a leading minus sign when negative.
pub open spec fn int_digits(v: int) -> Seq<char> {
    if v < 0 {
        "-"@ + dec_digits((-v) as nat)
    } else {
        dec_digits(v as nat)
    }
}

/// Renders `v` in decimal, with a leading minus sign when negative.
pub fn dec_string_i64(v: i64) -> (r: String)
    ensures
        r@ == int_digits(v as int),
{
    if v < 0 {
        let magnitude: u64 = (-(v as i128)) as u64;
        let mut s = "-".to_owned();
        s.append(dec_string(magnitude).as_str());
        proof {
            assert(s@ =~= int_digits(v as int));
        }
        s
    } else {
        dec_string(v as u64)
    }
}

/// One line of the output artifact: the trial's seed and both final
/// bankrolls, table-guided strategy first.
pub open spec fn trial_line_model(seed: u64, strat1_bankroll: int, strat2_bankroll: int) -> Seq<
    char,
> {
    "Seed: "@ + dec_digits(seed as nat) + ", Final Bankrolls: "@ + dec_digits(
        strat1_bankroll as nat,
    ) + ", "@ + dec_digits(strat2_bankroll as nat) + "\n"@
}

pub fn trial_line(seed: u64, strat1_bankroll: i32, strat2_bankroll: i32) -> (r: String)
    requires
        strat1_bankroll >= 0,
        strat2_bankroll >= 0,
    ensures
        r@ == trial_line_model(seed, strat1_bankroll as int, strat2_bankroll as int),
{
    let mut s = "Seed: ".to_owned();
    s.append(dec_string(seed).as_str());
    s.append(", Final Bankrolls: ");
    s.append(dec_string(strat1_bankroll as u64).as_str());
    s.append(", ");
    s.append(dec_string(strat2_bankroll as u64).as_str());
    s.append("\n");
    proof {
        assert(s@ =~= trial_line_model(seed, strat1_bankroll as int, strat2_bankroll as int));
    }
    s
}

/// The artifact path synthesized when none is given: the requested trial
/// count and a timestamp, under the output directory.
pub open spec fn default_file_name_model(num_sims: u64, timestamp: Seq<char>) -> Seq<char> {
    "./output/"@ + dec_digits(num_sims as nat) + "_simulations_"@ + timestamp + ".txt"@
}

pub fn default_file_name(num_sims: u64, timestamp: &str) -> (r: String)
    ensures
        r@ == default_file_name_model(num_sims, timestamp@),
{
    let mut s = "./output/".to_owned();
    s.append(dec_string(num_sims).as_str());
    s.append("_simulations_");
    s.append(timestamp);
    s.append(".txt");
    proof {
        assert(s@ =~= default_file_name_model(num_sims, timestamp@));
    }
    s
}

/// The name an interrupted run renames its artifact to: the original stem,
/// an early-exit marker with the count of trials actually completed, and
/// the original extension, kept only when there was one.
pub open spec fn early_exit_file_name_model(
    stem: Seq<char>,
    extension: Seq<char>,
    completed: u64,
) -> Seq<char> {
    stem + "_early_exit_"@ + dec_digits(completed as nat) + "_simulations_completed"@ + if extension.len()
        == 0 {
        Seq::<char>::empty()
    } else {
        "."@ + extension
    }
}

pub fn early_exit_file_name(stem: &str, extension: &str, completed: u64) -> (r: String)
    ensures
        r@ == early_exit_file_name_model(stem@, extension@, completed),
{
    let mut s = stem.to_owned();
    s.append("_early_exit_");
    s.append(dec_string(completed).as_str());
    s.append("_simulations_completed");
    if !extension.is_empty() {
        s.append(".");
        s.append(extension);
    }
    proof {
        assert(s@ =~= early_exit_file_name_model(stem@, extension@, completed));
    }
    s
}

} // verus!

//! The natural order of names: a name is weighed by the sum of the numbers
//! written in it, and names of equal weight are ordered as plain text.

use crate::text::{bytes_less, chars_of, lemma_lex_less_total, lemma_lex_less_transitive, lemma_same_encoding_same_text, lex_less};
use regex::Regex;
use std::cmp::Ordering;
use vstd::prelude::*;
use vstd::string::*;
use vstd::utf8::*;

verus! {

/// The matches of a regular expression in a text, as the `regex` crate finds
/// them: `None` where `pattern` is no regular expression, else the matched
/// pieces of `text`, leftmost first and without overlap.
pub uninterp spec fn regex_matches(pattern: Seq<char>, text: Seq<char>) -> Option<Seq<Seq<char>>>;

/// The texts of a sequence of strings.
pub open spec fn texts(strings: Seq<String>) -> Seq<Seq<char>> {
    strings.map_values(|s: String| s@)
}

/// The texts of what a search returned.
pub open spec fn found_texts(found: Option<Vec<String>>) -> Option<Seq<Seq<char>>> {
    match found {
        Some(pieces) => Some(texts(pieces@)),
        None => None,
    }
}

/// Compiles `pattern` with `regex::Regex::new` and walks `text` with
/// `Regex::find_iter`, copying out each match. Trusted: the result is what the
/// crate finds, which depends on the two texts alone; nothing is claimed about
/// which pieces those are.
#[verifier::external_body]
fn find_matches(pattern: &str, text: &str) -> (found: Option<Vec<String>>)
    ensures
        found_texts(found) == regex_matches(pattern@, text@),
{
    match Regex::new(pattern) {
        Ok(re) => Some(re.find_iter(text).map(|m| m.as_str().to_string()).collect()),
        Err(_) => None,
    }
}

/// Whether `c` is one of the ten ASCII digits.
pub open spec fn is_digit(c: char) -> bool {
    '0' <= c <= '9'
}

/// The number that a digit stands for; zero for any other character.
pub open spec fn digit_value(c: char) -> nat {
    if is_digit(c) {
        (c as int - '0' as int) as nat
    } else {
        0
    }
}

/// Whether every character of `run` is an ASCII digit.
pub open spec fn all_digits(run: Seq<char>) -> bool {
    forall|i: int| 0 <= i < run.len() ==> is_digit(#[trigger] run[i])
}

/// The number written by `run` in base ten.
pub open spec fn decimal(run: Seq<char>) -> nat
    decreases run.len(),
{
    if run.len() == 0 {
        0
    } else {
        decimal(run.drop_last()) * 10 + digit_value(run.last())
    }
}

/// What one run of digits counts for: the number it writes, or zero where it
/// holds a character that is no ASCII digit or writes a number that does not
/// fit the machine word.
pub open spec fn run_value(run: Seq<char>) -> nat {
    if all_digits(run) && decimal(run) <= usize::MAX {
        decimal(run)
    } else {
        0
    }
}

/// The sum of what the runs count for.
pub open spec fn runs_total(runs: Seq<Seq<char>>) -> nat
    decreases runs.len(),
{
    if runs.len() == 0 {
        0
    } else {
        runs_total(runs.drop_last()) + run_value(runs.last())
    }
}

/// A name between the two sentinels that are put around it before the search:
/// the second one is a run of its own and counts for nothing.
pub open spec fn padded(name: Seq<char>) -> Seq<char> {
    "a "@ + name + " 0"@
}

/// The weight of a name: the sum over the digit runs that the search finds in
/// the padded name.
pub open spec fn digit_sum(name: Seq<char>) -> nat {
    match regex_matches("\\d+"@, padded(name)) {
        Some(runs) => runs_total(runs),
        None => 0,
    }
}

/// Whether `a` comes strictly before `b` in natural order: by weight first,
/// then byte by byte.
pub open spec fn natural_less(a: Seq<char>, b: Seq<char>) -> bool {
    digit_sum(a) < digit_sum(b) || (digit_sum(a) == digit_sum(b) && lex_less(
        encode_utf8(a),
        encode_utf8(b),
    ))
}

/// The three-way form of the natural order.
pub open spec fn natural_order_of(a: Seq<char>, b: Seq<char>) -> Ordering {
    if natural_less(a, b) {
        Ordering::Less
    } else if natural_less(b, a) {
        Ordering::Greater
    } else {
        Ordering::Equal
    }
}

/// A longer run of digits writes no smaller number than any of its beginnings.
pub proof fn lemma_decimal_grows(run: Seq<char>, k: int)
    requires
        0 <= k <= run.len(),
    ensures
        decimal(run.take(k)) <= decimal(run),
    decreases run.len(),
{
    if k == run.len() {
        assert(run.take(k) == run);
    } else {
        assert(run.drop_last().take(k) == run.take(k));
        lemma_decimal_grows(run.drop_last(), k);
    }
}

/// The sum of `n` runs is at most `n` machine words.
pub proof fn lemma_runs_total_bound(runs: Seq<Seq<char>>)
    ensures
        runs_total(runs) <= runs.len() * usize::MAX,
    decreases runs.len(),
{
    if runs.len() > 0 {
        lemma_runs_total_bound(runs.drop_last());
        assert((runs.len() - 1) * usize::MAX + usize::MAX == runs.len() * usize::MAX)
            by (nonlinear_arith);
    }
}

/// No name comes before itself.
pub proof fn lemma_natural_less_irreflexive(a: Seq<char>)
    ensures
        !natural_less(a, a),
{
    lemma_lex_less_total(encode_utf8(a), encode_utf8(a));
}

/// Of two different names exactly one comes before the other, and a name is
/// neither before nor after itself.
pub proof fn lemma_natural_less_total(a: Seq<char>, b: Seq<char>)
    ensures
        a != b ==> (natural_less(a, b) <==> !natural_less(b, a)),
        a == b ==> !natural_less(a, b) && !natural_less(b, a),
{
    lemma_lex_less_total(encode_utf8(a), encode_utf8(b));
    lemma_same_encoding_same_text(a, b);
}

/// The natural order is transitive.
pub proof fn lemma_natural_less_transitive(a: Seq<char>, b: Seq<char>, c: Seq<char>)
    requires
        natural_less(a, b),
        natural_less(b, c),
    ensures
        natural_less(a, c),
{
    if digit_sum(a) == digit_sum(b) && digit_sum(b) == digit_sum(c) {
        lemma_lex_less_transitive(encode_utf8(a), encode_utf8(b), encode_utf8(c));
    }
}

/// "Not after" is transitive too, which is what a sorted sequence needs.
pub proof fn lemma_natural_not_after_transitive(a: Seq<char>, b: Seq<char>, c: Seq<char>)
    requires
        !natural_less(b, a),
        !natural_less(c, b),
    ensures
        !natural_less(c, a),
{
    lemma_natural_less_total(a, b);
    lemma_natural_less_total(b, c);
    lemma_natural_less_total(a, c);
    if a != b && b != c && a != c {
        lemma_natural_less_transitive(a, b, c);
    }
}

/// The three-way order says `Equal` of a name and itself only, and turning the
/// arguments round turns the answer round.
pub proof fn lemma_natural_order_of_is_total(a: Seq<char>, b: Seq<char>)
    ensures
        natural_order_of(a, b) == Ordering::Equal <==> a == b,
        natural_order_of(a, b) == Ordering::Less <==> natural_order_of(b, a) == Ordering::Greater,
{
    lemma_natural_less_total(a, b);
}

/// Reads one run of digits as a machine word.
pub fn parse_run(run: &str) -> (value: usize)
    ensures
        value == run_value(run@),
{
    let digits = chars_of(run);
    let mut acc: usize = 0;
    let mut i: usize = 0;
    while i < digits.len()
        invariant
            i <= digits.len(),
            digits@ == run@,
            all_digits(digits@.take(i as int)),
            acc == decimal(digits@.take(i as int)),
        decreases digits.len() - i,
    {
        let c = digits[i];
        if !(c >= '0' && c <= '9') {
            assert(!is_digit(run@[i as int]));
            return 0;
        }
        let d: usize = (c as u32 - '0' as u32) as usize;
        assert(digits@.take(i + 1).drop_last() == digits@.take(i as int));
        assert(decimal(digits@.take(i + 1)) == acc * 10 + d);
        if acc > (usize::MAX - d) / 10 {
            proof {
                lemma_decimal_grows(run@, i + 1);
            }
            return 0;
        }
        acc = acc * 10 + d;
        i += 1;
    }
    assert(digits@.take(i as int) == run@);
    acc
}

/// Adds up what the runs count for. The sum cannot leave 128 bits: there are
/// at most a machine word of runs, each worth at most a machine word.
pub fn sum_runs(runs: &Vec<String>) -> (total: u128)
    ensures
        total == runs_total(texts(runs@)),
{
    let mut total: u128 = 0;
    let mut i: usize = 0;
    while i < runs.len()
        invariant
            i <= runs.len(),
            total == runs_total(texts(runs@).take(i as int)),
        decreases runs.len() - i,
    {
        let value = parse_run(runs[i].as_str());
        proof {
            let before = texts(runs@).take(i as int);
            let after = texts(runs@).take(i + 1);
            assert(after.drop_last() == before);
            assert(after.last() == runs@[i as int]@);
            lemma_runs_total_bound(before);
            assert(i * usize::MAX + usize::MAX <= u128::MAX) by (nonlinear_arith)
                requires
                    0 <= i < usize::MAX,
                    usize::MAX <= u64::MAX,
            ;
        }
        total = total + value as u128;
        i += 1;
    }
    assert(texts(runs@).take(i as int) == texts(runs@));
    total
}

/// The weight of a name: the sum of the numbers written in it.
pub fn compute_all_digits(text: &str) -> (total: u128)
    ensures
        total == digit_sum(text@),
{
    let mut padded = String::from_str("a ");
    padded.append(text);
    padded.append(" 0");
    match find_matches("\\d+", padded.as_str()) {
        Some(runs) => sum_runs(&runs),
        None => 0,
    }
}

/// Compares two names whose weights are already known.
pub(crate) fn weighed_less(weight_a: u128, a: &str, weight_b: u128, b: &str) -> (less: bool)
    requires
        weight_a == digit_sum(a@),
        weight_b == digit_sum(b@),
    ensures
        less == natural_less(a@, b@),
{
    if weight_a != weight_b {
        weight_a < weight_b
    } else {
        bytes_less(a.as_bytes(), b.as_bytes())
    }
}

/// Whether `a` comes strictly before `b` in natural order.
pub fn precedes(a: &str, b: &str) -> (less: bool)
    ensures
        less == natural_less(a@, b@),
{
    let weight_a = compute_all_digits(a);
    let weight_b = compute_all_digits(b);
    weighed_less(weight_a, a, weight_b, b)
}

/// The natural order of two names, three ways.
pub fn natural_order(a: &str, b: &str) -> (order: Ordering)
    ensures
        order == natural_order_of(a@, b@),
{
    let weight_a = compute_all_digits(a);
    let weight_b = compute_all_digits(b);
    if weighed_less(weight_a, a, weight_b, b) {
        Ordering::Less
    } else if weighed_less(weight_b, b, weight_a, a) {
        Ordering::Greater
    } else {
        Ordering::Equal
    }
}

} // verus!

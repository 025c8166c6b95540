//! Text clean-up of the values that the user types or that presets hold.

use vstd::prelude::*;
use crate::tc::{push_arg, strings_view};
use crate::text::{is_ws, push_char, trim, trim_end, trim_start, trimmed};

verus! {

/// `s` with every trailing occurrence of `pat` removed, as `str::trim_end_matches` gives it.
pub open spec fn trim_suffix_all(s: Seq<char>, pat: Seq<char>) -> Seq<char>
    decreases s.len(),
{
    if pat.len() > 0 && pat.len() <= s.len() && s.subrange(s.len() - pat.len(), s.len() as int) == pat {
        trim_suffix_all(s.subrange(0, s.len() - pat.len()), pat)
    } else {
        s
    }
}

/// A value with its unit (`ms`, `s`, `%`) and surrounding whitespace removed.
pub open spec fn units_stripped(v: Seq<char>) -> Seq<char> {
    trimmed(
        trim_suffix_all(
            trim_suffix_all(trim_suffix_all(trimmed(v), seq!['m', 's']), seq!['s']),
            seq!['%'],
        ),
    )
}

/// Removes whitespace, then trailing `ms`, then trailing `s`, then trailing `%`, then whitespace.
pub fn strip_units(value: &str) -> (res: String)
    ensures
        res@ == units_stripped(value@),
{
    let t = trim(value);
    let len = t.unicode_len();
    let mut e: usize = len;
    assert(t@.subrange(0, len as int) =~= t@);
    while e >= 2 && t.get_char(e - 2) == 'm' && t.get_char(e - 1) == 's'
        invariant
            len == t@.len(),
            e <= len,
            trim_suffix_all(t@, seq!['m', 's']) == trim_suffix_all(t@.subrange(0, e as int), seq!['m', 's']),
        decreases e,
    {
        assert(t@.subrange(0, e as int).subrange(e - 2, e as int) =~= seq!['m', 's']);
        assert(t@.subrange(0, e as int).subrange(0, e - 2) =~= t@.subrange(0, e - 2));
        e = e - 2;
    }
    proof {
        let u = t@.subrange(0, e as int);
        if e >= 2 {
            assert(u.subrange(e - 2, e as int)[0] == t@[e - 2]);
            assert(u.subrange(e - 2, e as int)[1] == t@[e - 1]);
            assert(u.subrange(e - 2, e as int) != seq!['m', 's']);
        }
        assert(trim_suffix_all(u, seq!['m', 's']) == u);
    }
    let ghost after_ms = t@.subrange(0, e as int);
    assert(after_ms.subrange(0, e as int) =~= after_ms);
    while e >= 1 && t.get_char(e - 1) == 's'
        invariant
            len == t@.len(),
            e <= after_ms.len(),
            after_ms == t@.subrange(0, after_ms.len() as int),
            after_ms.len() <= len,
            trim_suffix_all(after_ms, seq!['s']) == trim_suffix_all(t@.subrange(0, e as int), seq!['s']),
        decreases e,
    {
        assert(t@.subrange(0, e as int).subrange(e - 1, e as int) =~= seq!['s']);
        assert(t@.subrange(0, e as int).subrange(0, e - 1) =~= t@.subrange(0, e - 1));
        e = e - 1;
    }
    proof {
        let u = t@.subrange(0, e as int);
        if e >= 1 {
            assert(u.subrange(e - 1, e as int)[0] == t@[e - 1]);
            assert(u.subrange(e - 1, e as int) != seq!['s']);
        }
        assert(trim_suffix_all(u, seq!['s']) == u);
    }
    let ghost after_s = t@.subrange(0, e as int);
    assert(after_s.subrange(0, e as int) =~= after_s);
    while e >= 1 && t.get_char(e - 1) == '%'
        invariant
            len == t@.len(),
            e <= after_s.len(),
            after_s == t@.subrange(0, after_s.len() as int),
            after_s.len() <= len,
            trim_suffix_all(after_s, seq!['%']) == trim_suffix_all(t@.subrange(0, e as int), seq!['%']),
        decreases e,
    {
        assert(t@.subrange(0, e as int).subrange(e - 1, e as int) =~= seq!['%']);
        assert(t@.subrange(0, e as int).subrange(0, e - 1) =~= t@.subrange(0, e - 1));
        e = e - 1;
    }
    proof {
        let u = t@.subrange(0, e as int);
        if e >= 1 {
            assert(u.subrange(e - 1, e as int)[0] == t@[e - 1]);
            assert(u.subrange(e - 1, e as int) != seq!['%']);
        }
        assert(trim_suffix_all(u, seq!['%']) == u);
    }
    let core = t.substring_char(0, e);
    String::from_str(trim(core))
}


/// An ASCII decimal digit.
pub open spec fn is_digit(c: char) -> bool {
    '0' <= c && c <= '9'
}

/// Whether `s` holds an ASCII decimal digit.
pub open spec fn has_digit(s: Seq<char>) -> bool {
    exists|i: int| 0 <= i < s.len() && is_digit(#[trigger] s[i])
}

/// The digits of `s`, and its first dot unless a dot was already kept (`seen_dot`).
pub open spec fn numeric_chars(s: Seq<char>, seen_dot: bool) -> Seq<char>
    decreases s.len(),
{
    if s.len() == 0 {
        Seq::empty()
    } else if is_digit(s[0]) {
        seq![s[0]] + numeric_chars(s.drop_first(), seen_dot)
    } else if s[0] == '.' && !seen_dot {
        seq!['.'] + numeric_chars(s.drop_first(), true)
    } else {
        numeric_chars(s.drop_first(), seen_dot)
    }
}

/// What `filter_numeric` keeps of `s`: its digits and its first dot, or nothing at
/// all when `s` has no digit.
pub open spec fn numeric_filtered(s: Seq<char>) -> Seq<char> {
    if has_digit(s) {
        numeric_chars(s, false)
    } else {
        Seq::empty()
    }
}

/// Keeps the digits of `text` and its first `.`; gives the empty string when `text`
/// has no digit.
pub fn filter_numeric(text: &str) -> (res: String)
    ensures
        res@ == numeric_filtered(text@),
{
    let mut result = String::new();
    let mut found_digit = false;
    let mut found_dot = false;
    let len = text.unicode_len();
    let mut i: usize = 0;
    assert(text@.subrange(0, len as int) =~= text@);
    while i < len
        invariant
            len == text@.len(),
            i <= len,
            result@ + numeric_chars(text@.subrange(i as int, len as int), found_dot)
                == numeric_chars(text@, false),
            found_digit <==> exists|k: int| 0 <= k < i && is_digit(#[trigger] text@[k]),
        decreases len - i,
    {
        let c = text.get_char(i);
        let ghost rest = text@.subrange(i as int, len as int);
        let ghost before = result@;
        assert(rest[0] == c);
        assert(rest.drop_first() =~= text@.subrange(i + 1, len as int));
        if '0' <= c && c <= '9' {
            push_char(&mut result, c);
            found_digit = true;
            assert(before + (seq![c] + numeric_chars(rest.drop_first(), found_dot))
                =~= result@ + numeric_chars(rest.drop_first(), found_dot));
        } else if c == '.' && !found_dot {
            push_char(&mut result, '.');
            found_dot = true;
            assert(before + (seq!['.'] + numeric_chars(rest.drop_first(), true))
                =~= result@ + numeric_chars(rest.drop_first(), true));
        }
        i = i + 1;
    }
    if !found_digit {
        return String::new();
    }
    result
}


/// Keeping the numeric characters of text that already holds only them changes nothing.
proof fn lemma_numeric_chars_stable(s: Seq<char>, seen_dot: bool)
    ensures
        numeric_chars(numeric_chars(s, seen_dot), seen_dot) == numeric_chars(s, seen_dot),
    decreases s.len(),
{
    if s.len() > 0 {
        let rest = s.drop_first();
        if is_digit(s[0]) {
            lemma_numeric_chars_stable(rest, seen_dot);
            let t = seq![s[0]] + numeric_chars(rest, seen_dot);
            assert(t.drop_first() =~= numeric_chars(rest, seen_dot));
        } else if s[0] == '.' && !seen_dot {
            lemma_numeric_chars_stable(rest, true);
            let t = seq!['.'] + numeric_chars(rest, true);
            assert(t.drop_first() =~= numeric_chars(rest, true));
        } else {
            lemma_numeric_chars_stable(rest, seen_dot);
        }
    }
}

/// The digits are kept, so the kept text holds a digit exactly when the input does.
proof fn lemma_numeric_chars_digits(s: Seq<char>, seen_dot: bool)
    ensures
        has_digit(numeric_chars(s, seen_dot)) == has_digit(s),
    decreases s.len(),
{
    if s.len() > 0 {
        let rest = s.drop_first();
        let d = if s[0] == '.' && !seen_dot && !is_digit(s[0]) { true } else { seen_dot };
        lemma_numeric_chars_digits(rest, d);
        let t = numeric_chars(s, seen_dot);
        let u = numeric_chars(rest, d);
        if has_digit(s) {
            let k = choose|k: int| 0 <= k < s.len() && is_digit(#[trigger] s[k]);
            if k == 0 {
                assert(is_digit(t[0]));
            } else {
                assert(is_digit(rest[k - 1]));
                let m = choose|m: int| 0 <= m < u.len() && is_digit(#[trigger] u[m]);
                if is_digit(s[0]) || (s[0] == '.' && !seen_dot) {
                    assert(is_digit(t[m + 1]));
                } else {
                    assert(is_digit(t[m]));
                }
            }
        } else {
            assert forall|m: int| 0 <= m < u.len() implies !is_digit(#[trigger] u[m]) by {
                if is_digit(u[m]) {
                    assert(has_digit(u));
                    let k = choose|k: int| 0 <= k < rest.len() && is_digit(#[trigger] rest[k]);
                    assert(is_digit(s[k + 1]));
                }
            }
            assert forall|m: int| 0 <= m < t.len() implies !is_digit(#[trigger] t[m]) by {
                if is_digit(s[0]) || (s[0] == '.' && !seen_dot) {
                    if m > 0 {
                        assert(t[m] == u[m - 1]);
                    } else {
                        assert(!is_digit(s[0]));
                    }
                } else {
                    assert(t[m] == u[m]);
                }
            }
        }
    }
}

/// The kept text holds only digits and dots, holds no dot when one was already kept,
/// and holds at most one dot.
proof fn lemma_numeric_chars_shape(s: Seq<char>, seen_dot: bool)
    ensures
        forall|i: int| 0 <= i < numeric_chars(s, seen_dot).len()
            ==> is_digit(#[trigger] numeric_chars(s, seen_dot)[i]) || numeric_chars(s, seen_dot)[i] == '.',
        seen_dot ==> forall|i: int| 0 <= i < numeric_chars(s, seen_dot).len()
            ==> #[trigger] numeric_chars(s, seen_dot)[i] != '.',
        forall|i: int, j: int| 0 <= i < j < numeric_chars(s, seen_dot).len()
            ==> !(#[trigger] numeric_chars(s, seen_dot)[i] == '.' && #[trigger] numeric_chars(s, seen_dot)[j] == '.'),
    decreases s.len(),
{
    if s.len() > 0 {
        let rest = s.drop_first();
        let t = numeric_chars(s, seen_dot);
        if is_digit(s[0]) || (s[0] == '.' && !seen_dot) {
            let d = if is_digit(s[0]) { seen_dot } else { true };
            lemma_numeric_chars_shape(rest, d);
            let u = numeric_chars(rest, d);
            assert(t =~= seq![s[0]] + u);
            assert forall|i: int| 0 < i < t.len() implies #[trigger] t[i] == u[i - 1] by {}
            assert forall|i: int| 0 <= i < t.len() implies is_digit(#[trigger] t[i]) || t[i] == '.' by {
                if i > 0 {
                    assert(t[i] == u[i - 1]);
                }
            }
            if seen_dot {
                assert forall|i: int| 0 <= i < t.len() implies #[trigger] t[i] != '.' by {
                    if i > 0 {
                        assert(t[i] == u[i - 1]);
                    } else {
                        assert(t[0] == s[0]);
                    }
                }
            }
            assert forall|i: int, j: int| 0 <= i < j < t.len()
                implies !(#[trigger] t[i] == '.' && #[trigger] t[j] == '.') by {
                assert(t[j] == u[j - 1]);
                if i > 0 {
                    assert(t[i] == u[i - 1]);
                }
            }
        } else {
            lemma_numeric_chars_shape(rest, seen_dot);
            assert(t == numeric_chars(rest, seen_dot));
        }
    }
}

/// Filtering text that `filter_numeric` already filtered gives it back unchanged.
pub proof fn filter_numeric_is_idempotent(text: Seq<char>)
    ensures
        numeric_filtered(numeric_filtered(text)) == numeric_filtered(text),
{
    if has_digit(text) {
        lemma_numeric_chars_digits(text, false);
        lemma_numeric_chars_stable(text, false);
    } else {
        let e = Seq::<char>::empty();
        assert(!has_digit(e));
    }
}

/// What `filter_numeric` gives back holds only digits and at most one dot, and is
/// either empty or holds a digit.
pub proof fn filter_numeric_output_shape(text: Seq<char>)
    ensures
        forall|i: int| 0 <= i < numeric_filtered(text).len()
            ==> is_digit(#[trigger] numeric_filtered(text)[i]) || numeric_filtered(text)[i] == '.',
        forall|i: int, j: int| 0 <= i < j < numeric_filtered(text).len()
            ==> !(#[trigger] numeric_filtered(text)[i] == '.' && #[trigger] numeric_filtered(text)[j] == '.'),
        numeric_filtered(text).len() == 0 || has_digit(numeric_filtered(text)),
{
    lemma_numeric_chars_shape(text, false);
    lemma_numeric_chars_digits(text, false);
}


/// The interface names other than `lo`, each once, in the order they first occur.
pub open spec fn other_interfaces(names: Seq<Seq<char>>) -> Seq<Seq<char>>
    decreases names.len(),
{
    if names.len() == 0 {
        Seq::empty()
    } else {
        let r = other_interfaces(names.drop_last());
        if names.last() == "lo"@ || r.contains(names.last()) {
            r
        } else {
            r.push(names.last())
        }
    }
}

/// The names that `other_interfaces` keeps are distinct, none of them is `lo`, and a
/// name is kept exactly when it occurs and is not `lo`.
proof fn lemma_other_interfaces(names: Seq<Seq<char>>)
    ensures
        forall|i: int, j: int| 0 <= i < j < other_interfaces(names).len()
            ==> #[trigger] other_interfaces(names)[i] != #[trigger] other_interfaces(names)[j],
        forall|n: Seq<char>| #[trigger] other_interfaces(names).contains(n) <==> (names.contains(n) && n != "lo"@),
    decreases names.len(),
{
    if names.len() > 0 {
        let init = names.drop_last();
        lemma_other_interfaces(init);
        let r = other_interfaces(init);
        let last = names.last();
        assert(names =~= init.push(last));
        assert forall|n: Seq<char>| #[trigger] other_interfaces(names).contains(n) <==> (names.contains(n) && n != "lo"@) by {
            if names.contains(n) && n != "lo"@ {
                let k = choose|k: int| 0 <= k < names.len() && names[k] == n;
                if k < init.len() {
                    assert(init[k] == n);
                    assert(init.contains(n));
                    assert(r.contains(n));
                    if !(last == "lo"@ || r.contains(last)) {
                        let m = choose|m: int| 0 <= m < r.len() && r[m] == n;
                        assert(r.push(last)[m] == n);
                    }
                } else {
                    assert(n == last);
                    if !(last == "lo"@ || r.contains(last)) {
                        assert(r.push(last)[r.len() as int] == n);
                    }
                }
            }
            if other_interfaces(names).contains(n) {
                let m = choose|m: int| 0 <= m < other_interfaces(names).len() && other_interfaces(names)[m] == n;
                if m < r.len() {
                    assert(other_interfaces(names)[m] == r[m]);
                    assert(r.contains(n));
                    let k = choose|k: int| 0 <= k < init.len() && init[k] == n;
                    assert(names[k] == n);
                } else {
                    assert(n == last);
                    assert(names[names.len() - 1] == n);
                }
            }
        }
        if !(last == "lo"@ || r.contains(last)) {
            let w = r.push(last);
            assert forall|i: int, j: int| 0 <= i < j < w.len() implies #[trigger] w[i] != #[trigger] w[j] by {
                if j == r.len() {
                    assert(w[i] == r[i]);
                    if r[i] == last {
                        assert(r.contains(last));
                    }
                } else {
                    assert(w[i] == r[i] && w[j] == r[j]);
                }
            }
        }
    }
}

/// Whether `v` holds a string equal to `s`.
fn contains_string(v: &Vec<String>, s: &String) -> (res: bool)
    ensures
        res == strings_view(v@).contains(s@),
{
    let mut i: usize = 0;
    while i < v.len()
        invariant
            i <= v.len(),
            forall|k: int| 0 <= k < i ==> v@[k]@ != s@,
        decreases v.len() - i,
    {
        if v[i] == *s {
            assert(strings_view(v@)[i as int] == s@);
            return true;
        }
        i = i + 1;
    }
    assert forall|k: int| 0 <= k < strings_view(v@).len() implies strings_view(v@)[k] != s@ by {
        assert(strings_view(v@)[k] == v@[k]@);
    }
    false
}

/// The interface list offered for selection, from the names found on the system:
/// `lo` first, then every other name once, in the order of first occurrence.
pub fn interface_list(names: &Vec<String>) -> (res: Vec<String>)
    ensures
        strings_view(res@) == seq!["lo"@] + other_interfaces(strings_view(names@)),
        res@.len() >= 1,
        res@[0]@ == "lo"@,
        forall|i: int| 1 <= i < res@.len() ==> (#[trigger] res@[i])@ != "lo"@,
        forall|i: int, j: int| 0 <= i < j < res@.len() ==> (#[trigger] res@[i])@ != (#[trigger] res@[j])@,
        forall|n: Seq<char>| strings_view(names@).contains(n) ==> #[trigger] strings_view(res@).contains(n),
        forall|i: int| 1 <= i < res@.len() ==> strings_view(names@).contains(#[trigger] res@[i]@),
{
    let ghost nv = strings_view(names@);
    let lo = String::from_str("lo");
    let mut others: Vec<String> = Vec::new();
    let mut i: usize = 0;
    while i < names.len()
        invariant
            i <= names.len(),
            nv == strings_view(names@),
            lo@ == "lo"@,
            strings_view(others@) == other_interfaces(nv.subrange(0, i as int)),
        decreases names.len() - i,
    {
        let ghost sub = nv.subrange(0, i + 1);
        assert(sub.drop_last() =~= nv.subrange(0, i as int));
        assert(sub.last() == names@[i as int]@);
        if names[i] != lo && !contains_string(&others, &names[i]) {
            push_arg(&mut others, names[i].clone());
        }
        i = i + 1;
    }
    assert(nv.subrange(0, names.len() as int) =~= nv);
    let mut res: Vec<String> = Vec::new();
    push_arg(&mut res, lo);
    let mut j: usize = 0;
    let ghost ov = strings_view(others@);
    while j < others.len()
        invariant
            j <= others.len(),
            ov == strings_view(others@),
            strings_view(res@) == seq!["lo"@] + ov.subrange(0, j as int),
        decreases others.len() - j,
    {
        push_arg(&mut res, others[j].clone());
        assert(ov.subrange(0, j + 1) =~= ov.subrange(0, j as int).push(others@[j as int]@));
        assert(seq!["lo"@] + ov.subrange(0, j + 1) =~= (seq!["lo"@] + ov.subrange(0, j as int)).push(others@[j as int]@));
        j = j + 1;
    }
    assert(ov.subrange(0, others.len() as int) =~= ov);
    proof {
        lemma_other_interfaces(nv);
        let rv = strings_view(res@);
        assert(rv =~= seq!["lo"@] + ov);
        assert forall|i: int| 0 <= i < res@.len() implies #[trigger] rv[i] == res@[i]@ by {}
        assert(rv[0] == "lo"@);
        assert forall|i: int| 1 <= i < res@.len() implies (#[trigger] res@[i])@ != "lo"@ by {
            assert(rv[i] == ov[i - 1]);
            assert(ov.contains(ov[i - 1]));
        }
        assert forall|i: int, j: int| 0 <= i < j < res@.len() implies (#[trigger] res@[i])@ != (#[trigger] res@[j])@ by {
            assert(rv[j] == ov[j - 1]);
            assert(ov.contains(ov[j - 1]));
            if i > 0 {
                assert(rv[i] == ov[i - 1]);
            }
        }
        assert forall|n: Seq<char>| nv.contains(n) implies #[trigger] rv.contains(n) by {
            if n == "lo"@ {
                assert(rv[0] == n);
            } else {
                assert(ov.contains(n));
                let m = choose|m: int| 0 <= m < ov.len() && ov[m] == n;
                assert(rv[m + 1] == n);
            }
        }
        assert forall|i: int| 1 <= i < res@.len() implies nv.contains(#[trigger] res@[i]@) by {
            assert(rv[i] == ov[i - 1]);
            assert(ov.contains(ov[i - 1]));
        }
    }
    res
}

/// The ASCII digits '0'..='9' of `s`, in their order.
pub open spec fn ascii_digits(s: Seq<char>) -> Seq<char>
    decreases s.len(),
{
    if s.len() == 0 {
        Seq::empty()
    } else if '0' <= s[0] && s[0] <= '9' {
        seq![s[0]] + ascii_digits(s.drop_first())
    } else {
        ascii_digits(s.drop_first())
    }
}

proof fn lemma_numeric_chars_ascii_digits(s: Seq<char>, seen_dot: bool)
    ensures
        ascii_digits(numeric_chars(s, seen_dot)) == ascii_digits(s),
    decreases s.len(),
{
    if s.len() > 0 {
        let rest = s.drop_first();
        if is_digit(s[0]) {
            lemma_numeric_chars_ascii_digits(rest, seen_dot);
            let t = seq![s[0]] + numeric_chars(rest, seen_dot);
            assert(t.drop_first() =~= numeric_chars(rest, seen_dot));
            assert(t[0] == s[0]);
        } else if s[0] == '.' && !seen_dot {
            lemma_numeric_chars_ascii_digits(rest, true);
            let t = seq!['.'] + numeric_chars(rest, true);
            assert(t.drop_first() =~= numeric_chars(rest, true));
            assert(t[0] == '.');
        } else {
            lemma_numeric_chars_ascii_digits(rest, seen_dot);
        }
    }
}

proof fn lemma_no_digit_no_ascii_digits(s: Seq<char>)
    requires
        !has_digit(s),
    ensures
        ascii_digits(s) == Seq::<char>::empty(),
    decreases s.len(),
{
    if s.len() > 0 {
        let rest = s.drop_first();
        assert(!is_digit(s[0]));
        assert(!has_digit(rest)) by {
            if has_digit(rest) {
                let k = choose|k: int| 0 <= k < rest.len() && is_digit(#[trigger] rest[k]);
                assert(is_digit(s[k + 1]));
            }
        }
        lemma_no_digit_no_ascii_digits(rest);
    }
}

proof fn lemma_all_digits_kept(s: Seq<char>, seen_dot: bool)
    requires
        forall|i: int| 0 <= i < s.len() ==> '0' <= #[trigger] s[i] && s[i] <= '9',
    ensures
        numeric_chars(s, seen_dot) == s,
    decreases s.len(),
{
    if s.len() > 0 {
        let rest = s.drop_first();
        assert forall|i: int| 0 <= i < rest.len() implies '0' <= #[trigger] rest[i] && rest[i] <= '9' by {
            assert(rest[i] == s[i + 1]);
        }
        lemma_all_digits_kept(rest, seen_dot);
        assert(s =~= seq![s[0]] + rest);
    }
}

/// `filter_numeric` keeps every ASCII digit '0'..='9' of its input, in order, and
/// adds none: the digits of its result are exactly those of its input. Text made only
/// of such digits comes back unchanged.
pub proof fn filter_numeric_keeps_every_digit(text: Seq<char>)
    ensures
        ascii_digits(numeric_filtered(text)) == ascii_digits(text),
        (text.len() > 0 && forall|i: int| 0 <= i < text.len() ==> '0' <= #[trigger] text[i] && text[i] <= '9')
            ==> numeric_filtered(text) == text,
{
    if has_digit(text) {
        lemma_numeric_chars_ascii_digits(text, false);
    } else {
        lemma_no_digit_no_ascii_digits(text);
        assert(ascii_digits(Seq::<char>::empty()) == Seq::<char>::empty());
    }
    if text.len() > 0 && forall|i: int| 0 <= i < text.len() ==> '0' <= #[trigger] text[i] && text[i] <= '9' {
        assert(is_digit(text[0]));
        assert(has_digit(text));
        lemma_all_digits_kept(text, false);
    }
}

proof fn lemma_suffix_absent(t: Seq<char>, pat: Seq<char>)
    requires
        pat.len() > 0,
        t.len() == 0 || t.last() != pat.last(),
    ensures
        trim_suffix_all(t, pat) == t,
{
    if pat.len() <= t.len() {
        let tail = t.subrange(t.len() - pat.len(), t.len() as int);
        assert(tail[pat.len() - 1] == t.last());
        assert(tail != pat);
    }
}

proof fn lemma_suffix_once(t: Seq<char>, pat: Seq<char>)
    requires
        pat.len() > 0,
    ensures
        trim_suffix_all(t + pat, pat) == trim_suffix_all(t, pat),
{
    let u = t + pat;
    assert(u.subrange(u.len() - pat.len(), u.len() as int) =~= pat);
    assert(u.subrange(0, u.len() - pat.len()) =~= t);
}

proof fn lemma_trimmed_unchanged(u: Seq<char>)
    requires
        u.len() == 0 || (!is_ws(u[0]) && !is_ws(u.last())),
    ensures
        trimmed(u) == u,
{
}

/// A number written with ASCII digits and dots comes out of `strip_units` unchanged,
/// whether it carries no unit or the unit `ms`, `s` or `%`, and whatever whitespace
/// surrounds it.
pub proof fn strip_units_removes_exactly_the_unit(t: Seq<char>)
    requires
        forall|i: int| 0 <= i < t.len() ==> ('0' <= #[trigger] t[i] && t[i] <= '9') || t[i] == '.',
    ensures
        units_stripped(t) == t,
        units_stripped(t + "ms"@) == t,
        units_stripped(t + "s"@) == t,
        units_stripped(t + "%"@) == t,
        units_stripped(" "@ + t + "ms"@ + " "@) == t,
{
    reveal_strlit("ms");
    reveal_strlit("s");
    reveal_strlit("%");
    reveal_strlit(" ");
    let ms = seq!['m', 's'];
    let sp = seq!['s'];
    let pc = seq!['%'];
    assert("ms"@ =~= ms);
    assert("s"@ =~= sp);
    assert("%"@ =~= pc);
    if t.len() > 0 {
        assert(t.last() == t[t.len() - 1]);
    }
    lemma_trimmed_unchanged(t);
    lemma_suffix_absent(t, ms);
    lemma_suffix_absent(t, sp);
    lemma_suffix_absent(t, pc);
    // with `ms`
    let u = t + ms;
    assert(u.last() == 's');
    if t.len() > 0 {
        assert(u[0] == t[0]);
    } else {
        assert(u[0] == 'm');
    }
    lemma_trimmed_unchanged(u);
    lemma_suffix_once(t, ms);
    // with `s`
    let v = t + sp;
    assert(v.last() == 's');
    if t.len() > 0 {
        assert(v[0] == t[0]);
    }
    lemma_trimmed_unchanged(v);
    assert(trim_suffix_all(v, ms) == v) by {
        if v.len() >= 2 {
            let tail = v.subrange(v.len() - 2, v.len() as int);
            assert(tail[0] == t.last());
            assert(tail != ms);
        }
    }
    lemma_suffix_once(t, sp);
    // with `%`
    let w = t + pc;
    assert(w.last() == '%');
    if t.len() > 0 {
        assert(w[0] == t[0]);
    }
    lemma_trimmed_unchanged(w);
    lemma_suffix_absent(w, ms);
    lemma_suffix_absent(w, sp);
    lemma_suffix_once(t, pc);
    // surrounded by spaces
    let x = seq![' '] + t + ms + seq![' '];
    assert(" "@ + t + "ms"@ + " "@ =~= x);
    assert(x.drop_first() =~= t + ms + seq![' ']);
    assert(trim_start(t + ms + seq![' ']) == t + ms + seq![' ']) by {
        if t.len() > 0 {
            assert((t + ms + seq![' '])[0] == t[0]);
        } else {
            assert((t + ms + seq![' '])[0] == 'm');
        }
    }
    assert((t + ms + seq![' ']).drop_last() =~= u);
    assert(trimmed(x) == trim_end(u));
}

} // verus!

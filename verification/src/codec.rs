use vstd::prelude::*;
use vstd::string::{StrSliceExecFns, StringExecFns};

use crate::digits::{
    i64_to_string, lemma_digits_val_prefix_le, lemma_udigits_val, spec_digits_val, spec_int_str,
    spec_is_digit, spec_udigits,
};
use crate::state::{spec_label, Mode, State};
use crate::status::StatusOutput;

verus! {

/// Lower-case hexadecimal digit character for a value below sixteen.
pub open spec fn spec_hex_char(d: int) -> char {
    if d < 10 {
        crate::digits::spec_digit_char(d)
    } else if d == 10 {
        'a'
    } else if d == 11 {
        'b'
    } else if d == 12 {
        'c'
    } else if d == 13 {
        'd'
    } else if d == 14 {
        'e'
    } else {
        'f'
    }
}

/// How one character appears inside a JSON string literal: quote and backslash
/// get a backslash escape, the named control characters their short escapes,
/// the remaining control characters a \u00xx escape, and everything else
/// stands as itself.
pub open spec fn spec_escape_char(c: char) -> Seq<char> {
    if c == '"' {
        seq!['\\', '"']
    } else if c == '\\' {
        seq!['\\', '\\']
    } else if c == '\u{8}' {
        seq!['\\', 'b']
    } else if c == '\u{c}' {
        seq!['\\', 'f']
    } else if c == '\n' {
        seq!['\\', 'n']
    } else if c == '\r' {
        seq!['\\', 'r']
    } else if c == '\t' {
        seq!['\\', 't']
    } else if (c as int) < 32 {
        seq!['\\', 'u', '0', '0', spec_hex_char(c as int / 16), spec_hex_char(c as int % 16)]
    } else {
        seq![c]
    }
}

/// A whole string escaped for use inside a JSON string literal.
pub open spec fn spec_escape(s: Seq<char>) -> Seq<char>
    decreases s.len(),
{
    if s.len() == 0 {
        Seq::<char>::empty()
    } else {
        spec_escape(s.drop_last()) + spec_escape_char(s.last())
    }
}

/// The status line as one JSON object, fields in display order.
pub open spec fn spec_status_json(text: Seq<char>, tooltip: Seq<char>, class: Seq<char>) -> Seq<
    char,
> {
    "{\"text\":\""@ + spec_escape(text) + "\",\"tooltip\":\""@ + spec_escape(tooltip)
        + "\",\"class\":\""@ + spec_escape(class) + "\"}"@
}

/// The persisted state as one JSON object: the mode label as a string tag and
/// the start second as a bare integer.
pub open spec fn spec_state_json(st: State) -> Seq<char> {
    "{\"mode\":\""@ + spec_label(st.mode) + "\",\"start_timestamp\":"@ + spec_int_str(
        st.start_timestamp as int,
    ) + "}"@
}

/// Relies on `String::push`: appends exactly the given character.
#[verifier::external_body]
fn push_char(s: &mut String, c: char)
    ensures
        final(s)@ == old(s)@.push(c),
{
    s.push(c);
}

/// Append the lower-case hexadecimal digit of `d`.
fn push_hex(s: &mut String, d: u32)
    requires
        d < 16,
    ensures
        final(s)@ == old(s)@.push(spec_hex_char(d as int)),
{
    if d < 10 {
        if d == 0 {
            s.append("0");
            proof { reveal_strlit("0"); assert(s@ =~= old(s)@.push(spec_hex_char(d as int))); }
        } else if d == 1 {
            s.append("1");
            proof { reveal_strlit("1"); assert(s@ =~= old(s)@.push(spec_hex_char(d as int))); }
        } else if d == 2 {
            s.append("2");
            proof { reveal_strlit("2"); assert(s@ =~= old(s)@.push(spec_hex_char(d as int))); }
        } else if d == 3 {
            s.append("3");
            proof { reveal_strlit("3"); assert(s@ =~= old(s)@.push(spec_hex_char(d as int))); }
        } else if d == 4 {
            s.append("4");
            proof { reveal_strlit("4"); assert(s@ =~= old(s)@.push(spec_hex_char(d as int))); }
        } else if d == 5 {
            s.append("5");
            proof { reveal_strlit("5"); assert(s@ =~= old(s)@.push(spec_hex_char(d as int))); }
        } else if d == 6 {
            s.append("6");
            proof { reveal_strlit("6"); assert(s@ =~= old(s)@.push(spec_hex_char(d as int))); }
        } else if d == 7 {
            s.append("7");
            proof { reveal_strlit("7"); assert(s@ =~= old(s)@.push(spec_hex_char(d as int))); }
        } else if d == 8 {
            s.append("8");
            proof { reveal_strlit("8"); assert(s@ =~= old(s)@.push(spec_hex_char(d as int))); }
        } else {
            s.append("9");
            proof { reveal_strlit("9"); assert(s@ =~= old(s)@.push(spec_hex_char(d as int))); }
        }
    } else {
        if d == 10 {
            s.append("a");
            proof { reveal_strlit("a"); assert(s@ =~= old(s)@.push(spec_hex_char(d as int))); }
        } else if d == 11 {
            s.append("b");
            proof { reveal_strlit("b"); assert(s@ =~= old(s)@.push(spec_hex_char(d as int))); }
        } else if d == 12 {
            s.append("c");
            proof { reveal_strlit("c"); assert(s@ =~= old(s)@.push(spec_hex_char(d as int))); }
        } else if d == 13 {
            s.append("d");
            proof { reveal_strlit("d"); assert(s@ =~= old(s)@.push(spec_hex_char(d as int))); }
        } else if d == 14 {
            s.append("e");
            proof { reveal_strlit("e"); assert(s@ =~= old(s)@.push(spec_hex_char(d as int))); }
        } else {
            s.append("f");
            proof { reveal_strlit("f"); assert(s@ =~= old(s)@.push(spec_hex_char(d as int))); }
        }
    }
}

/// Append `s` to `out`, escaped for a JSON string literal.
fn append_escaped(out: &mut String, s: &str)
    ensures
        final(out)@ == old(out)@ + spec_escape(s@),
{
    let n = s.unicode_len();
    let mut i: usize = 0;
    proof {
        assert(s@.take(0) =~= Seq::<char>::empty());
        assert(out@ =~= old(out)@ + spec_escape(s@.take(0)));
    }
    while i < n
        invariant
            i <= n,
            n == s@.len(),
            out@ == old(out)@ + spec_escape(s@.take(i as int)),
        decreases n - i,
    {
        let c = s.get_char(i);
        if c == '"' {
            out.append("\\\"");
            proof { reveal_strlit("\\\""); }
        } else if c == '\\' {
            out.append("\\\\");
            proof { reveal_strlit("\\\\"); }
        } else if c == '\u{8}' {
            out.append("\\b");
            proof { reveal_strlit("\\b"); }
        } else if c == '\u{c}' {
            out.append("\\f");
            proof { reveal_strlit("\\f"); }
        } else if c == '\n' {
            out.append("\\n");
            proof { reveal_strlit("\\n"); }
        } else if c == '\r' {
            out.append("\\r");
            proof { reveal_strlit("\\r"); }
        } else if c == '\t' {
            out.append("\\t");
            proof { reveal_strlit("\\t"); }
        } else if (c as u32) < 32 {
            out.append("\\u00");
            push_hex(out, (c as u32) / 16);
            push_hex(out, (c as u32) % 16);
            proof { reveal_strlit("\\u00"); }
        } else {
            push_char(out, c);
        }
        proof {
            assert(s@.take(i as int + 1).drop_last() =~= s@.take(i as int));
            assert(s@.take(i as int + 1).last() == s@[i as int]);
            assert(out@ =~= old(out)@ + spec_escape(s@.take(i as int + 1)));
        }
        i += 1;
    }
    proof {
        assert(s@.take(n as int) =~= s@);
    }
}

/// The status line the tool prints: one JSON object with the three fields.
pub fn render_status_json(out: &StatusOutput) -> (r: String)
    ensures
        r@ == spec_status_json(out.text@, out.tooltip@, out.class@),
{
    let mut s = String::from_str("{\"text\":\"");
    append_escaped(&mut s, out.text.as_str());
    s.append("\",\"tooltip\":\"");
    append_escaped(&mut s, out.tooltip.as_str());
    s.append("\",\"class\":\"");
    append_escaped(&mut s, out.class.as_str());
    s.append("\"}");
    proof {
        assert(s@ =~= spec_status_json(out.text@, out.tooltip@, out.class@));
    }
    s
}

/// The persisted form of a state, as written to the state file.
pub fn render_state_json(st: &State) -> (r: String)
    ensures
        r@ == spec_state_json(*st),
{
    let mut s = String::from_str("{\"mode\":\"");
    s.append(st.mode.label());
    s.append("\",\"start_timestamp\":");
    let num = i64_to_string(st.start_timestamp);
    s.append(num.as_str());
    s.append("}");
    proof {
        assert(s@ =~= spec_state_json(*st));
    }
    s
}

/// Where the integer begins inside a state's JSON rendering.
pub open spec fn spec_num_start(m: Mode) -> int {
    9 + spec_label(m).len() as int + 20
}

/// Shape of a string equal to a state's rendering: its length, the character
/// that tells the two modes apart, the sign position, the digits region, and
/// the closing brace.
proof fn lemma_canonical_layout(s: Seq<char>, st: State)
    requires
        s == spec_state_json(st),
    ensures
        s.len() >= 38,
        s[10] == (if st.mode is Sitting {
            'i'
        } else {
            't'
        }),
        spec_num_start(st.mode) == (if st.mode is Sitting {
            36int
        } else {
            37int
        }),
        ({
            let ns = spec_num_start(st.mode);
            let ts = st.start_timestamp as int;
            let mag: nat = if ts >= 0 {
                ts as nat
            } else {
                (-ts) as nat
            };
            let ds = if ts < 0 {
                ns + 1
            } else {
                ns
            };
            &&& s.len() == ns + spec_int_str(ts).len() + 1
            &&& (ts < 0 <==> s[ns] == '-')
            &&& ds + 1 <= s.len() - 1
            &&& s.subrange(ds, s.len() - 1) == spec_udigits(mag)
            &&& spec_digits_val(spec_udigits(mag)) == mag
            &&& mag <= 0x8000000000000000
            &&& s[s.len() - 1] == '}'
        }),
{
    reveal_strlit("{\"mode\":\"");
    reveal_strlit("\",\"start_timestamp\":");
    reveal_strlit("}");
    reveal_strlit("Sitting");
    reveal_strlit("Standing");
    let a = "{\"mode\":\""@;
    let b = spec_label(st.mode);
    let c = "\",\"start_timestamp\":"@;
    let ts = st.start_timestamp as int;
    let num = spec_int_str(ts);
    let z = "}"@;
    let ns = spec_num_start(st.mode);
    let mag: nat = if ts >= 0 {
        ts as nat
    } else {
        (-ts) as nat
    };
    lemma_udigits_val(mag);
    assert(a.len() == 9);
    assert(c.len() == 20);
    assert(z.len() == 1);
    match st.mode {
        Mode::Sitting => {
            assert(b.len() == 7);
            assert(b[1] == 'i');
        },
        Mode::Standing => {
            assert(b.len() == 8);
            assert(b[1] == 't');
        },
    }
    assert(s.len() == ns + num.len() + 1);
    assert(s[10] == b[1]);
    assert(s[s.len() - 1] == z[0]);
    assert(s.subrange(ns, s.len() - 1) =~= num);
    if ts < 0 {
        assert(num == seq!['-'] + spec_udigits(mag));
        assert(s[ns] == num[0]);
        assert(num[0] == '-');
        assert(s.subrange(ns + 1, s.len() - 1) =~= spec_udigits(mag));
    } else {
        assert(num == spec_udigits(mag));
        assert(s[ns] == num[0]);
        assert(spec_is_digit(num[0]));
        assert(num[0] != '-');
        assert(s.subrange(ns, s.len() - 1) =~= spec_udigits(mag));
    }
}

/// Character-for-character equality of two strings.
fn str_eq(a: &str, b: &str) -> (r: bool)
    ensures
        r == (a@ == b@),
{
    let na = a.unicode_len();
    let nb = b.unicode_len();
    if na != nb {
        return false;
    }
    let mut i: usize = 0;
    while i < na
        invariant
            i <= na,
            na == a@.len(),
            na == b@.len(),
            forall|j: int| 0 <= j < i ==> a@[j] == b@[j],
        decreases na - i,
    {
        let ca = a.get_char(i);
        let cb = b.get_char(i);
        if ca != cb {
            return false;
        }
        i += 1;
    }
    proof {
        assert(a@ =~= b@);
    }
    true
}

/// Read a candidate state off a string laid out like a rendering. Nothing is
/// claimed of what comes back on other input: the caller re-renders the
/// candidate and compares, which rejects everything non-canonical.
fn extract_state(s: &str) -> (r: Option<State>)
    ensures
        forall|st: State| s@ == spec_state_json(st) ==> r == Option::Some(st),
{
    let n = s.unicode_len();
    if n < 38 {
        proof {
            assert forall|st: State| s@ != spec_state_json(st) by {
                if s@ == spec_state_json(st) {
                    lemma_canonical_layout(s@, st);
                }
            }
        }
        return None;
    }
    let c10 = s.get_char(10);
    let mode = if c10 == 'i' {
        Mode::Sitting
    } else {
        Mode::Standing
    };
    let num_start: usize = if c10 == 'i' {
        36
    } else {
        37
    };
    if n < num_start + 2 {
        proof {
            assert forall|st: State| s@ != spec_state_json(st) by {
                if s@ == spec_state_json(st) {
                    lemma_canonical_layout(s@, st);
                }
            }
        }
        return None;
    }
    let first = s.get_char(num_start);
    let neg = first == '-';
    let digits_start: usize = if neg {
        num_start + 1
    } else {
        num_start
    };
    if digits_start + 1 >= n {
        proof {
            assert forall|st: State| s@ != spec_state_json(st) by {
                if s@ == spec_state_json(st) {
                    lemma_canonical_layout(s@, st);
                }
            }
        }
        return None;
    }
    let mut acc: u64 = 0;
    let mut i: usize = digits_start;
    proof {
        assert(s@.subrange(digits_start as int, digits_start as int) =~= Seq::<char>::empty());
    }
    while i < n - 1
        invariant
            digits_start <= i <= n - 1,
            n == s@.len(),
            38 <= n,
            digits_start + 1 < n,
            num_start == (if c10 == 'i' {
                36int
            } else {
                37int
            }),
            mode == (if c10 == 'i' {
                Mode::Sitting
            } else {
                Mode::Standing
            }),
            c10 == s@[10],
            neg == (s@[num_start as int] == '-'),
            digits_start == num_start + (if neg {
                1int
            } else {
                0int
            }),
            acc == spec_digits_val(s@.subrange(digits_start as int, i as int)),
        decreases n - 1 - i,
    {
        let c = s.get_char(i);
        let cv = c as u32;
        if cv < 48 || cv > 57 {
            proof {
                assert forall|st: State| s@ != spec_state_json(st) by {
                    if s@ == spec_state_json(st) {
                        lemma_canonical_layout(s@, st);
                        let mag: nat = magnitude_of(st.start_timestamp);
                        let ds = digits_start as int;
                        assert(s@.subrange(ds, n - 1) == spec_udigits(mag));
                        lemma_udigits_val(mag);
                        assert(s@[i as int] == spec_udigits(mag)[i - ds]);
                    }
                }
            }
            return None;
        }
        let d: u64 = (cv - 48) as u64;
        let cap: u64 = (u64::MAX - d) / 10;
        if acc > cap {
            proof {
                assert forall|st: State| s@ != spec_state_json(st) by {
                    if s@ == spec_state_json(st) {
                        lemma_canonical_layout(s@, st);
                        let mag: nat = magnitude_of(st.start_timestamp);
                        let ds = digits_start as int;
                        let full = spec_udigits(mag);
                        assert(s@.subrange(ds, n - 1) == full);
                        lemma_udigits_val(mag);
                        let k = i - ds;
                        assert(s@.subrange(ds, i as int) =~= full.take(k));
                        assert(full.take(k + 1).drop_last() =~= full.take(k));
                        assert(full.take(k + 1).last() == full[k]);
                        assert(full[k] == s@[i as int]);
                        assert(spec_digits_val(full.take(k + 1)) == acc * 10 + d);
                        lemma_digits_val_prefix_le(full, k + 1);
                        assert(acc * 10 + d <= mag);
                        assert(acc * 10 + d <= u64::MAX);
                        vstd::arithmetic::div_mod::lemma_div_is_ordered(
                            10 * (acc as int),
                            u64::MAX - d,
                            10,
                        );
                        vstd::arithmetic::div_mod::lemma_div_multiples_vanish(acc as int, 10);
                        assert(acc <= cap);
                    }
                }
            }
            return None;
        }
        proof {
            vstd::arithmetic::div_mod::lemma_fundamental_div_mod((u64::MAX - d) as int, 10);
            vstd::arithmetic::div_mod::lemma_mod_division_less_than_divisor(
                (u64::MAX - d) as int,
                10,
            );
            assert(10 * (cap as int) <= u64::MAX - d);
            assert(acc * 10 + d <= u64::MAX);
        }
        acc = acc * 10 + d;
        proof {
            assert(s@.subrange(digits_start as int, i as int + 1).drop_last() =~= s@.subrange(
                digits_start as int,
                i as int,
            ));
            assert(s@.subrange(digits_start as int, i as int + 1).last() == s@[i as int]);
            assert(acc == spec_digits_val(s@.subrange(digits_start as int, i as int + 1)));
        }
        i += 1;
    }
    let ts: i64;
    if neg {
        if acc > 9223372036854775808u64 {
            proof {
                assert forall|st: State| s@ != spec_state_json(st) by {
                    if s@ == spec_state_json(st) {
                        lemma_canonical_layout(s@, st);
                        let mag: nat = magnitude_of(st.start_timestamp);
                        assert(s@.subrange(digits_start as int, n - 1) == spec_udigits(mag));
                        lemma_udigits_val(mag);
                    }
                }
            }
            return None;
        }
        if acc == 9223372036854775808u64 {
            ts = i64::MIN;
        } else {
            ts = -(acc as i64);
        }
    } else {
        if acc > 9223372036854775807u64 {
            proof {
                assert forall|st: State| s@ != spec_state_json(st) by {
                    if s@ == spec_state_json(st) {
                        lemma_canonical_layout(s@, st);
                        let mag: nat = magnitude_of(st.start_timestamp);
                        assert(s@.subrange(digits_start as int, n - 1) == spec_udigits(mag));
                        lemma_udigits_val(mag);
                    }
                }
            }
            return None;
        }
        ts = acc as i64;
    }
    let cand = State { mode, start_timestamp: ts };
    proof {
        assert forall|st: State| s@ == spec_state_json(st) implies Option::Some(cand)
            == Option::Some(st) by {
            lemma_canonical_layout(s@, st);
            let mag: nat = magnitude_of(st.start_timestamp);
            assert(s@.subrange(digits_start as int, n - 1) == spec_udigits(mag));
            lemma_udigits_val(mag);
            assert(acc == mag);
            assert(mode == st.mode);
            assert(ts == st.start_timestamp);
        }
    }
    Some(cand)
}

/// Magnitude of a signed value, as an unsigned count.
pub open spec fn magnitude_of(ts: i64) -> nat {
    if ts >= 0 {
        ts as nat
    } else {
        (-(ts as int)) as nat
    }
}

/// Parse the persisted state file. This succeeds exactly on the canonical
/// rendering of a state — the very strings `render_state_json` writes — and
/// then returns that state; anything else is rejected.
pub fn parse_state_json(s: &str) -> (r: Option<State>)
    ensures
        (match r {
            Option::Some(st) => s@ == spec_state_json(st),
            Option::None => true,
        }),
        forall|st: State| s@ == spec_state_json(st) ==> r == Option::Some(st),
{
    let cand = match extract_state(s) {
        Option::Some(c) => c,
        Option::None => {
            return None;
        },
    };
    let canon = render_state_json(&cand);
    if str_eq(s, canon.as_str()) {
        Some(cand)
    } else {
        proof {
            assert forall|st: State| s@ != spec_state_json(st) by {
                if s@ == spec_state_json(st) {
                    assert(cand == st);
                }
            }
        }
        None
    }
}

} // verus!

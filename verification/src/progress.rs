//! Progress reporting: scan the encoder's diagnostic lines for the
//! embedded elapsed-time token and turn it into a 0-100 percentage of
//! the planned timeline.

use vstd::prelude::*;

verus! {

/// A decimal digit.
pub open spec fn is_digit(c: char) -> bool {
    '0' <= c && c <= '9'
}

/// The digits in `[from, to)` read as a number; meaningful only when
/// they are all digits.
pub open spec fn digits_val(s: Seq<char>, from: int, to: int) -> int
    decreases to - from,
{
    if from >= to {
        0
    } else {
        digits_val(s, from, to - 1) * 10 + (s[to - 1] as int - '0' as int)
    }
}

/// Whether `[from, to)` holds digits only.
pub open spec fn all_digits(s: Seq<char>, from: int, to: int) -> bool {
    forall|i: int| from <= i < to ==> is_digit(#[trigger] s[i])
}

/// The first position at or after `i` where `time=` starts; -1 when the
/// line holds none.
pub open spec fn find_time_from(s: Seq<char>, i: int) -> int
    decreases s.len() - i,
{
    if i < 0 || i + 5 > s.len() {
        -1
    } else if s.subrange(i, i + 5) == "time="@ {
        i
    } else {
        find_time_from(s, i + 1)
    }
}

/// The end of the token starting at `i`: the first space, or the end of
/// the line.
pub open spec fn token_end(s: Seq<char>, i: int) -> int
    decreases s.len() - i,
{
    if i < 0 || i >= s.len() {
        s.len() as int
    } else if s[i] == ' ' {
        i
    } else {
        token_end(s, i + 1)
    }
}

/// The first position of `c` in `[from, to)`; -1 when there is none.
pub open spec fn find_char_in(s: Seq<char>, c: char, from: int, to: int) -> int
    decreases to - from,
{
    if from < 0 || from >= to || to > s.len() {
        -1
    } else if s[from] == c {
        from
    } else {
        find_char_in(s, c, from + 1, to)
    }
}

/// A well-formed number part: one to nine digits.
pub open spec fn part_ok(s: Seq<char>, from: int, to: int) -> bool {
    from < to <= from + 9 && all_digits(s, from, to)
}

/// The seconds field in centiseconds: whole digits, then an optional
/// fraction of which the first two digits count.
pub open spec fn secs_cs_spec(s: Seq<char>, from: int, to: int) -> Option<int> {
    let dot = find_char_in(s, '.', from, to);
    if dot < 0 {
        if part_ok(s, from, to) {
            Option::Some(digits_val(s, from, to) * 100)
        } else {
            Option::<int>::None
        }
    } else {
        if part_ok(s, from, dot) && all_digits(s, dot + 1, to) {
            let frac = if to - (dot + 1) >= 2 {
                digits_val(s, dot + 1, dot + 3)
            } else if to - (dot + 1) == 1 {
                digits_val(s, dot + 1, dot + 2) * 10
            } else {
                0
            };
            Option::Some(digits_val(s, from, dot) * 100 + frac)
        } else {
            Option::<int>::None
        }
    }
}

/// The elapsed time a diagnostic line reports, in centiseconds: the
/// `HH:MM:SS.ff` token after the first `time=`, or nothing when the line
/// carries none or the token is malformed.
pub open spec fn extract_time_spec(s: Seq<char>) -> Option<int> {
    let t = find_time_from(s, 0);
    if t < 0 {
        Option::<int>::None
    } else {
        let start = t + 5;
        let end = token_end(s, start);
        let c1 = find_char_in(s, ':', start, end);
        let c2 = if c1 < 0 {
            -1
        } else {
            find_char_in(s, ':', c1 + 1, end)
        };
        if c1 < 0 || c2 < 0 || find_char_in(s, ':', c2 + 1, end) >= 0 {
            Option::<int>::None
        } else if part_ok(s, start, c1) && part_ok(s, c1 + 1, c2) {
            match secs_cs_spec(s, c2 + 1, end) {
                Option::Some(cs) => Option::Some(
                    digits_val(s, start, c1) * 360000 + digits_val(s, c1 + 1, c2) * 6000 + cs,
                ),
                Option::None => Option::<int>::None,
            }
        } else {
            Option::<int>::None
        }
    }
}

/// Ten to the `k`-th, for small `k`.
pub open spec fn pow10(k: int) -> int
    decreases k,
{
    if k <= 0 {
        1
    } else {
        10 * pow10(k - 1)
    }
}

proof fn lemma_pow10_pos(k: int)
    ensures
        pow10(k) >= 1,
    decreases k,
{
    if k > 0 {
        lemma_pow10_pos(k - 1);
    }
}

/// Powers of ten used by the parser.
proof fn lemma_pow10_table()
    ensures
        pow10(8) == 100000000,
        pow10(9) == 1000000000,
{
    assert(pow10(0) == 1);
    assert(pow10(1) == 10);
    assert(pow10(2) == 100);
    assert(pow10(3) == 1000);
    assert(pow10(4) == 10000);
    assert(pow10(5) == 100000);
    assert(pow10(6) == 1000000);
    assert(pow10(7) == 10000000);
    assert(pow10(8) == 100000000);
    assert(pow10(9) == 1000000000);
}

proof fn lemma_digits_val_small_r(s: Seq<char>, from: int, to: int, k: int)
    requires
        all_digits(s, from, to),
        0 <= to - from <= k,
        k <= 18,
    ensures
        0 <= digits_val(s, from, to) < pow10(k),
    decreases to - from,
{
    if from >= to {
        lemma_pow10_pos(k);
    } else {
        lemma_digits_val_small_r(s, from, to - 1, k - 1);
        assert(digits_val(s, from, to) == digits_val(s, from, to - 1) * 10 + (s[to - 1] as int
            - '0' as int));
        assert(digits_val(s, from, to - 1) * 10 <= (pow10(k - 1) - 1) * 10) by (nonlinear_arith)
            requires
                digits_val(s, from, to - 1) <= pow10(k - 1) - 1,
        ;
        assert(pow10(k) == 10 * pow10(k - 1));
    }
}

fn parse_part(s: &str, from: usize, to: usize) -> (r: Option<u64>)
    requires
        from <= to <= s@.len(),
    ensures
        r is Some <==> part_ok(s@, from as int, to as int),
        r matches Some(v) ==> v == digits_val(s@, from as int, to as int) && v < 1000000000,
{
    if from >= to || to - from > 9 {
        return Option::None;
    }
    let mut v: u64 = 0;
    let mut i: usize = from;
    while i < to
        invariant
            from <= i <= to <= s@.len(),
            to - from <= 9,
            all_digits(s@, from as int, i as int),
            v == digits_val(s@, from as int, i as int),
            v < 1000000000,
        decreases to - i,
    {
        let c = s.get_char(i);
        if c < '0' || c > '9' {
            return Option::None;
        }
        proof {
            lemma_pow10_table();
            lemma_digits_val_small_r(s@, from as int, i as int, 8);
        }
        v = v * 10 + (c as u64 - '0' as u64);
        proof {
            lemma_digits_val_small_r(s@, from as int, i + 1 as int, 9);
        }
        i = i + 1;
    }
    Option::Some(v)
}

fn find_char_exec(s: &str, c: char, from: usize, to: usize) -> (r: Option<usize>)
    requires
        to <= s@.len(),
    ensures
        r matches Some(i) ==> find_char_in(s@, c, from as int, to as int) == i as int && from
            <= i < to,
        r is None ==> find_char_in(s@, c, from as int, to as int) == -1,
{
    if from >= to {
        return Option::None;
    }
    let mut i: usize = from;
    while i < to
        invariant
            from <= i <= to <= s@.len(),
            find_char_in(s@, c, from as int, to as int) == find_char_in(
                s@,
                c,
                i as int,
                to as int,
            ),
        decreases to - i,
    {
        if s.get_char(i) == c {
            return Option::Some(i);
        }
        i = i + 1;
    }
    Option::None
}

fn check_all_digits(s: &str, from: usize, to: usize) -> (r: bool)
    requires
        from <= to <= s@.len(),
    ensures
        r == all_digits(s@, from as int, to as int),
{
    let mut k: usize = from;
    while k < to
        invariant
            from <= k <= to <= s@.len(),
            all_digits(s@, from as int, k as int),
        decreases to - k,
    {
        let c = s.get_char(k);
        if c < '0' || c > '9' {
            proof {
                assert(!is_digit(s@[k as int]));
            }
            return false;
        }
        k = k + 1;
    }
    true
}

/// Scan a diagnostic line for the `time=HH:MM:SS.ff` token and return
/// the elapsed time in centiseconds.
pub fn extract_time(line: &str) -> (r: Option<u64>)
    ensures
        match r {
            Option::Some(v) => extract_time_spec(line@) == Option::Some(v as int),
            Option::None => extract_time_spec(line@) is None,
        },
{
    let n = line.unicode_len();
    if n < 5 {
        return Option::None;
    }
    // find "time="
    let mut t: usize = 0;
    let mut found = false;
    while !found && t <= n - 5
        invariant
            n == line@.len(),
            5 <= n,
            t <= n,
            !found ==> find_time_from(line@, 0) == find_time_from(line@, t as int),
            found ==> find_time_from(line@, 0) == t as int && t + 5 <= n,
        decreases n - t + (if found {
            0int
        } else {
            1int
        }),
    {
        let ghost sub = line@.subrange(t as int, t as int + 5);
        proof {
            reveal_strlit("time=");
            assert(sub[0] == line@[t as int]);
            assert(sub[1] == line@[t as int + 1]);
            assert(sub[2] == line@[t as int + 2]);
            assert(sub[3] == line@[t as int + 3]);
            assert(sub[4] == line@[t as int + 4]);
        }
        if line.get_char(t) == 't' && line.get_char(t + 1) == 'i' && line.get_char(t + 2) == 'm'
            && line.get_char(t + 3) == 'e' && line.get_char(t + 4) == '=' {
            proof {
                assert(sub =~= "time="@);
            }
            found = true;
        } else {
            proof {
                assert(sub != "time="@);
            }
            t = t + 1;
        }
    }
    if !found {
        proof {
            assert(find_time_from(line@, t as int) == -1);
        }
        return Option::None;
    }
    let start = t + 5;
    // token end: first space
    let mut end: usize = start;
    while end < n && line.get_char(end) != ' '
        invariant
            n == line@.len(),
            start <= end <= n,
            token_end(line@, start as int) == token_end(line@, end as int),
        decreases n - end,
    {
        end = end + 1;
    }
    proof {
        assert(token_end(line@, end as int) == end as int);
    }
    let c1 = match find_char_exec(line, ':', start, end) {
        Option::Some(i) => i,
        Option::None => {
            return Option::None;
        },
    };
    let c2 = match find_char_exec(line, ':', c1 + 1, end) {
        Option::Some(i) => i,
        Option::None => {
            return Option::None;
        },
    };
    if let Option::Some(_) = find_char_exec(line, ':', c2 + 1, end) {
        return Option::None;
    }
    let h = match parse_part(line, start, c1) {
        Option::Some(v) => v,
        Option::None => {
            return Option::None;
        },
    };
    let m = match parse_part(line, c1 + 1, c2) {
        Option::Some(v) => v,
        Option::None => {
            return Option::None;
        },
    };
    // seconds, with an optional fraction of which two digits count
    let cs: u64 = match find_char_exec(line, '.', c2 + 1, end) {
        Option::Some(dot) => {
            let whole = match parse_part(line, c2 + 1, dot) {
                Option::Some(v) => v,
                Option::None => {
                    return Option::None;
                },
            };
            // the fraction must be digits throughout
            if !check_all_digits(line, dot + 1, end) {
                proof {
                    assert(secs_cs_spec(line@, c2 as int + 1, end as int) is None);
                }
                return Option::None;
            }
            let frac: u64 = if end - (dot + 1) >= 2 {
                proof {
                    assert(is_digit(line@[dot as int + 1]));
                    assert(is_digit(line@[dot as int + 2]));
                }
                let d1 = line.get_char(dot + 1);
                let d2 = line.get_char(dot + 2);
                proof {
                    assert(digits_val(line@, dot as int + 1, dot as int + 1) == 0);
                    assert(digits_val(line@, dot as int + 1, dot as int + 2) == (line@[dot as int
                        + 1] as int - '0' as int));
                    assert(digits_val(line@, dot as int + 1, dot as int + 3) == digits_val(
                        line@,
                        dot as int + 1,
                        dot as int + 2,
                    ) * 10 + (line@[dot as int + 2] as int - '0' as int));
                }
                (d1 as u64 - '0' as u64) * 10 + (d2 as u64 - '0' as u64)
            } else if end - (dot + 1) == 1 {
                proof {
                    assert(is_digit(line@[dot as int + 1]));
                }
                let d1 = line.get_char(dot + 1);
                proof {
                    assert(digits_val(line@, dot as int + 1, dot as int + 1) == 0);
                    assert(digits_val(line@, dot as int + 1, dot as int + 2) == (line@[dot as int
                        + 1] as int - '0' as int));
                }
                (d1 as u64 - '0' as u64) * 10
            } else {
                0
            };
            proof {
                assert(secs_cs_spec(line@, c2 as int + 1, end as int) == Option::Some(
                    (whole * 100 + frac) as int,
                ));
            }
            whole * 100 + frac
        },
        Option::None => {
            let whole = match parse_part(line, c2 + 1, end) {
                Option::Some(v) => v,
                Option::None => {
                    return Option::None;
                },
            };
            proof {
                assert(secs_cs_spec(line@, c2 as int + 1, end as int) == Option::Some(
                    (whole * 100) as int,
                ));
            }
            whole * 100
        },
    };
    proof {
        assert(extract_time_spec(line@) == Option::Some(
            (h * 360000 + m * 6000 + cs) as int,
        ));
    }
    Option::Some(h * 360000 + m * 6000 + cs)
}

/// The progress percentage of `time_cs` centiseconds against a timeline
/// of `total_ms` milliseconds, capped at 100; a non-positive total
/// counts as complete.
pub open spec fn progress_percent_spec(time_cs: int, total_ms: int) -> int {
    if total_ms <= 0 {
        100
    } else {
        let pct = (time_cs * 10) * 100 / total_ms;
        if pct > 100 {
            100
        } else {
            pct
        }
    }
}

/// Map elapsed time onto 0-100 progress.
pub fn progress_percent(time_cs: u64, total_ms: i64) -> (r: u32)
    requires
        time_cs <= 0x1000_0000_0000,
    ensures
        r == progress_percent_spec(time_cs as int, total_ms as int),
        r <= 100,
{
    if total_ms <= 0 {
        return 100;
    }
    let scaled: u64 = time_cs * 10 * 100;
    let pct = scaled / (total_ms as u64);
    if pct > 100 {
        100
    } else {
        pct as u32
    }
}

} // verus!

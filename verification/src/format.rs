use vstd::prelude::*;

use crate::text::{decimal, push_char, push_decimal, push_str, u64_text};

verus! {

/// The first `k` digits of a number written out, with a comma before each
/// digit that starts a group of three counted from the end.
pub open spec fn grouped_prefix(digits: Seq<char>, k: int) -> Seq<char>
    decreases k,
{
    if k <= 0 {
        Seq::empty()
    } else {
        let i = k - 1;
        let previous = grouped_prefix(digits, i);
        if i > 0 && (digits.len() - i) % 3 == 0 {
            previous.push(',').push(digits[i])
        } else {
            previous.push(digits[i])
        }
    }
}

/// A number with its thousands separated by commas.
pub open spec fn grouped(n: nat) -> Seq<char> {
    grouped_prefix(decimal(n), decimal(n).len() as int)
}

/// Writes a number with its thousands separated by commas.
pub fn format_number(number: u64) -> (r: String)
    ensures
        r@ == grouped(number as nat),
{
    let digits = crate::text::chars_of(u64_text(number).as_str());
    let n = digits.len();
    let mut out = String::new();
    let mut i: usize = 0;
    while i < n
        invariant
            i <= n,
            n == digits@.len(),
            digits@ == decimal(number as nat),
            out@ == grouped_prefix(digits@, i as int),
        decreases n - i,
    {
        if i > 0 && (n - i) % 3 == 0 {
            push_char(&mut out, ',');
        }
        push_char(&mut out, digits[i]);
        i += 1;
    }
    out
}

/// How long ago a moment was, as the session list says it: "now" within a
/// minute, then whole minutes, hours, days and months of thirty days.
pub open spec fn age_label(now_ms: u64, timestamp_ms: u64) -> Seq<char> {
    let seconds = (if now_ms >= timestamp_ms {
        now_ms - timestamp_ms
    } else {
        0
    }) / 1000;
    if seconds < 60 {
        "now"@
    } else if seconds < 3600 {
        decimal((seconds / 60) as nat) + "m"@
    } else if seconds < 86400 {
        decimal((seconds / 3600) as nat) + "h"@
    } else if seconds < 2592000 {
        decimal((seconds / 86400) as nat) + "d"@
    } else {
        decimal((seconds / 2592000) as nat) + "mo"@
    }
}

/// How long before `now_ms` the moment `timestamp_ms` was (both in
/// milliseconds since the epoch).
pub fn relative_time(now_ms: u64, timestamp_ms: u64) -> (r: String)
    ensures
        r@ == age_label(now_ms, timestamp_ms),
{
    let seconds = now_ms.saturating_sub(timestamp_ms) / 1000;
    let (count, unit) = if seconds < 60 {
        return "now".to_owned();
    } else if seconds < 3600 {
        (seconds / 60, "m")
    } else if seconds < 86400 {
        (seconds / 3600, "h")
    } else if seconds < 2592000 {
        (seconds / 86400, "d")
    } else {
        (seconds / 2592000, "mo")
    };
    let mut out = u64_text(count);
    push_str(&mut out, unit);
    out
}

/// How a session is titled in the session list: its title, or a stand-in
/// when it has none but blanks.
pub open spec fn session_title_of(title: Seq<char>) -> Seq<char> {
    if crate::text::trimmed(title).len() == 0 {
        "Untitled session"@
    } else {
        title
    }
}

pub fn session_title(title: &str) -> (r: String)
    ensures
        r@ == session_title_of(title@),
{
    proof {
        reveal_strlit("Untitled session");
    }
    let trimmed = crate::text::trim(title);
    if trimmed.as_str().is_empty() {
        "Untitled session".to_owned()
    } else {
        title.to_owned()
    }
}

proof fn lemma_whole_units(elapsed: int, unit: int, k: int, rest: int)
    requires
        unit > 0,
        k >= 0,
        0 <= rest < unit * 1000,
        elapsed == k * unit * 1000 + rest,
    ensures
        (elapsed / 1000) / unit == k,
{
    let q = rest / 1000;
    let r0 = rest % 1000;
    vstd::arithmetic::div_mod::lemma_fundamental_div_mod(rest, 1000);
    assert(elapsed == 1000 * (k * unit + q) + r0) by (nonlinear_arith)
        requires
            elapsed == k * unit * 1000 + rest,
            rest == 1000 * q + r0,
    {
    }
    vstd::arithmetic::div_mod::lemma_div_multiples_vanish_fancy(k * unit + q, r0, 1000);
    assert(q < unit) by (nonlinear_arith)
        requires
            rest == 1000 * q + r0,
            0 <= r0,
            rest < unit * 1000,
    {
    }
    assert(0 <= q) by (nonlinear_arith)
        requires
            rest == 1000 * q + r0,
            r0 < 1000,
            0 <= rest,
    {
    }
    vstd::arithmetic::div_mod::lemma_div_multiples_vanish_fancy(k, q, unit);
    assert(unit * k + q == k * unit + q) by (nonlinear_arith);
}

/// A moment `k` whole units and less than one more unit ago is labelled
/// with `k` and that unit: minutes below an hour, hours below a day, days
/// below thirty days, thirty-day months beyond; under a minute ago, or a
/// moment still to come, is "now".
pub proof fn law_age_counts_whole_units(now_ms: u64, timestamp_ms: u64, k: nat, rest: nat)
    ensures
        timestamp_ms >= now_ms ==> age_label(now_ms, timestamp_ms) == "now"@,
        now_ms >= timestamp_ms && now_ms - timestamp_ms < 60000 ==> age_label(now_ms, timestamp_ms)
            == "now"@,
        now_ms >= timestamp_ms && now_ms - timestamp_ms == k * 60000 + rest && rest < 60000 && 1
            <= k < 60 ==> age_label(now_ms, timestamp_ms) == decimal(k) + "m"@,
        now_ms >= timestamp_ms && now_ms - timestamp_ms == k * 3600000 + rest && rest < 3600000
            && 1 <= k < 24 ==> age_label(now_ms, timestamp_ms) == decimal(k) + "h"@,
        now_ms >= timestamp_ms && now_ms - timestamp_ms == k * 86400000 + rest && rest < 86400000
            && 1 <= k < 30 ==> age_label(now_ms, timestamp_ms) == decimal(k) + "d"@,
        now_ms >= timestamp_ms && now_ms - timestamp_ms == k * 2592000000 + rest && rest
            < 2592000000 && 1 <= k ==> age_label(now_ms, timestamp_ms) == decimal(k) + "mo"@,
{
    if now_ms >= timestamp_ms {
        let elapsed = (now_ms - timestamp_ms) as int;
        if elapsed == k * 60000 + rest && rest < 60000 && 1 <= k < 60 {
            lemma_whole_units(elapsed, 60, k as int, rest as int);
        }
        if elapsed == k * 3600000 + rest && rest < 3600000 && 1 <= k < 24 {
            lemma_whole_units(elapsed, 3600, k as int, rest as int);
        }
        if elapsed == k * 86400000 + rest && rest < 86400000 && 1 <= k < 30 {
            lemma_whole_units(elapsed, 86400, k as int, rest as int);
        }
        if elapsed == k * 2592000000 + rest && rest < 2592000000 && 1 <= k {
            lemma_whole_units(elapsed, 2592000, k as int, rest as int);
        }
    }
}

/// A title with something besides blanks is shown as it is; a blank one as
/// "Untitled session".
pub proof fn law_session_title_keeps_real_titles(title: Seq<char>)
    ensures
        crate::text::trimmed(title).len() > 0 ==> session_title_of(title) == title,
        crate::text::trimmed(title).len() == 0 ==> session_title_of(title) == "Untitled session"@,
{
}

} // verus!

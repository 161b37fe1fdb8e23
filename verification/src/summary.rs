//! The usage summary: a fixed-format report computed from the full log
//! text and the current flag, recomputed from scratch on every request.

use vstd::prelude::*;

use crate::text::{
    char_index_at, contains_sub, dec_str, digit_char, digit_str, find_char, has_substring,
    lemma_char_index_bound, nonblank_lines, opt_view, split_nonblank_lines, usize_to_string, views,
};

verus! {

/// How many of the lines contain `pat` as a substring.
pub open spec fn count_with(lines: Seq<Seq<char>>, pat: Seq<char>) -> nat
    decreases lines.len(),
{
    if lines.len() == 0 {
        0
    } else {
        count_with(lines.drop_last(), pat) + (if has_substring(lines.last(), pat) {
            1nat
        } else {
            0nat
        })
    }
}

/// No more lines can match than there are lines.
pub proof fn lemma_count_with_le(lines: Seq<Seq<char>>, pat: Seq<char>)
    ensures
        count_with(lines, pat) <= lines.len(),
    decreases lines.len(),
{
    if lines.len() != 0 {
        lemma_count_with_le(lines.drop_last(), pat);
    }
}

/// Count the lines containing `pat`.
fn count_lines_with(lines: &Vec<String>, pat: &str) -> (c: usize)
    ensures
        c == count_with(views(lines@), pat@),
{
    let n: usize = lines.len();
    let mut c: usize = 0;
    let mut i: usize = 0;
    proof {
        assert(views(lines@.subrange(0, 0)) =~= Seq::<Seq<char>>::empty());
    }
    while i < n
        invariant
            n == lines@.len(),
            i <= n,
            c <= i,
            c == count_with(views(lines@.subrange(0, i as int)), pat@),
        decreases n - i,
    {
        let ghost prefix = views(lines@.subrange(0, i as int));
        if contains_sub(lines[i].as_str(), pat) {
            c += 1;
        }
        proof {
            let next = views(lines@.subrange(0, i + 1));
            assert(next.drop_last() =~= prefix);
            assert(next.last() == lines@[i as int]@);
        }
        i += 1;
    }
    proof {
        assert(lines@.subrange(0, n as int) =~= lines@);
    }
    c
}

/// The timestamp recorded on a log line: the text before the first `]`,
/// with a single leading `[` removed; empty when the line has no `]`.
pub open spec fn timestamp_of(line: Seq<char>) -> Seq<char> {
    let i = char_index_at(line, ']');
    if i == line.len() {
        Seq::empty()
    } else {
        let pre = line.subrange(0, i);
        if pre.len() > 0 && pre[0] == '[' {
            pre.drop_first()
        } else {
            pre
        }
    }
}

/// Extract the timestamp of a log line.
pub fn extract_timestamp(line: &str) -> (r: String)
    ensures
        r@ == timestamp_of(line@),
{
    let n: usize = line.unicode_len();
    let i = find_char(line, ']');
    proof {
        lemma_char_index_bound(line@, ']');
    }
    if i == n {
        let r = String::new();
        proof {
            assert(r@ =~= timestamp_of(line@));
        }
        r
    } else if i > 0 && line.get_char(0) == '[' {
        let r = String::from_str(line.substring_char(1, i));
        proof {
            assert(line@.subrange(0, i as int).drop_first() =~= line@.subrange(1, i as int));
        }
        r
    } else {
        let r = String::from_str(line.substring_char(0, i));
        proof {
            assert(line@.subrange(0, i as int).len() == 0 ==> line@.subrange(0, i as int)
                =~= r@);
        }
        r
    }
}

/// A share `k` of `n`, in tenths of a percent, rounded half up to the
/// nearest tenth; zero when `n` is zero.
pub open spec fn pct_tenths(k: nat, n: nat) -> nat {
    if n == 0 {
        0
    } else {
        ((k * 1000 + n / 2) / n) as nat
    }
}

/// The share rendered with one decimal place, e.g. `66.7`.
pub open spec fn pct_str(k: nat, n: nat) -> Seq<char> {
    dec_str(pct_tenths(k, n) / 10) + seq!['.', digit_char(pct_tenths(k, n) % 10)]
}

/// Render `k` of `n` as a percentage with one decimal place.
fn pct_string(k: usize, n: usize) -> (r: String)
    requires
        k <= n,
        n > 0,
    ensures
        r@ == pct_str(k as nat, n as nat),
{
    let t128: u128 = ((k as u128) * 1000 + (n as u128) / 2) / (n as u128);
    proof {
        let kk = k as int;
        let nn = n as int;
        let x = kk * 1000 + nn / 2;
        assert(x <= nn * 1001 - 1);
        vstd::arithmetic::div_mod::lemma_fundamental_div_mod_converse(
            nn * 1001 - 1,
            nn,
            1000,
            nn - 1,
        );
        vstd::arithmetic::div_mod::lemma_div_is_ordered(x, nn * 1001 - 1, nn);
        assert(t128 <= 1000);
        assert(t128 == pct_tenths(k as nat, n as nat));
    }
    let t: usize = t128 as usize;
    let mut r = usize_to_string(t / 10);
    r.append(".");
    r.append(digit_str(t % 10));
    proof {
        reveal_strlit(".");
        assert(r@ =~= pct_str(k as nat, n as nat));
    }
    r
}

/// The lines shown under "Recent Activity": the last five, or all of them
/// when there are fewer, in their original oldest-first order.
pub open spec fn recent_tail(lines: Seq<Seq<char>>) -> Seq<Seq<char>> {
    if lines.len() <= 5 {
        lines
    } else {
        lines.subrange(lines.len() - 5, lines.len() as int)
    }
}

/// The recent-activity section never shows more than five lines, and what
/// it shows is the true tail of the log in original order.
pub proof fn lemma_recent_tail_props(lines: Seq<Seq<char>>)
    ensures
        recent_tail(lines).len() <= 5,
        recent_tail(lines).len() == if lines.len() <= 5 {
            lines.len()
        } else {
            5nat
        },
        forall|i: int|
            0 <= i < recent_tail(lines).len() ==> recent_tail(lines)[i] == lines[lines.len()
                - recent_tail(lines).len() + i],
{
}

/// The shown lines, each prefixed with two spaces, joined with newlines.
pub open spec fn render_recent(tail: Seq<Seq<char>>) -> Seq<char>
    decreases tail.len(),
{
    if tail.len() == 0 {
        Seq::empty()
    } else if tail.len() == 1 {
        "  "@ + tail[0]
    } else {
        render_recent(tail.drop_last()) + "\n"@ + "  "@ + tail.last()
    }
}

/// The full report, a pure function of the log text and the current flag.
pub open spec fn spec_summary(content: Seq<char>, is_on: bool) -> Seq<char> {
    let lines = nonblank_lines(content);
    if lines.len() == 0 {
        "Lightbulb Usage Summary:\n\nNo activity recorded yet."@
    } else {
        let n = lines.len();
        let k_on = count_with(lines, "turned ON"@);
        let k_off = count_with(lines, "turned OFF"@);
        "Lightbulb Usage Summary:\n\nCurrent Status: "@ + (if is_on {
            "ON"@
        } else {
            "OFF"@
        }) + "\nTotal Actions: "@ + dec_str(n) + "\n- Turn ON actions: "@ + dec_str(k_on) + " ("@
            + pct_str(k_on, n) + "%)"@ + "\n- Turn OFF actions: "@ + dec_str(k_off) + " ("@
            + pct_str(k_off, n) + "%)"@ + "\n\nActivity Period:\n- First action: "@
            + timestamp_of(lines.first()) + "\n- Last action: "@ + timestamp_of(lines.last())
            + "\n\nRecent Activity (last 5 actions):\n"@ + render_recent(recent_tail(lines))
    }
}

/// Compute the report from the log text and the current flag.
pub fn generate_summary(content: &str, is_on: bool) -> (r: String)
    ensures
        r@ == spec_summary(content@, is_on),
{
    let lines = split_nonblank_lines(content);
    let n: usize = lines.len();
    if n == 0 {
        return String::from_str("Lightbulb Usage Summary:\n\nNo activity recorded yet.");
    }
    let k_on = count_lines_with(&lines, "turned ON");
    let k_off = count_lines_with(&lines, "turned OFF");
    proof {
        lemma_count_with_le(views(lines@), "turned ON"@);
        lemma_count_with_le(views(lines@), "turned OFF"@);
    }
    let mut r = String::from_str("Lightbulb Usage Summary:\n\nCurrent Status: ");
    if is_on {
        r.append("ON");
    } else {
        r.append("OFF");
    }
    r.append("\nTotal Actions: ");
    let n_str = usize_to_string(n);
    r.append(n_str.as_str());
    r.append("\n- Turn ON actions: ");
    let k_on_str = usize_to_string(k_on);
    r.append(k_on_str.as_str());
    r.append(" (");
    let on_pct = pct_string(k_on, n);
    r.append(on_pct.as_str());
    r.append("%)");
    r.append("\n- Turn OFF actions: ");
    let k_off_str = usize_to_string(k_off);
    r.append(k_off_str.as_str());
    r.append(" (");
    let off_pct = pct_string(k_off, n);
    r.append(off_pct.as_str());
    r.append("%)");
    r.append("\n\nActivity Period:\n- First action: ");
    let first_ts = extract_timestamp(lines[0].as_str());
    r.append(first_ts.as_str());
    r.append("\n- Last action: ");
    let last_ts = extract_timestamp(lines[n - 1].as_str());
    r.append(last_ts.as_str());
    r.append("\n\nRecent Activity (last 5 actions):\n");
    let ghost base = r@;
    let start: usize = if n <= 5 {
        0
    } else {
        n - 5
    };
    let ghost tail = recent_tail(views(lines@));
    proof {
        assert(tail =~= views(lines@).subrange(start as int, n as int));
    }
    let mut i: usize = start;
    while i < n
        invariant
            n == lines@.len(),
            start <= i <= n,
            start == if n <= 5 {
                0int
            } else {
                n - 5
            },
            tail == views(lines@).subrange(start as int, n as int),
            r@ == base + render_recent(tail.subrange(0, i - start)),
        decreases n - i,
    {
        let ghost shown = tail.subrange(0, i - start);
        if i > start {
            r.append("\n");
        }
        r.append("  ");
        r.append(lines[i].as_str());
        proof {
            let next = tail.subrange(0, i + 1 - start);
            assert(next.drop_last() =~= shown);
            assert(next.last() == lines@[i as int]@);
            if i == start {
                assert(render_recent(next) =~= "  "@ + lines@[i as int]@);
            }
            assert(r@ =~= base + render_recent(next));
        }
        i += 1;
    }
    proof {
        assert(tail.subrange(0, n - start) =~= tail);
        assert(r@ =~= spec_summary(content@, is_on));
    }
    r
}

/// The report for an attempted read of the log text: the absent-log
/// placeholder when the read failed, the computed report otherwise.
pub open spec fn spec_summary_of_read(content: Option<Seq<char>>, is_on: bool) -> Seq<char> {
    match content {
        Some(c) => spec_summary(c, is_on),
        None => "Lightbulb Usage Summary:\n\nLog file not found. No activity recorded yet."@,
    }
}

/// Compute the report for an attempted read of the log.
pub fn generate_summary_of_read(content: Option<&str>, is_on: bool) -> (r: String)
    ensures
        r@ == spec_summary_of_read(opt_view(content), is_on),
{
    match content {
        Some(c) => generate_summary(c, is_on),
        None => String::from_str(
            "Lightbulb Usage Summary:\n\nLog file not found. No activity recorded yet.",
        ),
    }
}

/// Over an empty log text the report is exactly the no-activity literal,
/// whatever the flag says.
pub proof fn lemma_summary_empty(is_on: bool)
    ensures
        spec_summary(Seq::empty(), is_on) == "Lightbulb Usage Summary:\n\nNo activity recorded yet."@,
{
    assert(nonblank_lines(Seq::empty()) =~= Seq::<Seq<char>>::empty());
}

} // verus!

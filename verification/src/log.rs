//! The activity log: the one-line record format shared by every storage
//! backend, and the in-memory store.
//!
//! A durable, file-backed store writes the very same lines; it performs
//! I/O and therefore lives outside this library, calling
//! [`format_log_line`] for each record so that both stores stay
//! byte-compatible.

use vstd::prelude::*;

use crate::summary::count_with;
use crate::text::{
    has_substring, is_blank, is_match_at, is_whitespace_char, lemma_char_index_unique,
    nonblank_lines, split_lines, strip_cr, views,
};

verus! {

/// The one-line record of a transition: `[<timestamp>] Lightbulb turned
/// <ON|OFF>`, without a line terminator.
pub open spec fn spec_line(ts: Seq<char>, on: bool) -> Seq<char> {
    seq!['['] + ts + "] Lightbulb turned "@ + (if on {
        "ON"@
    } else {
        "OFF"@
    })
}

/// Characters that an RFC 3339 timestamp is drawn from: decimal digits and
/// the punctuation `- : . T + Z`.
pub open spec fn is_rfc3339_char(c: char) -> bool {
    ||| ('0' as int) <= (c as int) <= ('9' as int)
    ||| c == '-'
    ||| c == ':'
    ||| c == '.'
    ||| c == 'T'
    ||| c == '+'
    ||| c == 'Z'
}

/// A non-empty string of RFC 3339 characters: what the clock hands back.
pub open spec fn rfc_seq(ts: Seq<char>) -> bool {
    &&& ts.len() > 0
    &&& forall|i: int| 0 <= i < ts.len() ==> is_rfc3339_char(#[trigger] ts[i])
}

/// An entry as a real transition writes it: the line format applied to
/// some timestamp the clock produced.
pub open spec fn is_entry(e: Seq<char>, on: bool) -> bool {
    exists|ts: Seq<char>| rfc_seq(ts) && e == spec_line(ts, on)
}

/// Relies on chrono's `Utc::now` and `DateTime::to_rfc3339`: the current
/// instant rendered in RFC 3339 form, e.g. `1996-12-19T16:39:57+00:00`.
/// Which instant comes back depends on the clock, so only the shape is
/// stated: a non-empty string of digits and the punctuation `- : . T + Z`,
/// which is all `to_rfc3339` ever emits.
#[verifier::external_body]
fn now_rfc3339() -> (r: String)
    ensures
        rfc_seq(r@),
{
    chrono::Utc::now().to_rfc3339()
}

/// The log line for a transition to `on` stamped with `timestamp`.
pub fn format_log_line(timestamp: &str, on: bool) -> (r: String)
    ensures
        r@ == spec_line(timestamp@, on),
{
    let mut r = String::from_str("[");
    r.append(timestamp);
    r.append("] Lightbulb turned ");
    if on {
        r.append("ON");
    } else {
        r.append("OFF");
    }
    proof {
        reveal_strlit("[");
        assert(("["@) =~= seq!['[']);
        assert(r@ =~= spec_line(timestamp@, on));
    }
    r
}

/// The full text of a log: every entry in order, each followed by a single
/// newline.
pub open spec fn log_text(entries: Seq<Seq<char>>) -> Seq<char>
    decreases entries.len(),
{
    if entries.len() == 0 {
        Seq::empty()
    } else {
        log_text(entries.drop_last()) + entries.last() + seq!['\n']
    }
}

/// Every entry appended to the log is reproduced verbatim, with a single
/// newline added, when the log is read back in full.
pub proof fn lemma_read_after_append(entries: Seq<Seq<char>>, e: Seq<char>)
    ensures
        log_text(entries.push(e)) == log_text(entries) + e + seq!['\n'],
{
    assert(entries.push(e).drop_last() =~= entries);
    assert(entries.push(e).last() == e);
}

/// A log line for a transition to `on` contains the marker of its own
/// direction and not the marker of the other one: the timestamp, drawn
/// from RFC 3339 characters only, cannot fake either marker.
pub proof fn lemma_line_markers(ts: Seq<char>, on: bool)
    requires
        rfc_seq(ts),
    ensures
        has_substring(spec_line(ts, on), if on {
            "turned ON"@
        } else {
            "turned OFF"@
        }),
        !has_substring(spec_line(ts, on), if on {
            "turned OFF"@
        } else {
            "turned ON"@
        }),
{
    reveal_strlit("] Lightbulb turned ");
    reveal_strlit("turned ON");
    reveal_strlit("turned OFF");
    reveal_strlit("ON");
    reveal_strlit("OFF");
    let line = spec_line(ts, on);
    let mid = "] Lightbulb turned "@;
    let b = 1 + ts.len() as int;
    assert(mid.len() == 19);
    // Where each character of the line comes from.
    assert(line[0] == '[');
    assert(forall|j: int| 0 <= j < ts.len() ==> line[1 + j] == ts[j]);
    assert(forall|j: int| 0 <= j < 19 ==> line[b + j] == mid[j]);
    // The timestamp holds no 't'.
    assert(forall|j: int| 0 <= j < ts.len() ==> #[trigger] ts[j] != 't');
    if on {
        let pat = "turned ON"@;
        let anti = "turned OFF"@;
        assert(line.len() == b + 21);
        assert(line[b + 19] == 'O' && line[b + 20] == 'N');
        // The marker stands where the format puts it.
        assert(is_match_at(line, pat, b + 12));
        // No position carries the other marker.
        assert forall|i: int| !is_match_at(line, anti, i) by {
            if is_match_at(line, anti, i) {
                assert(line[i] == anti[0]);
                assert(anti[0] == 't');
                assert(i + 10 <= b + 21);
                if 1 <= i && i <= ts.len() {
                    assert(line[i] == ts[i - 1]);
                } else if b <= i {
                    // Within the fixed text a 't' before the end stands
                    // only at offset 6, where the next character differs.
                    assert(line[i] == mid[i - b]);
                    assert(i - b == 6);
                    assert(line[i + 1] == mid[7]);
                    assert(anti[1] == 'u' && mid[7] == 'b');
                }
            }
        }
    } else {
        let pat = "turned OFF"@;
        let anti = "turned ON"@;
        assert(line.len() == b + 22);
        assert(line[b + 19] == 'O' && line[b + 20] == 'F' && line[b + 21] == 'F');
        assert(is_match_at(line, pat, b + 12));
        assert forall|i: int| !is_match_at(line, anti, i) by {
            if is_match_at(line, anti, i) {
                assert(line[i] == anti[0]);
                assert(anti[0] == 't');
                assert(i + 9 <= b + 22);
                if 1 <= i && i <= ts.len() {
                    assert(line[i] == ts[i - 1]);
                } else if b <= i {
                    assert(line[i] == mid[i - b]);
                    assert(i - b == 6 || i - b == 12);
                    if i - b == 6 {
                        assert(line[i + 1] == mid[7]);
                        assert(anti[1] == 'u' && mid[7] == 'b');
                    } else {
                        // "turned OFF" differs from "turned ON" at the
                        // ninth character.
                        assert(line[i + 8] == 'F');
                        assert(anti[8] == 'N');
                    }
                }
            }
        }
    }
}

/// After one ON transition and one OFF transition on an empty log, the
/// log holds exactly one line marked "turned ON" and exactly one marked
/// "turned OFF", the ON line first.
pub proof fn lemma_on_then_off_log(ts_on: Seq<char>, ts_off: Seq<char>)
    requires
        rfc_seq(ts_on),
        rfc_seq(ts_off),
    ensures
        count_with(seq![spec_line(ts_on, true), spec_line(ts_off, false)], "turned ON"@) == 1,
        count_with(seq![spec_line(ts_on, true), spec_line(ts_off, false)], "turned OFF"@) == 1,
        has_substring(spec_line(ts_on, true), "turned ON"@),
        !has_substring(spec_line(ts_on, true), "turned OFF"@),
        has_substring(spec_line(ts_off, false), "turned OFF"@),
        !has_substring(spec_line(ts_off, false), "turned ON"@),
{
    lemma_line_markers(ts_on, true);
    lemma_line_markers(ts_off, false);
    let entries = seq![spec_line(ts_on, true), spec_line(ts_off, false)];
    assert(entries.drop_last() =~= seq![spec_line(ts_on, true)]);
    assert(seq![spec_line(ts_on, true)].drop_last() =~= Seq::<Seq<char>>::empty());
    reveal_with_fuel(count_with, 3);
}

/// A line fit for storage: not blank, free of line breaks, and not ending
/// in a carriage return, so that the text round trip cuts it back out
/// exactly.
pub open spec fn line_ok(e: Seq<char>) -> bool {
    &&& !is_blank(e)
    &&& forall|j: int| 0 <= j < e.len() ==> #[trigger] e[j] != '\n'
    &&& e.len() > 0 && e.last() != '\r'
}

/// Every line a real transition writes is fit for storage.
pub proof fn lemma_entry_line_ok(ts: Seq<char>, on: bool)
    requires
        rfc_seq(ts),
    ensures
        line_ok(spec_line(ts, on)),
{
    reveal_strlit("] Lightbulb turned ");
    reveal_strlit("ON");
    reveal_strlit("OFF");
    let line = spec_line(ts, on);
    let mid = "] Lightbulb turned "@;
    let b = 1 + ts.len() as int;
    assert(mid.len() == 19);
    assert(line[b + 2] == 'L');
    assert(!is_whitespace_char('L'));
    assert(!is_blank(line));
    if on {
        assert(line.last() == 'N');
    } else {
        assert(line.last() == 'F');
    }
    assert forall|j: int| 0 <= j < line.len() implies #[trigger] line[j] != '\n' by {
        if j == 0 {
            assert(line[j] == '[');
        } else if j <= ts.len() {
            assert(line[j] == ts[j - 1]);
        } else if j < b + 19 {
            assert(line[j] == mid[j - b]);
        } else {
            if on {
                assert(line[j] == "ON"@[j - b - 19]);
            } else {
                assert(line[j] == "OFF"@[j - b - 19]);
            }
        }
    }
}

/// `log_text` peeled from the front: the first entry, its newline, then
/// the text of the rest.
pub proof fn lemma_log_text_front(entries: Seq<Seq<char>>)
    requires
        entries.len() > 0,
    ensures
        log_text(entries) == entries.first() + seq!['\n'] + log_text(entries.drop_first()),
    decreases entries.len(),
{
    if entries.len() == 1 {
        assert(entries.drop_last() =~= Seq::<Seq<char>>::empty());
        assert(entries.drop_first() =~= Seq::<Seq<char>>::empty());
        assert(log_text(entries) =~= entries.first() + seq!['\n'] + log_text(
            entries.drop_first(),
        ));
    } else {
        let pre = entries.drop_last();
        lemma_log_text_front(pre);
        assert(pre.first() == entries.first());
        assert(pre.drop_first() =~= entries.drop_first().drop_last());
        assert(entries.drop_first().last() == entries.last());
        assert(log_text(entries) =~= entries.first() + seq!['\n'] + log_text(
            entries.drop_first(),
        ));
    }
}

/// The round trip through text: a log of storable lines, written out with
/// one newline after each, splits back into exactly those lines.
pub proof fn lemma_log_text_lines(entries: Seq<Seq<char>>)
    requires
        forall|i: int| 0 <= i < entries.len() ==> line_ok(#[trigger] entries[i]),
    ensures
        nonblank_lines(log_text(entries)) == entries,
    decreases entries.len(),
{
    if entries.len() == 0 {
        assert(log_text(entries) =~= Seq::<char>::empty());
        assert(nonblank_lines(log_text(entries)) =~= entries);
    } else {
        lemma_log_text_front(entries);
        let first = entries.first();
        let rest = entries.drop_first();
        let text = log_text(entries);
        let rest_text = log_text(rest);
        let n = first.len() as int;
        assert(line_ok(first));
        assert forall|j: int| 0 <= j < n implies text[j] != '\n' by {
            assert(text[j] == first[j]);
        }
        assert(text[n] == '\n');
        lemma_char_index_unique(text, '\n', n);
        assert(text.subrange(0, n) =~= first);
        // A storable line never ends in a carriage return, so the split
        // strips nothing from it.
        assert(strip_cr(first) == first);
        assert(text.subrange(n + 1, text.len() as int) =~= rest_text);
        assert(split_lines(text) =~= seq![first] + split_lines(rest_text));
        assert forall|i: int| 0 <= i < rest.len() implies line_ok(#[trigger] rest[i]) by {
            assert(rest[i] == entries[i + 1]);
        }
        lemma_log_text_lines(rest);
        assert((seq![first] + split_lines(rest_text)).first() == first);
        assert((seq![first] + split_lines(rest_text)).drop_first() =~= split_lines(rest_text));
        assert(nonblank_lines(text) =~= seq![first] + nonblank_lines(rest_text));
        assert(nonblank_lines(text) =~= entries);
    }
}

/// How many of the directions are ON.
pub open spec fn count_true(dirs: Seq<bool>) -> nat
    decreases dirs.len(),
{
    if dirs.len() == 0 {
        0
    } else {
        count_true(dirs.drop_last()) + (if dirs.last() {
            1nat
        } else {
            0nat
        })
    }
}

/// Counting by marker counts by direction: over entries written by real
/// transitions, exactly the ON entries carry the ON marker, and exactly
/// the OFF entries the OFF marker.
pub proof fn lemma_count_by_direction(entries: Seq<Seq<char>>, dirs: Seq<bool>)
    requires
        entries.len() == dirs.len(),
        forall|i: int| 0 <= i < entries.len() ==> is_entry(#[trigger] entries[i], dirs[i]),
    ensures
        count_with(entries, "turned ON"@) == count_true(dirs),
        count_with(entries, "turned OFF"@) == dirs.len() - count_true(dirs),
    decreases entries.len(),
{
    if entries.len() > 0 {
        let ep = entries.drop_last();
        let dp = dirs.drop_last();
        assert forall|i: int| 0 <= i < ep.len() implies is_entry(#[trigger] ep[i], dp[i]) by {
            assert(ep[i] == entries[i] && dp[i] == dirs[i]);
        }
        lemma_count_by_direction(ep, dp);
        let e = entries.last();
        let d = dirs.last();
        assert(is_entry(e, d));
        let ts = choose|ts: Seq<char>| rfc_seq(ts) && e == spec_line(ts, d);
        lemma_line_markers(ts, d);
    }
}

/// The summary counts are exact: a log written only by real transitions,
/// k of them ON out of n, reads back as exactly its n entries, of which
/// the marker counts find precisely the k ON ones and the n - k OFF ones.
pub proof fn lemma_summary_counts(entries: Seq<Seq<char>>, dirs: Seq<bool>)
    requires
        entries.len() == dirs.len(),
        forall|i: int| 0 <= i < entries.len() ==> is_entry(#[trigger] entries[i], dirs[i]),
    ensures
        nonblank_lines(log_text(entries)) == entries,
        count_with(entries, "turned ON"@) == count_true(dirs),
        count_with(entries, "turned OFF"@) == dirs.len() - count_true(dirs),
{
    assert forall|i: int| 0 <= i < entries.len() implies line_ok(#[trigger] entries[i]) by {
        let d = dirs[i];
        assert(is_entry(entries[i], d));
        let ts = choose|ts: Seq<char>| rfc_seq(ts) && entries[i] == spec_line(ts, d);
        lemma_entry_line_ok(ts, d);
    }
    lemma_log_text_lines(entries);
    lemma_count_by_direction(entries, dirs);
}

/// The in-memory log store: an append-only ordered sequence of entries.
/// Its view is the sequence of entry texts, oldest first.
pub struct MemoryLog {
    entries: Vec<String>,
}

impl View for MemoryLog {
    type V = Seq<Seq<char>>;

    closed spec fn view(&self) -> Seq<Seq<char>> {
        views(self.entries@)
    }
}

impl MemoryLog {
    /// A fresh log with no entries.
    pub fn new() -> (r: Self)
        ensures
            r@ == Seq::<Seq<char>>::empty(),
    {
        let r = MemoryLog { entries: Vec::new() };
        proof {
            assert(r@ =~= Seq::<Seq<char>>::empty());
        }
        r
    }

    /// Record a transition to `on`, stamped with the current time: appends
    /// exactly one entry in the shared line format and never fails.
    pub fn log_event(&mut self, on: bool) -> (r: Result<(), String>)
        ensures
            r is Ok,
            exists|ts: Seq<char>|
                rfc_seq(ts) && final(self)@ == old(self)@.push(spec_line(ts, on)),
    {
        let ts = now_rfc3339();
        let line = format_log_line(ts.as_str(), on);
        let ghost pre = self.entries@;
        self.entries.push(line);
        proof {
            assert(views(self.entries@) =~= views(pre).push(spec_line(ts@, on)));
        }
        Ok(())
    }

    /// The full log text: every entry in order, each with its newline.
    pub fn read_all(&self) -> (r: String)
        ensures
            r@ == log_text(self@),
    {
        let mut r = String::new();
        let n: usize = self.entries.len();
        let mut i: usize = 0;
        proof {
            assert(views(self.entries@.subrange(0, 0)) =~= Seq::<Seq<char>>::empty());
        }
        while i < n
            invariant
                n == self.entries@.len(),
                i <= n,
                r@ == log_text(views(self.entries@.subrange(0, i as int))),
            decreases n - i,
        {
            let ghost prefix = views(self.entries@.subrange(0, i as int));
            r.append(self.entries[i].as_str());
            r.append("\n");
            proof {
                reveal_strlit("\n");
                assert(("\n"@) =~= seq!['\n']);
                let next = views(self.entries@.subrange(0, i + 1));
                assert(next.drop_last() =~= prefix);
                assert(next.last() == self.entries@[i as int]@);
                assert(r@ =~= log_text(next));
            }
            i += 1;
        }
        proof {
            assert(self.entries@.subrange(0, n as int) =~= self.entries@);
        }
        r
    }
}

} // verus!

//! The light state controller: the single on/off flag and the log of its
//! transitions.
//!
//! A caller that serves several clients at once wraps the controller in
//! one exclusive lock and holds it for the whole call, so the check,
//! the log write and the flag flip of a transition are never interleaved;
//! the flag is flipped only after the log write has succeeded.

use vstd::prelude::*;

use crate::log::{
    is_entry, lemma_entry_line_ok, lemma_log_text_lines, lemma_on_then_off_log, line_ok, log_text,
    rfc_seq, spec_line, MemoryLog,
};
use crate::summary::{count_with, generate_summary, spec_summary};
use crate::text::{has_substring, nonblank_lines};

verus! {

/// The status report for a flag value.
pub open spec fn spec_status(on: bool) -> Seq<char> {
    if on {
        "The lightbulb is on"@
    } else {
        "The lightbulb is off"@
    }
}

/// What one `turn_on` call does: the flag ends up on; an already-on bulb
/// reports so and leaves the log alone; otherwise exactly one ON entry is
/// appended and success is reported. The call never returns an error.
pub open spec fn turn_on_transition(
    pre: Lightbulb,
    post: Lightbulb,
    r: Result<String, String>,
) -> bool {
    &&& post.spec_is_on()
    &&& if pre.spec_is_on() {
        &&& r matches Ok(m) && m@ == "The lightbulb is already on"@
        &&& post.log_entries() == pre.log_entries()
    } else {
        &&& r matches Ok(m) && m@ == "Lightbulb turned on successfully"@
        &&& exists|ts: Seq<char>|
            rfc_seq(ts) && post.log_entries() == pre.log_entries().push(spec_line(ts, true))
    }
}

/// What one `turn_off` call does, symmetric to `turn_on_transition`.
pub open spec fn turn_off_transition(
    pre: Lightbulb,
    post: Lightbulb,
    r: Result<String, String>,
) -> bool {
    &&& !post.spec_is_on()
    &&& if !pre.spec_is_on() {
        &&& r matches Ok(m) && m@ == "The lightbulb is already off"@
        &&& post.log_entries() == pre.log_entries()
    } else {
        &&& r matches Ok(m) && m@ == "Lightbulb turned off successfully"@
        &&& exists|ts: Seq<char>|
            rfc_seq(ts) && post.log_entries() == pre.log_entries().push(spec_line(ts, false))
    }
}

/// The controller: the flag and the log it appends to.
pub struct Lightbulb {
    is_on: bool,
    log: MemoryLog,
}

impl Lightbulb {
    /// The current flag value.
    pub closed spec fn spec_is_on(self) -> bool {
        self.is_on
    }

    /// The log entries written so far, oldest first.
    pub closed spec fn log_entries(self) -> Seq<Seq<char>> {
        self.log@
    }

    /// Every entry of the log was written by a real transition: a fresh
    /// controller satisfies this, and every transition preserves it.
    pub open spec fn wf(self) -> bool {
        forall|i: int|
            0 <= i < self.log_entries().len() ==> is_entry(#[trigger] self.log_entries()[i], true)
                || is_entry(self.log_entries()[i], false)
    }

    /// A fresh controller: off, with an empty log.
    pub fn new() -> (r: Self)
        ensures
            !r.spec_is_on(),
            r.log_entries() == Seq::<Seq<char>>::empty(),
            r.wf(),
    {
        Lightbulb { is_on: false, log: MemoryLog::new() }
    }

    /// The current flag value.
    pub fn is_on(&self) -> (r: bool)
        ensures
            r == self.spec_is_on(),
    {
        self.is_on
    }

    /// The fixed status report for the current flag.
    pub fn get_status(&self) -> (r: String)
        ensures
            r@ == spec_status(self.spec_is_on()),
    {
        if self.is_on {
            String::from_str("The lightbulb is on")
        } else {
            String::from_str("The lightbulb is off")
        }
    }

    /// The shared check-and-set: report `already_message` and leave the
    /// log alone when the flag already has the target value; otherwise
    /// append one entry, then flip the flag, and report
    /// `success_message`.
    fn change_state(
        &mut self,
        target_state: bool,
        already_message: &str,
        success_message: &str,
    ) -> (r: Result<String, String>)
        ensures
            final(self).spec_is_on() == target_state,
            old(self).spec_is_on() == target_state ==> {
                &&& r matches Ok(m) && m@ == already_message@
                &&& final(self).log_entries() == old(self).log_entries()
            },
            old(self).spec_is_on() != target_state ==> {
                &&& r matches Ok(m) && m@ == success_message@
                &&& exists|ts: Seq<char>|
                    rfc_seq(ts) && final(self).log_entries() == old(self).log_entries().push(
                        spec_line(ts, target_state),
                    )
            },
            old(self).wf() ==> final(self).wf(),
    {
        if self.is_on == target_state {
            Ok(String::from_str(already_message))
        } else {
            match self.log.log_event(target_state) {
                Ok(_) => {
                    self.is_on = target_state;
                    Ok(String::from_str(success_message))
                },
                // Never reached: the in-memory log cannot fail.
                Err(e) => Err(e),
            }
        }
    }

    /// Turn the lightbulb on.
    pub fn turn_on(&mut self) -> (r: Result<String, String>)
        ensures
            turn_on_transition(*old(self), *final(self), r),
            old(self).wf() ==> final(self).wf(),
    {
        self.change_state(true, "The lightbulb is already on", "Lightbulb turned on successfully")
    }

    /// Turn the lightbulb off.
    pub fn turn_off(&mut self) -> (r: Result<String, String>)
        ensures
            turn_off_transition(*old(self), *final(self), r),
            old(self).wf() ==> final(self).wf(),
    {
        self.change_state(
            false,
            "The lightbulb is already off",
            "Lightbulb turned off successfully",
        )
    }

    /// The full log text, every entry followed by its newline.
    pub fn read_log(&self) -> (r: String)
        ensures
            r@ == log_text(self.log_entries()),
    {
        self.log.read_all()
    }

    /// The usage summary over the current log text and flag.
    pub fn usage_summary(&self) -> (r: String)
        ensures
            r@ == spec_summary(log_text(self.log_entries()), self.spec_is_on()),
    {
        let text = self.read_log();
        generate_summary(text.as_str(), self.is_on)
    }
}

/// Before any transition the status report is the OFF literal: a fresh
/// controller's flag is false, and the report of a false flag is fixed.
pub proof fn lemma_initial_status(b: Lightbulb)
    requires
        !b.spec_is_on(),
    ensures
        spec_status(b.spec_is_on()) == "The lightbulb is off"@,
{
}

/// Right after `turn_on` the status report is the ON literal; right after
/// `turn_off` it is the OFF literal.
pub proof fn lemma_status_after_transition(
    pre: Lightbulb,
    post: Lightbulb,
    r: Result<String, String>,
)
    ensures
        turn_on_transition(pre, post, r) ==> spec_status(post.spec_is_on())
            == "The lightbulb is on"@,
        turn_off_transition(pre, post, r) ==> spec_status(post.spec_is_on())
            == "The lightbulb is off"@,
{
}

/// Two `turn_on` calls in a row: the first reports success and appends
/// exactly one entry, an ON record; the second reports "already on" and
/// appends nothing.
pub proof fn lemma_turn_on_twice(
    s0: Lightbulb,
    s1: Lightbulb,
    s2: Lightbulb,
    r1: Result<String, String>,
    r2: Result<String, String>,
)
    requires
        !s0.spec_is_on(),
        turn_on_transition(s0, s1, r1),
        turn_on_transition(s1, s2, r2),
    ensures
        r1 matches Ok(m) && m@ == "Lightbulb turned on successfully"@,
        s1.log_entries().len() == s0.log_entries().len() + 1,
        is_entry(s1.log_entries().last(), true),
        s1.log_entries().drop_last() == s0.log_entries(),
        r2 matches Ok(m) && m@ == "The lightbulb is already on"@,
        s2.log_entries() == s1.log_entries(),
{
    let ts = choose|ts: Seq<char>|
        rfc_seq(ts) && s1.log_entries() == s0.log_entries().push(spec_line(ts, true));
    assert(s1.log_entries().drop_last() =~= s0.log_entries());
    assert(rfc_seq(ts) && s1.log_entries().last() == spec_line(ts, true));
}

/// Turning a fresh bulb on and then off leaves a log of exactly two
/// lines: one marked "turned ON" and one marked "turned OFF", the ON line
/// first, and neither line carrying the other marker.
pub proof fn lemma_on_off_session(
    s0: Lightbulb,
    s1: Lightbulb,
    s2: Lightbulb,
    r1: Result<String, String>,
    r2: Result<String, String>,
)
    requires
        !s0.spec_is_on(),
        s0.log_entries().len() == 0,
        turn_on_transition(s0, s1, r1),
        turn_off_transition(s1, s2, r2),
    ensures
        s2.log_entries().len() == 2,
        count_with(s2.log_entries(), "turned ON"@) == 1,
        count_with(s2.log_entries(), "turned OFF"@) == 1,
        has_substring(s2.log_entries()[0], "turned ON"@),
        !has_substring(s2.log_entries()[0], "turned OFF"@),
        has_substring(s2.log_entries()[1], "turned OFF"@),
        !has_substring(s2.log_entries()[1], "turned ON"@),
{
    let ts1 = choose|ts: Seq<char>|
        rfc_seq(ts) && s1.log_entries() == s0.log_entries().push(spec_line(ts, true));
    let ts2 = choose|ts: Seq<char>|
        rfc_seq(ts) && s2.log_entries() == s1.log_entries().push(spec_line(ts, false));
    assert(s2.log_entries() =~= seq![spec_line(ts1, true), spec_line(ts2, false)]);
    lemma_on_then_off_log(ts1, ts2);
}

/// The summary of a well-formed controller really summarizes its entries:
/// the log text it is computed from splits back into exactly the entries
/// the transitions wrote, so its counts and its recent-activity tail range
/// over those entries and nothing else.
pub proof fn lemma_summary_sees_entries(b: Lightbulb)
    requires
        b.wf(),
    ensures
        nonblank_lines(log_text(b.log_entries())) == b.log_entries(),
{
    let entries = b.log_entries();
    assert forall|i: int| 0 <= i < entries.len() implies line_ok(#[trigger] entries[i]) by {
        if is_entry(entries[i], true) {
            let ts = choose|ts: Seq<char>| rfc_seq(ts) && entries[i] == spec_line(ts, true);
            lemma_entry_line_ok(ts, true);
        } else {
            let ts = choose|ts: Seq<char>| rfc_seq(ts) && entries[i] == spec_line(ts, false);
            lemma_entry_line_ok(ts, false);
        }
    }
    lemma_log_text_lines(entries);
}

/// Two `turn_off` calls in a row, symmetric to `lemma_turn_on_twice`:
/// the first reports success and appends exactly one OFF record; the
/// second reports "already off" and appends nothing.
pub proof fn lemma_turn_off_twice(
    s0: Lightbulb,
    s1: Lightbulb,
    s2: Lightbulb,
    r1: Result<String, String>,
    r2: Result<String, String>,
)
    requires
        s0.spec_is_on(),
        turn_off_transition(s0, s1, r1),
        turn_off_transition(s1, s2, r2),
    ensures
        r1 matches Ok(m) && m@ == "Lightbulb turned off successfully"@,
        s1.log_entries().len() == s0.log_entries().len() + 1,
        is_entry(s1.log_entries().last(), false),
        s1.log_entries().drop_last() == s0.log_entries(),
        r2 matches Ok(m) && m@ == "The lightbulb is already off"@,
        s2.log_entries() == s1.log_entries(),
{
    let ts = choose|ts: Seq<char>|
        rfc_seq(ts) && s1.log_entries() == s0.log_entries().push(spec_line(ts, false));
    assert(s1.log_entries().drop_last() =~= s0.log_entries());
    assert(rfc_seq(ts) && s1.log_entries().last() == spec_line(ts, false));
}

} // verus!

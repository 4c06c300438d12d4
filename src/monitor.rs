//! The breakpoint monitor: a state machine fed the wrapped command's output
//! lines and the operator's keys, deciding what to print and when to pause.

use vstd::prelude::*;
use crate::keywords::{is_trigger, KeywordSet};

verus! {

/// The monitor's state.
#[derive(Clone, Copy, Debug, PartialEq, Eq, Structural)]
pub enum Phase {
    /// Lines are echoed as they arrive.
    Streaming,
    /// A keyword matched; the process tree is frozen until the operator
    /// presses the continue key.
    Paused,
    /// The output stream has closed and every line has been handled.
    Finished,
}

/// The key that resumes a paused process tree.
pub const CONTINUE_KEY: char = 'c';

/// The notice printed after a line that triggers a pause.
pub open spec fn pause_notice() -> Seq<char> {
    "Breakpoint hit: process paused. Press 'c' to continue..."@
}

/// What the monitor prints for one line: the line itself, then the pause
/// notice if the line holds a keyword.
pub open spec fn line_output(line: Seq<char>, kws: Seq<Seq<char>>) -> Seq<Seq<char>> {
    if is_trigger(line, kws) {
        seq![line, pause_notice()]
    } else {
        seq![line]
    }
}

/// Everything the monitor prints for `lines`, handled in order.
pub open spec fn transcript(lines: Seq<Seq<char>>, kws: Seq<Seq<char>>) -> Seq<Seq<char>>
    decreases lines.len(),
{
    if lines.len() == 0 {
        Seq::empty()
    } else {
        transcript(lines.drop_last(), kws) + line_output(lines.last(), kws)
    }
}

/// Where line `i` of `lines` is echoed in the transcript.
pub open spec fn echo_pos(lines: Seq<Seq<char>>, kws: Seq<Seq<char>>, i: int) -> int {
    transcript(lines.take(i), kws).len() as int
}

/// The transcript of a prefix of the lines is a prefix of the transcript.
pub proof fn lemma_transcript_prefix(lines: Seq<Seq<char>>, kws: Seq<Seq<char>>, n: int)
    requires
        0 <= n <= lines.len(),
    ensures
        transcript(lines.take(n), kws).len() <= transcript(lines, kws).len(),
        transcript(lines, kws).take(transcript(lines.take(n), kws).len() as int) == transcript(lines.take(n), kws),
    decreases lines.len() - n,
{
    if n == lines.len() {
        assert(lines.take(n) =~= lines);
        assert(transcript(lines, kws).take(transcript(lines, kws).len() as int) =~= transcript(lines, kws));
    } else {
        lemma_transcript_prefix(lines, kws, n + 1);
        let t_n = transcript(lines.take(n), kws);
        let t_n1 = transcript(lines.take(n + 1), kws);
        assert(lines.take(n + 1).drop_last() =~= lines.take(n));
        assert(t_n1 == t_n + line_output(lines[n], kws));
        assert(transcript(lines, kws).take(t_n.len() as int) =~= t_n1.take(t_n.len() as int));
        assert(t_n1.take(t_n.len() as int) =~= t_n);
    }
}

/// Order of output: every line is echoed, verbatim, and a line received later
/// is echoed later, however many pauses come in between.
pub proof fn lemma_transcript_in_order(lines: Seq<Seq<char>>, kws: Seq<Seq<char>>)
    ensures
        forall|i: int| 0 <= i < lines.len() ==> 0 <= #[trigger] echo_pos(lines, kws, i) < transcript(lines, kws).len()
            && transcript(lines, kws)[echo_pos(lines, kws, i)] == lines[i],
        forall|i: int, j: int| 0 <= i < j < lines.len() ==> #[trigger] echo_pos(lines, kws, i) < #[trigger] echo_pos(lines, kws, j),
{
    assert forall|i: int| 0 <= i < lines.len() implies 0 <= #[trigger] echo_pos(lines, kws, i) < transcript(lines, kws).len()
        && transcript(lines, kws)[echo_pos(lines, kws, i)] == lines[i] by {
        lemma_transcript_prefix(lines, kws, i + 1);
        assert(lines.take(i + 1).drop_last() =~= lines.take(i));
        let t_i = transcript(lines.take(i), kws);
        let t_i1 = transcript(lines.take(i + 1), kws);
        assert(t_i1 == t_i + line_output(lines[i], kws));
        assert(t_i1[t_i.len() as int] == lines[i]);
        assert(transcript(lines, kws).take(t_i1.len() as int)[t_i.len() as int] == lines[i]);
    }
    assert forall|i: int, j: int| 0 <= i < j < lines.len() implies #[trigger] echo_pos(lines, kws, i) < #[trigger] echo_pos(lines, kws, j) by {
        let sub = lines.take(j);
        lemma_transcript_prefix(sub, kws, i + 1);
        assert(sub.take(i + 1) =~= lines.take(i + 1));
        assert(lines.take(i + 1).drop_last() =~= lines.take(i));
        assert(transcript(lines.take(i + 1), kws) == transcript(lines.take(i), kws) + line_output(lines[i], kws));
    }
}

/// The breakpoint monitor over a fixed keyword set.
pub struct Monitor {
    keywords: KeywordSet,
    phase: Phase,
    /// Every line handled so far, in order.
    seen: Ghost<Seq<Seq<char>>>,
    /// Everything printed so far.
    printed: Ghost<Seq<Seq<char>>>,
}

impl Monitor {
    pub closed spec fn phase_of(&self) -> Phase {
        self.phase
    }

    pub closed spec fn keywords_of(&self) -> Seq<Seq<char>> {
        self.keywords@
    }

    /// The lines handled so far, in the order received.
    pub closed spec fn lines_seen(&self) -> Seq<Seq<char>> {
        self.seen@
    }

    /// The lines printed so far.
    pub closed spec fn lines_printed(&self) -> Seq<Seq<char>> {
        self.printed@
    }

    /// What has been printed is the transcript of what has been received.
    pub closed spec fn wf(&self) -> bool {
        self.printed@ == transcript(self.seen@, self.keywords@)
    }

    /// A monitor that pauses on the lines holding any of `keywords`.
    pub fn new(keywords: KeywordSet) -> (r: Monitor)
        ensures
            r.wf(),
            r.lines_printed() == transcript(r.lines_seen(), r.keywords_of()),
            r.phase_of() == Phase::Streaming,
            r.keywords_of() == keywords@,
            r.lines_seen() == Seq::<Seq<char>>::empty(),
            r.lines_printed() == Seq::<Seq<char>>::empty(),
    {
        Monitor { keywords, phase: Phase::Streaming, seen: Ghost(Seq::empty()), printed: Ghost(Seq::empty()) }
    }

    /// The current state.
    pub fn phase(&self) -> (r: Phase)
        ensures
            r == self.phase_of(),
    {
        self.phase
    }

    /// Handles one output line while streaming. Returns the lines to print: the
    /// line itself, followed by the pause notice when it holds a keyword, in
    /// which case the monitor pauses and takes no further line until resumed.
    pub fn on_line(&mut self, line: &str) -> (r: Vec<String>)
        requires
            old(self).wf(),
            old(self).phase_of() == Phase::Streaming,
        ensures
            final(self).wf(),
            final(self).lines_printed() == transcript(final(self).lines_seen(), final(self).keywords_of()),
            r@.map_values(|s: String| s@) == line_output(line@, old(self).keywords_of()),
            final(self).phase_of() == (if is_trigger(line@, old(self).keywords_of()) {
                Phase::Paused
            } else {
                Phase::Streaming
            }),
            final(self).keywords_of() == old(self).keywords_of(),
            final(self).lines_seen() == old(self).lines_seen().push(line@),
            final(self).lines_printed() == old(self).lines_printed() + line_output(line@, old(self).keywords_of()),
    {
        let ghost kws = self.keywords@;
        let mut r: Vec<String> = Vec::new();
        r.push(String::from_str(line));
        let hit = self.keywords.matches(line);
        if hit {
            r.push(String::from_str("Breakpoint hit: process paused. Press 'c' to continue..."));
            self.phase = Phase::Paused;
        }
        let ghost out = line_output(line@, kws);
        assert(r@.map_values(|s: String| s@) =~= out);
        proof {
            let seen = self.seen@.push(line@);
            assert(seen.drop_last() =~= self.seen@);
            self.seen = Ghost(seen);
            self.printed = Ghost(self.printed@ + out);
        }
        r
    }

    /// Handles one key while paused: the continue key ends the pause, any other
    /// key is ignored. Returns whether the pause ended.
    pub fn on_key(&mut self, key: char) -> (r: bool)
        requires
            old(self).wf(),
            old(self).phase_of() == Phase::Paused,
        ensures
            final(self).wf(),
            final(self).lines_printed() == transcript(final(self).lines_seen(), final(self).keywords_of()),
            r == (key == CONTINUE_KEY),
            final(self).phase_of() == (if r { Phase::Streaming } else { Phase::Paused }),
            final(self).keywords_of() == old(self).keywords_of(),
            final(self).lines_seen() == old(self).lines_seen(),
            final(self).lines_printed() == old(self).lines_printed(),
    {
        if key == CONTINUE_KEY {
            self.phase = Phase::Streaming;
            true
        } else {
            false
        }
    }

    /// Records that the output stream has closed; the monitor is done.
    pub fn on_closed(&mut self)
        requires
            old(self).wf(),
            old(self).phase_of() == Phase::Streaming,
        ensures
            final(self).wf(),
            final(self).lines_printed() == transcript(final(self).lines_seen(), final(self).keywords_of()),
            final(self).phase_of() == Phase::Finished,
            final(self).keywords_of() == old(self).keywords_of(),
            final(self).lines_seen() == old(self).lines_seen(),
            final(self).lines_printed() == old(self).lines_printed(),
    {
        self.phase = Phase::Finished;
    }
}

} // verus!

use vstd::prelude::*;
use vstd::string::StringExecFns;

use std::sync::mpsc::Sender;

use crate::integrations::Hookable;
use crate::utils::git;
use crate::utils::BuildUpdates;
use crate::utils::TextOutput;
use crate::BuildInstruction;
use crate::BuildRequest;
use crate::BuildResult;
use crate::BuildStatus;
use crate::BuildStep;
use crate::BuildStepResult;
use crate::SyncError;

verus! {

#[verifier::external_type_specification]
#[verifier::external_body]
#[verifier::reject_recursive_types(T)]
pub struct ExSender<T>(Sender<T>);

/// Relies on std's mpsc Sender::send: a buffered send that never blocks;
/// its failure, meaning the listener is gone, is deliberately dropped, so
/// that reporting progress can never fail a build.
#[verifier::external_body]
fn channel_send(tx: &Sender<BuildUpdates>, update: BuildUpdates) {
    let _ = tx.send(update);
}

/// What String::from_utf8_lossy makes of these bytes.
pub uninterp spec fn lossy_of(bytes: Seq<u8>) -> Seq<char>;

/// What str::trim leaves of these characters.
pub uninterp spec fn trim_of(s: Seq<char>) -> Seq<char>;

/// Relies on String::from_utf8_lossy: the text depends on the bytes alone;
/// valid UTF-8, and so in particular plain ASCII, converts losslessly.
#[verifier::external_body]
fn lossy_text(bytes: &Vec<u8>) -> (r: String)
    ensures
        r@ == lossy_of(bytes@),
        bytes@.len() == 0 ==> r@.len() == 0,
        (forall|i: int| 0 <= i < bytes@.len() ==> bytes@[i] < 128) ==> r@ == bytes@.map_values(
            |b: u8| b as char,
        ),
{
    String::from_utf8_lossy(bytes.as_slice()).into_owned()
}

/// Relies on str::trim: the result depends on the characters alone; it is
/// a subslice, and characters such as the printable ASCII ones other than
/// the space are no whitespace.
#[verifier::external_body]
fn trimmed(s: &str) -> (r: String)
    ensures
        r@ == trim_of(s@),
        r@.len() <= s@.len(),
        s@.len() == 0 ==> r@.len() == 0,
        (forall|i: int| 0 <= i < s@.len() ==> 32 < #[trigger] (s@[i] as u32) <= 126) ==> r@ == s@,
{
    s.trim().to_string()
}

/// The text a captured line shows as: decoded leniently, then trimmed.
pub open spec fn text_of(bytes: Seq<u8>) -> Seq<char> {
    trim_of(lossy_of(bytes))
}

fn line_text(bytes: &Vec<u8>) -> (r: String)
    ensures
        r@ == text_of(bytes@),
        bytes@.len() == 0 ==> r@.len() == 0,
{
    let s = lossy_text(bytes);
    trimmed(s.as_str())
}

/// Line-buffering, one byte at a time: a line feed completes the pending
/// line; any other byte joins it.
pub open spec fn consume(st: (Seq<Seq<u8>>, Seq<u8>), b: u8) -> (Seq<Seq<u8>>, Seq<u8>) {
    if b == 10 {
        (st.0.push(st.1), Seq::empty())
    } else {
        (st.0, st.1.push(b))
    }
}

/// A whole chunk fed through the line buffer.
pub open spec fn consume_all(st: (Seq<Seq<u8>>, Seq<u8>), bytes: Seq<u8>) -> (
    Seq<Seq<u8>>,
    Seq<u8>,
)
    decreases bytes.len(),
{
    if bytes.len() == 0 {
        st
    } else {
        consume_all(consume(st, bytes[0]), bytes.skip(1))
    }
}

/// What a chunk makes of the buffered partial line: the lines it completes,
/// and what stays buffered.
pub open spec fn split_lines(buffered: Seq<u8>, chunk: Seq<u8>) -> (Seq<Seq<u8>>, Seq<u8>) {
    consume_all((Seq::empty(), buffered), chunk)
}

/// The completed lines' texts, in order, joined.
pub open spec fn texts_concat(lines: Seq<Seq<u8>>) -> Seq<char>
    decreases lines.len(),
{
    if lines.len() == 0 {
        Seq::empty()
    } else {
        texts_concat(lines.drop_last()) + text_of(lines.last())
    }
}

/// How a step's exit code reads: zero is success, all else failure.
pub open spec fn status_of_exit(exit: int) -> BuildStatus {
    if exit == 0 {
        BuildStatus::Successful
    } else {
        BuildStatus::Failed
    }
}

/// Every recorded outcome exited zero.
pub open spec fn all_zero(outcomes: Seq<(int, Seq<char>)>) -> bool {
    forall|i: int| 0 <= i < outcomes.len() ==> #[trigger] outcomes[i].0 == 0
}

/// Every result is a success.
pub open spec fn all_successful(rs: Seq<(BuildStatus, Seq<char>, Seq<char>)>) -> bool {
    forall|i: int| 0 <= i < rs.len() ==> #[trigger] rs[i].0 == BuildStatus::Successful
}

/// The step results a build with these commands produces when the steps
/// that ran had these outcomes, stopping at the first failure: each ran
/// step yields one entry, and nothing follows a failed one.
pub open spec fn run_model(cmds: Seq<Seq<char>>, outcomes: Seq<(int, Seq<char>)>) -> Seq<
    (BuildStatus, Seq<char>, Seq<char>),
>
    decreases outcomes.len(),
{
    if outcomes.len() == 0 {
        Seq::empty()
    } else {
        let first = (status_of_exit(outcomes[0].0), cmds[0], outcomes[0].1);
        if outcomes[0].0 == 0 {
            seq![first] + run_model(cmds.skip(1), outcomes.skip(1))
        } else {
            seq![first]
        }
    }
}

/// When at most the last outcome failed, the model keeps one entry per
/// outcome, carrying that step's command, classified exit, and output.
proof fn lemma_run_model_pointwise(cmds: Seq<Seq<char>>, outcomes: Seq<(int, Seq<char>)>)
    requires
        outcomes.len() <= cmds.len(),
        forall|i: int| 0 <= i < outcomes.len() - 1 ==> #[trigger] outcomes[i].0 == 0,
    ensures
        run_model(cmds, outcomes).len() == outcomes.len(),
        forall|i: int|
            0 <= i < outcomes.len() ==> #[trigger] run_model(cmds, outcomes)[i] == (
                status_of_exit(outcomes[i].0),
                cmds[i],
                outcomes[i].1,
            ),
    decreases outcomes.len(),
{
    if outcomes.len() == 0 {
    } else if outcomes[0].0 != 0 {
        assert(outcomes.len() == 1) by {
            if outcomes.len() > 1 {
                assert(outcomes[0].0 == 0);
            }
        }
    } else {
        lemma_run_model_pointwise(cmds.skip(1), outcomes.skip(1));
        let first = (status_of_exit(outcomes[0].0), cmds[0], outcomes[0].1);
        let rest = run_model(cmds.skip(1), outcomes.skip(1));
        assert(run_model(cmds, outcomes) == seq![first] + rest);
        assert forall|i: int| 0 <= i < outcomes.len() implies #[trigger] run_model(
            cmds,
            outcomes,
        )[i] == (status_of_exit(outcomes[i].0), cmds[i], outcomes[i].1) by {
            if i == 0 {
                assert((seq![first] + rest)[0] == first);
            } else {
                assert((seq![first] + rest)[i] == rest[i - 1]);
                assert(outcomes.skip(1)[i - 1] == outcomes[i]);
                assert(cmds.skip(1)[i - 1] == cmds[i]);
            }
        }
    }
}

/// Recording one more outcome onto an all-successful history appends one
/// entry and leaves the earlier entries as they were.
proof fn lemma_run_model_push(
    cmds: Seq<Seq<char>>,
    outcomes: Seq<(int, Seq<char>)>,
    o: (int, Seq<char>),
)
    requires
        all_zero(outcomes),
        outcomes.len() < cmds.len(),
    ensures
        run_model(cmds, outcomes.push(o)) == run_model(cmds, outcomes).push(
            (status_of_exit(o.0), cmds[outcomes.len() as int], o.1),
        ),
    decreases outcomes.len(),
{
    let s = outcomes.push(o);
    let x = (status_of_exit(o.0), cmds[outcomes.len() as int], o.1);
    if outcomes.len() == 0 {
        assert(s[0] == o);
        if o.0 == 0 {
            assert(s.skip(1) =~= Seq::<(int, Seq<char>)>::empty());
            assert(run_model(cmds.skip(1), Seq::<(int, Seq<char>)>::empty()).len() == 0);
            assert(run_model(cmds, s) == seq![x] + run_model(cmds.skip(1), s.skip(1)));
            assert(run_model(cmds, s) =~= run_model(cmds, outcomes).push(x));
        } else {
            assert(run_model(cmds, s) =~= run_model(cmds, outcomes).push(x));
        }
    } else {
        assert(s[0] == outcomes[0]);
        assert(outcomes[0].0 == 0);
        assert(s.skip(1) =~= outcomes.skip(1).push(o));
        lemma_run_model_push(cmds.skip(1), outcomes.skip(1), o);
        let first = (status_of_exit(outcomes[0].0), cmds[0], outcomes[0].1);
        assert(cmds.skip(1)[outcomes.skip(1).len() as int] == cmds[outcomes.len() as int]);
        assert(run_model(cmds, s) == seq![first] + run_model(cmds.skip(1), outcomes.skip(1)).push(
            x,
        ));
        assert(seq![first] + run_model(cmds.skip(1), outcomes.skip(1)).push(x) =~= (seq![first]
            + run_model(cmds.skip(1), outcomes.skip(1))).push(x));
        assert(run_model(cmds, outcomes) == seq![first] + run_model(cmds.skip(1), outcomes.skip(1)));
    }
}

/// Stop on failure: when every outcome but the last exited zero and the
/// last did not, the build holds exactly one entry per ran step, all of
/// them successful but the last, which failed; the build is unsuccessful.
pub proof fn lemma_stop_on_failure(cmds: Seq<Seq<char>>, outcomes: Seq<(int, Seq<char>)>)
    requires
        1 <= outcomes.len() <= cmds.len(),
        forall|i: int| 0 <= i < outcomes.len() - 1 ==> #[trigger] outcomes[i].0 == 0,
        outcomes.last().0 != 0,
    ensures
        run_model(cmds, outcomes).len() == outcomes.len(),
        forall|i: int|
            0 <= i < outcomes.len() - 1 ==> #[trigger] run_model(cmds, outcomes)[i].0
                == BuildStatus::Successful,
        run_model(cmds, outcomes).last().0 == BuildStatus::Failed,
        !all_successful(run_model(cmds, outcomes)),
{
    lemma_run_model_pointwise(cmds, outcomes);
    let r = run_model(cmds, outcomes);
    assert(r[outcomes.len() - 1] == (
        status_of_exit(outcomes[outcomes.len() - 1].0),
        cmds[outcomes.len() - 1],
        outcomes[outcomes.len() - 1].1,
    ));
    assert(r.last().0 == BuildStatus::Failed);
}

/// All success: when every outcome exited zero, the build holds exactly
/// one successful entry per step.
pub proof fn lemma_all_success(cmds: Seq<Seq<char>>, outcomes: Seq<(int, Seq<char>)>)
    requires
        outcomes.len() <= cmds.len(),
        all_zero(outcomes),
    ensures
        run_model(cmds, outcomes).len() == outcomes.len(),
        all_successful(run_model(cmds, outcomes)),
{
    lemma_run_model_pointwise(cmds, outcomes);
}

/// Order preservation: every produced entry carries the command of the
/// instruction step at its own position.
pub proof fn lemma_order_preserved(cmds: Seq<Seq<char>>, outcomes: Seq<(int, Seq<char>)>)
    requires
        outcomes.len() <= cmds.len(),
    ensures
        run_model(cmds, outcomes).len() <= outcomes.len(),
        forall|i: int|
            0 <= i < run_model(cmds, outcomes).len() ==> #[trigger] run_model(cmds, outcomes)[i].1
                == cmds[i],
    decreases outcomes.len(),
{
    if outcomes.len() == 0 {
    } else if outcomes[0].0 != 0 {
    } else {
        lemma_order_preserved(cmds.skip(1), outcomes.skip(1));
        let first = (status_of_exit(outcomes[0].0), cmds[0], outcomes[0].1);
        let rest = run_model(cmds.skip(1), outcomes.skip(1));
        assert forall|i: int| 0 <= i < run_model(cmds, outcomes).len() implies #[trigger] run_model(
            cmds,
            outcomes,
        )[i].1 == cmds[i] by {
            if i > 0 {
                assert((seq![first] + rest)[i] == rest[i - 1]);
                assert(cmds.skip(1)[i - 1] == cmds[i]);
            }
        }
    }
}

/// No listener changes a build's outcome: two builds of the same commands
/// that saw the same step outcomes hold results equal step for step and
/// agree on success, whatever listener either held.
pub proof fn lemma_listener_independent(
    r1: BuildResult,
    r2: BuildResult,
    cmds: Seq<Seq<char>>,
    outcomes: Seq<(int, Seq<char>)>,
)
    requires
        r1.steps@.map_values(|x: BuildStepResult| x@) == run_model(cmds, outcomes),
        r2.steps@.map_values(|x: BuildStepResult| x@) == run_model(cmds, outcomes),
    ensures
        r1.steps@.len() == r2.steps@.len(),
        forall|i: int| 0 <= i < r1.steps@.len() ==> #[trigger] r1.steps@[i]@ == r2.steps@[i]@,
        r1.spec_successful() <==> r2.spec_successful(),
{
    let m = run_model(cmds, outcomes);
    assert(r1.steps@.len() == m.len());
    assert(r2.steps@.len() == m.len());
    assert forall|i: int| 0 <= i < r1.steps@.len() implies #[trigger] r1.steps@[i]@
        == r2.steps@[i]@ by {
        assert(r1.steps@.map_values(|x: BuildStepResult| x@)[i] == r1.steps@[i]@);
        assert(r2.steps@.map_values(|x: BuildStepResult| x@)[i] == r2.steps@[i]@);
    }
    assert forall|i: int|
        0 <= i < r1.steps@.len() implies r1.steps@[i].status == r2.steps@[i].status by {
        assert(r1.steps@[i]@ == r2.steps@[i]@);
    }
    if r1.spec_successful() {
        assert forall|i: int|
            0 <= i < r2.steps@.len() implies #[trigger] r2.steps@[i].status
            == BuildStatus::Successful by {
            assert(r1.steps@[i].status == BuildStatus::Successful);
        }
    }
    if r2.spec_successful() {
        assert forall|i: int|
            0 <= i < r1.steps@.len() implies #[trigger] r1.steps@[i].status
            == BuildStatus::Successful by {
            assert(r2.steps@[i].status == BuildStatus::Successful);
        }
    }
}

/// One build being driven step by step: the worker that runs the commands
/// feeds their output and exits in; the session decides what to run next,
/// keeps the results, and reports progress to the listener, if one is
/// attached.
pub struct BuildSession {
    path_build: String,
    path_cache: String,
    steps: Vec<BuildStep>,
    results: Vec<BuildStepResult>,
    trace: Ghost<Seq<(int, Seq<char>)>>,
    log: Ghost<Seq<BuildUpdates>>,
    is_halted: bool,
    in_step: bool,
    is_finished: bool,
    current_cmd: String,
    linebuf: Vec<u8>,
    agg: String,
    tx: Option<Sender<BuildUpdates>>,
}

impl BuildSession {
    /// The commands of the instruction being run, in order.
    pub closed spec fn cmds(&self) -> Seq<Seq<char>> {
        self.steps@.map_values(|s: BuildStep| s.cmd@)
    }

    /// The finished steps' results.
    pub closed spec fn results_view(&self) -> Seq<(BuildStatus, Seq<char>, Seq<char>)> {
        self.results@.map_values(|r: BuildStepResult| r@)
    }

    /// The exit and output of each step that ran, in order.
    pub closed spec fn outcomes(&self) -> Seq<(int, Seq<char>)> {
        self.trace@
    }

    /// Every progress event announced so far, in the order it went to the
    /// listener. Announcing does not depend on a listener being attached.
    pub closed spec fn announced(&self) -> Seq<BuildUpdates> {
        self.log@
    }

    /// The build's end has been announced and its result handed out.
    pub closed spec fn finished(&self) -> bool {
        self.is_finished
    }

    /// A step has failed; nothing more will run.
    pub closed spec fn halted(&self) -> bool {
        self.is_halted
    }

    /// A step is running right now.
    pub closed spec fn running(&self) -> bool {
        self.in_step
    }

    /// The running step's command.
    pub closed spec fn cur_cmd(&self) -> Seq<char> {
        self.current_cmd@
    }

    /// The running step's pending partial output line.
    pub closed spec fn buffered(&self) -> Seq<u8> {
        self.linebuf@
    }

    /// The running step's output captured so far.
    pub closed spec fn aggregate(&self) -> Seq<char> {
        self.agg@
    }

    /// Where the step commands run.
    pub closed spec fn build_path(&self) -> Seq<char> {
        self.path_build@
    }

    /// The cache directory handed to the step commands.
    pub closed spec fn cache_path(&self) -> Seq<char> {
        self.path_cache@
    }

    /// The session's results are exactly what the model makes of the
    /// outcomes seen so far, and a failure halts it.
    pub open spec fn wf(&self) -> bool {
        &&& self.results_view() == run_model(self.cmds(), self.outcomes())
        &&& self.outcomes().len() == self.results_view().len()
        &&& self.outcomes().len() <= self.cmds().len()
        &&& (!self.halted() ==> all_zero(self.outcomes()))
        &&& (self.halted() ==> self.outcomes().len() >= 1 && self.outcomes().last().0 != 0
            && all_zero(self.outcomes().drop_last()))
        &&& (self.running() ==> !self.halted() && self.outcomes().len() < self.cmds().len()
            && self.cur_cmd() == self.cmds()[self.outcomes().len() as int])
    }

    /// Whether the build is over: a step failed, or every step ran.
    pub open spec fn done(&self) -> bool {
        self.halted() || self.outcomes().len() == self.cmds().len()
    }

    /// The directory the steps run in, for the caller spawning them.
    pub fn build_dir(&self) -> (r: &String)
        ensures
            r@ == self.build_path(),
    {
        &self.path_build
    }

    /// The cache directory handed to the steps.
    pub fn cache_dir(&self) -> (r: &String)
        ensures
            r@ == self.cache_path(),
    {
        &self.path_cache
    }

    /// Announces one progress event: it is recorded and, when a listener
    /// is attached, sent to it.
    fn send_update(&mut self, update: BuildUpdates)
        ensures
            final(self).log@ == old(self).log@.push(update),
            final(self).path_build == old(self).path_build,
            final(self).path_cache == old(self).path_cache,
            final(self).steps == old(self).steps,
            final(self).results == old(self).results,
            final(self).trace == old(self).trace,
            final(self).is_halted == old(self).is_halted,
            final(self).in_step == old(self).in_step,
            final(self).is_finished == old(self).is_finished,
            final(self).current_cmd == old(self).current_cmd,
            final(self).linebuf == old(self).linebuf,
            final(self).agg == old(self).agg,
            final(self).tx == old(self).tx,
    {
        proof {
            self.log@ = self.log@.push(update);
        }
        match &self.tx {
            Some(tx) => channel_send(tx, update),
            None => {},
        }
    }

    /// Opens a session over this instruction and announces the build.
    pub fn new(
        build_instruction: &BuildInstruction,
        path_build: String,
        path_cache: String,
        tx: Option<Sender<BuildUpdates>>,
    ) -> (s: BuildSession)
        ensures
            s.wf(),
            s.cmds() == build_instruction.steps@.map_values(|st: BuildStep| st.cmd@),
            s.outcomes().len() == 0,
            s.results_view().len() == 0,
            !s.halted(),
            !s.running(),
            !s.finished(),
            s.announced() == seq![BuildUpdates::Started],
            s.build_path() == path_build@,
            s.cache_path() == path_cache@,
    {
        let mut steps: Vec<BuildStep> = Vec::new();
        let mut i: usize = 0;
        while i < build_instruction.steps.len()
            invariant
                i <= build_instruction.steps@.len(),
                steps@.len() == i,
                forall|j: int|
                    0 <= j < i ==> #[trigger] steps@[j].cmd@ == build_instruction.steps@[j].cmd@,
            decreases build_instruction.steps@.len() - i,
        {
            steps.push(BuildStep { cmd: build_instruction.steps[i].cmd.clone() });
            i += 1;
        }
        let mut s = BuildSession {
            path_build,
            path_cache,
            steps,
            results: Vec::new(),
            trace: Ghost(Seq::empty()),
            log: Ghost(Seq::empty()),
            is_halted: false,
            in_step: false,
            is_finished: false,
            current_cmd: String::new(),
            linebuf: Vec::new(),
            agg: String::new(),
            tx,
        };
        proof {
            assert(s.cmds() =~= build_instruction.steps@.map_values(|st: BuildStep| st.cmd@));
            assert(s.results_view() =~= Seq::<(BuildStatus, Seq<char>, Seq<char>)>::empty());
        }
        s.send_update(BuildUpdates::Started);
        proof {
            assert(s.log@ =~= seq![BuildUpdates::Started]);
        }
        s
    }

    /// The command to run next, unless the build is over or one is already
    /// running.
    pub fn next_cmd(&self) -> (r: Option<String>)
        requires
            self.wf(),
            !self.running(),
        ensures
            r is Some <==> !self.done(),
            r matches Some(c) ==> c@ == self.cmds()[self.outcomes().len() as int],
    {
        if self.is_halted || self.results.len() >= self.steps.len() {
            None
        } else {
            Some(self.steps[self.results.len()].cmd.clone())
        }
    }

    /// Begins the next step and announces it.
    pub fn start_step(&mut self)
        requires
            old(self).wf(),
            !old(self).running(),
            !old(self).done(),
        ensures
            final(self).wf(),
            final(self).running(),
            final(self).cur_cmd() == old(self).cmds()[old(self).outcomes().len() as int],
            final(self).buffered().len() == 0,
            final(self).aggregate().len() == 0,
            final(self).cmds() == old(self).cmds(),
            final(self).outcomes() == old(self).outcomes(),
            final(self).results_view() == old(self).results_view(),
            !final(self).halted(),
            final(self).finished() == old(self).finished(),
            final(self).build_path() == old(self).build_path(),
            final(self).cache_path() == old(self).cache_path(),
            final(self).announced().len() == old(self).announced().len() + 1,
            final(self).announced().drop_last() == old(self).announced(),
            (final(self).announced().last() matches BuildUpdates::StepStarted(c) && c@ == old(
                self,
            ).cmds()[old(self).outcomes().len() as int]),
    {
        let i: usize = self.results.len();
        self.current_cmd = self.steps[i].cmd.clone();
        self.linebuf = Vec::new();
        self.agg = String::new();
        self.in_step = true;
        self.send_update(BuildUpdates::StepStarted(self.current_cmd.clone()));
        proof {
            assert(self.log@.drop_last() =~= old(self).log@);
        }
    }

    /// Takes a fresh piece of the running step's standard output: completed
    /// lines are appended to the captured output, announced, and handed
    /// back; a trailing partial line stays buffered for the next piece.
    #[verifier::loop_isolation(false)]
    pub fn push_stdout(&mut self, chunk: &Vec<u8>) -> (emitted: Vec<String>)
        requires
            old(self).wf(),
            old(self).running(),
        ensures
            final(self).wf(),
            final(self).running(),
            final(self).buffered() == split_lines(old(self).buffered(), chunk@).1,
            final(self).aggregate() == old(self).aggregate() + texts_concat(
                split_lines(old(self).buffered(), chunk@).0,
            ),
            emitted@.len() == split_lines(old(self).buffered(), chunk@).0.len(),
            forall|i: int|
                0 <= i < emitted@.len() ==> #[trigger] emitted@[i]@ == text_of(
                    split_lines(old(self).buffered(), chunk@).0[i],
                ),
            final(self).cmds() == old(self).cmds(),
            final(self).outcomes() == old(self).outcomes(),
            final(self).results_view() == old(self).results_view(),
            final(self).halted() == old(self).halted(),
            final(self).finished() == old(self).finished(),
            final(self).cur_cmd() == old(self).cur_cmd(),
            final(self).build_path() == old(self).build_path(),
            final(self).cache_path() == old(self).cache_path(),
            final(self).announced().len() == old(self).announced().len() + split_lines(
                old(self).buffered(),
                chunk@,
            ).0.len(),
            final(self).announced().take(old(self).announced().len() as int) == old(
                self,
            ).announced(),
            forall|k: int|
                #![trigger final(self).announced()[old(self).announced().len() + k]]
                0 <= k < split_lines(old(self).buffered(), chunk@).0.len() ==> (final(self).announced()[old(self).announced().len() + k]
                    matches BuildUpdates::StepNewOutput(TextOutput::Stdout(s)) && s@ == text_of(
                    split_lines(old(self).buffered(), chunk@).0[k],
                )),
    {
        let ghost obuf = self.linebuf@;
        let ghost oagg = self.agg@;
        let ghost mut done: Seq<Seq<u8>> = Seq::empty();
        let mut emitted: Vec<String> = Vec::new();
        proof {
            assert(chunk@.skip(0) =~= chunk@);
            assert(old(self).log@.take(old(self).log@.len() as int) =~= old(self).log@);
        }
        let mut j: usize = 0;
        while j < chunk.len()
            invariant
                j <= chunk@.len(),
                self.in_step == old(self).in_step,
                self.is_halted == old(self).is_halted,
                self.is_finished == old(self).is_finished,
                self.steps@ == old(self).steps@,
                self.results@ == old(self).results@,
                self.trace@ == old(self).trace@,
                self.current_cmd@ == old(self).current_cmd@,
                self.path_build@ == old(self).path_build@,
                self.path_cache@ == old(self).path_cache@,
                self.log@.len() == old(self).log@.len() + done.len(),
                self.log@.take(old(self).log@.len() as int) == old(self).log@,
                forall|k: int|
                    #![trigger self.log@[old(self).log@.len() + k]]
                    0 <= k < done.len() ==> (self.log@[old(self).log@.len() + k]
                        matches BuildUpdates::StepNewOutput(TextOutput::Stdout(s)) && s@ == text_of(
                        done[k],
                    )),
                consume_all((done, self.linebuf@), chunk@.skip(j as int)) == split_lines(
                    obuf,
                    chunk@,
                ),
                emitted@.len() == done.len(),
                forall|i: int| 0 <= i < done.len() ==> #[trigger] emitted@[i]@ == text_of(done[i]),
                self.agg@ == oagg + texts_concat(done),
            decreases chunk@.len() - j,
        {
            let b = chunk[j];
            proof {
                assert(chunk@.skip(j as int)[0] == chunk@[j as int]);
                assert(chunk@.skip(j as int).skip(1) =~= chunk@.skip(j as int + 1));
            }
            if b == 10 {
                let mut line: Vec<u8> = Vec::new();
                core::mem::swap(&mut line, &mut self.linebuf);
                let text = line_text(&line);
                self.agg.append(text.as_str());
                emitted.push(text.clone());
                let ghost prev_log = self.log@;
                self.send_update(
                    BuildUpdates::StepNewOutput(TextOutput::Stdout(text)),
                );
                proof {
                    let prev_done = done;
                    done = done.push(line@);
                    assert(done.drop_last() =~= prev_done);
                    assert(done.last() == line@);
                    assert(texts_concat(done) == texts_concat(prev_done) + text_of(line@));
                    assert(oagg + texts_concat(prev_done) + text_of(line@) =~= oagg + texts_concat(
                        done,
                    ));
                    assert(self.log@.take(old(self).log@.len() as int) =~= prev_log.take(
                        old(self).log@.len() as int,
                    ));
                    assert forall|k: int|
                        #![trigger self.log@[old(self).log@.len() + k]]
                        0 <= k < done.len() implies (self.log@[old(self).log@.len() + k]
                            matches BuildUpdates::StepNewOutput(TextOutput::Stdout(s)) && s@
                            == text_of(done[k])) by {
                        if k < prev_done.len() {
                            assert(self.log@[old(self).log@.len() + k] == prev_log[old(
                                self,
                            ).log@.len() + k]);
                        } else {
                            assert(self.log@[old(self).log@.len() + k] == self.log@.last());
                        }
                    }
                }
            } else {
                self.linebuf.push(b);
            }
            j += 1;
        }
        proof {
            assert(chunk@.skip(chunk@.len() as int) =~= Seq::<u8>::empty());
            assert(consume_all((done, self.linebuf@), Seq::<u8>::empty()) == (
                done,
                self.linebuf@,
            ));
            assert(done == split_lines(obuf, chunk@).0);
            assert(self.linebuf@ == split_lines(obuf, chunk@).1);
        }
        emitted
    }

    /// Ends the running step on its exit code: a trailing partial output
    /// line is kept as a best effort, buffered standard error is announced
    /// as one delayed block, the step's result is recorded and announced,
    /// and a non-zero exit halts the build.
    pub fn finish_step(&mut self, exit_code: i32, stderr: &Vec<u8>)
        requires
            old(self).wf(),
            old(self).running(),
        ensures
            final(self).wf(),
            !final(self).running(),
            final(self).outcomes() == old(self).outcomes().push(
                (exit_code as int, spec_flushed(old(self).aggregate(), old(self).buffered())),
            ),
            final(self).results_view() == old(self).results_view().push(
                (
                    status_of_exit(exit_code as int),
                    old(self).cur_cmd(),
                    spec_flushed(old(self).aggregate(), old(self).buffered()),
                ),
            ),
            final(self).halted() == (exit_code != 0),
            final(self).cmds() == old(self).cmds(),
            final(self).finished() == old(self).finished(),
            final(self).build_path() == old(self).build_path(),
            final(self).cache_path() == old(self).cache_path(),
            stderr@.len() == 0 ==> text_of(stderr@).len() == 0,
            text_of(stderr@).len() == 0 ==> (final(self).announced().len() == old(
                self,
            ).announced().len() + 1 && final(self).announced().drop_last() == old(
                self,
            ).announced()),
            text_of(stderr@).len() != 0 ==> (final(self).announced().len() == old(
                self,
            ).announced().len() + 2 && final(self).announced().take(
                old(self).announced().len() as int,
            ) == old(self).announced() && (final(self).announced()[old(
                self,
            ).announced().len() as int] matches BuildUpdates::StepNewOutput(
                TextOutput::Stderr(b),
            ) && b@ == "------------- Rupert: Delayed stderr:\n"@ + text_of(stderr@)
                + "\n------------- End of delayed stderr"@)),
            (final(self).announced().last() matches BuildUpdates::StepFinished(res) && res@ == (
                status_of_exit(exit_code as int),
                old(self).cur_cmd(),
                spec_flushed(old(self).aggregate(), old(self).buffered()),
            )),
    {
        if !self.linebuf.is_empty() {
            let text = line_text(&self.linebuf);
            self.agg.append(text.as_str());
            self.linebuf.clear();
        } else {
            proof {
                assert(self.agg@ =~= spec_flushed(self.agg@, self.linebuf@));
            }
        }
        let ghost log0 = self.log@;
        let serr = line_text(stderr);
        if !serr.as_str().is_empty() {
            let mut block = String::from_str("------------- Rupert: Delayed stderr:\n");
            block.append(serr.as_str());
            block.append("\n------------- End of delayed stderr");
            self.send_update(BuildUpdates::StepNewOutput(TextOutput::Stderr(block)));
        }
        let ghost log1 = self.log@;
        let status = if exit_code == 0 {
            BuildStatus::Successful
        } else {
            BuildStatus::Failed
        };
        let result = BuildStepResult {
            status,
            cmd: self.current_cmd.clone(),
            output: self.agg.clone(),
        };
        let step_done = BuildStepResult {
            status,
            cmd: self.current_cmd.clone(),
            output: self.agg.clone(),
        };
        self.send_update(BuildUpdates::StepFinished(step_done));
        proof {
            assert(self.log@.drop_last() =~= log1);
            if text_of(stderr@).len() != 0 {
                assert(log1.take(log0.len() as int) =~= log0);
                assert(self.log@.take(log0.len() as int) =~= log0);
                assert(self.log@[log0.len() as int] == log1.last());
            }
        }
        let ghost old_results = self.results@;
        self.results.push(result);
        if exit_code != 0 {
            self.is_halted = true;
        }
        self.in_step = false;
        proof {
            let o = (exit_code as int, self.agg@);
            lemma_run_model_push(self.cmds(), self.trace@, o);
            self.trace@ = self.trace@.push(o);
            assert(self.results@.drop_last() =~= old_results);
            assert(self.results_view() =~= old_results.map_values(|r: BuildStepResult| r@).push(
                self.results@.last()@,
            ));
        }
    }

    /// Closes the session, announcing the build's end once and handing the
    /// assembled result over: exactly what the model makes of the commands
    /// and the outcomes that were seen.
    pub fn finish(&mut self) -> (r: BuildResult)
        requires
            old(self).wf(),
            !old(self).running(),
            old(self).done(),
            !old(self).finished(),
        ensures
            final(self).finished(),
            final(self).wf(),
            !final(self).running(),
            final(self).cmds() == old(self).cmds(),
            final(self).outcomes() == old(self).outcomes(),
            final(self).results_view() == old(self).results_view(),
            final(self).halted() == old(self).halted(),
            r.steps@.map_values(|x: BuildStepResult| x@) == run_model(
                old(self).cmds(),
                old(self).outcomes(),
            ),
            r.steps@.len() == old(self).outcomes().len(),
            r.spec_successful() <==> all_zero(old(self).outcomes()),
            final(self).announced().len() == old(self).announced().len() + 1,
            final(self).announced().drop_last() == old(self).announced(),
            final(self).announced().last() == BuildUpdates::Finished,
    {
        self.send_update(BuildUpdates::Finished);
        self.is_finished = true;
        let r = BuildResult { steps: duplicate_results(&self.results) };
        proof {
            assert(self.log@.drop_last() =~= old(self).log@);
            assert(r.steps@.map_values(|x: BuildStepResult| x@) == self.results_view());
            assert forall|i: int|
                0 <= i < self.trace@.len() - 1 implies #[trigger] self.trace@[i].0 == 0 by {
                if self.halted() {
                    assert(self.trace@.drop_last()[i] == self.trace@[i]);
                    assert(self.trace@.drop_last()[i].0 == 0);
                } else {
                    assert(all_zero(self.trace@));
                }
            }
            lemma_run_model_pointwise(self.cmds(), self.trace@);
            assert forall|i: int|
                0 <= i < r.steps@.len() implies #[trigger] r.steps@[i]@ == run_model(
                self.cmds(),
                self.trace@,
            )[i] by {
                assert(r.steps@.map_values(|x: BuildStepResult| x@)[i] == r.steps@[i]@);
            }
            if all_zero(self.trace@) {
                assert forall|i: int|
                    0 <= i < r.steps@.len() implies #[trigger] r.steps@[i].status
                    == BuildStatus::Successful by {
                    assert(r.steps@[i]@ == run_model(self.cmds(), self.trace@)[i]);
                }
            }
            if r.spec_successful() && !all_zero(self.trace@) {
                let i = choose|i: int|
                    0 <= i < self.trace@.len() && #[trigger] self.trace@[i].0 != 0;
                assert(r.steps@[i].status == BuildStatus::Successful);
                assert(r.steps@[i]@ == run_model(self.cmds(), self.trace@)[i]);
            }
        }
        r
    }
}

/// A step-for-step copy of recorded results, so that handing a build
/// result out leaves the session's own record in place.
fn duplicate_results(v: &Vec<BuildStepResult>) -> (r: Vec<BuildStepResult>)
    ensures
        r@.map_values(|x: BuildStepResult| x@) == v@.map_values(|x: BuildStepResult| x@),
{
    let mut r: Vec<BuildStepResult> = Vec::new();
    let mut i: usize = 0;
    while i < v.len()
        invariant
            i <= v@.len(),
            r@.len() == i,
            forall|k: int| 0 <= k < i ==> #[trigger] r@[k]@ == v@[k]@,
        decreases v@.len() - i,
    {
        r.push(
            BuildStepResult {
                status: v[i].status,
                cmd: v[i].cmd.clone(),
                output: v[i].output.clone(),
            },
        );
        i += 1;
    }
    proof {
        assert(r@.map_values(|x: BuildStepResult| x@) =~= v@.map_values(
            |x: BuildStepResult| x@,
        ));
    }
    r
}

/// The result as a step finishes: what was captured, with a pending partial
/// line flushed onto it.
pub open spec fn spec_flushed(aggregate: Seq<char>, buffered: Seq<u8>) -> Seq<char> {
    if buffered.len() == 0 {
        aggregate
    } else {
        aggregate + text_of(buffered)
    }
}

/// repo:commit checked out on local path
pub struct Runner {
    path_root: String,
    path_repo: String,
    path_build: String,
    path_cache: String,
    repo: git2::Repository,
    tx: Option<Sender<BuildUpdates>>,
}

/// A directory joined under a parent.
pub open spec fn spec_subdir(root: Seq<char>, name: Seq<char>) -> Seq<char> {
    root + "/"@ + name
}

impl Runner {
    /// Where this repository's checkouts and build trees live.
    pub closed spec fn spec_path_root(&self) -> Seq<char> {
        self.path_root@
    }

    /// The shared checkout's directory.
    pub closed spec fn spec_path_repo(&self) -> Seq<char> {
        self.path_repo@
    }

    /// The disposable tree the steps run in.
    pub closed spec fn spec_path_build(&self) -> Seq<char> {
        self.path_build@
    }

    /// The cache directory that outlives single builds.
    pub closed spec fn spec_path_cache(&self) -> Seq<char> {
        self.path_cache@
    }

    /// Initiate a new `Runner` object representing the local data on disk.
    ///
    /// Either clones repository or fetches and checks out commit in
    /// `BuildRequest`.
    pub fn new(
        rupert_root: &String,
        req: &BuildRequest,
        tx: Option<Sender<BuildUpdates>>,
    ) -> (r: Result<Runner, SyncError>)
        ensures
            r matches Ok(runner) ==> {
                let root = spec_subdir(spec_subdir(rupert_root@, req.owner@), req.reponame@);
                &&& runner.spec_path_root() == root
                &&& runner.spec_path_repo() == spec_subdir(root, "repo"@)
                &&& runner.spec_path_cache() == spec_subdir(root, "cache"@)
                &&& runner.spec_path_build() == spec_subdir(spec_subdir(root, "builds"@), "common"@)
            },
            !git::oid_str_ok(req.commit@) ==> r is Err,
            r matches Err(SyncError::BadReference(c)) ==> (c@ == req.commit@ && !git::oid_str_ok(
                req.commit@,
            )),
    {
        let with_owner = Runner::subdir(rupert_root, req.owner.as_str());
        let path_root = Runner::subdir(&with_owner, req.reponame.as_str());

        let path_repo = Runner::subdir(&path_root, "repo");
        let path_cache = Runner::subdir(&path_root, "cache");
        let path_build = Runner::path_build(&path_root, req.commit.as_str());

        let url = req.build_clone_url();
        let repo = match git::sync(&path_repo, &url, &req.commit) {
            Ok(repo) => repo,
            Err(e) => {
                return Err(e);
            },
        };

        Ok(Runner { path_root, path_build, path_repo, path_cache, repo, tx })
    }

    /// Begins executing the build-steps from configuration: announces the
    /// build and hands the session over to be driven command by command;
    /// the checkout handle is done with and released.
    pub fn execute(self, build_instruction: &BuildInstruction) -> (s: BuildSession)
        ensures
            s.wf(),
            s.cmds() == build_instruction.steps@.map_values(|st: BuildStep| st.cmd@),
            s.outcomes().len() == 0,
            s.results_view().len() == 0,
            !s.halted(),
            !s.running(),
            !s.finished(),
            s.announced() == seq![BuildUpdates::Started],
            s.build_path() == self.spec_path_build(),
            s.cache_path() == self.spec_path_cache(),
    {
        BuildSession::new(build_instruction, self.path_build, self.path_cache, self.tx)
    }

    /// The shared checkout's directory, for the caller preparing the build
    /// tree.
    pub fn repo_dir(&self) -> (r: &String)
        ensures
            r@ == self.spec_path_repo(),
    {
        &self.path_repo
    }

    /// The directory the steps will run in.
    pub fn build_dir(&self) -> (r: &String)
        ensures
            r@ == self.spec_path_build(),
    {
        &self.path_build
    }

    /// The cache directory handed to the steps.
    pub fn cache_dir(&self) -> (r: &String)
        ensures
            r@ == self.spec_path_cache(),
    {
        &self.path_cache
    }

    fn subdir(root: &String, name: &str) -> (r: String)
        ensures
            r@ == spec_subdir(root@, name@),
    {
        let mut path = root.clone();
        path.append("/");
        path.append(name);
        path
    }

    fn path_build(root: &String, commit: &str) -> (r: String)
        ensures
            r@ == spec_subdir(spec_subdir(root@, "builds"@), "common"@),
    {
        let with_builds = Runner::subdir(root, "builds");
        Runner::subdir(&with_builds, "common")
    }
}

/// The `BuildConfig` containing all information needed for running tests
pub struct BuildConfig {
    pub request: BuildRequest,
    pub runner: Runner,
    pub build_instruction: BuildInstruction,
}

} // verus!

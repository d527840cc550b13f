use vstd::prelude::*;
use vstd::slice::slice_subrange;
use vstd::string::StringExecFns;
use vstd::utf8::{decode_utf8, valid_utf8};

use crate::commands::McuCommand;
use crate::decode::{
    decode_float, decode_lux, float_outcome_view, spec_decode_float, spec_decode_lux,
    utf8_err_text_of, utf8_to_string,
};
use crate::reading::{CommandError, Reading, ReadingError};
use crate::result_map::ResultMap;

verus! {

/// The fill-remaining halt step: every requested command absent from
/// `before` acquires the error `err`, and every entry already present in
/// `before` is kept unchanged.
pub open spec fn filled(
    before: Map<McuCommand, Result<Reading, (ReadingError, Seq<char>)>>,
    cmds: Seq<McuCommand>,
    err: (ReadingError, Seq<char>),
    after: Map<McuCommand, Result<Reading, (ReadingError, Seq<char>)>>,
) -> bool {
    &&& after.dom() == before.dom().union(cmds.to_set())
    &&& forall|c: McuCommand| #[trigger] before.contains_key(c) ==> after[c] == before[c]
    &&& forall|c: McuCommand|
        cmds.contains(c) && !before.contains_key(c) ==> #[trigger] after[c] == Result::<
            Reading,
            (ReadingError, Seq<char>),
        >::Err(err)
}

/// The first `i` commands of a list form a subset of the whole list's kinds.
proof fn lemma_take_to_set_subset(s: Seq<McuCommand>, i: int)
    requires
        0 <= i <= s.len(),
    ensures
        s.take(i).to_set().subset_of(s.to_set()),
{
    assert forall|x: McuCommand| #![trigger s.take(i).to_set().contains(x)]
        s.take(i).to_set().contains(x) implies s.to_set().contains(x) by {
        let k = choose|k: int| 0 <= k < s.take(i).len() && (#[trigger] s.take(i)[k]) == x;
        assert(s[k] == x);
    }
}

/// Extending a prefix by one command adds exactly that command's kind.
proof fn lemma_take_succ_to_set(s: Seq<McuCommand>, i: int)
    requires
        0 <= i < s.len(),
    ensures
        s.take(i + 1).to_set() =~= s.take(i).to_set().insert(s[i]),
{
    assert forall|x: McuCommand| #![trigger s.take(i + 1).to_set().contains(x)]
        s.take(i + 1).to_set().contains(x) implies s.take(i).to_set().insert(s[i]).contains(
        x,
    ) by {
        let k = choose|k: int| 0 <= k < s.take(i + 1).len() && (#[trigger] s.take(i + 1)[k]) == x;
        if k < i {
            assert(s.take(i)[k] == x);
        }
    }
    assert forall|x: McuCommand| #![trigger s.take(i).to_set().insert(s[i]).contains(x)]
        s.take(i).to_set().insert(s[i]).contains(x) implies s.take(i + 1).to_set().contains(
        x,
    ) by {
        if s.take(i).to_set().contains(x) {
            let k = choose|k: int| 0 <= k < s.take(i).len() && (#[trigger] s.take(i)[k]) == x;
            assert(s.take(i + 1)[k] == x);
        } else {
            assert(s.take(i + 1)[i] == x);
        }
    }
}

/// The command execution engine, modelled as an explicit state machine: the
/// caller that owns the serial session reports each transport outcome, and
/// the engine decides what it means.  A transport or decode failure halts
/// the run and fills every unresolved command with the failing stage's
/// error; entries already resolved are never overwritten.
pub struct Engine {
    commands: Vec<McuCommand>,
    results: ResultMap,
    next: usize,
    halted: bool,
    pending: bool,
}

impl Engine {
    /// The ordered command list this run was asked to execute.
    pub closed spec fn commands_spec(&self) -> Seq<McuCommand> {
        self.commands@
    }

    /// The outcomes resolved so far.
    pub closed spec fn results_view(&self) -> Map<
        McuCommand,
        Result<Reading, (ReadingError, Seq<char>)>,
    > {
        self.results@
    }

    /// Position of the next command to execute.
    pub closed spec fn next_spec(&self) -> int {
        self.next as int
    }

    /// Whether the run has halted (all commands resolved).
    pub closed spec fn halted_spec(&self) -> bool {
        self.halted
    }

    /// Whether the engine is waiting for the reported outcome of the
    /// single-precision parse of the current command's response text.
    pub closed spec fn pending_spec(&self) -> bool {
        self.pending
    }

    /// Internal shape of the result store.
    pub closed spec fn results_wf(&self) -> bool {
        self.results.wf()
    }

    /// The engine's invariant: the result map holds exactly the commands
    /// already resolved — all of them after a halt, the processed prefix
    /// while running — and a running engine's entries are all successes.
    pub open spec fn wf(&self) -> bool {
        &&& self.results_wf()
        &&& 0 <= self.next_spec() <= self.commands_spec().len()
        &&& self.pending_spec() ==> !self.halted_spec() && self.next_spec()
            < self.commands_spec().len() && self.commands_spec()[self.next_spec()]
            != McuCommand::Lux
        &&& self.halted_spec() ==> !self.pending_spec() && self.results_view().dom()
            == self.commands_spec().to_set()
        &&& !self.halted_spec() ==> self.results_view().dom() == self.commands_spec().take(
            self.next_spec(),
        ).to_set()
        &&& !self.halted_spec() ==> forall|i: int|
            0 <= i < self.next_spec() ==> (#[trigger] self.results_view()[self.commands_spec()[i]])
                is Ok
    }

    /// A run is over once it has halted or exhausted the command list.
    pub open spec fn done(&self) -> bool {
        self.halted_spec() || self.next_spec() == self.commands_spec().len()
    }

    /// Marks the run halted and fills every unresolved command with the
    /// given error, leaving resolved entries untouched.
    fn halt_fill(&mut self, error_type: ReadingError, message: String)
        requires
            old(self).results_wf(),
        ensures
            final(self).results_wf(),
            final(self).commands_spec() == old(self).commands_spec(),
            final(self).next_spec() == old(self).next_spec(),
            final(self).halted_spec(),
            !final(self).pending_spec(),
            filled(
                old(self).results_view(),
                old(self).commands_spec(),
                (error_type, message@),
                final(self).results_view(),
            ),
    {
        self.halted = true;
        self.pending = false;
        let n = self.commands.len();
        let mut i: usize = 0;
        while i < n
            invariant
                0 <= i <= n,
                n == self.commands@.len(),
                self.commands@ == old(self).commands@,
                self.next == old(self).next,
                self.halted,
                !self.pending,
                self.results.wf(),
                self.results@.dom() == old(self).results@.dom().union(
                    self.commands@.take(i as int).to_set(),
                ),
                forall|c: McuCommand| #[trigger]
                    old(self).results@.contains_key(c) ==> self.results@[c] == old(
                        self,
                    ).results@[c],
                forall|c: McuCommand|
                    self.commands@.take(i as int).contains(c) && !old(self).results@.contains_key(
                        c,
                    ) ==> #[trigger] self.results@[c] == Result::<
                        Reading,
                        (ReadingError, Seq<char>),
                    >::Err((error_type, message@)),
            decreases n - i,
        {
            let cmd = self.commands[i];
            proof {
                lemma_take_succ_to_set(self.commands@, i as int);
            }
            self.results.insert_if_absent(
                cmd,
                Err(CommandError { error_type, message: message.clone() }),
            );
            proof {
                assert(self.results@.dom() =~= old(self).results@.dom().union(
                    self.commands@.take(i as int + 1).to_set(),
                ));
            }
            i = i + 1;
        }
        proof {
            assert(self.commands@.take(n as int) == self.commands@);
        }
    }

    /// Begins a run.  A representable device path yields a running engine
    /// with nothing resolved; an unrepresentable one (`None`) resolves every
    /// command at once with the invalid-path error, before any transport
    /// work could happen.
    pub fn start(port: Option<&str>, commands: Vec<McuCommand>) -> (e: Engine)
        ensures
            e.wf(),
            e.commands_spec() == commands@,
            port is Some ==> !e.halted_spec() && !e.pending_spec() && e.next_spec() == 0
                && e.results_view() == Map::<
                McuCommand,
                Result<Reading, (ReadingError, Seq<char>)>,
            >::empty(),
            port is None ==> e.halted_spec() && filled(
                Map::empty(),
                commands@,
                (
                    ReadingError::InvalidSerialError,
                    "Failed to coerce serial port to filepath"@,
                ),
                e.results_view(),
            ),
    {
        let mut e = Engine {
            commands,
            results: ResultMap::new(),
            next: 0,
            halted: false,
            pending: false,
        };
        proof {
            assert(e.results@.dom() =~= e.commands@.take(0).to_set());
        }
        match port {
            Some(_) => e,
            None => {
                e.halt_fill(
                    ReadingError::InvalidSerialError,
                    String::from_str("Failed to coerce serial port to filepath"),
                );
                proof {
                    lemma_take_to_set_subset(e.commands@, 0);
                    assert(e.results@.dom() =~= e.commands@.to_set());
                }
                e
            },
        }
    }

    /// The command the engine will issue next, while the run is live.
    pub fn current_command(&self) -> (r: Option<McuCommand>)
        requires
            self.wf(),
        ensures
            r is Some <==> (!self.halted_spec() && self.next_spec()
                < self.commands_spec().len()),
            r is Some ==> r->Some_0 == self.commands_spec()[self.next_spec()],
    {
        if !self.halted && self.next < self.commands.len() {
            Some(self.commands[self.next])
        } else {
            None
        }
    }

    /// The request line to write next: the current command's wire token
    /// followed by a carriage return.  `None` once the run is over or while
    /// a float parse is outstanding.
    pub fn next_request(&self) -> (r: Option<&'static str>)
        requires
            self.wf(),
        ensures
            r is Some <==> (!self.halted_spec() && !self.pending_spec() && self.next_spec()
                < self.commands_spec().len()),
            r is Some ==> r->Some_0@ == self.commands_spec()[
                self.next_spec()
            ].spec_wire_line(),
    {
        if !self.halted && !self.pending && self.next < self.commands.len() {
            Some(self.commands[self.next].wire_line())
        } else {
            None
        }
    }

    /// The serial connection could not be opened: every command is resolved
    /// with the open-failure error and the run halts.
    pub fn open_failed(&mut self, message: String)
        requires
            old(self).wf(),
            !old(self).halted_spec(),
            !old(self).pending_spec(),
        ensures
            final(self).wf(),
            final(self).commands_spec() == old(self).commands_spec(),
            final(self).halted_spec(),
            filled(
                old(self).results_view(),
                old(self).commands_spec(),
                (ReadingError::SerialOpenFailure, message@),
                final(self).results_view(),
            ),
    {
        self.halt_fill(ReadingError::SerialOpenFailure, message);
        proof {
            self.lemma_halt_wf();
        }
    }

    /// Writing the current request failed: every unresolved command is
    /// filled with the write-failure error and the run halts.
    pub fn write_failed(&mut self, message: String)
        requires
            old(self).wf(),
            !old(self).halted_spec(),
            !old(self).pending_spec(),
        ensures
            final(self).wf(),
            final(self).commands_spec() == old(self).commands_spec(),
            final(self).halted_spec(),
            filled(
                old(self).results_view(),
                old(self).commands_spec(),
                (ReadingError::SerialWriteFailure, message@),
                final(self).results_view(),
            ),
    {
        self.halt_fill(ReadingError::SerialWriteFailure, message);
        proof {
            self.lemma_halt_wf();
        }
    }

    /// Reading the response failed (a timeout included): every unresolved
    /// command is filled with the read-failure error and the run halts.
    pub fn read_failed(&mut self, message: String)
        requires
            old(self).wf(),
            !old(self).halted_spec(),
            !old(self).pending_spec(),
        ensures
            final(self).wf(),
            final(self).commands_spec() == old(self).commands_spec(),
            final(self).halted_spec(),
            filled(
                old(self).results_view(),
                old(self).commands_spec(),
                (ReadingError::SerialReadFailure, message@),
                final(self).results_view(),
            ),
    {
        self.halt_fill(ReadingError::SerialReadFailure, message);
        proof {
            self.lemma_halt_wf();
        }
    }

    /// After a halt that filled from a running state, the invariant holds.
    proof fn lemma_halt_wf(&self)
        requires
            self.results_wf(),
            self.halted_spec(),
            !self.pending_spec(),
            0 <= self.next_spec() <= self.commands_spec().len(),
            exists|before: Map<McuCommand, Result<Reading, (ReadingError, Seq<char>)>>|
                before.dom().subset_of(self.commands_spec().to_set())
                    && #[trigger] self.results_view().dom() == before.dom().union(
                    self.commands_spec().to_set(),
                ),
        ensures
            self.wf(),
    {
        let before = choose|before: Map<McuCommand, Result<Reading, (ReadingError, Seq<char>)>>|
            before.dom().subset_of(self.commands_spec().to_set())
                && #[trigger] self.results_view().dom() == before.dom().union(
                self.commands_spec().to_set(),
            );
        assert(self.results_view().dom() =~= self.commands_spec().to_set());
    }

    /// A response arrived for the current command: `buf[0 .. len-1]` is the
    /// payload (the final received byte is the line terminator and is
    /// dropped).  Invalid text or a failed lux parse halts the run; a lux
    /// success resolves the command; for the humidity and temperature kinds
    /// the decoded text is handed back so the caller can report the outcome
    /// of its single-precision parse through [`Engine::float_response`].
    pub fn response(&mut self, buf: &[u8], len: usize) -> (pending_text: Option<String>)
        requires
            old(self).wf(),
            !old(self).halted_spec(),
            !old(self).pending_spec(),
            old(self).next_spec() < old(self).commands_spec().len(),
            1 <= len <= buf@.len(),
        ensures
            final(self).wf(),
            final(self).commands_spec() == old(self).commands_spec(),
            ({
                let bytes = buf@.subrange(0, len - 1);
                let cmd = old(self).commands_spec()[old(self).next_spec()];
                if !valid_utf8(bytes) {
                    &&& pending_text is None
                    &&& final(self).halted_spec()
                    &&& filled(
                        old(self).results_view(),
                        old(self).commands_spec(),
                        (ReadingError::SerialDecodeFailure, utf8_err_text_of(bytes)),
                        final(self).results_view(),
                    )
                } else if cmd == McuCommand::Lux {
                    match spec_decode_lux(decode_utf8(bytes)) {
                        Result::Ok(reading) => {
                            &&& pending_text is None
                            &&& !final(self).halted_spec()
                            &&& !final(self).pending_spec()
                            &&& final(self).next_spec() == old(self).next_spec() + 1
                            &&& final(self).results_view() == (if old(
                                self,
                            ).results_view().contains_key(cmd) {
                                old(self).results_view()
                            } else {
                                old(self).results_view().insert(cmd, Result::Ok(reading))
                            })
                        },
                        Result::Err(e) => {
                            &&& pending_text is None
                            &&& final(self).halted_spec()
                            &&& filled(
                                old(self).results_view(),
                                old(self).commands_spec(),
                                e,
                                final(self).results_view(),
                            )
                        },
                    }
                } else {
                    &&& pending_text is Some
                    &&& pending_text->Some_0@ == decode_utf8(bytes)
                    &&& final(self).pending_spec()
                    &&& !final(self).halted_spec()
                    &&& final(self).next_spec() == old(self).next_spec()
                    &&& final(self).results_view() == old(self).results_view()
                }
            }),
    {
        let cmd = self.commands[self.next];
        let payload = slice_subrange(buf, 0, len - 1);
        match utf8_to_string(payload) {
            Err(m) => {
                self.halt_fill(ReadingError::SerialDecodeFailure, m);
                proof {
                    self.lemma_halt_wf();
                }
                None
            },
            Ok(text) => {
                if cmd == McuCommand::Lux {
                    match decode_lux(text.as_str()) {
                        Ok(reading) => {
                            self.record_success(cmd, reading);
                            None
                        },
                        Err(ce) => {
                            self.halt_fill(ce.error_type, ce.message);
                            proof {
                                self.lemma_halt_wf();
                            }
                            None
                        },
                    }
                } else {
                    self.pending = true;
                    Some(text)
                }
            },
        }
    }

    /// The caller reports how the single-precision parse of the pending
    /// response text went: success resolves the current command with the
    /// wrapped reading; failure halts the run with the decode-failure error
    /// carrying the parser's text.
    pub fn float_response(&mut self, parsed: Result<u32, String>)
        requires
            old(self).wf(),
            old(self).pending_spec(),
        ensures
            final(self).wf(),
            final(self).commands_spec() == old(self).commands_spec(),
            ({
                let cmd = old(self).commands_spec()[old(self).next_spec()];
                match spec_decode_float(cmd, float_outcome_view(parsed)) {
                    Result::Ok(reading) => {
                        &&& !final(self).halted_spec()
                        &&& !final(self).pending_spec()
                        &&& final(self).next_spec() == old(self).next_spec() + 1
                        &&& final(self).results_view() == (if old(
                            self,
                        ).results_view().contains_key(cmd) {
                            old(self).results_view()
                        } else {
                            old(self).results_view().insert(cmd, Result::Ok(reading))
                        })
                    },
                    Result::Err(e) => {
                        &&& final(self).halted_spec()
                        &&& filled(
                            old(self).results_view(),
                            old(self).commands_spec(),
                            e,
                            final(self).results_view(),
                        )
                    },
                }
            }),
    {
        let cmd = self.commands[self.next];
        self.pending = false;
        match decode_float(cmd, parsed) {
            Ok(reading) => {
                self.record_success(cmd, reading);
            },
            Err(ce) => {
                self.halt_fill(ce.error_type, ce.message);
                proof {
                    self.lemma_halt_wf();
                }
            },
        }
    }

    /// Records a successful reading for the current command and advances.
    fn record_success(&mut self, cmd: McuCommand, reading: Reading)
        requires
            old(self).results_wf(),
            old(self).wf_running(),
            !old(self).halted_spec(),
            old(self).next_spec() < old(self).commands_spec().len(),
            cmd == old(self).commands_spec()[old(self).next_spec()],
        ensures
            final(self).wf(),
            !final(self).halted_spec(),
            !final(self).pending_spec(),
            final(self).commands_spec() == old(self).commands_spec(),
            final(self).next_spec() == old(self).next_spec() + 1,
            final(self).results_view() == (if old(self).results_view().contains_key(cmd) {
                old(self).results_view()
            } else {
                old(self).results_view().insert(cmd, Result::Ok(reading))
            }),
    {
        proof {
            lemma_take_succ_to_set(self.commands@, self.next as int);
        }
        self.pending = false;
        self.results.insert_if_absent(cmd, Ok(reading));
        let _total = self.commands.len();
        self.next = self.next + 1;
        proof {
            let s = self.commands@;
            let n = self.next as int;
            assert(self.results@.dom() =~= s.take(n).to_set());
            assert forall|i: int| 0 <= i < n implies (#[trigger] self.results@[s[i]]) is Ok by {
                if i < n - 1 {
                    assert(old(self).results@[s[i]] is Ok);
                    if old(self).results@.contains_key(s[i]) {
                    }
                } else {
                    if old(self).results@.contains_key(cmd) {
                        assert(s.take(n - 1).to_set().contains(cmd));
                        let k = choose|k: int|
                            0 <= k < s.take(n - 1).len() && (#[trigger] s.take(n - 1)[k]) == cmd;
                        assert(old(self).results@[s[k]] is Ok);
                    }
                }
            }
        }
    }

    /// The running fragment of the invariant, as a premise for recording.
    pub open spec fn wf_running(&self) -> bool {
        &&& self.results_wf()
        &&& 0 <= self.next_spec() <= self.commands_spec().len()
        &&& self.results_view().dom() == self.commands_spec().take(self.next_spec()).to_set()
        &&& forall|i: int|
            0 <= i < self.next_spec() ==> (#[trigger] self.results_view()[self.commands_spec()[i]])
                is Ok
    }

    /// Whether the run is over: halted, or every command executed.
    pub fn is_done(&self) -> (b: bool)
        requires
            self.wf(),
        ensures
            b == self.done(),
    {
        self.halted || self.next == self.commands.len()
    }

    /// Hands the accumulated result map over, ending the run.
    pub fn into_results(self) -> (r: ResultMap)
        requires
            self.wf(),
        ensures
            r.wf(),
            r@ == self.results_view(),
    {
        self.results
    }

    /// Completeness: however a run ended — full success or a halt at any
    /// stage — the result map holds exactly one entry per distinct
    /// requested command.
    pub proof fn lemma_completeness(&self)
        requires
            self.wf(),
            self.done(),
        ensures
            self.results_view().dom() == self.commands_spec().to_set(),
            self.results_view().dom().len() == self.commands_spec().to_set().len(),
    {
        if !self.halted_spec() {
            assert(self.commands_spec().take(self.next_spec()) == self.commands_spec());
        }
    }

    /// A running engine holds an `Ok` entry for every command it has
    /// already processed.
    pub proof fn lemma_processed_is_ok(&self, i: int)
        requires
            self.wf(),
            !self.halted_spec(),
            0 <= i < self.next_spec(),
        ensures
            self.results_view().contains_key(self.commands_spec()[i]),
            self.results_view()[self.commands_spec()[i]] is Ok,
    {
        assert(self.commands_spec().take(self.next_spec()).to_set().contains(
            self.commands_spec()[i],
        )) by {
            assert(self.commands_spec().take(self.next_spec())[i] == self.commands_spec()[i]);
        }
    }
}

/// Monotonic resolution: when a halt fills the remaining commands of a
/// running engine, every command processed before the failure keeps its
/// earlier `Ok` entry — the fill never replaces an existing result.
pub proof fn lemma_monotonic_resolution(
    pre: Engine,
    post: Engine,
    err: (ReadingError, Seq<char>),
    i: int,
)
    requires
        pre.wf(),
        !pre.halted_spec(),
        0 <= i < pre.next_spec(),
        filled(pre.results_view(), pre.commands_spec(), err, post.results_view()),
    ensures
        post.results_view()[pre.commands_spec()[i]] == pre.results_view()[pre.commands_spec()[i]],
        post.results_view()[pre.commands_spec()[i]] is Ok,
{
    pre.lemma_processed_is_ok(i);
}

} // verus!

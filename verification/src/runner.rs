use vstd::prelude::*;
use vstd::string::StringExecFns;
use crate::batching::{
    batch_len, batch_len_spec, batch_start, batch_start_spec, num_batches, num_batches_spec,
    lemma_batch_partition,
};
use crate::errors::XtempError;
use crate::pool::{line_rendered, list_rendering, render_list, TempfilePool};
use crate::resolve::{resolve_replstr, resolve_spec};
use crate::text::{texts_of, lemma_texts_of_push};

verus! {

/// The resolved configuration of one run: everything the batch engine
/// needs, with flag parsing already done by the caller.
#[derive(Debug)]
pub struct Config {
    /// Number of records per batch; the pool has this many slots.
    pub batch_size: usize,
    /// The placeholder token replaced in the command template, when one
    /// is configured.
    pub replstr: Option<String>,
    /// Keep a trailing newline on each record written to a slot.
    pub keep_newlines: bool,
    /// Pass one file listing the slot paths instead of the paths
    /// themselves.
    pub list: bool,
    /// The command template: program name first, then its arguments.
    pub command: Vec<String>,
}

impl Config {
    /// A runnable configuration: a non-empty command and a positive batch
    /// size.
    pub open spec fn wf(&self) -> bool {
        self.batch_size >= 1 && self.command@.len() > 0
    }

    /// Validate a resolved configuration. An empty command template is a
    /// configuration error, detected here, before any input is read or
    /// any file created.
    pub fn new(
        command: Vec<String>,
        batch_size: usize,
        replstr: Option<String>,
        keep_newlines: bool,
        list: bool,
    ) -> (r: Result<Config, XtempError>)
        requires
            batch_size >= 1,
        ensures
            r is Ok <==> command@.len() > 0,
            command@.len() == 0 <==> (r matches Err(e) && e is MissingCommand),
            r matches Ok(c) ==> c.wf() && c.command == command && c.batch_size == batch_size
                && c.replstr == replstr && c.keep_newlines == keep_newlines && c.list == list,
    {
        if command.is_empty() {
            Err(XtempError::MissingCommand)
        } else {
            Ok(Config { batch_size, replstr, keep_newlines, list, command })
        }
    }
}

/// The placeholder's characters, when one is configured.
pub open spec fn opt_text(o: Option<String>) -> Option<Seq<char>> {
    match o {
        Some(s) => Some(s@),
        None => None,
    }
}

/// Where a run stands: ready to prepare the next batch, awaiting the
/// outcome of a dispatched child, finished with every batch, or failed.
#[derive(Debug, PartialEq, Eq, Structural, Clone, Copy)]
pub enum RunState {
    Ready,
    Awaiting,
    Done,
    Failed,
}

/// What became of one dispatched child process: it could not be started,
/// or it exited (with a code, unless it was terminated by a signal).
#[derive(Debug)]
pub enum ChildEvent {
    SpawnFailed(String),
    Exited(Option<i32>),
}

/// The decimal digit character for `d` in `0..10`.
pub open spec fn dec_digit(d: int) -> char {
    if d == 0 {
        '0'
    } else if d == 1 {
        '1'
    } else if d == 2 {
        '2'
    } else if d == 3 {
        '3'
    } else if d == 4 {
        '4'
    } else if d == 5 {
        '5'
    } else if d == 6 {
        '6'
    } else if d == 7 {
        '7'
    } else if d == 8 {
        '8'
    } else {
        '9'
    }
}

/// Decimal digits of a non-negative integer, most significant first.
pub open spec fn dec_digits(n: int) -> Seq<char>
    recommends
        n >= 0,
    decreases n,
{
    if n < 10 {
        seq![dec_digit(n)]
    } else {
        dec_digits(n / 10).push(dec_digit(n % 10))
    }
}

/// Decimal rendering of an integer, with a leading minus when negative.
pub open spec fn dec_str_spec(n: int) -> Seq<char> {
    if n < 0 {
        seq!['-'] + dec_digits(-n)
    } else {
        dec_digits(n)
    }
}

/// Relies on `i32`'s std `Display` implementation: the decimal rendering
/// of the value, with a leading `-` when negative.
#[verifier::external_body]
fn i32_to_string(n: i32) -> (r: String)
    ensures
        r@ == dec_str_spec(n as int),
{
    n.to_string()
}

/// The exit code a child outcome reports: the real code, or -1 when the
/// child was terminated by a signal and no code exists.
pub open spec fn exit_code_of(code: Option<i32>) -> int {
    match code {
        Some(c) => c as int,
        None => -1,
    }
}

/// The cause text of a subprocess failure: it names the child's exit
/// code.
pub open spec fn exit_cause_spec(code: Option<i32>) -> Seq<char> {
    "command exited with code "@ + dec_str_spec(exit_code_of(code))
}

/// One run of the batch engine, stepped from outside: `next_command`
/// prepares a batch and hands back the argument list to spawn, `report`
/// takes the child's outcome and decides whether the run goes on. The
/// runner itself never spawns anything, so every decision here is
/// verified; the caller performs the spawn and feeds the result back.
pub struct Runner {
    pub config: Config,
    pub records: Vec<String>,
    pub pool: TempfilePool,
    pub list_pool: TempfilePool,
    pub state: RunState,
    pub next_batch: usize,
}

impl Runner {
    /// Total number of batches of this run.
    pub open spec fn nb_spec(&self) -> int {
        num_batches_spec(self.records@.len() as int, self.config.batch_size as int)
    }

    /// First record index of the batch `next_batch` points at.
    pub open spec fn cur_start(&self) -> int {
        batch_start_spec(self.next_batch as int, self.config.batch_size as int)
    }

    /// Record count of the batch `next_batch` points at.
    pub open spec fn cur_len(&self) -> int {
        batch_len_spec(
            self.next_batch as int,
            self.records@.len() as int,
            self.config.batch_size as int,
        )
    }

    /// A consistent run: a runnable configuration, a pool with one slot
    /// per batch position, a list file exactly when list mode is on, and
    /// a batch cursor within the run.
    pub open spec fn wf(&self) -> bool {
        &&& self.config.wf()
        &&& self.pool.wf()
        &&& self.pool.len_spec() == self.config.batch_size
        &&& self.list_pool.wf()
        &&& self.list_pool.len_spec() == (if self.config.list {
            1nat
        } else {
            0nat
        })
        &&& self.next_batch <= self.nb_spec()
        &&& (self.state is Awaiting ==> self.next_batch < self.nb_spec())
    }

    /// The replacement tokens prepared for a batch of `blen` records: in
    /// list mode the single list-file path regardless of batch size,
    /// otherwise the path of each populated slot, in slot order. The
    /// paths are passed verbatim: the child is spawned with a discrete
    /// argument vector, so no shell quoting is applied to them.
    pub open spec fn current_tokens(&self, blen: int) -> Seq<Seq<char>> {
        if self.config.list {
            seq![self.list_pool.paths_view()[0]]
        } else {
            self.pool.paths_view().take(blen)
        }
    }

    /// Provision the pool (and the list file when enabled) and start at
    /// batch 0. Any creation failure aborts the run before any batch.
    pub fn new(config: Config, records: Vec<String>) -> (r: Result<Runner, XtempError>)
        requires
            config.wf(),
        ensures
            r matches Ok(rn) ==> rn.wf() && rn.config == config && rn.records == records
                && rn.state == RunState::Ready && rn.next_batch == 0,
            r matches Err(e) ==> e is ProvisioningFailed,
    {
        let list_slots: usize = if config.list {
            1
        } else {
            0
        };
        let pool = match TempfilePool::allocate(config.batch_size) {
            Ok(p) => p,
            Err(e) => {
                return Err(e);
            },
        };
        let list_pool = match TempfilePool::allocate(list_slots) {
            Ok(p) => p,
            Err(e) => {
                return Err(e);
            },
        };
        let runner = Runner { config, records, pool, list_pool, state: RunState::Ready, next_batch: 0 };
        proof {
            lemma_batch_partition(
                runner.records@.len() as int,
                runner.config.batch_size as int,
            );
        }
        Ok(runner)
    }

    /// Prepare the next batch and hand back the child argument list to
    /// run, or `None` once every batch has been dispatched successfully.
    /// Writes the batch's records into slots `0..cur_len()`, rewrites the
    /// list file in list mode, and resolves the command template against
    /// the replacement tokens. The slot paths never change; only slot
    /// contents do. A failed rewrite fails the run with a write error.
    pub fn next_command(&mut self) -> (r: Result<Option<Vec<String>>, XtempError>)
        requires
            old(self).wf(),
            old(self).state is Ready,
        ensures
            final(self).wf(),
            final(self).config == old(self).config,
            final(self).records == old(self).records,
            final(self).next_batch == old(self).next_batch,
            final(self).pool.len_spec() == old(self).pool.len_spec(),
            final(self).pool.paths_view() == old(self).pool.paths_view(),
            final(self).list_pool.len_spec() == old(self).list_pool.len_spec(),
            final(self).list_pool.paths_view() == old(self).list_pool.paths_view(),
            old(self).next_batch >= old(self).nb_spec() <==> r == Ok::<
                Option<Vec<String>>,
                XtempError,
            >(None),
            r matches Ok(None::<Vec<String>>) ==> final(self).state is Done && final(self).pool.written_view() == old(self).pool.written_view() && final(self).list_pool.written_view() == old(self).list_pool.written_view(),
            r matches Ok(Some(argv)) ==> final(self).state is Awaiting && texts_of(
                argv@,
            ) == resolve_spec(
                texts_of(old(self).config.command@),
                opt_text(old(self).config.replstr),
                final(self).current_tokens(old(self).cur_len()),
            ),
            r matches Ok(Some(argv)) ==> final(self).current_tokens(old(self).cur_len()).len()
                == (if old(self).config.list {
                1int
            } else {
                old(self).cur_len()
            }),
            r matches Ok(Some(argv)) ==> forall|i: int|
                0 <= i < old(self).cur_len() ==> final(self).pool.written_view()[i]
                    == line_rendered(
                    old(self).records@[old(self).cur_start() + i]@,
                    old(self).config.keep_newlines,
                ),
            r matches Ok(Some(argv)) ==> forall|i: int|
                old(self).cur_len() <= i < old(self).pool.written_view().len() ==> final(self).pool.written_view()[i] == old(self).pool.written_view()[i],
            r matches Ok(Some(argv)) ==> (old(self).config.list ==> final(self).list_pool.written_view()[0] == list_rendering(
                final(self).pool.paths_view().take(old(self).cur_len()),
            )),
            r matches Err(e) ==> e is FailedToWrite && final(self).state is Failed,
    {
        let n = self.records.len();
        let b = self.config.batch_size;
        let nb = num_batches(n, b);
        if self.next_batch >= nb {
            self.state = RunState::Done;
            return Ok(None);
        }
        let i = self.next_batch;
        let start = batch_start(i, n, b);
        let blen = batch_len(i, n, b);
        match self.pool.write_batch(&self.records, start, blen, self.config.keep_newlines) {
            Ok(_) => {},
            Err(e) => {
                self.state = RunState::Failed;
                return Err(e);
            },
        }
        proof {
            self.pool.lemma_paths_len();
            let op = old(self).pool;
            op.lemma_paths_len();
        }
        let slot_paths = self.pool.paths(blen);
        let tokens: Vec<String> = if self.config.list {
            let text = render_list(&slot_paths);
            proof {
                self.list_pool.lemma_paths_len();
            }
            match self.list_pool.write_slot(0, &text, false) {
                Ok(_) => {},
                Err(e) => {
                    self.state = RunState::Failed;
                    return Err(e);
                },
            }
            let mut t: Vec<String> = Vec::new();
            let ghost emptyv = t@;
            t.push(self.list_pool.path(0).clone());
            proof {
                self.list_pool.lemma_paths_len();
                lemma_texts_of_push(emptyv, t@[0]);
                assert(texts_of(emptyv) =~= Seq::<Seq<char>>::empty());
                assert(texts_of(t@) =~= seq![self.list_pool.paths_view()[0]]);
                assert(self.list_pool.written_view().len() == 1);
                assert(self.list_pool.written_view()[0] == text@);
                assert(text@ == list_rendering(self.pool.paths_view().take(blen as int)));
            }
            t
        } else {
            slot_paths
        };
        let ghost tokensv = texts_of(tokens@);
        let rs: Option<&str> = match &self.config.replstr {
            Some(s) => Some(s.as_str()),
            None => None,
        };
        let argv = resolve_replstr(self.config.command.as_slice(), rs, tokens);
        self.state = RunState::Awaiting;
        Ok(Some(argv))
    }

    /// Record the outcome of the child dispatched for the current batch.
    /// A zero exit advances the run to the next batch; a spawn failure, a
    /// non-zero exit, or a signal termination fails the run at once, so
    /// no later batch is ever prepared — the run is fail-fast.
    pub fn report(&mut self, event: ChildEvent) -> (r: Result<(), XtempError>)
        requires
            old(self).wf(),
            old(self).state is Awaiting,
        ensures
            final(self).wf(),
            final(self).config == old(self).config,
            final(self).records == old(self).records,
            final(self).pool == old(self).pool,
            final(self).list_pool == old(self).list_pool,
            event matches ChildEvent::Exited(code) ==> (if code == Some(0i32) {
                r is Ok && final(self).state is Ready && final(self).next_batch == old(self).next_batch + 1
            } else {
                final(self).state is Failed && final(self).next_batch == old(self).next_batch && (
                r matches Err(e) && e matches XtempError::SubprocessFailed(m) && m@
                    == exit_cause_spec(code))
            }),
            event matches ChildEvent::SpawnFailed(cause) ==> final(self).state is Failed && final(self).next_batch == old(self).next_batch && (r matches Err(e)
                && e matches XtempError::SpawnFailed(m) && m == cause),
    {
        let record_count = self.records.len();
        proof {
            lemma_batch_partition(self.records@.len() as int, self.config.batch_size as int);
            assert(old(self).nb_spec() <= record_count as int);
        }
        match event {
            ChildEvent::SpawnFailed(cause) => {
                self.state = RunState::Failed;
                Err(XtempError::SpawnFailed(cause))
            },
            ChildEvent::Exited(code) => {
                let ok = match code {
                    Some(c) => c == 0,
                    None => false,
                };
                if ok {
                    self.next_batch = self.next_batch + 1;
                    self.state = RunState::Ready;
                    Ok(())
                } else {
                    let c: i32 = match code {
                        Some(c) => c,
                        None => -1,
                    };
                    let mut m = "command exited with code ".to_owned();
                    m.append(i32_to_string(c).as_str());
                    self.state = RunState::Failed;
                    Err(XtempError::SubprocessFailed(m))
                }
            },
        }
    }
}

/// Runs are reproducible: the argument list prepared for a batch is a
/// function of the configuration, the records, and the scratch-file
/// paths alone. Two runs over the same input and configuration whose
/// scratch files received the same paths prepare byte-identical child
/// invocations — repeated runs differ at most in the temp-file names
/// themselves.
pub proof fn lemma_plan_deterministic(
    a: &Runner,
    b: &Runner,
    argv_a: Seq<Seq<char>>,
    argv_b: Seq<Seq<char>>,
    blen: int,
)
    requires
        a.config == b.config,
        a.pool.paths_view() == b.pool.paths_view(),
        a.list_pool.paths_view() == b.list_pool.paths_view(),
        argv_a == resolve_spec(
            texts_of(a.config.command@),
            opt_text(a.config.replstr),
            a.current_tokens(blen),
        ),
        argv_b == resolve_spec(
            texts_of(b.config.command@),
            opt_text(b.config.replstr),
            b.current_tokens(blen),
        ),
    ensures
        argv_a == argv_b,
{
}

} // verus!

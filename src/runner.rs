//! What the external interpreter reports after running a program.
use vstd::prelude::*;
use vstd::string::{StrSliceExecFns, StringExecFns};

verus! {

/// Counters consumed during the execution of a program, as the interpreter
/// reports them.
pub struct Counters {
    /// Number of ARITH opcodes used.
    pub cnt_arith: String,
    /// Number of BINARY opcodes used.
    pub cnt_binary: String,
    /// Number of KECCAK opcodes used.
    pub cnt_keccak_f: String,
    /// Number of MEM_ALIGN opcodes used.
    pub cnt_mem_align: String,
    /// Total number of execution steps.
    pub cnt_steps: u64,
}

/// Status of the execution of a program.
#[derive(Clone, Copy, Debug, PartialEq, Eq, Structural)]
pub enum ExecutionStatus {
    /// Program ran till completion.
    Success,
    /// Program failed during compilation or execution.
    RuntimeError,
}

/// Result of the execution of a program.
pub struct ExecutionResult {
    /// Path to the main file that was executed.
    pub path: String,
    /// Status of the execution.
    pub status: ExecutionStatus,
    /// Error message in case the execution failed.
    pub error: Option<String>,
    /// Profiling information about this execution; only successful
    /// executions have it.
    pub counters: Option<Counters>,
}

/// `s` with each escaped line feed (a backslash followed by `n`) turned into
/// a line feed, reading from the left.
pub open spec fn unescape_newlines(s: Seq<char>) -> Seq<char>
    decreases s.len(),
{
    if s.len() == 0 {
        s
    } else if s.len() >= 2 && s[0] == '\\' && s[1] == 'n' {
        seq!['\n'] + unescape_newlines(s.subrange(2, s.len() as int))
    } else {
        seq![s[0]] + unescape_newlines(s.drop_first())
    }
}

/// `s` with its escaped line feeds turned into line feeds.
fn unescape(s: &str) -> (r: String)
    ensures
        r@ == unescape_newlines(s@),
{
    let len = s.unicode_len();
    let mut out = String::new();
    let mut run: usize = 0;
    let mut i: usize = 0;
    proof {
        assert(s@.subrange(0, len as int) =~= s@);
        assert(out@ + s@.subrange(0, 0) =~= Seq::<char>::empty());
    }
    while i < len
        invariant
            len == s@.len(),
            run <= i <= len,
            out@ + s@.subrange(run as int, i as int) + unescape_newlines(
                s@.subrange(i as int, len as int),
            ) == unescape_newlines(s@),
        decreases len - i,
    {
        let ghost rest = s@.subrange(i as int, len as int);
        if i + 1 < len && s.get_char(i) == '\\' && s.get_char(i + 1) == 'n' {
            let ghost before = out@;
            out.append(s.substring_char(run, i));
            out.append("\n");
            proof {
                reveal_strlit("\n");
                assert(rest.subrange(2, rest.len() as int) =~= s@.subrange(i + 2, len as int));
                assert(out@ =~= before + s@.subrange(run as int, i as int) + seq!['\n']);
            }
            i += 2;
            run = i;
            proof {
                assert(s@.subrange(run as int, i as int) =~= Seq::<char>::empty());
            }
        } else {
            proof {
                assert(rest.drop_first() =~= s@.subrange(i + 1, len as int));
                assert(s@.subrange(run as int, i + 1) =~= s@.subrange(run as int, i as int) + seq![
                    s@[i as int],
                ]);
                if rest.len() >= 2 {
                    assert(rest[0] == s@[i as int]);
                    assert(rest[1] == s@[i + 1]);
                }
            }
            i += 1;
        }
    }
    out.append(s.substring_char(run, len));
    proof {
        assert(s@.subrange(len as int, len as int) =~= Seq::<char>::empty());
        assert(unescape_newlines(Seq::<char>::empty()) =~= Seq::<char>::empty());
    }
    out
}

impl ExecutionResult {
    /// The error message with its escaped line feeds turned into line feeds,
    /// or `None` when there is no error.
    pub fn format_error(&self) -> (r: String)
        ensures
            self.error matches Some(e) ==> r@ == unescape_newlines(e@),
            self.error is None ==> r@ == "None"@,
    {
        match &self.error {
            Some(s) => unescape(s.as_str()),
            None => String::from_str("None"),
        }
    }
}

} // verus!

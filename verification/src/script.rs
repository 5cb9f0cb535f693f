//! The decisions a script component makes before it hands work to the
//! interpreter: under which run context the runtime currently stands, whether
//! a script belongs in that context, and in which mode its source should be
//! compiled. The compilation itself and the Lua-facing plumbing live with the
//! host; these rules are what it consults.

use vstd::prelude::*;

use crate::enums::RunContext;

verus! {

/// How a unit's source is handed to the interpreter.
#[derive(Clone, Copy, PartialEq, Eq, Structural, Debug)]
pub enum CompileMode {
    Debug,
    Jit,
    Release,
}

/// The marker line that requests native compilation.
pub open spec fn spec_native_marker() -> Seq<char> {
    "--!native"@
}

/// Whether one source line is the native-compilation marker, allowing the
/// carriage return a Windows line ending leaves behind.
pub open spec fn spec_line_is_native(line: Seq<char>) -> bool {
    line == spec_native_marker() || line == spec_native_marker().push('\r')
}

/// Whether any line of the remaining source, the current line's prefix
/// already being `cur`, is the native-compilation marker.
pub open spec fn spec_lines_native(s: Seq<char>, cur: Seq<char>) -> bool
    decreases s.len(),
{
    if s.len() == 0 {
        spec_line_is_native(cur)
    } else if s[0] == '\n' {
        spec_line_is_native(cur) || spec_lines_native(s.drop_first(), Seq::empty())
    } else {
        spec_lines_native(s.drop_first(), cur.push(s[0]))
    }
}

/// Whether any line of the source requests native compilation.
pub open spec fn spec_wants_native(s: Seq<char>) -> bool {
    spec_lines_native(s, Seq::empty())
}

/// The compile mode for a unit: debug information when the runtime runs in
/// debug mode, natively compiled when a line of the source asks for it,
/// plain otherwise.
pub open spec fn spec_compile_mode(debug: bool, src: Seq<char>) -> CompileMode {
    if debug {
        CompileMode::Debug
    } else if spec_wants_native(src) {
        CompileMode::Jit
    } else {
        CompileMode::Release
    }
}

/// Whether a finished line is the native-compilation marker.
fn line_is_native(line: &Vec<char>) -> (r: bool)
    ensures
        r == spec_line_is_native(line@),
{
    proof {
        reveal_strlit("--!native");
    }
    let n = line.len();
    if n != 9 && n != 10 {
        proof {
            assert(spec_native_marker().len() == 9);
            assert(spec_native_marker().push('\r').len() == 10);
        }
        return false;
    }
    if n == 10 && line[9] != '\r' {
        return false;
    }
    let mut k: usize = 0;
    while k < 9
        invariant
            0 <= k <= 9,
            line@.len() == 9 || line@.len() == 10,
            line@.len() == 10 ==> line@[9] == '\r',
            forall|i: int| 0 <= i < k ==> line@[i] == spec_native_marker()[i],
        decreases 9 - k,
    {
        proof {
            reveal_strlit("--!native");
            assert("--!native"@.len() == 9);
        }
        if line[k] != "--!native".get_char(k) {
            proof {
                if line@.len() == 9 && line@ =~= spec_native_marker() {
                    assert(false);
                }
                if line@.len() == 10 && line@ =~= spec_native_marker().push('\r') {
                    assert(false);
                }
            }
            return false;
        }
        k = k + 1;
    }
    proof {
        if line@.len() == 9 {
            assert(line@ =~= spec_native_marker());
        } else {
            assert(line@ =~= spec_native_marker().push('\r'));
        }
    }
    true
}

/// Scans the source line by line for the native-compilation marker.
pub fn wants_native(source: &str) -> (r: bool)
    ensures
        r == spec_wants_native(source@),
{
    let n = source.unicode_len();
    let mut cur: Vec<char> = Vec::new();
    let mut i: usize = 0;
    proof {
        assert(source@.subrange(0, n as int) =~= source@);
    }
    while i < n
        invariant
            0 <= i <= n,
            n == source@.len(),
            spec_lines_native(source@.subrange(i as int, n as int), cur@) == spec_wants_native(
                source@,
            ),
        decreases n - i,
    {
        let ghost rem = source@.subrange(i as int, n as int);
        proof {
            assert(rem[0] == source@[i as int]);
            assert(rem.drop_first() =~= source@.subrange(i + 1, n as int));
        }
        let c = source.get_char(i);
        if c == '\n' {
            if line_is_native(&cur) {
                return true;
            }
            cur = Vec::new();
        } else {
            cur.push(c);
        }
        i = i + 1;
    }
    proof {
        assert(source@.subrange(n as int, n as int) =~= Seq::<char>::empty());
    }
    line_is_native(&cur)
}

/// Decides how to hand a unit's source to the interpreter.
pub fn compile_mode(debug: bool, source: &str) -> (m: CompileMode)
    ensures
        m == spec_compile_mode(debug, source@),
{
    if debug {
        CompileMode::Debug
    } else if wants_native(source) {
        CompileMode::Jit
    } else {
        CompileMode::Release
    }
}

/// The run context the runtime currently stands in: a studio build counts as
/// plugin, otherwise a client runs client scripts and a server everything
/// else.
pub open spec fn spec_current_run_context(is_studio: bool, is_client: bool) -> RunContext {
    if is_studio {
        RunContext::Plugin
    } else if is_client {
        RunContext::Client
    } else {
        RunContext::Server
    }
}

/// The run context a script demands: its configured context, or, under the
/// legacy setting, the context its concrete class implies.
pub open spec fn spec_required_run_context(configured: RunContext, implicit: RunContext) -> RunContext {
    if configured == RunContext::Legacy {
        implicit
    } else {
        configured
    }
}

/// The run context the runtime currently stands in.
pub fn current_run_context(is_studio: bool, is_client: bool) -> (r: RunContext)
    ensures
        r == spec_current_run_context(is_studio, is_client),
{
    if is_studio {
        RunContext::Plugin
    } else if is_client {
        RunContext::Client
    } else {
        RunContext::Server
    }
}

/// Whether enabling a script should schedule it: exactly when the context it
/// demands is the context the runtime stands in.
pub fn should_start(
    configured: RunContext,
    implicit: RunContext,
    is_studio: bool,
    is_client: bool,
) -> (r: bool)
    ensures
        r == (spec_required_run_context(configured, implicit) == spec_current_run_context(
            is_studio,
            is_client,
        )),
{
    let required = if configured == RunContext::Legacy {
        implicit
    } else {
        configured
    };
    let current = current_run_context(is_studio, is_client);
    required == current
}

} // verus!

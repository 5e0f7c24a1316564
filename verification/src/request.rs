//! The test request and the configuration it induces on a command: flag
//! forwarding onto the argument list, per-target emulation variables in the
//! environment overlay, and the mapping from a child's exit outcome to this
//! process's termination code.
use vstd::prelude::*;

use crate::command::{env_set, strings_view, CommandDescription};
use crate::strings::{is_msvc_triple, runner_env_key, runner_key_of, str_has_substring};

verus! {

/// A parsed "run the tests" request: target triples, test-selection flags,
/// and pass-through arguments. Immutable once built.
pub struct Test {
    pub manifest_path: Option<String>,
    pub target: Vec<String>,
    pub doc: bool,
    pub no_run: bool,
    pub no_fail_fast: bool,
    pub test_name: Option<String>,
    pub args: Vec<String>,
}

/// How a finished child process ended: cleanly, with a failure code, or
/// killed without any code (for instance by a signal).
pub enum ExitOutcome {
    Success,
    Code(i32),
    Signal,
}

/// The arguments that the documentation-tests flag contributes.
pub open spec fn doc_part(t: Test) -> Seq<Seq<char>> {
    if t.doc {
        seq!["--doc"@]
    } else {
        Seq::<Seq<char>>::empty()
    }
}

/// The arguments that the build-without-running flag contributes.
pub open spec fn no_run_part(t: Test) -> Seq<Seq<char>> {
    if t.no_run {
        seq!["--no-run"@]
    } else {
        Seq::<Seq<char>>::empty()
    }
}

/// The arguments that the fail-fast-suppression flag contributes.
pub open spec fn no_fail_fast_part(t: Test) -> Seq<Seq<char>> {
    if t.no_fail_fast {
        seq!["--no-fail-fast"@]
    } else {
        Seq::<Seq<char>>::empty()
    }
}

/// The positional argument that a named-test filter contributes.
pub open spec fn name_part(t: Test) -> Seq<Seq<char>> {
    match t.test_name {
        Some(n) => seq![n@],
        None => Seq::<Seq<char>>::empty(),
    }
}

/// The separator marker and the pass-through arguments, verbatim and in
/// order, when any are present.
pub open spec fn passthrough_part(t: Test) -> Seq<Seq<char>> {
    if t.args@.len() > 0 {
        seq!["--"@] + strings_view(t.args@)
    } else {
        Seq::<Seq<char>>::empty()
    }
}

/// Everything that flag forwarding appends to the argument list, in order:
/// each rule contributes independently, guarded by its own field alone.
pub open spec fn flag_args(t: Test) -> Seq<Seq<char>> {
    doc_part(t) + no_run_part(t) + no_fail_fast_part(t) + name_part(t) + passthrough_part(t)
}

/// What configuring one target triple does to an environment overlay `m`,
/// given the set of variable names the ambient environment defines: a
/// non-MSVC triple is skipped with no effect; an MSVC triple sets the
/// diagnostic-suppression variable and its own runner variable, each only
/// when the ambient environment does not already define it.
pub open spec fn msvc_env_step(
    m: Seq<(Seq<char>, Seq<char>)>,
    t: Seq<char>,
    ambient: Seq<Seq<char>>,
) -> Seq<(Seq<char>, Seq<char>)> {
    if is_msvc_triple(t) {
        let m1 = if !ambient.contains("WINEDEBUG"@) {
            env_set(m, "WINEDEBUG"@, "-all"@)
        } else {
            m
        };
        if !ambient.contains(runner_key_of(t)) {
            env_set(m1, runner_key_of(t), "wine"@)
        } else {
            m1
        }
    } else {
        m
    }
}

/// The overlay after configuring every triple of `targets`, in order.
pub open spec fn env_after_targets(
    m: Seq<(Seq<char>, Seq<char>)>,
    targets: Seq<Seq<char>>,
    ambient: Seq<Seq<char>>,
) -> Seq<(Seq<char>, Seq<char>)>
    decreases targets.len(),
{
    if targets.len() == 0 {
        m
    } else {
        env_after_targets(msvc_env_step(m, targets[0], ambient), targets.drop_first(), ambient)
    }
}

/// Peeling one target off the end of the list applies its step last.
pub proof fn lemma_env_after_snoc(
    m: Seq<(Seq<char>, Seq<char>)>,
    targets: Seq<Seq<char>>,
    t: Seq<char>,
    ambient: Seq<Seq<char>>,
)
    ensures
        env_after_targets(m, targets.push(t), ambient) == msvc_env_step(
            env_after_targets(m, targets, ambient),
            t,
            ambient,
        ),
    decreases targets.len(),
{
    let whole = targets.push(t);
    if targets.len() == 0 {
        assert(whole[0] == t);
        assert(whole.drop_first() =~= Seq::<Seq<char>>::empty());
        let stepped = msvc_env_step(m, t, ambient);
        assert(env_after_targets(m, whole, ambient) == env_after_targets(
            stepped,
            whole.drop_first(),
            ambient,
        ));
        assert(env_after_targets(stepped, Seq::<Seq<char>>::empty(), ambient) == stepped);
        assert(env_after_targets(m, targets, ambient) == m);
    } else {
        assert(whole[0] == targets[0]);
        assert(whole.drop_first() =~= targets.drop_first().push(t));
        let stepped = msvc_env_step(m, targets[0], ambient);
        lemma_env_after_snoc(stepped, targets.drop_first(), t, ambient);
        assert(env_after_targets(m, whole, ambient) == env_after_targets(
            stepped,
            targets.drop_first().push(t),
            ambient,
        ));
        assert(env_after_targets(m, targets, ambient) == env_after_targets(
            stepped,
            targets.drop_first(),
            ambient,
        ));
    }
}

/// Decide whether the ambient environment defines `key`, given the list of
/// names it defines.
pub fn ambient_defines(ambient: &Vec<String>, key: &String) -> (r: bool)
    ensures
        r == strings_view(ambient@).contains(key@),
{
    let mut i: usize = 0;
    let n = ambient.len();
    while i < n
        invariant
            n == ambient@.len(),
            i <= n,
            forall|j: int| 0 <= j < i ==> strings_view(ambient@)[j] != key@,
        decreases n - i,
    {
        if ambient[i] == *key {
            proof {
                assert(strings_view(ambient@)[i as int] == key@);
            }
            return true;
        }
        i = i + 1;
    }
    proof {
        assert(forall|j: int| 0 <= j < n ==> strings_view(ambient@)[j] != key@);
    }
    false
}

/// The termination code the parent owes for a child's exit outcome: none
/// for success, the child's own code for a coded failure, and the fallback
/// code 1 when no code is available.
pub open spec fn spec_termination_code(o: ExitOutcome) -> Option<i32> {
    match o {
        ExitOutcome::Success => None,
        ExitOutcome::Code(c) => Some(c),
        ExitOutcome::Signal => Some(1),
    }
}

/// Map a child's exit outcome to the code this process must terminate
/// with, if any.
pub fn termination_code(outcome: &ExitOutcome) -> (r: Option<i32>)
    ensures
        r == spec_termination_code(*outcome),
{
    match outcome {
        ExitOutcome::Success => None,
        ExitOutcome::Code(c) => Some(*c),
        ExitOutcome::Signal => Some(1),
    }
}

impl Test {
    /// A request for `manifest_path` with every flag off, no targets, no
    /// filter and no pass-through arguments.
    pub fn new(manifest_path: Option<String>) -> (t: Test)
        ensures
            t.manifest_path == manifest_path,
            t.target@.len() == 0,
            !t.doc,
            !t.no_run,
            !t.no_fail_fast,
            t.test_name is None,
            t.args@.len() == 0,
    {
        Test {
            manifest_path,
            target: Vec::new(),
            doc: false,
            no_run: false,
            no_fail_fast: false,
            test_name: None,
            args: Vec::new(),
        }
    }

    /// Append the request's test-selection flags, filter and pass-through
    /// arguments onto `cmd`'s argument list; the environment overlay and
    /// the program are untouched.
    #[verifier::rlimit(50)]
    pub fn apply_test_flags(&self, cmd: &mut CommandDescription)
        ensures
            final(cmd).program@ == old(cmd).program@,
            final(cmd).args_view() == old(cmd).args_view() + flag_args(*self),
            final(cmd).env_pairs() == old(cmd).env_pairs(),
    {
        let ghost base = cmd.args_view();
        if self.doc {
            cmd.push_arg(String::from_str("--doc"));
        }
        proof {
            assert(cmd.args_view() =~= base + doc_part(*self));
        }
        let ghost s1 = cmd.args_view();
        if self.no_run {
            cmd.push_arg(String::from_str("--no-run"));
        }
        proof {
            assert(cmd.args_view() =~= s1 + no_run_part(*self));
        }
        let ghost s2 = cmd.args_view();
        if self.no_fail_fast {
            cmd.push_arg(String::from_str("--no-fail-fast"));
        }
        proof {
            assert(cmd.args_view() =~= s2 + no_fail_fast_part(*self));
        }
        let ghost s3 = cmd.args_view();
        if let Some(test_name) = &self.test_name {
            cmd.push_arg(test_name.clone());
        }
        proof {
            assert(cmd.args_view() =~= s3 + name_part(*self));
        }
        let ghost s4 = cmd.args_view();
        if self.args.len() > 0 {
            cmd.push_arg(String::from_str("--"));
            let mut i: usize = 0;
            let n = self.args.len();
            while i < n
                invariant
                    n == self.args@.len(),
                    i <= n,
                    cmd.args_view() == s4 + seq!["--"@] + strings_view(self.args@).take(i as int),
                    cmd.program@ == old(cmd).program@,
                    cmd.env_pairs() == old(cmd).env_pairs(),
                decreases n - i,
            {
                cmd.push_arg(self.args[i].clone());
                i = i + 1;
                proof {
                    assert(strings_view(self.args@).take(i as int) =~= strings_view(
                        self.args@,
                    ).take(i - 1).push(self.args@[i - 1]@));
                    assert(cmd.args_view() =~= s4 + seq!["--"@] + strings_view(
                        self.args@,
                    ).take(i as int));
                }
            }
            proof {
                assert(strings_view(self.args@).take(n as int) =~= strings_view(self.args@));
            }
        }
        proof {
            assert(cmd.args_view() =~= s4 + passthrough_part(*self));
            let d = doc_part(*self);
            let r = no_run_part(*self);
            let f = no_fail_fast_part(*self);
            let np = name_part(*self);
            let pp = passthrough_part(*self);
            assert((base + d) + r =~= base + (d + r));
            assert((base + (d + r)) + f =~= base + ((d + r) + f));
            assert((base + ((d + r) + f)) + np =~= base + (((d + r) + f) + np));
            assert((base + (((d + r) + f) + np)) + pp =~= base + ((((d + r) + f) + np) + pp));
            assert(cmd.args_view() == base + flag_args(*self));
        }
    }

    /// Configure emulation for every MSVC target triple of the request, in
    /// order: suppress the emulator's diagnostics and select it as the
    /// per-target runner, each only when `ambient` does not already define
    /// the variable. The argument list and the program are untouched.
    pub fn configure_targets(&self, cmd: &mut CommandDescription, ambient: &Vec<String>)
        ensures
            final(cmd).program@ == old(cmd).program@,
            final(cmd).args_view() == old(cmd).args_view(),
            final(cmd).env_pairs() == env_after_targets(
                old(cmd).env_pairs(),
                strings_view(self.target@),
                strings_view(ambient@),
            ),
    {
        let ghost base = cmd.env_pairs();
        let ghost targets = strings_view(self.target@);
        let ghost amb = strings_view(ambient@);
        let mut idx: usize = 0;
        let n = self.target.len();
        while idx < n
            invariant
                n == self.target@.len(),
                idx <= n,
                targets == strings_view(self.target@),
                amb == strings_view(ambient@),
                cmd.program@ == old(cmd).program@,
                cmd.args_view() == old(cmd).args_view(),
                cmd.env_pairs() == env_after_targets(base, targets.take(idx as int), amb),
            decreases n - idx,
        {
            let ghost before = cmd.env_pairs();
            let target = &self.target[idx];
            proof {
                assert(targets[idx as int] == target@);
            }
            if str_has_substring(target.as_str(), "msvc") {
                let wd_key = String::from_str("WINEDEBUG");
                if !ambient_defines(ambient, &wd_key) {
                    cmd.set_env(wd_key, String::from_str("-all"));
                }
                let rk = runner_env_key(target.as_str());
                if !ambient_defines(ambient, &rk) {
                    cmd.set_env(rk, String::from_str("wine"));
                }
            }
            proof {
                assert(cmd.env_pairs() == msvc_env_step(before, target@, amb));
                lemma_env_after_snoc(base, targets.take(idx as int), target@, amb);
                assert(targets.take(idx as int).push(target@) =~= targets.take(idx + 1));
            }
            idx = idx + 1;
        }
        proof {
            assert(targets.take(n as int) =~= targets);
        }
    }

    /// Configure a base command for this request: flag forwarding appends
    /// its arguments, per-target emulation configuration builds the
    /// environment overlay, and the program is kept.
    pub fn configure(&self, base: CommandDescription, ambient: &Vec<String>) -> (cmd:
        CommandDescription)
        ensures
            cmd.program@ == base.program@,
            cmd.args_view() == base.args_view() + flag_args(*self),
            cmd.env_pairs() == env_after_targets(
                base.env_pairs(),
                strings_view(self.target@),
                strings_view(ambient@),
            ),
    {
        let mut cmd = base;
        self.apply_test_flags(&mut cmd);
        self.configure_targets(&mut cmd, ambient);
        cmd
    }
}

} // verus!

//! The library's stated laws: what per-target configuration and flag
//! forwarding guarantee for every request, proved once and for all over the
//! specification functions that the executable functions' contracts use.
use vstd::prelude::*;

use crate::command::{env_lookup, env_set, lemma_lookup_set_other, lemma_lookup_set_same,
    strings_view};
use crate::request::{doc_part, env_after_targets, flag_args, msvc_env_step, name_part,
    no_fail_fast_part, no_run_part, passthrough_part, Test};
use crate::strings::{is_msvc_triple, runner_key_of};

verus! {

/// A runner-override variable name is never the diagnostic-suppression
/// name: the two have different lengths.
pub proof fn lemma_runner_key_ne_winedebug(t: Seq<char>)
    ensures
        runner_key_of(t) != "WINEDEBUG"@,
{
    reveal_strlit("CARGO_TARGET_");
    reveal_strlit("_RUNNER");
    reveal_strlit("WINEDEBUG");
    assert(runner_key_of(t).len() == 13 + t.len() + 7);
    assert("WINEDEBUG"@.len() == 9);
}

/// A request with no target triples configures nothing: the environment
/// overlay is left exactly as it was; in particular an empty overlay stays
/// empty.
pub proof fn lemma_no_targets_no_env(m: Seq<(Seq<char>, Seq<char>)>, ambient: Seq<Seq<char>>)
    ensures
        env_after_targets(m, Seq::<Seq<char>>::empty(), ambient) == m,
{
}

/// A triple without the MSVC marker is skipped with no effect: its
/// configuration step adds no variable at all, so no runner override is
/// ever added for such a triple.
pub proof fn lemma_non_msvc_no_effect(
    m: Seq<(Seq<char>, Seq<char>)>,
    t: Seq<char>,
    ambient: Seq<Seq<char>>,
)
    requires
        !is_msvc_triple(t),
    ensures
        msvc_env_step(m, t, ambient) == m,
{
}

/// A whole target list without any MSVC triple leaves the overlay
/// untouched.
pub proof fn lemma_no_msvc_targets_no_env(
    m: Seq<(Seq<char>, Seq<char>)>,
    targets: Seq<Seq<char>>,
    ambient: Seq<Seq<char>>,
)
    requires
        forall|i: int| 0 <= i < targets.len() ==> !is_msvc_triple(targets[i]),
    ensures
        env_after_targets(m, targets, ambient) == m,
    decreases targets.len(),
{
    if targets.len() == 0 {
    } else {
        assert(!is_msvc_triple(targets[0]));
        assert(forall|i: int|
            0 <= i < targets.drop_first().len() ==> !is_msvc_triple(targets.drop_first()[i]));
        lemma_no_msvc_targets_no_env(m, targets.drop_first(), ambient);
    }
}

/// One configuration step never touches a variable the ambient environment
/// defines.
proof fn lemma_step_preserves_ambient_key(
    m: Seq<(Seq<char>, Seq<char>)>,
    t: Seq<char>,
    ambient: Seq<Seq<char>>,
    k: Seq<char>,
)
    requires
        ambient.contains(k),
    ensures
        env_lookup(msvc_env_step(m, t, ambient), k) == env_lookup(m, k),
{
    if is_msvc_triple(t) {
        let m1 = if !ambient.contains("WINEDEBUG"@) {
            env_set(m, "WINEDEBUG"@, "-all"@)
        } else {
            m
        };
        if !ambient.contains("WINEDEBUG"@) {
            assert(k != "WINEDEBUG"@);
            lemma_lookup_set_other(m, "WINEDEBUG"@, "-all"@, k);
        }
        if !ambient.contains(runner_key_of(t)) {
            assert(k != runner_key_of(t));
            lemma_lookup_set_other(m1, runner_key_of(t), "wine"@, k);
        }
    }
}

/// A pre-set override always wins: a variable the ambient environment
/// defines is never written, so its lookup in the overlay is unchanged by
/// configuring any target list.
pub proof fn lemma_ambient_key_preserved(
    m: Seq<(Seq<char>, Seq<char>)>,
    targets: Seq<Seq<char>>,
    ambient: Seq<Seq<char>>,
    k: Seq<char>,
)
    requires
        ambient.contains(k),
    ensures
        env_lookup(env_after_targets(m, targets, ambient), k) == env_lookup(m, k),
    decreases targets.len(),
{
    if targets.len() == 0 {
    } else {
        lemma_step_preserves_ambient_key(m, targets[0], ambient, k);
        lemma_ambient_key_preserved(
            msvc_env_step(m, targets[0], ambient),
            targets.drop_first(),
            ambient,
            k,
        );
    }
}

/// One step either leaves a runner-value binding alone or rewrites it to
/// the same emulation-program value.
proof fn lemma_step_keeps_wine(
    m: Seq<(Seq<char>, Seq<char>)>,
    t: Seq<char>,
    ambient: Seq<Seq<char>>,
    rk: Seq<char>,
)
    requires
        rk != "WINEDEBUG"@,
        env_lookup(m, rk) == Some("wine"@),
    ensures
        env_lookup(msvc_env_step(m, t, ambient), rk) == Some("wine"@),
{
    if is_msvc_triple(t) {
        let m1 = if !ambient.contains("WINEDEBUG"@) {
            env_set(m, "WINEDEBUG"@, "-all"@)
        } else {
            m
        };
        if !ambient.contains("WINEDEBUG"@) {
            lemma_lookup_set_other(m, "WINEDEBUG"@, "-all"@, rk);
        }
        if !ambient.contains(runner_key_of(t)) {
            if runner_key_of(t) == rk {
                lemma_lookup_set_same(m1, rk, "wine"@);
            } else {
                lemma_lookup_set_other(m1, runner_key_of(t), "wine"@, rk);
            }
        }
    }
}

proof fn lemma_targets_keep_wine(
    m: Seq<(Seq<char>, Seq<char>)>,
    targets: Seq<Seq<char>>,
    ambient: Seq<Seq<char>>,
    rk: Seq<char>,
)
    requires
        rk != "WINEDEBUG"@,
        env_lookup(m, rk) == Some("wine"@),
    ensures
        env_lookup(env_after_targets(m, targets, ambient), rk) == Some("wine"@),
    decreases targets.len(),
{
    if targets.len() == 0 {
    } else {
        lemma_step_keeps_wine(m, targets[0], ambient, rk);
        lemma_targets_keep_wine(
            msvc_env_step(m, targets[0], ambient),
            targets.drop_first(),
            ambient,
            rk,
        );
    }
}

/// For every MSVC target triple in the list whose runner-override variable
/// the ambient environment does not define, configuration binds that
/// variable to the emulation program.
pub proof fn lemma_msvc_runner_key_set(
    m: Seq<(Seq<char>, Seq<char>)>,
    targets: Seq<Seq<char>>,
    ambient: Seq<Seq<char>>,
    i: int,
)
    requires
        0 <= i < targets.len(),
        is_msvc_triple(targets[i]),
        !ambient.contains(runner_key_of(targets[i])),
    ensures
        env_lookup(env_after_targets(m, targets, ambient), runner_key_of(targets[i])) == Some(
            "wine"@,
        ),
    decreases targets.len(),
{
    let rk = runner_key_of(targets[i]);
    lemma_runner_key_ne_winedebug(targets[i]);
    if i == 0 {
        let m1 = if !ambient.contains("WINEDEBUG"@) {
            env_set(m, "WINEDEBUG"@, "-all"@)
        } else {
            m
        };
        lemma_lookup_set_same(m1, rk, "wine"@);
        assert(env_lookup(msvc_env_step(m, targets[0], ambient), rk) == Some("wine"@));
        lemma_targets_keep_wine(
            msvc_env_step(m, targets[0], ambient),
            targets.drop_first(),
            ambient,
            rk,
        );
    } else {
        assert(targets.drop_first()[i - 1] == targets[i]);
        lemma_msvc_runner_key_set(
            msvc_env_step(m, targets[0], ambient),
            targets.drop_first(),
            ambient,
            i - 1,
        );
    }
}

/// One step either leaves the diagnostic-suppression binding alone or sets
/// it to the fixed "all diagnostics off" value.
proof fn lemma_step_winedebug(m: Seq<(Seq<char>, Seq<char>)>, t: Seq<char>, ambient: Seq<Seq<char>>)
    ensures
        env_lookup(msvc_env_step(m, t, ambient), "WINEDEBUG"@) == env_lookup(m, "WINEDEBUG"@)
            || env_lookup(msvc_env_step(m, t, ambient), "WINEDEBUG"@) == Some("-all"@),
{
    if is_msvc_triple(t) {
        let m1 = if !ambient.contains("WINEDEBUG"@) {
            env_set(m, "WINEDEBUG"@, "-all"@)
        } else {
            m
        };
        if !ambient.contains("WINEDEBUG"@) {
            lemma_lookup_set_same(m, "WINEDEBUG"@, "-all"@);
        }
        if !ambient.contains(runner_key_of(t)) {
            lemma_runner_key_ne_winedebug(t);
            lemma_lookup_set_other(m1, runner_key_of(t), "wine"@, "WINEDEBUG"@);
        }
    }
}

/// The diagnostic-suppression variable is set at most to the fixed value:
/// whatever the targets, its binding after configuration is either exactly
/// what it was before or the fixed "all diagnostics off" value. Together
/// with `lemma_ambient_key_preserved` this says it is never overwritten
/// when the ambient environment already defines it, however many MSVC
/// targets are processed.
pub proof fn lemma_winedebug_at_most_fixed(
    m: Seq<(Seq<char>, Seq<char>)>,
    targets: Seq<Seq<char>>,
    ambient: Seq<Seq<char>>,
)
    ensures
        env_lookup(env_after_targets(m, targets, ambient), "WINEDEBUG"@) == env_lookup(
            m,
            "WINEDEBUG"@,
        ) || env_lookup(env_after_targets(m, targets, ambient), "WINEDEBUG"@) == Some("-all"@),
    decreases targets.len(),
{
    if targets.len() == 0 {
    } else {
        lemma_step_winedebug(m, targets[0], ambient);
        lemma_winedebug_at_most_fixed(
            msvc_env_step(m, targets[0], ambient),
            targets.drop_first(),
            ambient,
        );
    }
}

proof fn lemma_step_keeps_all_off(
    m: Seq<(Seq<char>, Seq<char>)>,
    t: Seq<char>,
    ambient: Seq<Seq<char>>,
)
    requires
        env_lookup(m, "WINEDEBUG"@) == Some("-all"@),
    ensures
        env_lookup(msvc_env_step(m, t, ambient), "WINEDEBUG"@) == Some("-all"@),
{
    if is_msvc_triple(t) {
        let m1 = if !ambient.contains("WINEDEBUG"@) {
            env_set(m, "WINEDEBUG"@, "-all"@)
        } else {
            m
        };
        if !ambient.contains("WINEDEBUG"@) {
            lemma_lookup_set_same(m, "WINEDEBUG"@, "-all"@);
        }
        if !ambient.contains(runner_key_of(t)) {
            lemma_runner_key_ne_winedebug(t);
            lemma_lookup_set_other(m1, runner_key_of(t), "wine"@, "WINEDEBUG"@);
        }
    }
}

proof fn lemma_targets_keep_all_off(
    m: Seq<(Seq<char>, Seq<char>)>,
    targets: Seq<Seq<char>>,
    ambient: Seq<Seq<char>>,
)
    requires
        env_lookup(m, "WINEDEBUG"@) == Some("-all"@),
    ensures
        env_lookup(env_after_targets(m, targets, ambient), "WINEDEBUG"@) == Some("-all"@),
    decreases targets.len(),
{
    if targets.len() == 0 {
    } else {
        lemma_step_keeps_all_off(m, targets[0], ambient);
        lemma_targets_keep_all_off(
            msvc_env_step(m, targets[0], ambient),
            targets.drop_first(),
            ambient,
        );
    }
}

/// When the ambient environment does not define the diagnostic-suppression
/// variable and at least one target is an MSVC triple, configuration binds
/// that variable to the fixed "all diagnostics off" value.
pub proof fn lemma_winedebug_set(
    m: Seq<(Seq<char>, Seq<char>)>,
    targets: Seq<Seq<char>>,
    ambient: Seq<Seq<char>>,
    i: int,
)
    requires
        0 <= i < targets.len(),
        is_msvc_triple(targets[i]),
        !ambient.contains("WINEDEBUG"@),
    ensures
        env_lookup(env_after_targets(m, targets, ambient), "WINEDEBUG"@) == Some("-all"@),
    decreases targets.len(),
{
    if i == 0 {
        let m1 = env_set(m, "WINEDEBUG"@, "-all"@);
        lemma_lookup_set_same(m, "WINEDEBUG"@, "-all"@);
        if !ambient.contains(runner_key_of(targets[0])) {
            lemma_runner_key_ne_winedebug(targets[0]);
            lemma_lookup_set_other(m1, runner_key_of(targets[0]), "wine"@, "WINEDEBUG"@);
        }
        assert(env_lookup(msvc_env_step(m, targets[0], ambient), "WINEDEBUG"@) == Some("-all"@));
        lemma_targets_keep_all_off(
            msvc_env_step(m, targets[0], ambient),
            targets.drop_first(),
            ambient,
        );
    } else {
        assert(targets.drop_first()[i - 1] == targets[i]);
        lemma_winedebug_set(
            msvc_env_step(m, targets[0], ambient),
            targets.drop_first(),
            ambient,
            i - 1,
        );
    }
}

/// Membership in a concatenation is membership in either part.
proof fn lemma_contains_concat(a: Seq<Seq<char>>, b: Seq<Seq<char>>, x: Seq<char>)
    ensures
        (a + b).contains(x) <==> a.contains(x) || b.contains(x),
{
    if a.contains(x) {
        let i = choose|i: int| 0 <= i < a.len() && a[i] == x;
        assert((a + b)[i] == x);
    }
    if b.contains(x) {
        let i = choose|i: int| 0 <= i < b.len() && b[i] == x;
        assert((a + b)[a.len() + i] == x);
    }
    if (a + b).contains(x) {
        let i = choose|i: int| 0 <= i < (a + b).len() && (a + b)[i] == x;
        if i < a.len() {
            assert(a[i] == x);
        } else {
            assert(b[i - a.len()] == x);
        }
    }
}

/// Membership of `x` among the forwarded arguments, part by part.
proof fn lemma_flag_args_membership(t: Test, x: Seq<char>)
    ensures
        flag_args(t).contains(x) <==> (doc_part(t).contains(x) || no_run_part(t).contains(x)
            || no_fail_fast_part(t).contains(x) || name_part(t).contains(x) || passthrough_part(
            t,
        ).contains(x)),
{
    let d = doc_part(t);
    let r = no_run_part(t);
    let f = no_fail_fast_part(t);
    let np = name_part(t);
    let pp = passthrough_part(t);
    lemma_contains_concat(d, r, x);
    lemma_contains_concat(d + r, f, x);
    lemma_contains_concat((d + r) + f, np, x);
    lemma_contains_concat(((d + r) + f) + np, pp, x);
}

/// A one-element sequence contains nothing but its element.
proof fn lemma_singleton_not_contains(x: Seq<char>, y: Seq<char>)
    requires
        x != y,
    ensures
        !seq![x].contains(y),
{
    assert forall|i: int| 0 <= i < seq![x].len() implies #[trigger] seq![x][i] != y by {
        assert(seq![x][i] == x);
    }
}

/// Flag forwarding is independent, first direction: whether the
/// documentation-tests flag appears among the forwarded arguments does not
/// depend on the fail-fast-suppression field.
pub proof fn lemma_doc_flag_independent(t1: Test, t2: Test)
    requires
        t1.doc == t2.doc,
        t1.no_run == t2.no_run,
        t1.test_name is Some <==> t2.test_name is Some,
        t1.test_name is Some ==> t1.test_name->0@ == t2.test_name->0@,
        strings_view(t1.args@) == strings_view(t2.args@),
    ensures
        flag_args(t1).contains("--doc"@) <==> flag_args(t2).contains("--doc"@),
{
    reveal_strlit("--doc");
    reveal_strlit("--no-fail-fast");
    lemma_flag_args_membership(t1, "--doc"@);
    lemma_flag_args_membership(t2, "--doc"@);
    assert(("--no-fail-fast"@).len() == 14);
    assert(("--doc"@).len() == 5);
    lemma_singleton_not_contains("--no-fail-fast"@, "--doc"@);
    assert(no_fail_fast_part(t1).contains("--doc"@) == false);
    assert(no_fail_fast_part(t2).contains("--doc"@) == false);
    assert(doc_part(t1) == doc_part(t2));
    assert(no_run_part(t1) == no_run_part(t2));
    assert(name_part(t1) == name_part(t2));
    assert(passthrough_part(t1) == passthrough_part(t2));
}

/// Flag forwarding is independent, second direction: whether the
/// fail-fast-suppression flag appears among the forwarded arguments does
/// not depend on the documentation-tests field.
pub proof fn lemma_no_fail_fast_flag_independent(t1: Test, t2: Test)
    requires
        t1.no_fail_fast == t2.no_fail_fast,
        t1.no_run == t2.no_run,
        t1.test_name is Some <==> t2.test_name is Some,
        t1.test_name is Some ==> t1.test_name->0@ == t2.test_name->0@,
        strings_view(t1.args@) == strings_view(t2.args@),
    ensures
        flag_args(t1).contains("--no-fail-fast"@) <==> flag_args(t2).contains("--no-fail-fast"@),
{
    reveal_strlit("--doc");
    reveal_strlit("--no-fail-fast");
    lemma_flag_args_membership(t1, "--no-fail-fast"@);
    lemma_flag_args_membership(t2, "--no-fail-fast"@);
    assert(("--no-fail-fast"@).len() == 14);
    assert(("--doc"@).len() == 5);
    lemma_singleton_not_contains("--doc"@, "--no-fail-fast"@);
    assert(doc_part(t1).contains("--no-fail-fast"@) == false);
    assert(doc_part(t2).contains("--no-fail-fast"@) == false);
    assert(no_fail_fast_part(t1) == no_fail_fast_part(t2));
    assert(no_run_part(t1) == no_run_part(t2));
    assert(name_part(t1) == name_part(t2));
    assert(passthrough_part(t1) == passthrough_part(t2));
}

/// Pass-through arguments, when present, stand at the very end of the
/// forwarded arguments: one separator marker, then every argument
/// verbatim and in its original order.
pub proof fn lemma_passthrough_tail(t: Test)
    requires
        t.args@.len() > 0,
    ensures
        flag_args(t).len() == doc_part(t).len() + no_run_part(t).len() + no_fail_fast_part(
            t,
        ).len() + name_part(t).len() + 1 + t.args@.len(),
        ({
            let k = flag_args(t).len() - t.args@.len() - 1;
            flag_args(t)[k] == "--"@ && forall|j: int|
                0 <= j < t.args@.len() ==> flag_args(t)[k + 1 + j] == t.args@[j]@
        }),
{
    let front = ((doc_part(t) + no_run_part(t)) + no_fail_fast_part(t)) + name_part(t);
    let pp = passthrough_part(t);
    let k = front.len() as int;
    assert(pp == seq!["--"@] + strings_view(t.args@));
    assert(pp.len() == 1 + t.args@.len());
    assert(flag_args(t) == front + pp);
    assert(flag_args(t)[k] == pp[0]);
    assert(pp[0] == "--"@);
    assert(forall|j: int|
        0 <= j < t.args@.len() ==> #[trigger] pp[1 + j] == strings_view(t.args@)[j]);
    assert(forall|j: int|
        0 <= j < t.args@.len() ==> #[trigger] flag_args(t)[k + 1 + j] == pp[1 + j]);
}

} // verus!

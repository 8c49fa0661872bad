//! The engine's laws: guarantees that hold across whole validation runs,
//! proved from the spec-level model of the engine.
use vstd::prelude::*;

use crate::ansible_module::{parse_internal, ArgumentValueView};
use crate::builder::{builder_args, builder_model, constraints_failure, msg_unknown,
    parse_spec_entries, reconcile, reconcile_one, seq_contains_value, type_check_failure,
    type_matches, unknown_keys, validation_outcome, ArgumentView, BuilderView};
use crate::json::{kv_has, kv_lookup, lemma_kv_lookup_has, JsonView};

verus! {

/// No two entries share a key.
pub open spec fn unique_keys<X>(s: Seq<(Seq<char>, X)>) -> bool {
    forall|i: int, j: int| 0 <= i < j < s.len() ==> s[i].0 != s[j].0
}

proof fn lemma_kv_lookup_some_index<X>(s: Seq<(Seq<char>, X)>, k: Seq<char>)
    requires
        kv_lookup(s, k) is Some,
    ensures
        exists|i: int|
            0 <= i < s.len() && s[i].0 == k && #[trigger] s[i].1 == kv_lookup(s, k)->Some_0,
    decreases s.len(),
{
    if s.len() > 0 {
        if s[0].0 == k {
            assert(s[0].0 == k && s[0].1 == kv_lookup(s, k)->Some_0);
        } else {
            lemma_kv_lookup_some_index(s.drop_first(), k);
            let i = choose|i: int|
                0 <= i < s.drop_first().len() && s.drop_first()[i].0 == k && #[trigger] s.drop_first()[i].1
                    == kv_lookup(s.drop_first(), k)->Some_0;
            assert(s[i + 1].0 == k && s[i + 1].1 == kv_lookup(s, k)->Some_0);
        }
    }
}

proof fn lemma_kv_lookup_none<X>(s: Seq<(Seq<char>, X)>, k: Seq<char>)
    requires
        forall|i: int| 0 <= i < s.len() ==> (#[trigger] s[i]).0 != k,
    ensures
        kv_lookup(s, k) is None,
    decreases s.len(),
{
    if s.len() > 0 {
        assert(forall|i: int|
            0 <= i < s.drop_first().len() ==> (#[trigger] s.drop_first()[i]).0 != k);
        lemma_kv_lookup_none(s.drop_first(), k);
    }
}

/// Every parameter that a passing reconciliation stores is declared in the
/// spec model.
proof fn lemma_reconcile_param_names(
    model: Seq<(Seq<char>, ArgumentView)>,
    args: Seq<(Seq<char>, JsonView)>,
    env: Seq<(Seq<char>, Seq<char>)>,
)
    requires
        reconcile(model, args, env) is Ok,
    ensures
        forall|i: int|
            0 <= i < reconcile(model, args, env)->Ok_0.params.len() ==> kv_has(
                model,
                (#[trigger] reconcile(model, args, env)->Ok_0.params[i]).0,
            ),
    decreases model.len(),
{
    if model.len() > 0 {
        let rest = reconcile(model.drop_first(), args, env);
        lemma_reconcile_param_names(model.drop_first(), args, env);
        let params = reconcile(model, args, env)->Ok_0.params;
        assert forall|i: int| 0 <= i < params.len() implies kv_has(
            model,
            (#[trigger] params[i]).0,
        ) by {
            let head = reconcile_one(model[0].0, model[0].1, args, env)->Ok_0;
            let offset: int = if head.0 is Some {
                1
            } else {
                0
            };
            if i < offset {
                assert(model[0].0 == params[i].0);
            } else {
                assert(params[i] == rest->Ok_0.params[i - offset]);
                assert(kv_has(model.drop_first(), params[i].0));
                let w = choose|w: int|
                    0 <= w < model.drop_first().len() && model.drop_first()[w].0 == params[i].0;
                assert(model[w + 1].0 == params[i].0);
            }
        }
    }
}

/// What reconciliation stores for a valid input: every required argument is
/// supplied, every supplied declared value passes its choices — then
/// reconciliation passes with nothing missing, and the parameter stored
/// under a declared name is the supplied value, or the default of an absent
/// argument, and nothing else is stored.
proof fn lemma_reconcile_valid(
    model: Seq<(Seq<char>, ArgumentView)>,
    args: Seq<(Seq<char>, JsonView)>,
    env: Seq<(Seq<char>, Seq<char>)>,
)
    requires
        unique_keys(model),
        forall|j: int|
            0 <= j < model.len() ==> ((#[trigger] model[j]).1.required ==> kv_has(
                args,
                model[j].0,
            )),
        forall|j: int|
            0 <= j < model.len() ==> (match kv_lookup(args, (#[trigger] model[j]).0) {
                Some(v) => match model[j].1.choices {
                    Some(cs) => seq_contains_value(cs, v),
                    None => true,
                },
                None => true,
            }),
    ensures
        reconcile(model, args, env) is Ok,
        reconcile(model, args, env)->Ok_0.missing.len() == 0,
        forall|i: int|
            0 <= i < reconcile(model, args, env)->Ok_0.params.len() ==> {
                let p = #[trigger] reconcile(model, args, env)->Ok_0.params[i];
                kv_lookup(model, p.0) matches Some(a) && p.1.no_log == a.no_log && (match kv_lookup(
                    args,
                    p.0,
                ) {
                    Some(v) => p.1.value == v,
                    None => a.default == Some(p.1.value),
                })
            },
        forall|k: Seq<char>|
            #![trigger kv_lookup(reconcile(model, args, env)->Ok_0.params, k)]
            {
                let found = kv_lookup(reconcile(model, args, env)->Ok_0.params, k);
                match kv_lookup(model, k) {
                    Some(a) => match kv_lookup(args, k) {
                        Some(v) => found == Some(ArgumentValueView { value: v, no_log: a.no_log }),
                        None => match a.default {
                            Some(d) => found == Some(
                                ArgumentValueView { value: d, no_log: a.no_log },
                            ),
                            None => found is None,
                        },
                    },
                    None => found is None,
                }
            },
    decreases model.len(),
{
    if model.len() == 0 {
        assert forall|k: Seq<char>|
            kv_lookup(
                #[trigger] reconcile(model, args, env)->Ok_0.params,
                k,
            ) is None by {}
    } else {
        let name = model[0].0;
        let a = model[0].1;
        lemma_kv_lookup_has(args, name);
        let head = reconcile_one(name, a, args, env);
        assert(head is Ok) by {
            if a.required {
                assert(model[0].1.required);
                assert(kv_has(args, name));
            }
        }
        let dropped = model.drop_first();
        assert(unique_keys(dropped)) by {
            assert forall|i: int, j: int| 0 <= i < j < dropped.len() implies dropped[i].0
                != dropped[j].0 by {
                assert(dropped[i] == model[i + 1]);
                assert(dropped[j] == model[j + 1]);
            }
        }
        assert forall|j: int| 0 <= j < dropped.len() implies ((#[trigger] dropped[j]).1.required
            ==> kv_has(args, dropped[j].0)) by {
            assert(dropped[j] == model[j + 1]);
        }
        assert forall|j: int| 0 <= j < dropped.len() implies (match kv_lookup(
            args,
            (#[trigger] dropped[j]).0,
        ) {
            Some(v) => match dropped[j].1.choices {
                Some(cs) => seq_contains_value(cs, v),
                None => true,
            },
            None => true,
        }) by {
            assert(dropped[j] == model[j + 1]);
        }
        lemma_reconcile_valid(dropped, args, env);
        let rest = reconcile(dropped, args, env)->Ok_0;
        let params = reconcile(model, args, env)->Ok_0.params;
        // The first model entry's name never reappears in the rest.
        assert forall|i: int| 0 <= i < rest.params.len() implies (#[trigger] rest.params[i]).0
            != name by {
            assert(kv_lookup(dropped, rest.params[i].0) is Some);
            lemma_kv_lookup_some_index(dropped, rest.params[i].0);
            let w = choose|w: int|
                0 <= w < dropped.len() && dropped[w].0 == rest.params[i].0 && #[trigger] dropped[w].1
                    == kv_lookup(dropped, rest.params[i].0)->Some_0;
            assert(dropped[w] == model[w + 1]);
        }
        let head_stored = head->Ok_0.0;
        assert forall|i: int| 0 <= i < params.len() implies {
            let p = #[trigger] params[i];
            kv_lookup(model, p.0) matches Some(ma) && p.1.no_log == ma.no_log && (match kv_lookup(
                args,
                p.0,
            ) {
                Some(v) => p.1.value == v,
                None => ma.default == Some(p.1.value),
            })
        } by {
            let offset: int = if head_stored is Some {
                1
            } else {
                0
            };
            if i < offset {
                assert(params[i] == (name, head_stored->Some_0));
                assert(kv_lookup(model, name) == Some(a));
            } else {
                assert(params[i] == rest.params[i - offset]);
                assert(params[i].0 != name);
                assert(kv_lookup(model, params[i].0) == kv_lookup(dropped, params[i].0));
            }
        }
        assert forall|k: Seq<char>|
            #![trigger kv_lookup(params, k)]
            {
                let found = kv_lookup(params, k);
                match kv_lookup(model, k) {
                    Some(ma) => match kv_lookup(args, k) {
                        Some(v) => found == Some(ArgumentValueView { value: v, no_log: ma.no_log }),
                        None => match ma.default {
                            Some(d) => found == Some(
                                ArgumentValueView { value: d, no_log: ma.no_log },
                            ),
                            None => found is None,
                        },
                    },
                    None => found is None,
                }
            } by {
            lemma_kv_lookup_has(args, k);
            if k == name {
                match head_stored {
                    Some(p) => {
                        assert(kv_lookup(params, k) == Some(p));
                    },
                    None => {
                        assert(kv_lookup(params, k) == kv_lookup(rest.params, k));
                        assert(forall|i: int|
                            0 <= i < rest.params.len() ==> (#[trigger] rest.params[i]).0 != k);
                        lemma_kv_lookup_none(rest.params, k);
                    },
                }
            } else {
                match head_stored {
                    Some(p) => {
                        let with_head = seq![(name, p)] + rest.params;
                        assert(params == with_head);
                        assert(with_head[0].0 == name);
                        assert(with_head.drop_first() =~= rest.params);
                        assert(kv_lookup(params, k) == kv_lookup(rest.params, k));
                    },
                    None => {
                        assert(kv_lookup(params, k) == kv_lookup(rest.params, k));
                    },
                }
                assert(kv_lookup(model, k) == kv_lookup(dropped, k));
            }
        }
    }
}

/// A type check passes when every stored parameter matches its declared
/// type.
proof fn lemma_type_check_ok(
    model: Seq<(Seq<char>, ArgumentView)>,
    params: Seq<(Seq<char>, ArgumentValueView)>,
)
    requires
        forall|i: int|
            0 <= i < params.len() ==> (match kv_lookup(model, (#[trigger] params[i]).0) {
                Some(a) => type_matches(a.value_type, params[i].1.value),
                None => true,
            }),
    ensures
        type_check_failure(model, params) is None,
    decreases params.len(),
{
    if params.len() > 0 {
        assert(match kv_lookup(model, (params[0]).0) {
            Some(a) => type_matches(a.value_type, params[0].1.value),
            None => true,
        });
        assert forall|i: int| 0 <= i < params.drop_first().len() implies (match kv_lookup(
            model,
            (#[trigger] params.drop_first()[i]).0,
        ) {
            Some(a) => type_matches(a.value_type, params.drop_first()[i].1.value),
            None => true,
        }) by {
            assert(params.drop_first()[i] == params[i + 1]);
        }
        lemma_type_check_ok(model, params.drop_first());
    }
}

/// No candidate key is unknown when each is stored.
proof fn lemma_unknown_keys_empty(
    args: Seq<(Seq<char>, JsonView)>,
    params: Seq<(Seq<char>, ArgumentValueView)>,
)
    requires
        forall|i: int| 0 <= i < args.len() ==> kv_has(params, (#[trigger] args[i]).0),
    ensures
        unknown_keys(args, params).len() == 0,
    decreases args.len(),
{
    if args.len() > 0 {
        assert forall|i: int| 0 <= i < args.drop_last().len() implies kv_has(
            params,
            (#[trigger] args.drop_last()[i]).0,
        ) by {
            assert(args.drop_last()[i] == args[i]);
        }
        lemma_unknown_keys_empty(args.drop_last(), params);
        assert(args.last() == args[args.len() - 1]);
    }
}

/// A candidate key that is not stored makes the unknown listing non-empty.
proof fn lemma_unknown_keys_nonempty(
    args: Seq<(Seq<char>, JsonView)>,
    params: Seq<(Seq<char>, ArgumentValueView)>,
    i: int,
)
    requires
        0 <= i < args.len(),
        !kv_has(params, args[i].0),
    ensures
        unknown_keys(args, params).len() > 0,
    decreases args.len(),
{
    if i == args.len() - 1 {
        assert(args.last() == args[i]);
    } else {
        assert(args.drop_last()[i] == args[i]);
        lemma_unknown_keys_nonempty(args.drop_last(), params, i);
    }
}

/// Idempotence law: validation is a function of the spec, the input, the
/// constraint groups and the environment alone.  Two builders with equal
/// views get identical outcomes, so validating the same data twice answers
/// the same — the engine keeps no state between calls.
pub proof fn lemma_validation_deterministic(a: BuilderView, b: BuilderView)
    requires
        a == b,
    ensures
        validation_outcome(a) == validation_outcome(b),
{
}

/// Validity law: when the input and the spec are JSON objects, the spec
/// parses into a model with unique names, no constraint group complains,
/// every required argument is supplied, every supplied declared value passes
/// its choices and its declared type, the default of every absent declared
/// argument passes its declared type, every candidate key is declared, and
/// the reserved input fields parse, then validation succeeds, and the
/// normalized mapping holds exactly the declared arguments that were
/// supplied or defaulted: a supplied one with its input value, an absent one
/// with its default, and nothing else.
pub proof fn lemma_valid_input_succeeds(b: BuilderView)
    requires
        b.input is Dict,
        b.argument_spec is Dict,
        parse_spec_entries(b.argument_spec->Dict_0) is Ok,
        unique_keys(builder_model(b)),
        constraints_failure(b, builder_model(b), builder_args(b)) is None,
        forall|j: int|
            0 <= j < builder_model(b).len() ==> ((#[trigger] builder_model(b)[j]).1.required
                ==> kv_has(builder_args(b), builder_model(b)[j].0)),
        forall|j: int|
            0 <= j < builder_model(b).len() ==> (match kv_lookup(
                builder_args(b),
                (#[trigger] builder_model(b)[j]).0,
            ) {
                Some(v) => (match builder_model(b)[j].1.choices {
                    Some(cs) => seq_contains_value(cs, v),
                    None => true,
                }) && type_matches(builder_model(b)[j].1.value_type, v),
                None => match builder_model(b)[j].1.default {
                    Some(d) => type_matches(builder_model(b)[j].1.value_type, d),
                    None => true,
                },
            }),
        forall|i: int|
            0 <= i < builder_args(b).len() ==> kv_has(
                builder_model(b),
                (#[trigger] builder_args(b)[i]).0,
            ),
        parse_internal(b.input->Dict_0) is Ok,
    ensures
        validation_outcome(b) is Ok,
        validation_outcome(b)->Ok_0.internal_params == parse_internal(b.input->Dict_0)->Ok_0,
        forall|k: Seq<char>|
            #![trigger kv_lookup(validation_outcome(b)->Ok_0.params, k)]
            {
                let found = kv_lookup(validation_outcome(b)->Ok_0.params, k);
                match kv_lookup(builder_model(b), k) {
                    Some(a) => match kv_lookup(builder_args(b), k) {
                        Some(v) => found == Some(ArgumentValueView { value: v, no_log: a.no_log }),
                        None => match a.default {
                            Some(d) => found == Some(
                                ArgumentValueView { value: d, no_log: a.no_log },
                            ),
                            None => found is None,
                        },
                    },
                    None => found is None,
                }
            },
{
    let model = builder_model(b);
    let args = builder_args(b);
    let env = b.environment;
    lemma_reconcile_valid(model, args, env);
    let rec = reconcile(model, args, env)->Ok_0;
    assert forall|i: int| 0 <= i < rec.params.len() implies (match kv_lookup(
        model,
        (#[trigger] rec.params[i]).0,
    ) {
        Some(a) => type_matches(a.value_type, rec.params[i].1.value),
        None => true,
    }) by {
        let p = rec.params[i];
        if kv_lookup(model, p.0) is Some {
            lemma_kv_lookup_some_index(model, p.0);
            let w = choose|w: int|
                0 <= w < model.len() && model[w].0 == p.0 && #[trigger] model[w].1 == kv_lookup(
                    model,
                    p.0,
                )->Some_0;
            assert(match kv_lookup(args, model[w].0) {
                Some(v) => type_matches(model[w].1.value_type, v),
                None => match model[w].1.default {
                    Some(d) => type_matches(model[w].1.value_type, d),
                    None => true,
                },
            });
        }
    }
    lemma_type_check_ok(model, rec.params);
    assert forall|i: int| 0 <= i < args.len() implies kv_has(
        rec.params,
        (#[trigger] args[i]).0,
    ) by {
        let k = args[i].0;
        assert(kv_has(model, k));
        lemma_kv_lookup_has(model, k);
        lemma_kv_lookup_has(args, k);
        assert(kv_lookup(rec.params, k) is Some) by {
            if kv_lookup(args, k) is None {
                assert(exists|w: int| 0 <= w < args.len() && args[w].0 == k);
                lemma_kv_lookup_has(args, k);
            }
        }
        lemma_kv_lookup_has(rec.params, k);
    }
    lemma_unknown_keys_empty(args, rec.params);
}

/// Unknown-key law: when validation reaches the unknown-argument phase — the
/// input and the spec are objects, the spec parses, no constraint group
/// complains, reconciliation passes with nothing missing and every stored
/// value well-typed — then a candidate key that the spec does not declare
/// always makes validation fail with the unknown-arguments message.
pub proof fn lemma_unknown_key_fails(b: BuilderView)
    requires
        b.input is Dict,
        b.argument_spec is Dict,
        parse_spec_entries(b.argument_spec->Dict_0) is Ok,
        constraints_failure(b, builder_model(b), builder_args(b)) is None,
        reconcile(builder_model(b), builder_args(b), b.environment) is Ok,
        reconcile(builder_model(b), builder_args(b), b.environment)->Ok_0.missing.len() == 0,
        type_check_failure(
            builder_model(b),
            reconcile(builder_model(b), builder_args(b), b.environment)->Ok_0.params,
        ) is None,
        exists|i: int|
            0 <= i < builder_args(b).len() && !kv_has(
                builder_model(b),
                (#[trigger] builder_args(b)[i]).0,
            ),
    ensures
        validation_outcome(b) == Err::<crate::ansible_module::AnsibleModuleView, Seq<char>>(
            msg_unknown(
                unknown_keys(
                    builder_args(b),
                    reconcile(builder_model(b), builder_args(b), b.environment)->Ok_0.params,
                ),
            ),
        ),
{
    let model = builder_model(b);
    let args = builder_args(b);
    let rec = reconcile(model, args, b.environment)->Ok_0;
    let i = choose|i: int|
        0 <= i < args.len() && !kv_has(model, (#[trigger] args[i]).0);
    lemma_reconcile_param_names(model, args, b.environment);
    assert(!kv_has(rec.params, args[i].0)) by {
        if kv_has(rec.params, args[i].0) {
            let w = choose|w: int| 0 <= w < rec.params.len() && rec.params[w].0 == args[i].0;
            assert(kv_has(model, rec.params[w].0));
        }
    }
    lemma_unknown_keys_nonempty(args, rec.params, i);
}

} // verus!

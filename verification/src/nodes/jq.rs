//! The JQ node: binds each declared input as a named variable, feeds the
//! first input as the filter's implicit input, runs a jq filter through
//! the `jaq` engine, and collects the results.

use vstd::prelude::*;
use vstd::string::StringExecFns;

use crate::data::{Input, State};
use crate::json::{clone_value, json_array, json_null, json_string};
use crate::nodes::get_string_param;
use crate::payload::{Payload, PayloadV};
use crate::strutil::utf8_to_string;

verus! {

#[verifier::external_type_specification]
#[verifier::external_body]
#[verifier::reject_recursive_types(V)]
pub struct ExFilter<V>(jaq_interpret::Filter<V>);

#[verifier::external_type_specification]
#[verifier::external_body]
pub struct ExParseCtx(jaq_interpret::ParseCtx);

#[verifier::external_type_specification]
#[verifier::external_body]
#[verifier::reject_recursive_types(F)]
pub struct ExMain<F>(jaq_syn::Main<F>);

#[verifier::external_type_specification]
#[verifier::external_body]
pub struct ExVal(jaq_interpret::Val);

#[verifier::external_type_specification]
#[verifier::external_body]
#[verifier::reject_recursive_types(V)]
pub struct ExJaqError<V>(jaq_interpret::Error<V>);

#[verifier::external_type_specification]
#[verifier::external_body]
#[verifier::reject_recursive_types(C)]
#[verifier::reject_recursive_types(V)]
#[verifier::reject_recursive_types(Num)]
pub struct ExSynFilter<C, V, Num>(jaq_syn::filter::Filter<C, V, Num>);

/// Whether `jaq_parse::parse` accepts the filter text without errors, a
/// function of the text alone.
pub uninterp spec fn jq_parse_ok(s: Seq<char>) -> bool;

/// Whether the engine accepts the input names as variables, a function of
/// the names alone.
pub uninterp spec fn jq_vars_ok(vars: Seq<Seq<char>>) -> bool;

/// Whether parsing the filter text yields a main filter, a function of
/// the text alone.
pub uninterp spec fn jq_main_ok(s: Seq<char>) -> bool;

/// Relies on `ParseCtx::new`, `ParseCtx::insert_natives` with the `jaq`
/// core filters, `ParseCtx::insert_defs` with its standard library, and
/// the public `errs` field: the definition context every filter is
/// compiled in, and whether the names were refused — a function of the
/// names alone.
#[verifier::external_body]
fn new_parse_ctx(vars: &Vec<String>) -> (r: (jaq_interpret::ParseCtx, bool))
    ensures
        r.1 == !jq_vars_ok(vars.deep_view()),
{
    let mut defs = jaq_interpret::ParseCtx::new(vars.clone());
    defs.insert_natives(jaq_core::core());
    defs.insert_defs(jaq_std::std());
    let refused = !defs.errs.is_empty();
    (defs, refused)
}

/// Relies on the public `errs` field of `ParseCtx`: whether the last
/// operation on the context left errors.
#[verifier::external_body]
fn parse_ctx_has_errs(ctx: &jaq_interpret::ParseCtx) -> (r: bool) {
    !ctx.errs.is_empty()
}

/// Relies on `jaq_parse::parse` with its `main` parser: the parsed filter,
/// and the parse errors rendered as text — none exactly when the text is
/// a well-formed filter.
#[verifier::external_body]
fn parse_filter_main(filter: &str) -> (r: (Option<jaq_syn::Main>, Vec<String>))
    ensures
        r.1@.len() == 0 <==> jq_parse_ok(filter@),
        r.0 is Some <==> jq_main_ok(filter@),
{
    let (main, errs) = jaq_parse::parse(filter, jaq_parse::main());
    (main, errs.into_iter().map(|e| e.to_string()).collect())
}

/// Relies on `ParseCtx::compile`: the compiled filter; errors are left on
/// the context.
#[verifier::external_body]
fn compile_filter(ctx: &mut jaq_interpret::ParseCtx, main: jaq_syn::Main) -> (r:
    jaq_interpret::Filter) {
    ctx.compile(main)
}

/// The error messages a filter execution gathered, in order.
pub struct Errors {
    items: Vec<String>,
}

impl View for Errors {
    type V = Seq<Seq<char>>;

    closed spec fn view(&self) -> Seq<Seq<char>> {
        self.items.deep_view()
    }
}

/// `items` joined with `sep` between each two.
pub open spec fn spec_join(items: Seq<Seq<char>>, sep: Seq<char>) -> Seq<char>
    decreases items.len(),
{
    if items.len() == 0 {
        Seq::empty()
    } else if items.len() == 1 {
        items[0]
    } else {
        spec_join(items.drop_last(), sep) + sep + items.last()
    }
}

impl Errors {
    pub fn new() -> (r: Errors)
        ensures
            r@.len() == 0,
    {
        let r = Errors { items: Vec::new() };
        proof {
            assert(r@ =~= Seq::<Seq<char>>::empty());
        }
        r
    }

    pub fn from_msg(msg: String) -> (r: Errors)
        ensures
            r@ =~= seq![msg@],
    {
        let mut items: Vec<String> = Vec::new();
        items.push(msg);
        Errors { items }
    }

    pub fn push(&mut self, e: String)
        ensures
            final(self)@ == old(self)@.push(e@),
    {
        let ghost pre = self@;
        self.items.push(e);
        proof {
            assert(self@ =~= pre.push(e@));
        }
    }

    pub fn is_empty(&self) -> (r: bool)
        ensures
            r == (self@.len() == 0),
    {
        self.items.len() == 0
    }

    pub fn into_inner(self) -> (r: Vec<String>)
        ensures
            r.deep_view() == self@,
    {
        self.items
    }

    /// The failed state these errors stand for: the messages joined with
    /// a comma, as an error payload.
    pub fn into_state(self) -> (r: State)
        ensures
            r@ == crate::data::StateV::Fail(
                Some(
                    PayloadV::Error(
                        if self@.len() == 0 {
                            "unknown jq error"@
                        } else {
                            spec_join(self@, ", "@)
                        },
                    ),
                ),
            ),
    {
        let msg = if self.items.len() == 0 {
            "unknown jq error".to_owned()
        } else {
            join_strings(&self.items, ", ")
        };
        State::Fail(Some(Payload::Error(msg)))
    }
}

/// Join strings with a separator, in order.
fn join_strings(items: &Vec<String>, sep: &str) -> (r: String)
    requires
        items@.len() > 0,
    ensures
        r@ == spec_join(items.deep_view(), sep@),
{
    let mut r = items[0].clone();
    let mut i: usize = 1;
    proof {
        assert(items.deep_view().take(1) =~= seq![items.deep_view()[0]]);
    }
    while i < items.len()
        invariant
            1 <= i <= items.len(),
            r@ == spec_join(items.deep_view().take(i as int), sep@),
        decreases items.len() - i,
    {
        r.append(sep);
        r.append(items[i].as_str());
        proof {
            assert(items.deep_view().take(i + 1).drop_last() =~= items.deep_view().take(i as int));
            assert(items.deep_view().take(i + 1).last() == items.deep_view()[i as int]);
        }
        i += 1;
    }
    proof {
        assert(items.deep_view().take(items.deep_view().len() as int) =~= items.deep_view());
    }
    r
}

/// The values the engine produced, in order.
pub open spec fn spec_ok_values(raw: Seq<Result<serde_json::Value, String>>) -> Seq<
    serde_json::Value,
>
    decreases raw.len(),
{
    if raw.len() == 0 {
        Seq::empty()
    } else {
        spec_ok_values(raw.drop_last()) + (match raw.last() {
            Ok(v) => seq![v],
            Err(_) => Seq::empty(),
        })
    }
}

/// The error texts the engine produced, in order.
pub open spec fn spec_err_texts(raw: Seq<Result<serde_json::Value, String>>) -> Seq<Seq<char>>
    decreases raw.len(),
{
    if raw.len() == 0 {
        Seq::empty()
    } else {
        spec_err_texts(raw.drop_last()) + (match raw.last() {
            Ok(_) => Seq::empty(),
            Err(e) => seq![e@],
        })
    }
}

/// Split the engine's produced items: the values in order, and the error
/// messages in order.
pub fn jq_collect(raw: &Vec<Result<serde_json::Value, String>>) -> (r: (
    Vec<serde_json::Value>,
    Vec<String>,
))
    ensures
        r.0@ == spec_ok_values(raw@),
        r.1.deep_view() == spec_err_texts(raw@),
{
    let mut results: Vec<serde_json::Value> = Vec::new();
    let mut errs: Vec<String> = Vec::new();
    let mut j: usize = 0;
    while j < raw.len()
        invariant
            0 <= j <= raw@.len(),
            results@ == spec_ok_values(raw@.take(j as int)),
            errs.deep_view() == spec_err_texts(raw@.take(j as int)),
        decreases raw@.len() - j,
    {
        let ghost pre_r = results@;
        let ghost pre_e = errs.deep_view();
        proof {
            assert(raw@.take(j + 1).drop_last() =~= raw@.take(j as int));
            assert(raw@.take(j + 1).last() == raw@[j as int]);
        }
        match &raw[j] {
            Ok(v) => {
                results.push(clone_value(v));
                proof {
                    assert(results@ =~= spec_ok_values(raw@.take(j + 1)));
                    assert(errs.deep_view() =~= spec_err_texts(raw@.take(j + 1)));
                }
            },
            Err(e) => {
                errs.push(e.clone());
                proof {
                    assert(results@ =~= spec_ok_values(raw@.take(j + 1)));
                    assert(errs.deep_view() =~= pre_e.push(raw@[j as int]->Err_0@));
                    assert(errs.deep_view() =~= spec_err_texts(raw@.take(j + 1)));
                }
            },
        }
        j += 1;
    }
    proof {
        assert(raw@.take(raw@.len() as int) =~= raw@);
    }
    (results, errs)
}

/// What an execution settles to, for each outcome: no produced value is
/// `Done` with no output, a single value is the payload itself, several
/// are wrapped as a JSON array, and errors fail the node with the joined
/// messages.
pub fn jq_outcome(exec_result: Result<Vec<serde_json::Value>, Errors>) -> (r: State)
    ensures
        exec_result matches Ok(results) ==> (if results@.len() == 0 {
            r@ == crate::data::StateV::Done(None::<PayloadV>)
        } else if results@.len() == 1 {
            r@ == crate::data::StateV::Done(Some(PayloadV::Json(results@[0])))
        } else {
            r@ matches crate::data::StateV::Done(Some(PayloadV::Json(_)))
        }),
        exec_result matches Err(errs) ==> r@ == crate::data::StateV::Fail(
            Some(
                PayloadV::Error(
                    if errs@.len() == 0 {
                        "unknown jq error"@
                    } else {
                        spec_join(errs@, ", "@)
                    },
                ),
            ),
        ),
{
    match exec_result {
        Ok(mut results) => {
            if results.len() == 0 {
                State::Done(None)
            } else if results.len() == 1 {
                match results.pop() {
                    Some(item) => State::Done(Some(Payload::Json(item))),
                    None => State::Done(None),
                }
            } else {
                State::Done(Some(Payload::Json(json_array(results))))
            }
        },
        Err(errs) => errs.into_state(),
    }
}

/// Bind the declared inputs as the engine's variable values, in order: a
/// JSON tree is handed over unchanged, raw UTF-8 bytes become a string,
/// an error payload or an absent slot binds null; a raw input that is not
/// UTF-8 binds null and gathers an error message.
pub fn jq_bindings(names: &Vec<String>, data: &[Option<&Payload>], errs: &mut Errors) -> (r: Vec<
    serde_json::Value,
>)
    requires
        data@.len() == names@.len(),
    ensures
        r@.len() == data@.len(),
        forall|i: int|
            0 <= i < data@.len() ==> (match (#[trigger] data@[i]).deep_view() {
                Some(PayloadV::Json(v)) => r@[i] == v,
                Some(PayloadV::Raw(b)) => crate::strutil::utf8_ok(b) ==> r@[i]
                    == crate::json::json_str_of(crate::strutil::utf8_of(b)),
                _ => true,
            }),
        (forall|i: int|
            0 <= i < data@.len() ==> (match (#[trigger] data@[i]).deep_view() {
                Some(PayloadV::Raw(b)) => crate::strutil::utf8_ok(b),
                _ => true,
            })) ==> final(errs)@ == old(errs)@,
{
    let mut vars: Vec<serde_json::Value> = Vec::new();
    let mut i: usize = 0;
    while i < data.len()
        invariant
            data@.len() == names@.len(),
            0 <= i <= data@.len(),
            vars@.len() == i,
            forall|j: int|
                0 <= j < i ==> (match (#[trigger] data@[j]).deep_view() {
                    Some(PayloadV::Json(v)) => vars@[j] == v,
                    Some(PayloadV::Raw(b)) => crate::strutil::utf8_ok(b) ==> vars@[j]
                        == crate::json::json_str_of(crate::strutil::utf8_of(b)),
                    _ => true,
                }),
            (forall|j: int|
                0 <= j < i ==> (match (#[trigger] data@[j]).deep_view() {
                    Some(PayloadV::Raw(b)) => crate::strutil::utf8_ok(b),
                    _ => true,
                })) ==> errs@ == old(errs)@,
        decreases data@.len() - i,
    {
        match data[i] {
            Some(p) => match p {
                Payload::Json(v) => {
                    vars.push(clone_value(v));
                },
                Payload::Raw(bytes) => match utf8_to_string(bytes.as_slice()) {
                    Ok(s) => {
                        vars.push(json_string(s));
                    },
                    Err(e) => {
                        let mut msg = String::new();
                        msg.append("jq: input for ");
                        msg.append(names[i].as_str());
                        msg.append(" is not valid UTF-8: ");
                        msg.append(e.as_str());
                        errs.push(msg);
                        vars.push(json_null());
                    },
                },
                Payload::Error(_) => {
                    vars.push(json_null());
                },
            },
            None => {
                vars.push(json_null());
            },
        }
        i += 1;
    }
    vars
}

pub struct JqConfig {
    pub filter: String,
    pub inputs: Vec<String>,
}

impl JqConfig {
    /// The mandatory `filter` parameter; a node without one is rejected.
    pub fn from_params(
        inputs: &Vec<String>,
        params: &Vec<(String, serde_json::Value)>,
    ) -> (r: Result<JqConfig, String>)
        ensures
            r matches Err(e) ==> e@ == "no filter specified"@,
            (forall|p: int| 0 <= p < params@.len() ==> (#[trigger] params@[p]).0@ != "filter"@)
                ==> r is Err,
            r is Ok ==> (exists|p: int|
                0 <= p < params@.len() && (#[trigger] params@[p]).0@ == "filter"@),
    {
        match get_string_param(params, "filter") {
            Some(filter) => Ok(JqConfig { filter, inputs: inputs.clone() }),
            None => Err("no filter specified".to_owned()),
        }
    }
}

pub struct Jq {
    inputs: Vec<String>,
    filter: jaq_interpret::Filter,
}

impl Jq {
    /// The number of inputs the filter was declared with.
    pub closed spec fn arity(&self) -> nat {
        self.inputs@.len()
    }

    /// Relies on `Ctx::new`, `RcIter::new` and `FilterT::run`: runs the
    /// compiled filter with the given variable bindings over the given
    /// input, yielding each produced value or its error rendered as text.
    /// The engine looks variables up by position, so exactly as many
    /// values must be bound as the filter was compiled with; a recursive
    /// filter may not return, matching the engine's own semantics.
    #[verifier::external_body]
    fn run_filter(&self, vars: Vec<serde_json::Value>, input: serde_json::Value) -> (r: Vec<
        Result<serde_json::Value, String>,
    >)
        requires
            vars@.len() == self.arity(),
    {
        let iter = jaq_interpret::RcIter::new(core::iter::empty());
        let ctx = jaq_interpret::Ctx::new(vars.into_iter().map(jaq_interpret::Val::from), &iter);
        jaq_interpret::FilterT::run(&self.filter, (ctx, jaq_interpret::Val::from(input))).map(
            |item| match item {
                Ok(v) => Ok(v.into()),
                Err(e) => Err(e.to_string()),
            },
        ).collect()
    }

    /// Compile `filter` in a context where each input name is a variable.
    /// A filter that does not parse is rejected as `invalid filter`; input
    /// names or compilation the engine refuses are rejected with their own
    /// messages.
    pub fn new(filter: &str, inputs: Vec<String>) -> (r: Result<Jq, String>)
        ensures
            !jq_parse_ok(filter@) ==> r is Err,
            r matches Err(e) ==> (e@ == "failed parsing filter inputs"@ || e@ == "invalid filter"@
                || e@ == "parsed filter contains no main handler"@ || e@
                == "filter compilation failed"@),
            r matches Ok(j) ==> j.arity() == inputs@.len(),
            !jq_vars_ok(inputs.deep_view()) ==> (r matches Err(e) && e@
                == "failed parsing filter inputs"@),
            (jq_vars_ok(inputs.deep_view()) && !jq_parse_ok(filter@)) ==> (r matches Err(e) && e@
                == "invalid filter"@),
            (jq_vars_ok(inputs.deep_view()) && jq_parse_ok(filter@) && !jq_main_ok(filter@))
                ==> (r matches Err(e) && e@ == "parsed filter contains no main handler"@),
            (jq_vars_ok(inputs.deep_view()) && jq_parse_ok(filter@) && jq_main_ok(filter@)) ==> (
            r is Ok || (r matches Err(e) && e@ == "filter compilation failed"@)),
    {
        let (mut defs, vars_refused) = new_parse_ctx(&inputs);
        if vars_refused {
            return Err("failed parsing filter inputs".to_owned());
        }
        let (parsed, errs) = parse_filter_main(filter);
        if errs.len() != 0 {
            return Err("invalid filter".to_owned());
        }
        let parsed = match parsed {
            Some(p) => p,
            None => {
                return Err("parsed filter contains no main handler".to_owned());
            },
        };
        let compiled = compile_filter(&mut defs, parsed);
        if parse_ctx_has_errs(&defs) {
            return Err("filter compilation failed".to_owned());
        }
        Ok(Jq { inputs, filter: compiled })
    }

    pub fn from_config(config: &JqConfig) -> (r: Result<Jq, String>)
        ensures
            !jq_parse_ok(config.filter@) ==> r is Err,
            r matches Ok(j) ==> j.arity() == config.inputs@.len(),
    {
        Jq::new(config.filter.as_str(), config.inputs.clone())
    }

    /// Run the filter: each declared input becomes a variable (a JSON
    /// tree directly, raw bytes as a UTF-8 string, an error payload or a
    /// missing slot as null), the first input is the implicit input, and
    /// the produced values are collected. Any binding or filter error
    /// fails the execution with the gathered messages.
    pub fn exec(&self, inputs: &[Option<&Payload>]) -> (r: Result<
        Vec<serde_json::Value>,
        Errors,
    >)
        ensures
            inputs@.len() != self.arity() ==> (r matches Err(errs) && errs@ == seq![
                "invalid number of inputs, expected: "@ + crate::strutil::spec_dec(self.arity())
                    + ", got: "@ + crate::strutil::spec_dec(inputs@.len()),
            ]),
    {
        if inputs.len() != self.inputs.len() {
            let mut msg = String::new();
            msg.append("invalid number of inputs, expected: ");
            msg.append(crate::strutil::usize_to_string(self.inputs.len()).as_str());
            msg.append(", got: ");
            msg.append(crate::strutil::usize_to_string(inputs.len()).as_str());
            proof {
                assert(msg@ =~= "invalid number of inputs, expected: "@
                    + crate::strutil::spec_dec(self.arity()) + ", got: "@
                    + crate::strutil::spec_dec(inputs@.len()));
            }
            let r = Errors::from_msg(msg);
            proof {
                assert(r@ =~= seq![
                    "invalid number of inputs, expected: "@ + crate::strutil::spec_dec(
                        self.arity(),
                    ) + ", got: "@ + crate::strutil::spec_dec(inputs@.len()),
                ]);
            }
            return Err(r);
        }

        let mut errs = Errors::new();
        let vars = jq_bindings(&self.inputs, inputs, &mut errs);

        let dot: serde_json::Value = if inputs.len() >= 1 {
            match inputs[0] {
                Some(p) => match p {
                    Payload::Json(v) => clone_value(v),
                    Payload::Raw(bytes) => match utf8_to_string(bytes.as_slice()) {
                        Ok(s) => json_string(s),
                        Err(_) => json_null(),
                    },
                    Payload::Error(_) => json_null(),
                },
                None => json_null(),
            }
        } else {
            json_null()
        };

        let raw = self.run_filter(vars, dot);
        let (results, errtexts) = jq_collect(&raw);
        let mut j: usize = 0;
        while j < errtexts.len()
            decreases errtexts@.len() - j,
        {
            errs.push(errtexts[j].clone());
            j += 1;
        }

        if !errs.is_empty() {
            return Err(errs);
        }
        Ok(results)
    }

    /// Fire the node: no produced value means `Done` with no output, a
    /// single value is returned unwrapped, several are wrapped as a JSON
    /// array; errors fail the node with their joined messages.
    pub fn run(&self, input: &Input<'_>) -> (r: State)
        ensures
            r@ is Done || r@ is Fail,
            input.data@.len() != self.arity() ==> r@ is Fail,
    {
        jq_outcome(self.exec(input.data))
    }
}

} // verus!

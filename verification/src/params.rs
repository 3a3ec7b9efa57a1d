//! Parameter lists: how a function's parameters are presented to the body
//! compiler, the expressions evaluated while binding them, and the capture
//! analysis that must precede the parameter prologue.
use vstd::prelude::*;
use vstd::string::StringExecFns;
use crate::ast::{BindingPattern, BindingProperty, Expression, Function, PropertyKey, Statement};
use crate::cells::{has_key, CellMap};
use crate::emitter::FunctionBodyContext;
use crate::names::{
    collect_binding_pattern_names, collect_own_binding_names, own_binds, pattern_binds, pattern_names, stmts_declare,
};
use crate::nameset::NameSet;
use crate::syntax::{arguments_name, arguments_obj_needed, suppresses_arguments};
use crate::upvalues::{binding_captured, collect_captured_bindings};

verus! {

/// The decimal digits of `n`.
pub open spec fn decimal(n: nat) -> Seq<char>
    decreases n,
{
    if n < 10 {
        seq![digit_char(n)]
    } else {
        decimal(n / 10).push(digit_char(n % 10))
    }
}

/// The digit character for `d` (below ten).
pub open spec fn digit_char(d: nat) -> char {
    if d == 0 {
        '0'
    } else if d == 1 {
        '1'
    } else if d == 2 {
        '2'
    } else if d == 3 {
        '3'
    } else if d == 4 {
        '4'
    } else if d == 5 {
        '5'
    } else if d == 6 {
        '6'
    } else if d == 7 {
        '7'
    } else if d == 8 {
        '8'
    } else {
        '9'
    }
}

/// Appends the digit `d` (below ten).
fn append_digit(out: &mut String, d: usize)
    requires
        d < 10,
    ensures
        final(out)@ == old(out)@.push(digit_char(d as nat)),
{
    proof {
        reveal_strlit("0");
        reveal_strlit("1");
        reveal_strlit("2");
        reveal_strlit("3");
        reveal_strlit("4");
        reveal_strlit("5");
        reveal_strlit("6");
        reveal_strlit("7");
        reveal_strlit("8");
        reveal_strlit("9");
    }
    let s = if d == 0 {
        "0"
    } else if d == 1 {
        "1"
    } else if d == 2 {
        "2"
    } else if d == 3 {
        "3"
    } else if d == 4 {
        "4"
    } else if d == 5 {
        "5"
    } else if d == 6 {
        "6"
    } else if d == 7 {
        "7"
    } else if d == 8 {
        "8"
    } else {
        "9"
    };
    out.append(s);
    assert(out@ =~= old(out)@.push(digit_char(d as nat)));
}

/// Appends the decimal digits of `n`.
pub fn append_decimal(out: &mut String, n: usize)
    ensures
        final(out)@ == old(out)@ + decimal(n as nat),
    decreases n,
{
    if n < 10 {
        append_digit(out, n);
        assert(old(out)@.push(digit_char(n as nat)) =~= old(out)@ + decimal(n as nat));
    } else {
        append_decimal(out, n / 10);
        append_digit(out, n % 10);
        assert(old(out)@ + decimal((n / 10) as nat) + seq![digit_char((n % 10) as nat)] =~= old(out)@ + decimal(
            n as nat,
        ));
    }
}

/// The synthetic register name of the destructuring parameter at position `idx`.
pub open spec fn synthetic_param_name(idx: nat) -> Seq<char> {
    "@@param_"@ + decimal(idx)
}

/// Builds the synthetic register name of the parameter at position `idx`.
pub fn synthetic_param(idx: usize) -> (s: String)
    ensures
        s@ == synthetic_param_name(idx as nat),
{
    let mut s = String::from_str("@@param_");
    append_decimal(&mut s, idx);
    s
}

/// How a parameter is bound: a plain identifier (with its default, if
/// any), a destructuring pattern bound through a synthetic register name,
/// or a rest parameter (an identifier; no default, always last).
pub enum ParamSpec<'a> {
    Identifier { name: String, initializer: Option<&'a Expression> },
    Pattern { synthetic_name: String, pattern: &'a BindingPattern, initializer: Option<&'a Expression> },
    Rest { name: String },
}

/// The register name of a parameter.
pub open spec fn param_register_name(p: ParamSpec) -> Seq<char> {
    match p {
        ParamSpec::Identifier { name, .. } => name@,
        ParamSpec::Pattern { synthetic_name, .. } => synthetic_name@,
        ParamSpec::Rest { name } => name@,
    }
}

impl<'a> ParamSpec<'a> {
    /// The name under which the parameter's register is declared.
    pub fn register_name(&self) -> (r: &str)
        ensures
            r@ == param_register_name(*self),
    {
        match self {
            ParamSpec::Identifier { name, .. } => name.as_str(),
            ParamSpec::Pattern { synthetic_name, .. } => synthetic_name.as_str(),
            ParamSpec::Rest { name } => name.as_str(),
        }
    }
}

/// `o` refers to the same optional expression as `e`.
pub open spec fn same_opt_expr(o: Option<&Expression>, e: Option<Expression>) -> bool {
    match o {
        Some(x) => e == Some(*x),
        None => e is None,
    }
}

/// The message for a destructuring rest parameter.
pub open spec fn rest_pattern_message() -> Seq<char> {
    "rest parameters with destructuring patterns not yet supported"@
}

/// Appends the rest parameter `argument`; only an identifier is supported.
pub fn push_rest_param<'a>(argument: &'a BindingPattern, out: &mut Vec<ParamSpec<'a>>) -> (r: Result<(), String>)
    ensures
        match *argument {
            BindingPattern::Identifier(n) => r is Ok && final(out)@.len() == old(out)@.len() + 1
                && final(out)@.drop_last() == old(out)@ && (final(out)@.last() matches ParamSpec::Rest { name }
                && name@ == n@),
            _ => r matches Err(e) && e@ == rest_pattern_message() && final(out)@ == old(out)@,
        },
{
    match argument {
        BindingPattern::Identifier(n) => {
            out.push(ParamSpec::Rest { name: n.clone() });
            assert(out@.drop_last() =~= old(out)@);
            Ok(())
        },
        _ => Err(String::from_str("rest parameters with destructuring patterns not yet supported")),
    }
}

/// The parameter at position `idx` is presented as `p`: an identifier
/// pattern as itself, any other pattern under its synthetic name.
pub open spec fn param_spec_matches(p: ParamSpec, f: Function, idx: int) -> bool {
    let item = f.params.items@[idx];
    match item.pattern {
        BindingPattern::Identifier(n) => p matches ParamSpec::Identifier { name, initializer } && name@ == n@
            && same_opt_expr(initializer, item.initializer),
        _ => p matches ParamSpec::Pattern { synthetic_name, pattern, initializer } && synthetic_name@
            == synthetic_param_name(idx as nat) && *pattern == item.pattern && same_opt_expr(
            initializer,
            item.initializer,
        ),
    }
}

/// A function's parameters as `ParamSpec`s, in order, with the rest
/// parameter last, and its body statements (none for a function without a
/// body). A destructuring rest parameter is refused.
pub fn extract_function_parts<'a>(function: &'a Function) -> (r: Result<(Vec<ParamSpec<'a>>, &'a [Statement]), String>)
    ensures
        match function.params.rest {
            Some(BindingPattern::Identifier(_)) => r is Ok,
            Some(_) => r matches Err(e) && e@ == rest_pattern_message(),
            None => r is Ok,
        },
        r matches Ok((specs, body)) ==> {
            &&& specs@.len() == function.params.items@.len() + if function.params.rest is Some {
                1int
            } else {
                0int
            }
            &&& forall|i: int| 0 <= i < function.params.items@.len() ==> param_spec_matches(#[trigger] specs@[i], *function, i)
            &&& (function.params.rest matches Some(BindingPattern::Identifier(n)) ==> (specs@.last() matches ParamSpec::Rest {
                name,
            } && name@ == n@))
            &&& body@ == match function.body {
                Some(b) => b@,
                None => Seq::empty(),
            }
        },
{
    let mut specs: Vec<ParamSpec<'a>> = Vec::new();
    let items = &function.params.items;
    let mut idx: usize = 0;
    while idx < items.len()
        invariant
            idx <= items@.len(),
            specs@.len() == idx,
            items@ == function.params.items@,
            forall|i: int| 0 <= i < idx ==> param_spec_matches(#[trigger] specs@[i], *function, i),
        decreases items.len() - idx,
    {
        let param = &items[idx];
        let initializer = match &param.initializer {
            Some(e) => Some(e),
            None => None,
        };
        match &param.pattern {
            BindingPattern::Identifier(n) => {
                specs.push(ParamSpec::Identifier { name: n.clone(), initializer });
            },
            pattern => {
                specs.push(ParamSpec::Pattern { synthetic_name: synthetic_param(idx), pattern, initializer });
            },
        }
        assert(param_spec_matches(specs@[idx as int], *function, idx as int));
        idx += 1;
    }
    if let Some(rest) = &function.params.rest {
        let ghost before = specs@;
        match push_rest_param(rest, &mut specs) {
            Ok(()) => {
                assert forall|i: int| 0 <= i < function.params.items@.len() implies param_spec_matches(
                    #[trigger] specs@[i],
                    *function,
                    i,
                ) by {
                    assert(specs@[i] == before[i]);
                }
            },
            Err(e) => {
                return Err(e);
            },
        }
    }
    let body: &'a [Statement] = match &function.body {
        Some(b) => b.as_slice(),
        None => &[],
    };
    Ok((specs, body))
}

/// The expressions a binding pattern evaluates while binding: each default
/// value (before the defaults inside it) and each computed key, in source order.
pub open spec fn pattern_defaults(p: BindingPattern) -> Seq<Expression>
    decreases p,
{
    match p {
        BindingPattern::Identifier(_) => Seq::empty(),
        BindingPattern::Assignment { left, right } => seq![*right] + pattern_defaults(*left),
        BindingPattern::Array { elements, rest } => pelement_defaults(elements@) + (match rest {
            Some(r) => pattern_defaults(*r),
            None => Seq::empty(),
        }),
        BindingPattern::Object { properties, rest } => bprop_defaults(properties@) + (match rest {
            Some(r) => pattern_defaults(*r),
            None => Seq::empty(),
        }),
    }
}

/// The expressions evaluated by array pattern elements.
pub open spec fn pelement_defaults(es: Seq<Option<BindingPattern>>) -> Seq<Expression>
    decreases es,
{
    if es.len() == 0 {
        Seq::empty()
    } else {
        (match es[0] {
            Some(p) => pattern_defaults(p),
            None => Seq::empty(),
        }) + pelement_defaults(es.subrange(1, es.len() as int))
    }
}

/// The expressions evaluated by object pattern properties: a computed key,
/// then the value pattern's.
pub open spec fn bprop_defaults(ps: Seq<BindingProperty>) -> Seq<Expression>
    decreases ps,
{
    if ps.len() == 0 {
        Seq::empty()
    } else {
        key_default(ps[0].key) + pattern_defaults(ps[0].value) + bprop_defaults(ps.subrange(1, ps.len() as int))
    }
}

/// The expression a property key evaluates: a computed key's.
pub open spec fn key_default(k: PropertyKey) -> Seq<Expression> {
    match k {
        PropertyKey::Computed(e) => seq![*e],
        _ => Seq::empty(),
    }
}

/// The expressions a list of references points at.
pub open spec fn deref_all(v: Seq<&Expression>) -> Seq<Expression> {
    v.map_values(|e: &Expression| *e)
}

/// Appends the expressions a binding pattern evaluates while binding (these
/// run in the function's scope, so nested closures in them take part in
/// capture analysis).
#[verifier::loop_isolation(false)]
pub fn collect_pattern_default_exprs<'a>(pattern: &'a BindingPattern, out: &mut Vec<&'a Expression>)
    ensures
        deref_all(final(out)@) == deref_all(old(out)@) + pattern_defaults(*pattern),
    decreases pattern,
{
    match pattern {
        BindingPattern::Identifier(_) => {
            assert(deref_all(old(out)@) + Seq::<Expression>::empty() =~= deref_all(old(out)@));
        },
        BindingPattern::Assignment { left, right } => {
            out.push(right);
            assert(deref_all(out@) =~= deref_all(old(out)@) + seq![**right]);
            collect_pattern_default_exprs(left, out);
            assert(deref_all(old(out)@) + seq![**right] + pattern_defaults(**left) =~= deref_all(old(out)@)
                + pattern_defaults(*pattern));
        },
        BindingPattern::Array { elements, rest } => {
            let ghost base = deref_all(old(out)@);
            let mut i: usize = 0;
            assert(elements@.skip(0) =~= elements@);
            let ghost mut done: Seq<Expression> = Seq::empty();
            assert(done + pelement_defaults(elements@.skip(0)) =~= pelement_defaults(elements@));
            while i < elements.len()
                invariant
                    i <= elements@.len(),
                    deref_all(out@) == base + done,
                    done + pelement_defaults(elements@.skip(i as int)) == pelement_defaults(elements@),
                decreases elements.len() - i,
            {
                let ghost here = match elements@[i as int] {
                    Some(p) => pattern_defaults(p),
                    None => Seq::empty(),
                };
                proof {
                    assert(elements@.skip(i as int)[0] == elements@[i as int]);
                    assert(elements@.skip(i as int).subrange(1, elements@.skip(i as int).len() as int) =~= elements@.skip(
                        i + 1,
                    ));
                    assert(done + here + pelement_defaults(elements@.skip(i + 1)) =~= pelement_defaults(elements@));
                }
                if let Some(p) = &elements[i] {
                    proof {
                        assert(decreases_to!(*pattern => elements@[i as int]));
                    }
                    collect_pattern_default_exprs(p, out);
                }
                proof {
                    assert(base + done + here =~= base + (done + here));
                    done = done + here;
                }
                i += 1;
            }
            let ghost tail = match rest {
                Some(r) => pattern_defaults(**r),
                None => Seq::empty(),
            };
            if let Some(r) = rest {
                collect_pattern_default_exprs(r, out);
            }
            assert(elements@.skip(elements@.len() as int) =~= Seq::<Option<BindingPattern>>::empty());
            assert(done + Seq::<Expression>::empty() =~= done);
            assert(base + done + tail =~= base + pattern_defaults(*pattern));
        },
        BindingPattern::Object { properties, rest } => {
            let ghost base = deref_all(old(out)@);
            let mut i: usize = 0;
            assert(properties@.skip(0) =~= properties@);
            let ghost mut done: Seq<Expression> = Seq::empty();
            assert(done + bprop_defaults(properties@.skip(0)) =~= bprop_defaults(properties@));
            while i < properties.len()
                invariant
                    i <= properties@.len(),
                    deref_all(out@) == base + done,
                    done + bprop_defaults(properties@.skip(i as int)) == bprop_defaults(properties@),
                decreases properties.len() - i,
            {
                let prop = &properties[i];
                let ghost key_part = key_default(prop.key);
                let ghost here = key_part + pattern_defaults(prop.value);
                proof {
                    assert(properties@.skip(i as int)[0] == properties@[i as int]);
                    assert(properties@.skip(i as int).subrange(1, properties@.skip(i as int).len() as int)
                        =~= properties@.skip(i + 1));
                    assert(done + here + bprop_defaults(properties@.skip(i + 1)) =~= bprop_defaults(properties@));
                    assert(decreases_to!(*pattern => properties@[i as int]));
                }
                if let PropertyKey::Computed(e) = &prop.key {
                    out.push(e);
                }
                assert(deref_all(out@) =~= base + done + key_part);
                collect_pattern_default_exprs(&prop.value, out);
                proof {
                    assert(base + done + key_part + pattern_defaults(prop.value) =~= base + (done + here));
                    done = done + here;
                }
                i += 1;
            }
            let ghost tail = match rest {
                Some(r) => pattern_defaults(**r),
                None => Seq::empty(),
            };
            if let Some(r) = rest {
                collect_pattern_default_exprs(r, out);
            }
            assert(properties@.skip(properties@.len() as int) =~= Seq::<BindingProperty>::empty());
            assert(done + Seq::<Expression>::empty() =~= done);
            assert(base + done + tail =~= base + pattern_defaults(*pattern));
        },
    }
}

/// The expressions evaluated while binding the parameter `p`: its default,
/// then (for a pattern) the pattern's defaults and computed keys.
pub open spec fn spec_param_defaults(p: ParamSpec) -> Seq<Expression> {
    match p {
        ParamSpec::Identifier { initializer, .. } => match initializer {
            Some(e) => seq![*e],
            None => Seq::empty(),
        },
        ParamSpec::Pattern { pattern, initializer, .. } => (match initializer {
            Some(e) => seq![*e],
            None => Seq::empty(),
        }) + pattern_defaults(*pattern),
        ParamSpec::Rest { .. } => Seq::empty(),
    }
}

/// The expressions evaluated while binding a parameter list, in order.
pub open spec fn params_defaults(ps: Seq<ParamSpec>) -> Seq<Expression>
    decreases ps.len(),
{
    if ps.len() == 0 {
        Seq::empty()
    } else {
        params_defaults(ps.drop_last()) + spec_param_defaults(ps.last())
    }
}

/// The parameter defaults (and the defaults and computed keys inside
/// parameter patterns) of a parameter list, in order.
pub fn param_default_exprs<'a>(param_specs: &[ParamSpec<'a>]) -> (out: Vec<&'a Expression>)
    ensures
        deref_all(out@) == params_defaults(param_specs@),
{
    let mut out: Vec<&'a Expression> = Vec::new();
    let mut i: usize = 0;
    assert(deref_all(out@) =~= Seq::<Expression>::empty());
    assert(param_specs@.take(0) =~= Seq::<ParamSpec>::empty());
    while i < param_specs.len()
        invariant
            i <= param_specs@.len(),
            deref_all(out@) == params_defaults(param_specs@.take(i as int)),
        decreases param_specs.len() - i,
    {
        let ghost before = deref_all(out@);
        proof {
            assert(param_specs@.take(i + 1).drop_last() =~= param_specs@.take(i as int));
            assert(param_specs@.take(i + 1).last() == param_specs@[i as int]);
        }
        match &param_specs[i] {
            ParamSpec::Identifier { initializer, .. } => {
                if let Some(e) = initializer {
                    out.push(*e);
                }
                assert(deref_all(out@) =~= before + spec_param_defaults(param_specs@[i as int]));
            },
            ParamSpec::Pattern { pattern, initializer, .. } => {
                if let Some(e) = initializer {
                    out.push(*e);
                }
                let ghost mid = deref_all(out@);
                assert(mid =~= before + (match initializer {
                    Some(e) => seq![**e],
                    None => Seq::empty(),
                }));
                collect_pattern_default_exprs(pattern, &mut out);
                assert(deref_all(out@) =~= before + spec_param_defaults(param_specs@[i as int]));
            },
            ParamSpec::Rest { .. } => {
                assert(deref_all(out@) =~= before + spec_param_defaults(param_specs@[i as int]));
            },
        }
        i += 1;
    }
    assert(param_specs@.take(param_specs@.len() as int) =~= param_specs@);
    out
}

/// `n` is bound in the function scope: by a parameter register name, a
/// top-level declaration of the body, or a leaf of a destructuring
/// parameter.
pub open spec fn prologue_binds(ps: Seq<ParamSpec>, body: Seq<Statement>, n: Seq<char>) -> bool {
    ||| exists|k: int| 0 <= k < ps.len() && param_register_name(#[trigger] ps[k]) == n
    ||| stmts_declare(body, n)
    ||| exists|i: int|
        0 <= i < ps.len() && (#[trigger] ps[i] matches ParamSpec::Pattern { pattern, .. } && pattern_binds(*pattern, n))
}

/// The results of the capture analysis that precedes a parameter prologue.
pub struct PrologueAnalysis<'a> {
    /// The parameter defaults and the defaults and computed keys inside
    /// parameter patterns, in order.
    pub param_defaults: Vec<&'a Expression>,
    /// The names bound in the function scope (`arguments` included when the
    /// automatic object is created).
    pub own_bindings: NameSet,
    /// Whether the function gets the automatic `arguments` object.
    pub arguments_needed: bool,
    /// The captured bindings of the function, with their cells.
    pub captured_bindings: CellMap,
    /// The expressions analysed beside the body: the parameter defaults,
    /// then the field initializers.
    pub capture_exprs: Vec<&'a Expression>,
}

/// The analysis that the parameter prologue of a function body runs before
/// any instruction: the parameter default expressions, the function's own
/// bindings, whether an `arguments` object is created (never for an arrow
/// function; otherwise as `arguments_obj_needed` decides, with parameter
/// expressions present when any default exists), and the captured bindings
/// of the body, the defaults and `extra_capture_exprs` (field initializers)
/// taken together.
pub fn analyze_prologue<'a>(
    param_specs: &[ParamSpec<'a>],
    body_stmts: &Vec<Statement>,
    param_names: &NameSet,
    body_context: FunctionBodyContext,
    extra_capture_exprs: &[&'a Expression],
) -> (a: PrologueAnalysis<'a>)
    ensures
        deref_all(a.param_defaults@) == params_defaults(param_specs@),
        a.arguments_needed == (!(body_context is Arrow) && !param_names@.contains(arguments_name()) && forall|i: int|
            0 <= i < body_stmts@.len() ==> !suppresses_arguments(
                #[trigger] body_stmts@[i],
                params_defaults(param_specs@).len() > 0,
            )),
        forall|n: Seq<char>| #[trigger] a.own_bindings@.contains(n) == (prologue_binds(param_specs@, body_stmts@, n)
            || (a.arguments_needed && n == arguments_name())),
        a.captured_bindings.wf(),
        forall|n: Seq<char>| #[trigger] has_key(a.captured_bindings@, n) <==> binding_captured(
            body_stmts@,
            a.param_defaults@ + extra_capture_exprs@,
            a.own_bindings@,
            n,
        ),
        forall|i: int| 0 <= i < a.captured_bindings@.len() ==> (#[trigger] a.captured_bindings@[i]).1 == (i % 256) as u8,
        a.capture_exprs@ == a.param_defaults@ + extra_capture_exprs@,
{
    let param_defaults = param_default_exprs(param_specs);
    let mut names: Vec<&str> = Vec::new();
    let mut i: usize = 0;
    while i < param_specs.len()
        invariant
            i <= param_specs@.len(),
            names@.len() == i,
            forall|j: int| 0 <= j < i ==> (#[trigger] names@[j])@ == param_register_name(param_specs@[j]),
        decreases param_specs.len() - i,
    {
        names.push(param_specs[i].register_name());
        i += 1;
    }
    let mut own_bindings = collect_own_binding_names(names.as_slice(), body_stmts);
    assert forall|n: Seq<char>| own_binds(names@, body_stmts@, n) == ((exists|q: int|
        0 <= q < param_specs@.len() && param_register_name(#[trigger] param_specs@[q]) == n) || stmts_declare(body_stmts@, n)) by {
        if exists|q: int| 0 <= q < param_specs@.len() && param_register_name(#[trigger] param_specs@[q]) == n {
            let q = choose|q: int| 0 <= q < param_specs@.len() && param_register_name(#[trigger] param_specs@[q]) == n;
            assert(names@[q]@ == n);
        }
        if exists|q: int| 0 <= q < names@.len() && #[trigger] names@[q]@ == n {
            let q = choose|q: int| 0 <= q < names@.len() && #[trigger] names@[q]@ == n;
            assert(param_register_name(param_specs@[q]) == n);
        }
    }
    let mut k: usize = 0;
    while k < param_specs.len()
        invariant
            k <= param_specs@.len(),
            forall|n: Seq<char>| #[trigger] own_bindings@.contains(n) == (own_binds(names@, body_stmts@, n) || exists|j: int|
                0 <= j < k && (#[trigger] param_specs@[j] matches ParamSpec::Pattern { pattern, .. } && pattern_binds(
                    *pattern,
                    n,
                ))),
        decreases param_specs.len() - k,
    {
        let ghost before = own_bindings@;
        if let ParamSpec::Pattern { pattern, .. } = &param_specs[k] {
            collect_binding_pattern_names(pattern, &mut own_bindings);
            assert forall|n: Seq<char>| #[trigger] own_bindings@.contains(n) == (before.contains(n) || pattern_binds(**pattern, n)) by {
                assert(pattern_names(**pattern).contains(n) == pattern_binds(**pattern, n));
            }
        }
        assert forall|n: Seq<char>| #[trigger] own_bindings@.contains(n) == (own_binds(names@, body_stmts@, n) || exists|j: int|
            0 <= j < k + 1 && (#[trigger] param_specs@[j] matches ParamSpec::Pattern { pattern, .. } && pattern_binds(
                *pattern,
                n,
            ))) by {
            if exists|j: int|
                0 <= j < k + 1 && (#[trigger] param_specs@[j] matches ParamSpec::Pattern { pattern, .. } && pattern_binds(
                    *pattern,
                    n,
                )) {
                let j = choose|j: int|
                    0 <= j < k + 1 && (#[trigger] param_specs@[j] matches ParamSpec::Pattern { pattern, .. }
                        && pattern_binds(*pattern, n));
                if j < k {
                }
            }
        }
        k += 1;
    }
    let has_param_exprs = param_defaults.len() > 0;
    let arguments_needed = match body_context {
        FunctionBodyContext::Arrow => false,
        _ => arguments_obj_needed(body_stmts, param_names, has_param_exprs),
    };
    if arguments_needed {
        own_bindings.insert("arguments");
    }
    let mut capture_exprs: Vec<&'a Expression> = Vec::new();
    let mut d: usize = 0;
    while d < param_defaults.len()
        invariant
            d <= param_defaults@.len(),
            capture_exprs@ == param_defaults@.take(d as int),
        decreases param_defaults.len() - d,
    {
        capture_exprs.push(param_defaults[d]);
        assert(param_defaults@.take(d + 1) =~= param_defaults@.take(d as int).push(param_defaults@[d as int]));
        d += 1;
    }
    assert(param_defaults@.take(param_defaults@.len() as int) =~= param_defaults@);
    assert(param_defaults@ + extra_capture_exprs@.take(0) =~= param_defaults@);
    let mut e: usize = 0;
    while e < extra_capture_exprs.len()
        invariant
            e <= extra_capture_exprs@.len(),
            capture_exprs@ == param_defaults@ + extra_capture_exprs@.take(e as int),
        decreases extra_capture_exprs.len() - e,
    {
        capture_exprs.push(extra_capture_exprs[e]);
        assert(param_defaults@ + extra_capture_exprs@.take(e + 1) =~= (param_defaults@ + extra_capture_exprs@.take(
            e as int,
        )).push(extra_capture_exprs@[e as int]));
        e += 1;
    }
    assert(extra_capture_exprs@.take(extra_capture_exprs@.len() as int) =~= extra_capture_exprs@);
    let captured_bindings = collect_captured_bindings(body_stmts, capture_exprs.as_slice(), &own_bindings);
    PrologueAnalysis { param_defaults, own_bindings, arguments_needed, captured_bindings, capture_exprs }
}

} // verus!

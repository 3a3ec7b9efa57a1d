//! Literal checks and constants: BigInt literals (parsed by `num-bigint`),
//! string literal constants, and regular expression literals (validated by
//! `regress` with ECMAScript syntax).
use vstd::prelude::*;
use vstd::string::StringExecFns;
use crate::ast::StringLiteral;
use crate::ctx::{st_alloc, st_inst, CompileCtx, ConstKey, Constant, EmitState};
use crate::emit_ops::{emitted, load_const_state};
use crate::emitter::Emitter;
use crate::inst::{Inst, OpCode, Operand};
use crate::keys::{marker_key, plain_key, pool_key_marker, pool_key_plain};

verus! {

/// `c` is a decimal digit.
pub open spec fn is_dec(c: char) -> bool {
    '0' <= c <= '9'
}

/// The digits of a BigInt text after its optional sign.
pub open spec fn bigint_body(t: Seq<char>) -> Seq<char> {
    if t.len() > 0 && (t[0] == '-' || t[0] == '+') {
        t.skip(1)
    } else {
        t
    }
}

/// Radix-10 text that `num_bigint` reads as a BigInt: an optional `+` or
/// `-`, then a digit, then digits and `_` separators.
pub open spec fn bigint_text_ok(t: Seq<char>) -> bool {
    let b = bigint_body(t);
    b.len() > 0 && is_dec(b[0]) && forall|i: int| 0 <= i < b.len() ==> is_dec(#[trigger] b[i]) || b[i] == '_'
}

/// The value of a digit string, `_` separators skipped.
pub open spec fn digits_int(s: Seq<char>) -> int
    decreases s.len(),
{
    if s.len() == 0 {
        0
    } else if s.last() == '_' {
        digits_int(s.drop_last())
    } else {
        digits_int(s.drop_last()) * 10 + (s.last() as int - '0' as int)
    }
}

/// The value of a BigInt text.
pub open spec fn bigint_text_value(t: Seq<char>) -> int {
    if t.len() > 0 && t[0] == '-' {
        -digits_int(bigint_body(t))
    } else {
        digits_int(bigint_body(t))
    }
}

/// The decimal digits of natural number `n`, without leading zeros.
pub open spec fn nat_text(n: nat) -> Seq<char>
    decreases n,
{
    let d = ((n % 10) + '0' as nat) as char;
    if n < 10 {
        seq![d]
    } else {
        nat_text(n / 10).push(d)
    }
}

/// The canonical decimal text of integer `v` (a `-` for a negative value).
pub open spec fn int_text(v: int) -> Seq<char> {
    if v < 0 {
        seq!['-'] + nat_text((-v) as nat)
    } else {
        nat_text(v as nat)
    }
}

/// The canonical decimal text of the BigInt that `num_bigint` reads from
/// `text` in radix 10, or `None` where it reads none.
pub open spec fn bigint_decimal(text: Seq<char>) -> Option<Seq<char>> {
    if bigint_text_ok(text) {
        Some(int_text(bigint_text_value(text)))
    } else {
        None
    }
}

/// Parses `text` as a radix-10 BigInt with `num_bigint::BigInt::parse_bytes`
/// (`BigInt::from_str_radix`: an optional `-`, then `BigUint::from_str_radix`:
/// an optional `+`, a first character that is not `_`, then digits, `_`
/// skipped) and renders the value with its `Display` impl: the canonical
/// decimal, `-` before a negative value, `0` for zero.
#[verifier::external_body]
fn parse_bigint_decimal(text: &str) -> (r: Option<String>)
    ensures
        r is Some <==> bigint_text_ok(text@),
        r matches Some(s) ==> s@ == int_text(bigint_text_value(text@)),
{
    match num_bigint::BigInt::parse_bytes(text.as_bytes(), 10) {
        Some(v) => Some(v.to_string()),
        None => None,
    }
}

/// The message for a BigInt literal that does not parse.
pub open spec fn bigint_error_message(text: Seq<char>) -> Seq<char> {
    "BigInt literal out of range: "@ + text
}

/// The constant for a BigInt literal given the parser's reading of its
/// digits: the value when there is one, the out-of-range error otherwise.
pub fn bigint_constant_from(text: &str, parsed: Option<String>) -> (r: Result<Constant, String>)
    ensures
        match parsed {
            Some(d) => r matches Ok(c) && c@ == ConstKey::BigInt(d@),
            None => r matches Err(e) && e@ == bigint_error_message(text@),
        },
{
    match parsed {
        Some(d) => Ok(Constant::BigInt(d)),
        None => {
            let mut m = String::from_str("BigInt literal out of range: ");
            m.append(text);
            Err(m)
        },
    }
}

/// The constant for the BigInt literal with decimal digits `text`.
pub fn bigint_literal_constant(text: &str) -> (r: Result<Constant, String>)
    ensures
        match bigint_decimal(text@) {
            Some(d) => r matches Ok(c) && c@ == ConstKey::BigInt(d),
            None => r matches Err(e) && e@ == bigint_error_message(text@),
        },
{
    let parsed = parse_bigint_decimal(text);
    bigint_constant_from(text, parsed)
}

/// The constant for a string literal: its value in pool-key form.
pub fn string_literal_constant(s: &StringLiteral) -> (c: Constant)
    ensures
        c@ == ConstKey::String(marker_key(s.value@, s.lone_surrogates)),
{
    Constant::String(pool_key_marker(s.value.as_str(), s.lone_surrogates))
}

/// Whether regress accepts `pattern` with the JavaScript flags `flags`.
pub uninterp spec fn regex_accepts(pattern: Seq<char>, flags: Seq<char>) -> bool;

/// Compiles `pattern` with `flags` through `regress::Regex::with_flags` and
/// reports whether it succeeded; the contract claims only that the answer is
/// the named function of the two texts.
#[verifier::external_body]
fn regex_compiles(pattern: &str, flags: &str) -> (ok: bool)
    ensures
        ok == regex_accepts(pattern@, flags@),
{
    regress::Regex::with_flags(pattern, flags).is_ok()
}

/// The position of the last `/` in `s`.
pub open spec fn last_slash(s: Seq<char>) -> int {
    choose|i: int| 0 <= i < s.len() && s[i] == '/' && forall|j: int| i < j < s.len() ==> s[j] != '/'
}

/// `s` has the shape of a regular expression literal's source: at least two
/// characters, the first a `/`.
pub open spec fn slash_delimited(s: Seq<char>) -> bool {
    s.len() >= 2 && s[0] == '/'
}

/// The message for a regular expression literal that is absent or not
/// `/`-delimited, naming its source text when there is one.
pub open spec fn unsupported_regexp_message(raw: Option<Seq<char>>) -> Seq<char> {
    match raw {
        Some(s) => "unsupported regexp literal: "@ + s,
        None => "unsupported regexp literal"@,
    }
}

/// The message for a regular expression that regress refuses.
pub open spec fn invalid_regexp_message(pattern: Seq<char>, flags: Seq<char>) -> Seq<char> {
    "SyntaxError: Invalid regular expression: /"@ + pattern + "/"@ + flags
}

/// The outcome of regress's verdict `accepted` on `pattern` with `flags`:
/// the pattern and flags when accepted, the SyntaxError message otherwise.
pub fn regexp_verdict(pattern: &str, flags: &str, accepted: bool) -> (r: Result<(String, String), String>)
    ensures
        if accepted {
            r matches Ok((p, f)) && p@ == pattern@ && f@ == flags@
        } else {
            r matches Err(e) && e@ == invalid_regexp_message(pattern@, flags@)
        },
{
    if !accepted {
        let mut m = String::from_str("SyntaxError: Invalid regular expression: /");
        m.append(pattern);
        m.append("/");
        m.append(flags);
        proof {
            reveal_strlit("SyntaxError: Invalid regular expression: /");
            reveal_strlit("/");
        }
        return Err(m);
    }
    Ok((pattern.to_owned(), flags.to_owned()))
}

/// The pattern and flags of a regular expression literal's source text,
/// checked with regress. A source that is absent or not `/`-delimited is
/// unsupported; a pattern regress refuses is a SyntaxError.
pub fn regexp_literal_source(raw: &Option<String>) -> (r: Result<(String, String), String>)
    requires
        match *raw {
            Some(s) => slash_delimited(s@) ==> exists|i: int| 0 < i < s@.len() && s@[i] == '/',
            None => true,
        },
    ensures
        match *raw {
            Some(s) => if slash_delimited(s@) {
                let k = last_slash(s@);
                let pattern = s@.subrange(1, k);
                let flags = s@.subrange(k + 1, s@.len() as int);
                if regex_accepts(pattern, flags) {
                    r matches Ok((p, f)) && p@ == pattern && f@ == flags
                } else {
                    r matches Err(e) && e@ == invalid_regexp_message(pattern, flags)
                }
            } else {
                r matches Err(e) && e@ == unsupported_regexp_message(Some(s@))
            },
            None => r matches Err(e) && e@ == unsupported_regexp_message(None),
        },
{
    match raw {
        Some(s) => {
            let text = s.as_str();
            let n = text.unicode_len();
            if n >= 2 && text.get_char(0) == '/' {
                let mut k: usize = n - 1;
                while text.get_char(k) != '/'
                    invariant
                        n == text@.len(),
                        0 < k < n,
                        text@[0] == '/',
                        exists|i: int| 0 < i < text@.len() && text@[i] == '/',
                        forall|j: int| k < j < n ==> text@[j] != '/',
                    decreases k,
                {
                    proof {
                        if k == 1 {
                            let i = choose|i: int| 0 < i < text@.len() && text@[i] == '/';
                            assert(i <= k);
                        }
                    }
                    k -= 1;
                }
                proof {
                    let c = last_slash(text@);
                    assert(0 <= k < text@.len() && text@[k as int] == '/' && forall|j: int|
                        k < j < text@.len() ==> text@[j] != '/');
                    if c != k {
                        if c < k {
                            assert(text@[k as int] != '/');
                        } else {
                            assert(text@[c] != '/');
                        }
                    }
                }
                let pattern = text.substring_char(1, k);
                let flags = text.substring_char(k + 1, n);
                regexp_verdict(pattern, flags, regex_compiles(pattern, flags))
            } else {
                let mut m = String::from_str("unsupported regexp literal: ");
                m.append(text);
                Err(m)
            }
        },
        None => Err(String::from_str("unsupported regexp literal")),
    }
}

/// A regular expression literal with pattern key `pattern_key` and flags
/// (in pool-key form) loaded as strings and the object created into a
/// fresh register.
pub open spec fn regexp_key_state(s: EmitState, pattern_key: Seq<char>, flags: Seq<char>) -> (EmitState, u32) {
    let (s1, p) = load_const_state(s, ConstKey::String(pattern_key));
    let (s2, f) = load_const_state(s1, ConstKey::String(plain_key(flags)));
    let r = s2.next_reg as u32;
    (st_inst(st_alloc(s2), Inst::Op { op: OpCode::CreateRegexp, a: Operand::Reg(r), b: Operand::Reg(p), c: Operand::Reg(f) }), r)
}

/// A regular expression literal with pattern and flags (in pool-key form)
/// loaded as strings and the object created into a fresh register.
pub open spec fn regexp_state(s: EmitState, pattern: Seq<char>, flags: Seq<char>) -> (EmitState, u32) {
    let (s1, p) = load_const_state(s, ConstKey::String(plain_key(pattern)));
    let (s2, f) = load_const_state(s1, ConstKey::String(plain_key(flags)));
    let r = s2.next_reg as u32;
    (st_inst(st_alloc(s2), Inst::Op { op: OpCode::CreateRegexp, a: Operand::Reg(r), b: Operand::Reg(p), c: Operand::Reg(f) }), r)
}

impl Emitter {
    /// Loads a string literal (its value in pool-key form) into a fresh register.
    pub fn emit_string_literal_expression(&self, s: &StringLiteral, ctx: &mut CompileCtx) -> (r: u32)
        requires
            old(ctx).wf(),
            old(ctx).next_reg + 1 < u32::MAX,
        ensures
            emitted(*old(ctx), *final(ctx)),
            (final(ctx).emit_state(), r) == load_const_state(
                old(ctx).emit_state(),
                ConstKey::String(marker_key(s.value@, s.lone_surrogates)),
            ),
    {
        let idx = ctx.add_constant(string_literal_constant(s));
        let r = ctx.alloc_reg();
        ctx.inst(Inst::LoadConst { dst: Operand::Reg(r), idx });
        r
    }

    /// Loads a boolean literal into a fresh register.
    pub fn emit_boolean_literal_expression(&self, value: bool, ctx: &mut CompileCtx) -> (r: u32)
        requires
            old(ctx).wf(),
            old(ctx).next_reg + 1 < u32::MAX,
        ensures
            emitted(*old(ctx), *final(ctx)),
            (final(ctx).emit_state(), r) == load_const_state(old(ctx).emit_state(), ConstKey::Boolean(value)),
    {
        let idx = ctx.add_constant(Constant::Boolean(value));
        let r = ctx.alloc_reg();
        ctx.inst(Inst::LoadConst { dst: Operand::Reg(r), idx });
        r
    }

    /// Loads `null` into a fresh register.
    pub fn emit_null_literal_expression(&self, ctx: &mut CompileCtx) -> (r: u32)
        requires
            old(ctx).wf(),
            old(ctx).next_reg + 1 < u32::MAX,
        ensures
            emitted(*old(ctx), *final(ctx)),
            (final(ctx).emit_state(), r) == load_const_state(old(ctx).emit_state(), ConstKey::Null),
    {
        let idx = ctx.add_constant(Constant::Null);
        let r = ctx.alloc_reg();
        ctx.inst(Inst::LoadConst { dst: Operand::Reg(r), idx });
        r
    }

    /// Loads constant `c` into a fresh register (a numeric literal's
    /// constant, once its value has been classified).
    pub fn emit_constant_load(&self, c: Constant, ctx: &mut CompileCtx) -> (reg: u32)
        requires
            old(ctx).wf(),
            old(ctx).next_reg + 1 < u32::MAX,
        ensures
            emitted(*old(ctx), *final(ctx)),
            (final(ctx).emit_state(), reg) == load_const_state(old(ctx).emit_state(), c@),
    {
        let idx = ctx.add_constant(c);
        let reg = ctx.alloc_reg();
        ctx.inst(Inst::LoadConst { dst: Operand::Reg(reg), idx });
        reg
    }

    /// Loads a BigInt literal with decimal digits `text` into a fresh
    /// register, or returns the out-of-range error (emitting nothing).
    pub fn emit_bigint_literal_expression(&self, text: &str, ctx: &mut CompileCtx) -> (r: Result<u32, String>)
        requires
            old(ctx).wf(),
            old(ctx).next_reg + 1 < u32::MAX,
        ensures
            emitted(*old(ctx), *final(ctx)),
            match bigint_decimal(text@) {
                Some(d) => r matches Ok(reg) && (final(ctx).emit_state(), reg) == load_const_state(
                    old(ctx).emit_state(),
                    ConstKey::BigInt(d),
                ),
                None => r matches Err(e) && e@ == bigint_error_message(text@) && final(ctx).emit_state() == old(
                    ctx,
                ).emit_state(),
            },
    {
        let c = bigint_literal_constant(text)?;
        let idx = ctx.add_constant(c);
        let r = ctx.alloc_reg();
        ctx.inst(Inst::LoadConst { dst: Operand::Reg(r), idx });
        Ok(r)
    }

    /// Emits a regular expression literal from its source text `raw`: the
    /// pattern and flags (checked by `regexp_literal_source`) are loaded in
    /// pool-key form and the object created. Source text that was not
    /// re-encoded is assumed (`source_encoded` off).
    pub fn emit_reg_exp_literal_expression(&self, raw: &Option<String>, ctx: &mut CompileCtx) -> (r: Result<u32, String>)
        requires
            old(ctx).wf(),
            !old(ctx).source_encoded,
            old(ctx).next_reg + 3 < u32::MAX,
            match *raw {
                Some(s) => slash_delimited(s@) ==> exists|i: int| 0 < i < s@.len() && s@[i] == '/',
                None => true,
            },
        ensures
            emitted(*old(ctx), *final(ctx)),
            match *raw {
                Some(s) => if slash_delimited(s@) {
                    let k = last_slash(s@);
                    let pattern = s@.subrange(1, k);
                    let flags = s@.subrange(k + 1, s@.len() as int);
                    if regex_accepts(pattern, flags) {
                        r matches Ok(reg) && (final(ctx).emit_state(), reg) == regexp_state(old(ctx).emit_state(), pattern, flags)
                    } else {
                        r matches Err(e) && e@ == invalid_regexp_message(pattern, flags) && final(ctx).emit_state() == old(
                            ctx,
                        ).emit_state()
                    }
                } else {
                    r matches Err(e) && e@ == unsupported_regexp_message(Some(s@)) && final(ctx).emit_state() == old(
                        ctx,
                    ).emit_state()
                },
                None => r matches Err(e) && e@ == unsupported_regexp_message(None) && final(ctx).emit_state() == old(
                    ctx,
                ).emit_state(),
            },
    {
        let (pattern, flags) = regexp_literal_source(raw)?;
        let pat_key = pool_key_plain(pattern.as_str());
        let flags_key = pool_key_plain(flags.as_str());
        let pat_idx = ctx.add_constant(Constant::String(pat_key));
        let pat_reg = ctx.alloc_reg();
        ctx.inst(Inst::LoadConst { dst: Operand::Reg(pat_reg), idx: pat_idx });
        let flags_idx = ctx.add_constant(Constant::String(flags_key));
        let flags_reg = ctx.alloc_reg();
        ctx.inst(Inst::LoadConst { dst: Operand::Reg(flags_reg), idx: flags_idx });
        let r = ctx.alloc_reg();
        ctx.inst(Inst::Op { op: OpCode::CreateRegexp, a: Operand::Reg(r), b: Operand::Reg(pat_reg), c: Operand::Reg(flags_reg) });
        Ok(r)
    }

    /// Emits a regular expression literal whose source text was re-encoded
    /// (`source_encoded`): the source is checked as by
    /// `regexp_literal_source`, and the pattern is loaded as `pattern_key`,
    /// the pool key that the source-escape decoding gives for the pattern
    /// (escapes of lone surrogates turned back into marker form); the flags
    /// are loaded in plain pool-key form.
    pub fn emit_reg_exp_literal_with_pattern_key(
        &self,
        raw: &Option<String>,
        pattern_key: &str,
        ctx: &mut CompileCtx,
    ) -> (r: Result<u32, String>)
        requires
            old(ctx).wf(),
            old(ctx).next_reg + 3 < u32::MAX,
            match *raw {
                Some(s) => slash_delimited(s@) ==> exists|i: int| 0 < i < s@.len() && s@[i] == '/',
                None => true,
            },
        ensures
            emitted(*old(ctx), *final(ctx)),
            match *raw {
                Some(s) => if slash_delimited(s@) {
                    let k = last_slash(s@);
                    let pattern = s@.subrange(1, k);
                    let flags = s@.subrange(k + 1, s@.len() as int);
                    if regex_accepts(pattern, flags) {
                        r matches Ok(reg) && (final(ctx).emit_state(), reg) == regexp_key_state(
                            old(ctx).emit_state(),
                            pattern_key@,
                            flags,
                        )
                    } else {
                        r matches Err(e) && e@ == invalid_regexp_message(pattern, flags) && final(ctx).emit_state() == old(
                            ctx,
                        ).emit_state()
                    }
                } else {
                    r matches Err(e) && e@ == unsupported_regexp_message(Some(s@)) && final(ctx).emit_state() == old(
                        ctx,
                    ).emit_state()
                },
                None => r matches Err(e) && e@ == unsupported_regexp_message(None) && final(ctx).emit_state() == old(
                    ctx,
                ).emit_state(),
            },
    {
        let (_pattern, flags) = regexp_literal_source(raw)?;
        let flags_key = pool_key_plain(flags.as_str());
        let pat_idx = ctx.add_constant(Constant::String(pattern_key.to_owned()));
        let pat_reg = ctx.alloc_reg();
        ctx.inst(Inst::LoadConst { dst: Operand::Reg(pat_reg), idx: pat_idx });
        let flags_idx = ctx.add_constant(Constant::String(flags_key));
        let flags_reg = ctx.alloc_reg();
        ctx.inst(Inst::LoadConst { dst: Operand::Reg(flags_reg), idx: flags_idx });
        let r = ctx.alloc_reg();
        ctx.inst(Inst::Op { op: OpCode::CreateRegexp, a: Operand::Reg(r), b: Operand::Reg(pat_reg), c: Operand::Reg(flags_reg) });
        Ok(r)
    }
}

} // verus!

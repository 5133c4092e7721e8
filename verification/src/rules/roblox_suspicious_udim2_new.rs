//! Flags `UDim2.new(...)` calls that pass fewer than the four numbers the
//! constructor takes, suggesting `UDim2.fromScale` or `UDim2.fromOffset`
//! where the arguments look like a pair of scales or offsets. Only runs
//! against the Roblox standard library.

use vstd::prelude::*;
use crate::ast::{Ast, Call, Expression, ExpressionKind, FunctionArgs, FunctionCall, Index, Prefix,
    Suffix};
use crate::ast_util::visit::{gather_ast, gathered_of};
use crate::rules::{Context, Diagnostic, Label, RuleError, RuleType, Severity, SpecDiagnostic,
    SpecLabel};
use crate::text::{decimal_string, spec_decimal};

verus! {

/// The position of the first `.` in `t` at or after `i`, if any.
pub open spec fn sp_first_dot_from(t: Seq<char>, i: int) -> Option<int>
    decreases t.len() - i,
{
    if i < 0 || i >= t.len() {
        None
    } else if t[i] == '.' {
        Some(i)
    } else {
        sp_first_dot_from(t, i + 1)
    }
}

/// Every character of `t` in `lo..hi` is a decimal digit.
pub open spec fn sp_all_digits_range(t: Seq<char>, lo: int, hi: int) -> bool {
    forall|k: int| lo <= k < hi ==> '0' <= #[trigger] t[k] <= '9'
}

/// Every character of `t` in `lo..hi` is `0`.
pub open spec fn sp_all_zero_range(t: Seq<char>, lo: int, hi: int) -> bool {
    forall|k: int| lo <= k < hi ==> #[trigger] t[k] == '0'
}

/// Whether digits `0..int_hi` and `frac_lo..len` of `t` form a decimal
/// number in the unit interval: all digits, at least one of them, and a
/// value of at most one — a zero integer part, or exactly one.
pub open spec fn sp_unit_parts(t: Seq<char>, int_hi: int, frac_lo: int) -> bool {
    sp_all_digits_range(t, 0, int_hi) && sp_all_digits_range(t, frac_lo, t.len() as int) && int_hi
        + (t.len() - frac_lo) >= 1 && (sp_all_zero_range(t, 0, int_hi) || (int_hi >= 1 && t[int_hi
        - 1] == '1' && sp_all_zero_range(t, 0, int_hi - 1) && sp_all_zero_range(
        t,
        frac_lo,
        t.len() as int,
    )))
}

/// Whether a numeric literal's text denotes a value between zero and one.
pub open spec fn sp_num_in_unit(t: Seq<char>) -> bool {
    match sp_first_dot_from(t, 0) {
        Some(k) => sp_unit_parts(t, k, k + 1),
        None => sp_unit_parts(t, t.len() as int, t.len() as int),
    }
}

/// Decides `sp_num_in_unit` over a token's text.
fn num_in_unit(t: &String) -> (r: bool)
    ensures
        r == sp_num_in_unit(t@),
{
    let s = t.as_str();
    let len = s.unicode_len();
    let mut dot: usize = len;
    let ghost tv = t@;
    let mut i: usize = 0;
    while i < len && dot == len
        invariant
            i <= len,
            len == tv.len(),
            s@ == tv,
            dot == len || (dot == i && dot < len && tv[dot as int] == '.'),
            dot == len ==> sp_first_dot_from(tv, 0) == sp_first_dot_from(tv, i as int),
            dot < len ==> sp_first_dot_from(tv, 0) == Some(dot as int),
        decreases len - i + (if dot == len { 1int } else { 0int }),
    {
        let c = s.get_char(i);
        if c == '.' {
            dot = i;
        } else {
            i += 1;
        }
    }
    let int_hi: usize = if dot < len {
        dot
    } else {
        len
    };
    let frac_lo: usize = if dot < len {
        dot + 1
    } else {
        len
    };
    proof {
        if dot < len {
            assert(sp_first_dot_from(tv, 0) == Some(dot as int));
        } else {
            assert(sp_first_dot_from(tv, 0) is None);
        }
    }
    if int_hi + (len - frac_lo) < 1 {
        return false;
    }
    let mut all_digits = true;
    let mut all_zero_int = true;
    let mut prefix_zero_int = true;
    let mut j: usize = 0;
    while j < int_hi
        invariant
            j <= int_hi <= len,
            len == tv.len(),
            s@ == tv,
            all_digits == sp_all_digits_range(tv, 0, j as int),
            all_zero_int == sp_all_zero_range(tv, 0, j as int),
            prefix_zero_int == sp_all_zero_range(
                tv,
                0,
                if j as int <= int_hi - 1 {
                    j as int
                } else {
                    int_hi - 1
                },
            ),
        decreases int_hi - j,
    {
        let c = s.get_char(j);
        if !('0' <= c && c <= '9') {
            all_digits = false;
        }
        if c != '0' {
            all_zero_int = false;
            if j + 1 < int_hi {
                prefix_zero_int = false;
            }
        }
        j += 1;
    }
    let mut all_digits_frac = true;
    let mut all_zero_frac = true;
    let mut k: usize = frac_lo;
    while k < len
        invariant
            frac_lo <= k <= len,
            len == tv.len(),
            s@ == tv,
            all_digits_frac == sp_all_digits_range(tv, frac_lo as int, k as int),
            all_zero_frac == sp_all_zero_range(tv, frac_lo as int, k as int),
        decreases len - k,
    {
        let c = s.get_char(k);
        if !('0' <= c && c <= '9') {
            all_digits_frac = false;
        }
        if c != '0' {
            all_zero_frac = false;
        }
        k += 1;
    }
    let last_is_one = int_hi >= 1 && s.get_char(int_hi - 1) == '1';
    all_digits && all_digits_frac && (all_zero_int || (last_is_one && prefix_zero_int
        && all_zero_frac))
}

/// Whether an expression is a numeric literal.
pub open spec fn sp_is_number(e: Expression) -> bool {
    e.kind matches ExpressionKind::Number { token }
}

/// How many of the expressions are numeric literals.
pub open spec fn sp_count_numbers(es: Seq<Expression>) -> nat
    decreases es.len(),
{
    if es.len() == 0 {
        0
    } else {
        (if sp_is_number(es[0]) {
            1nat
        } else {
            0nat
        }) + sp_count_numbers(es.skip(1))
    }
}

/// Whether every argument is a numeric literal between zero and one.
pub open spec fn sp_args_in_unit(es: Seq<Expression>) -> bool {
    forall|k: int|
        0 <= k < es.len() ==> (#[trigger] es[k].kind matches ExpressionKind::Number { token }
            && sp_num_in_unit(token.text@))
}

/// Whether a call node is `UDim2.new(...)` with parenthesized arguments.
pub open spec fn sp_is_udim2_new(c: FunctionCall) -> bool {
    (c.prefix matches Prefix::Name { token } && token.text@ == "UDim2"@) && c.suffixes@.len() == 2
        && (c.suffixes@[0] matches Suffix::Index { index } && index matches Index::Dot { name }
        && name.text@ == "new"@) && (c.suffixes@[1] matches Suffix::Call { call }
        && call matches Call::Anonymous { args } && args matches FunctionArgs::Parentheses {
            arguments,
        })
}

/// The arguments of a `UDim2.new` call.
pub open spec fn sp_udim2_args(c: FunctionCall) -> Seq<Expression> {
    c.suffixes@[1]->Call_call->Anonymous_args->Parentheses_arguments@
}

/// Whether a `UDim2.new` call is suspicious: fewer than four arguments, and
/// not the two-argument call of something other than numbers.
pub open spec fn sp_udim2_suspicious(c: FunctionCall) -> bool {
    sp_is_udim2_new(c) && {
        let args = sp_udim2_args(c);
        !(args.len() == 2 && sp_count_numbers(args) == 0) && args.len() < 4
    }
}

/// The note of one finding: empty past two arguments or for non-numbers,
/// else the constructor that matches how the arguments read.
pub open spec fn sp_udim2_note(args: Seq<Expression>) -> Seq<char> {
    if args.len() > 2 || sp_count_numbers(args) != args.len() {
        ""@
    } else if sp_args_in_unit(args) {
        "did you mean to use UDim2.fromScale instead?"@
    } else {
        "did you mean to use UDim2.fromOffset instead?"@
    }
}

/// The message of one finding.
pub open spec fn sp_udim2_msg(provided: nat) -> Seq<char> {
    "UDim2.new takes 4 numbers, but "@ + spec_decimal(provided) + (if provided == 1 {
        " was"@
    } else {
        " were"@
    }) + " provided."@
}

/// One finding, anchored on the whole call.
pub open spec fn sp_udim2_diag(c: FunctionCall) -> SpecDiagnostic {
    let args = sp_udim2_args(c);
    SpecDiagnostic {
        code: "roblox_suspicious_udim2_new"@,
        message: sp_udim2_msg(args.len()),
        notes: seq![sp_udim2_note(args)],
        primary_label: SpecLabel { message: None, range: c.span },
        secondary_labels: Seq::empty(),
    }
}

/// The findings over a row of calls.
pub open spec fn sp_udim2_diags(cs: Seq<FunctionCall>) -> Seq<SpecDiagnostic>
    decreases cs.len(),
{
    if cs.len() == 0 {
        Seq::empty()
    } else {
        let here: Seq<SpecDiagnostic> = if sp_udim2_suspicious(cs[0]) {
            seq![sp_udim2_diag(cs[0])]
        } else {
            Seq::empty()
        };
        here + sp_udim2_diags(cs.skip(1))
    }
}

/// What this rule reports on a whole tree: nothing at all outside Roblox.
pub open spec fn sp_udim2_pass(ctx: Context, ast: Ast) -> Seq<SpecDiagnostic> {
    if ctx.spec_is_roblox() {
        sp_udim2_diags(gathered_of(ast).calls)
    } else {
        Seq::empty()
    }
}

/// Counts the numeric-literal arguments and tests them against the unit
/// interval in one walk.
fn survey_arguments(arguments: &Vec<Expression>) -> (r: (usize, bool))
    ensures
        r.0 == sp_count_numbers(arguments@),
        r.1 == sp_args_in_unit(arguments@),
{
    let mut numbers: usize = 0;
    let mut in_unit = true;
    let mut i: usize = 0;
    while i < arguments.len()
        invariant
            i <= arguments@.len(),
            numbers <= i,
            numbers == sp_count_numbers(arguments@.take(i as int)),
            in_unit == (forall|k: int|
                0 <= k < i ==> (#[trigger] arguments@[k].kind
                    matches ExpressionKind::Number { token } && sp_num_in_unit(token.text@))),
        decreases arguments@.len() - i,
    {
        match &arguments[i].kind {
            ExpressionKind::Number { token } => {
                numbers += 1;
                if !num_in_unit(&token.text) {
                    in_unit = false;
                }
            },
            _ => {
                in_unit = false;
            },
        }
        proof {
            lemma_count_numbers_snoc(arguments@, i as int);
        }
        i += 1;
    }
    proof {
        assert(arguments@.take(i as int) =~= arguments@);
    }
    (numbers, in_unit)
}

/// Counting numbers in a prefix, extended by the next element.
proof fn lemma_count_numbers_snoc(es: Seq<Expression>, i: int)
    requires
        0 <= i < es.len(),
    ensures
        sp_count_numbers(es.take(i + 1)) == sp_count_numbers(es.take(i)) + (if sp_is_number(
            es[i],
        ) {
            1nat
        } else {
            0nat
        }),
    decreases i,
{
    if i == 0 {
        assert(es.take(1) =~= seq![es[0]]);
        assert(seq![es[0]].skip(1) =~= Seq::<Expression>::empty());
        assert(es.take(0) =~= Seq::<Expression>::empty());
    } else {
        lemma_count_numbers_snoc(es.skip(1), i - 1);
        assert(es.take(i + 1)[0] == es[0]);
        assert(es.take(i + 1).skip(1) =~= es.skip(1).take(i));
        assert(es.take(i)[0] == es[0]);
        assert(es.take(i).skip(1) =~= es.skip(1).take(i - 1));
        assert(es.skip(1)[i - 1] == es[i]);
    }
}

/// The rule that flags suspicious `UDim2.new` calls.
pub struct UDim2ArgCountLint;

impl UDim2ArgCountLint {
    /// This rule takes no configuration and always constructs.
    pub fn new(config: ()) -> (r: Result<UDim2ArgCountLint, RuleError>)
        ensures
            r is Ok,
    {
        Ok(UDim2ArgCountLint)
    }

    /// Flags every suspicious `UDim2.new` call; outside the Roblox standard
    /// library the rule reports nothing.
    pub fn pass(&self, ast: &Ast, context: &Context) -> (r: Vec<Diagnostic>)
        ensures
            r.deep_view() == sp_udim2_pass(*context, *ast),
    {
        if !context.is_roblox() {
            let r: Vec<Diagnostic> = Vec::new();
            assert(r.deep_view() =~= sp_udim2_pass(*context, *ast));
            return r;
        }
        let sinks = gather_ast(ast);
        let ghost cs = gathered_of(*ast).calls;
        let mut out: Vec<Diagnostic> = Vec::new();
        let mut i: usize = 0;
        assert(cs.skip(0) =~= cs);
        while i < sinks.calls.len()
            invariant
                i <= sinks.calls@.len(),
                sinks@ == gathered_of(*ast),
                sp_udim2_diags(cs) == out.deep_view() + sp_udim2_diags(cs.skip(i as int)),
            decreases sinks.calls@.len() - i,
        {
            assert(cs.skip(i as int)[0] == cs[i as int]);
            assert(cs.skip(i as int).skip(1) =~= cs.skip(i + 1));
            assert(cs[i as int] == *sinks.calls@[i as int]);
            let node: &FunctionCall = sinks.calls[i];
            if is_udim2_new(node) {
                let arguments = udim2_arguments(node);
                let args_provided = arguments.len();
                let (numbers_passed, args_in_unit) = survey_arguments(arguments);
                if !(args_provided == 2 && numbers_passed == 0) && args_provided < 4 {
                    let message = "UDim2.new takes 4 numbers, but ".to_owned().concat(
                        decimal_string(args_provided as u64).as_str(),
                    ).concat(
                        if args_provided == 1 {
                            " was"
                        } else {
                            " were"
                        },
                    ).concat(" provided.");
                    let note: &str = if args_provided > 2 || numbers_passed != args_provided {
                        ""
                    } else if args_in_unit {
                        "did you mean to use UDim2.fromScale instead?"
                    } else {
                        "did you mean to use UDim2.fromOffset instead?"
                    };
                    let mut notes: Vec<String> = Vec::new();
                    notes.push(note.to_owned());
                    let d = Diagnostic::new_complete(
                        "roblox_suspicious_udim2_new",
                        message,
                        Label::new(node.span),
                        notes,
                        Vec::new(),
                    );
                    let ghost prev = out.deep_view();
                    proof {
                        assert(d@.notes =~= sp_udim2_diag(cs[i as int]).notes);
                        assert(d@ =~= sp_udim2_diag(cs[i as int]));
                    }
                    out.push(d);
                    proof {
                        assert(out.deep_view() =~= prev.push(d@));
                        assert(prev + (seq![d@] + sp_udim2_diags(cs.skip(i + 1))) =~= out.deep_view()
                            + sp_udim2_diags(cs.skip(i + 1)));
                    }
                }
            }
            i += 1;
        }
        proof {
            assert(cs.skip(i as int) =~= Seq::<FunctionCall>::empty());
            assert(out.deep_view() + Seq::<SpecDiagnostic>::empty() =~= out.deep_view());
        }
        out
    }

    /// Findings of this rule display as warnings.
    pub fn severity(&self) -> (r: Severity)
        ensures
            r == Severity::Warning,
    {
        Severity::Warning
    }

    /// This rule reports correctness problems.
    pub fn rule_type(&self) -> (r: RuleType)
        ensures
            r == RuleType::Correctness,
    {
        RuleType::Correctness
    }
}

/// Whether a call node is `UDim2.new(...)` with parenthesized arguments.
fn is_udim2_new(node: &FunctionCall) -> (r: bool)
    ensures
        r == sp_is_udim2_new(*node),
{
    let prefix_is = match &node.prefix {
        Prefix::Name { token } => {
            let want: String = "UDim2".to_owned();
            token.text == want
        },
        _ => false,
    };
    if !prefix_is || node.suffixes.len() != 2 {
        return false;
    }
    let first = match &node.suffixes[0] {
        Suffix::Index { index } => match index {
            Index::Dot { name } => {
                let want: String = "new".to_owned();
                name.text == want
            },
            _ => false,
        },
        _ => false,
    };
    if !first {
        return false;
    }
    match &node.suffixes[1] {
        Suffix::Call { call } => match call {
            Call::Anonymous { args } => matches!(args, FunctionArgs::Parentheses { .. }),
            _ => false,
        },
        _ => false,
    }
}

/// The arguments of a `UDim2.new` call.
fn udim2_arguments<'a>(node: &'a FunctionCall) -> (r: &'a Vec<Expression>)
    requires
        sp_is_udim2_new(*node),
    ensures
        r@ == sp_udim2_args(*node),
{
    match &node.suffixes[1] {
        Suffix::Call { call } => match call {
            Call::Anonymous { args } => match args {
                FunctionArgs::Parentheses { arguments } => arguments,
                _ => vstd::pervasive::unreached(),
            },
            _ => vstd::pervasive::unreached(),
        },
        _ => vstd::pervasive::unreached(),
    }
}

/// Every finding's range is ordered, provided every call node's span is.
pub proof fn lemma_udim2_label_ranges(cs: Seq<FunctionCall>)
    requires
        forall|i: int| 0 <= i < cs.len() ==> (#[trigger] cs[i]).span.0 <= cs[i].span.1,
    ensures
        forall|j: int|
            0 <= j < sp_udim2_diags(cs).len() ==> (#[trigger] sp_udim2_diags(
                cs,
            )[j]).primary_label.range.0 <= sp_udim2_diags(cs)[j].primary_label.range.1,
    decreases cs.len(),
{
    if cs.len() > 0 {
        assert forall|i: int| 0 <= i < cs.skip(1).len() implies (#[trigger] cs.skip(
            1,
        )[i]).span.0 <= cs.skip(1)[i].span.1 by {
            assert(cs.skip(1)[i] == cs[i + 1]);
        }
        lemma_udim2_label_ranges(cs.skip(1));
    }
}

} // verus!
